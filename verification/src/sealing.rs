//! Sealing text between two keys, so that only those who have the secret of one can read it.

use crate::encoding::{
    base_point_mul, digit_of, hex_text, is_scalar, is_x_only_key, public_point, text_view, x_of,
    x_only,
};
use vstd::prelude::*;
use vstd::utf8::{encode_utf8, is_ascii_chars, is_ascii_chars_encode_utf8};

verus! {

/// What a payload opens to between two keys: the secret of one and the x coordinate of the other.
pub uninterp spec fn nip44_text(secret: Seq<u8>, public_key: Seq<u8>, payload: Seq<char>) -> Option<
    Seq<char>,
>;

/// The x coordinate is that of the secret key's public point.
pub open spec fn is_key_pair(secret: Seq<u8>, public_key: Seq<u8>) -> bool {
    public_point(secret) matches Some(point) && x_of(point) == public_key
}

/// The most bytes of text that are sealed at once.
pub const MOST_SEALED: usize = 65408;

/// Text can be sealed between the keys: both are keys, and the text is neither empty nor too long.
pub open spec fn can_be_sealed(secret: Seq<u8>, public_key: Seq<u8>, text: Seq<char>) -> bool {
    &&& is_scalar(secret)
    &&& is_x_only_key(public_key)
    &&& 0 < encode_utf8(text).len() <= MOST_SEALED
}

/// Seal text between two keys, from `nostr_sdk::nips::nip44::encrypt` in its second version. It is
/// sealed wherever both keys are keys and the text has between 1 and 65,408 bytes. Each payload has
/// a nonce of its own, so only this is claimed of it: `decrypt` opens it to the text, with these
/// keys, and with the other secret and the other public key.
#[verifier::external_body]
pub(crate) fn nip44_seal(secret: &Vec<u8>, public_key: &Vec<u8>, text: &str) -> (payload: Option<
    String,
>)
    ensures
        payload is Some == can_be_sealed(secret@, public_key@, text@),
        payload matches Some(payload) ==> nip44_text(secret@, public_key@, payload@) == Some(text@),
        payload matches Some(payload) ==> forall|reader: Seq<u8>, sealer: Seq<u8>|
            is_key_pair(reader, public_key@) && is_key_pair(secret@, sealer) ==> #[trigger]
            nip44_text(reader, sealer, payload@) == Some(text@),
{
    let secret = nostr_sdk::SecretKey::from_slice(secret).ok()?;
    let public_key = nostr_sdk::PublicKey::from_slice(public_key).ok()?;
    let version = nostr_sdk::nips::nip44::Version::V2;
    nostr_sdk::nips::nip44::encrypt(&secret, &public_key, text, version).ok()
}

/// Open a payload between two keys, from `nostr_sdk::nips::nip44::decrypt`. The result is named;
/// there is none where a key is no key, or where the payload was not sealed between them.
#[verifier::external_body]
fn nip44_open(secret: &Vec<u8>, public_key: &Vec<u8>, payload: &str) -> (text: Option<String>)
    ensures
        text_view(text) == nip44_text(secret@, public_key@, payload@),
{
    let secret = nostr_sdk::SecretKey::from_slice(secret).ok()?;
    let public_key = nostr_sdk::PublicKey::from_slice(public_key).ok()?;
    nostr_sdk::nips::nip44::decrypt(&secret, &public_key, payload).ok()
}

/// What a payload that was sealed to a key opens to with it.
pub open spec fn opened_with(private_key: Seq<u8>, payload: Seq<char>) -> Option<Seq<char>> {
    match public_point(private_key) {
        Some(point) => nip44_text(private_key, x_of(point), payload),
        None => None,
    }
}

/// Seal a session's secrets to the coordinator's own key, before they are stored. With a key they
/// are sealed unless there are none or too many, and the same key opens them again.
pub fn seal_session(private_key: &Vec<u8>, secrets: &str) -> (sealed: Option<String>)
    ensures
        sealed is Some == (is_scalar(private_key@) && 0 < encode_utf8(secrets@).len()
            <= MOST_SEALED),
        sealed matches Some(sealed) ==> opened_with(private_key@, sealed@) == Some(secrets@),
{
    let point = base_point_mul(private_key)?;
    nip44_seal(private_key, &x_only(&point), secrets)
}

/// Open a session's secrets with the coordinator's own key.
pub fn open_session(private_key: &Vec<u8>, sealed: &str) -> (secrets: Option<String>)
    ensures
        text_view(secrets) == opened_with(private_key@, sealed@),
{
    let point = base_point_mul(private_key)?;
    nip44_open(private_key, &x_only(&point), sealed)
}

/// Hexadecimal takes a byte for each digit.
pub(crate) proof fn hex_takes_a_byte_each(bytes: Seq<u8>)
    ensures
        encode_utf8(hex_text(bytes)).len() == 2 * bytes.len(),
{
    let text = hex_text(bytes);
    assert forall|i: int| 0 <= i < text.len() implies '\0' <= #[trigger] text[i] <= '\u{7f}' by {
        let value = if i % 2 == 0 {
            bytes[i / 2] as int / 16
        } else {
            bytes[i / 2] as int % 16
        };
        assert(text[i] == digit_of(value));
    }
    assert(is_ascii_chars(text));
    is_ascii_chars_encode_utf8(text);
}

} // verus!
