//! Hexadecimal, base64, hashes and curve points, as the contract's crates read and write them.

use base64::Engine;
use vstd::prelude::*;

verus! {

/// The value of a hexadecimal digit in either case.
pub open spec fn nibble(digit: char) -> Option<int> {
    if '0' <= digit <= '9' {
        Some(digit as int - '0' as int)
    } else if 'a' <= digit <= 'f' {
        Some(digit as int - 'a' as int + 10)
    } else if 'A' <= digit <= 'F' {
        Some(digit as int - 'A' as int + 10)
    } else {
        None
    }
}

/// The hexadecimal digit of a value below sixteen, in lower case.
pub open spec fn digit_of(value: int) -> char {
    if value < 10 {
        ('0' as int + value) as char
    } else {
        ('a' as int + value - 10) as char
    }
}

/// Text that is made of pairs of hexadecimal digits.
pub open spec fn is_hex(text: Seq<char>) -> bool {
    &&& text.len() % 2 == 0
    &&& forall|i: int| 0 <= i < text.len() ==> nibble(#[trigger] text[i]) is Some
}

/// The bytes that hexadecimal text stands for.
pub open spec fn hex_bytes(text: Seq<char>) -> Seq<u8> {
    Seq::new(
        (text.len() / 2) as nat,
        |i: int| (nibble(text[2 * i])->0 * 16 + nibble(text[2 * i + 1])->0) as u8,
    )
}

/// The hexadecimal text of `bytes`, in lower case.
pub open spec fn hex_text(bytes: Seq<u8>) -> Seq<char> {
    Seq::new(
        bytes.len() * 2,
        |i: int|
            if i % 2 == 0 {
                digit_of(bytes[i / 2] as int / 16)
            } else {
                digit_of(bytes[i / 2] as int % 16)
            },
    )
}

/// The hexadecimal text of `bytes`, from `hex::encode`: two digits in lower case for each byte, the
/// higher first.
#[verifier::external_body]
pub(crate) fn hex_encode(bytes: &Vec<u8>) -> (text: String)
    ensures
        text@ == hex_text(bytes@),
{
    hex::encode(bytes)
}

/// The bytes of hexadecimal text, from `hex::decode`: there are any only where the text is made of
/// pairs of digits, in either case.
#[verifier::external_body]
pub(crate) fn hex_decode(text: &str) -> (bytes: Option<Vec<u8>>)
    ensures
        match bytes {
            Some(bytes) => is_hex(text@) && bytes@ == hex_bytes(text@),
            None => !is_hex(text@),
        },
{
    hex::decode(text).ok()
}

/// What standard base64 with padding decodes to.
pub uninterp spec fn base64_bytes(text: Seq<char>) -> Option<Seq<u8>>;

/// What URL-safe base64 with padding decodes to.
pub uninterp spec fn base64_url_bytes(text: Seq<char>) -> Option<Seq<u8>>;

/// The view of bytes, where there are any.
pub open spec fn bytes_view(bytes: Option<Vec<u8>>) -> Option<Seq<u8>> {
    match bytes {
        Some(bytes) => Some(bytes@),
        None => None,
    }
}

/// The same bytes once more.
pub(crate) fn copy_bytes(bytes: &Vec<u8>) -> (copy: Vec<u8>)
    ensures
        copy@ == bytes@,
{
    let copy = bytes.clone();
    assert(copy@ =~= bytes@);
    copy
}

/// The bytes of base64 text, from `decode` of `base64`'s `STANDARD` engine. Only the result is
/// named: what it is on given text is left to that engine.
#[verifier::external_body]
pub(crate) fn base64_decode(text: &str) -> (bytes: Option<Vec<u8>>)
    ensures
        bytes_view(bytes) == base64_bytes(text@),
{
    base64::engine::general_purpose::STANDARD.decode(text).ok()
}

/// The bytes of base64 text, from `decode` of `base64`'s `URL_SAFE` engine. Only the result is
/// named: what it is on given text is left to that engine.
#[verifier::external_body]
pub(crate) fn base64_url_decode(text: &str) -> (bytes: Option<Vec<u8>>)
    ensures
        bytes_view(bytes) == base64_url_bytes(text@),
{
    base64::engine::general_purpose::URL_SAFE.decode(text).ok()
}

/// The SHA-256 digest of `bytes`.
pub uninterp spec fn sha256_digest(bytes: Seq<u8>) -> Seq<u8>;

/// The SHA-256 digest of `bytes`, from `dlctix::hashlock::sha256`. The digest is named, and has 32
/// bytes.
#[verifier::external_body]
pub(crate) fn sha256(bytes: &Vec<u8>) -> (digest: Vec<u8>)
    ensures
        digest@ == sha256_digest(bytes@),
        digest@.len() == 32,
{
    dlctix::hashlock::sha256(bytes).to_vec()
}

/// The compressed curve point that hexadecimal text stands for, whether it is written compressed
/// or not.
pub uninterp spec fn point_of_hex(text: Seq<char>) -> Option<Seq<u8>>;

/// The compressed encoding of a curve point, from `from_hex` and `serialize` of
/// `dlctix::secp::Point`. The result is named; an encoding has 33 bytes, and in hexadecimal it stands
/// for the same point again.
#[verifier::external_body]
pub(crate) fn point_from_hex(text: &str) -> (point: Option<Vec<u8>>)
    ensures
        bytes_view(point) == point_of_hex(text@),
        point matches Some(encoded) ==> encoded@.len() == 33,
        point matches Some(encoded) ==> point_of_hex(hex_text(encoded@)) == Some(encoded@),
{
    dlctix::secp::Point::from_hex(text).ok().map(|point| point.serialize().to_vec())
}

/// The number that bytes stand for, the highest byte first.
pub open spec fn big_endian(bytes: Seq<u8>) -> nat
    decreases bytes.len(),
{
    if bytes.len() == 0 {
        0
    } else {
        big_endian(bytes.drop_last()) * 256 + bytes.last() as nat
    }
}

/// The order of the curve's base point.
pub open spec fn curve_order() -> nat {
    0xfffffffffffffffffffffffffffffffebaaedce6af48a03bbfd25e8cd0364141nat
}

/// The bytes are those of a scalar that is not zero.
pub open spec fn is_scalar(bytes: Seq<u8>) -> bool {
    bytes.len() == 32 && 0 < big_endian(bytes) < curve_order()
}

/// The scalar that hexadecimal text stands for, as 32 bytes.
pub open spec fn scalar_of_hex(text: Seq<char>) -> Option<Seq<u8>> {
    if is_hex(text) && is_scalar(hex_bytes(text)) {
        Some(hex_bytes(text))
    } else {
        None
    }
}

/// The bytes of a curve scalar, from `from_hex` and `serialize` of `dlctix::secp::Scalar`: 32 bytes
/// in hexadecimal, in either case, that are neither zero nor past the curve's order.
#[verifier::external_body]
pub(crate) fn scalar_from_hex(text: &str) -> (scalar: Option<Vec<u8>>)
    ensures
        bytes_view(scalar) == scalar_of_hex(text@),
{
    dlctix::secp::Scalar::from_hex(text).ok().map(|scalar| scalar.serialize().to_vec())
}

/// The x coordinate of a compressed point: what follows the byte that tells its y coordinate apart.
pub open spec fn x_of(point: Seq<u8>) -> Seq<u8> {
    point.skip(1)
}

/// The x coordinate of a compressed point.
pub(crate) fn x_only(point: &Vec<u8>) -> (x: Vec<u8>)
    requires
        point@.len() == 33,
    ensures
        x@ == x_of(point@),
{
    let mut x: Vec<u8> = Vec::new();
    let mut i: usize = 1;
    while i < point.len()
        invariant
            1 <= i <= point@.len(),
            x@ == point@.subrange(1, i as int),
        decreases point@.len() - i,
    {
        x.push(point[i]);
        i = i + 1;
        assert(x@ =~= point@.subrange(1, i as int));
    }
    assert(x@ =~= x_of(point@));
    x
}

/// The number of elements of the field that the curve is drawn over.
pub open spec fn field_order() -> nat {
    0xfffffffffffffffffffffffffffffffffffffffffffffffffffffffefffffc2fnat
}

/// The curve has a point with these coordinates.
pub open spec fn is_point(x: nat, y: nat) -> bool {
    &&& x < field_order()
    &&& y < field_order()
    &&& (y * y) % field_order() == (x * x * x + 7) % field_order()
}

/// The bytes are the x coordinate of a point of the curve.
pub open spec fn is_x_only_key(bytes: Seq<u8>) -> bool {
    bytes.len() == 32 && exists|y: nat| #[trigger] is_point(big_endian(bytes), y)
}

/// The compressed point of a scalar: its product with the curve's base point.
pub uninterp spec fn public_point(scalar: Seq<u8>) -> Option<Seq<u8>>;

/// The compressed public point of a scalar, from `base_point_mul` of `dlctix::secp::Scalar`. The
/// result is named; there is one for every scalar, of 33 bytes that end with its x coordinate, and
/// none for other bytes.
#[verifier::external_body]
pub(crate) fn base_point_mul(scalar: &Vec<u8>) -> (point: Option<Vec<u8>>)
    ensures
        bytes_view(point) == public_point(scalar@),
        point is Some == is_scalar(scalar@),
        point matches Some(encoded) ==> encoded@.len() == 33 && is_x_only_key(x_of(encoded@)),
{
    let scalar = dlctix::secp::Scalar::from_slice(scalar).ok()?;
    Some(scalar.base_point_mul().serialize().to_vec())
}

/// The characters that Unicode counts as white space.
pub open spec fn is_white_space(c: char) -> bool {
    let code = c as int;
    ||| 0x9 <= code <= 0xd
    ||| code == 0x20
    ||| code == 0x85
    ||| code == 0xa0
    ||| code == 0x1680
    ||| 0x2000 <= code <= 0x200a
    ||| code == 0x2028
    ||| code == 0x2029
    ||| code == 0x202f
    ||| code == 0x205f
    ||| code == 0x3000
}

/// Text without the white space at its ends.
pub open spec fn trimmed(text: Seq<char>) -> Seq<char>
    decreases text.len(),
{
    if text.len() > 0 && is_white_space(text.first()) {
        trimmed(text.drop_first())
    } else if text.len() > 0 && is_white_space(text.last()) {
        trimmed(text.drop_last())
    } else {
        text
    }
}

/// Text without the white space at its ends, from `str::trim`, which goes by Unicode's `White_Space`
/// property.
#[verifier::external_body]
pub(crate) fn trim(text: &str) -> (inner: &str)
    ensures
        inner@ == trimmed(text@),
{
    text.trim()
}

/// Text without a leading `0x`.
pub open spec fn without_0x(text: Seq<char>) -> Seq<char> {
    if text.len() >= 2 && text[0] == '0' && text[1] == 'x' {
        text.skip(2)
    } else {
        text
    }
}

/// Text without a leading `0x`.
pub(crate) fn strip_0x(text: &str) -> (rest: &str)
    ensures
        rest@ == without_0x(text@),
{
    let length: usize = text.unicode_len();
    if length >= 2 && text.get_char(0) == '0' && text.get_char(1) == 'x' {
        let rest = text.substring_char(2, length);
        assert(rest@ =~= text@.skip(2));
        rest
    } else {
        text
    }
}

/// The 32 bytes that hexadecimal text stands for, with or without a leading `0x`.
pub open spec fn hash32(text: Seq<char>) -> Option<Seq<u8>> {
    let digits = without_0x(text);
    if is_hex(digits) && digits.len() == 64 {
        Some(hex_bytes(digits))
    } else {
        None
    }
}

/// A hash of 32 bytes, from hexadecimal text with or without a leading `0x`.
pub fn parse_hash32(text: &str) -> (hash: Option<Vec<u8>>)
    ensures
        bytes_view(hash) == hash32(text@),
{
    let bytes = hex_decode(strip_0x(text))?;
    if bytes.len() == 32 {
        Some(bytes)
    } else {
        None
    }
}

/// What 32 bytes given as hexadecimal or base64 text are in hexadecimal, in lower case.
/// `value` is the text without white space at its ends.
pub open spec fn normal_hex32(value: Seq<char>) -> Option<Seq<char>> {
    if is_hex(value) && value.len() == 64 {
        Some(hex_text(hex_bytes(value)))
    } else {
        let bytes = match base64_bytes(value) {
            Some(bytes) => Some(bytes),
            None => base64_url_bytes(value),
        };
        match bytes {
            Some(bytes) => if bytes.len() == 32 {
                Some(hex_text(bytes))
            } else {
                None
            },
            None => None,
        }
    }
}

/// The view of text, where there is any.
pub open spec fn text_view(text: Option<String>) -> Option<Seq<char>> {
    match text {
        Some(text) => Some(text@),
        None => None,
    }
}

/// 32 bytes given as hexadecimal or base64 text, in lower-case hexadecimal. White space at the ends
/// does not count.
pub fn normalize_hex32(text: &str) -> (normal: Option<String>)
    ensures
        text_view(normal) == normal_hex32(trimmed(text@)),
{
    let value = trim(text);
    if let Some(bytes) = hex_decode(value) {
        if bytes.len() == 32 {
            return Some(hex_encode(&bytes));
        }
    }
    let decoded = match base64_decode(value) {
        Some(bytes) => Some(bytes),
        None => base64_url_decode(value),
    };
    let bytes = decoded?;
    if bytes.len() == 32 {
        Some(hex_encode(&bytes))
    } else {
        None
    }
}

/// The same text in hexadecimal stands for the same bytes, whatever the case of its digits: what
/// bytes encode to decodes to them again.
pub proof fn hex_round_trips(bytes: Seq<u8>)
    ensures
        is_hex(hex_text(bytes)),
        hex_bytes(hex_text(bytes)) == bytes,
{
    let text = hex_text(bytes);
    assert forall|i: int| 0 <= i < text.len() implies nibble(#[trigger] text[i]) == Some(
        if i % 2 == 0 {
            bytes[i / 2] as int / 16
        } else {
            bytes[i / 2] as int % 16
        },
    ) by {
        digit_reads_back(bytes[i / 2] as int / 16);
        digit_reads_back(bytes[i / 2] as int % 16);
    }
    assert forall|i: int| 0 <= i < bytes.len() implies #[trigger] hex_bytes(text)[i]
        == bytes[i] by {
        assert(nibble(text[2 * i]) == Some(bytes[i] as int / 16));
        assert(nibble(text[2 * i + 1]) == Some(bytes[i] as int % 16));
    }
    assert(hex_bytes(text) =~= bytes);
}

/// A digit stands for the value that it was made of.
proof fn digit_reads_back(value: int)
    requires
        0 <= value < 16,
    ensures
        nibble(digit_of(value)) == Some(value),
{
}

} // verus!
