//! Which coordinator a database belongs to.

use crate::encoding::{
    base_point_mul, bytes_view, hex_encode, hex_text, is_scalar, public_point, x_of, x_only,
};
use crate::payouts::same_bytes;
use vstd::prelude::*;

verus! {

/// The compressed public point of the coordinator's secret key. There is one only for a scalar that
/// is not zero.
pub fn public_key_of(key: &Vec<u8>) -> (point: Option<Vec<u8>>)
    ensures
        bytes_view(point) == public_point(key@),
        point is Some == is_scalar(key@),
        point matches Some(encoded) ==> encoded@.len() == 33,
{
    base_point_mul(key)
}

/// The coordinator's public key as it is shown: the x coordinate of its point, in hexadecimal.
pub fn public_key(point: &Vec<u8>) -> (text: String)
    requires
        point@.len() == 33,
    ensures
        text@ == hex_text(x_of(point@)),
{
    hex_encode(&x_only(point))
}

/// How a database stands to the coordinator that opens it.
#[derive(Clone, Copy, PartialEq, Eq, Structural, Debug)]
pub enum Ownership {
    /// Nobody's yet: the coordinator's key is to be stored.
    Unclaimed,
    /// The coordinator's own.
    Own,
    /// Another coordinator's, which must not be used.
    Foreign,
}

/// Whether a database is the coordinator's, by the x coordinate that is stored in it.
pub fn validate_coordinator_metadata(stored: &Option<Vec<u8>>, point: &Vec<u8>) -> (ownership:
    Ownership)
    requires
        point@.len() == 33,
    ensures
        ownership == match *stored {
            None => Ownership::Unclaimed,
            Some(key) => if key@ == x_of(point@) {
                Ownership::Own
            } else {
                Ownership::Foreign
            },
        },
{
    match stored {
        None => Ownership::Unclaimed,
        Some(key) => if same_bytes(key, &x_only(point)) {
            Ownership::Own
        } else {
            Ownership::Foreign
        },
    }
}

} // verus!
