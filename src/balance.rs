//! Account balances: an unsigned 64-bit integer kept as exactly eight big-endian bytes.
use crate::bytes::{be_bytes, be_value, lemma_be_bytes_value, read_u64_be};
use crate::error::{ClientError, Resource};
use crate::keys::found;
use vstd::prelude::*;

verus! {

/// The balance that a lookup of an account's key yields: an absent key is an account
/// that was never funded, and holds zero; a present value must be exactly eight bytes.
pub open spec fn balance_of(value: Option<Seq<u8>>) -> Result<u64, ClientError> {
    match value {
        None => Ok(0),
        Some(b) => if b.len() == 8 {
            Ok(be_value(b) as u64)
        } else {
            Err(ClientError::Decode(Resource::Balance))
        },
    }
}

/// Turns what the store holds under an account's balance key into its balance.
pub fn balance_from_lookup(value: Option<Vec<u8>>) -> (r: Result<u64, ClientError>)
    ensures
        r == balance_of(found(value)),
        value is None ==> r == Ok::<u64, ClientError>(0),
{
    match value {
        None => Ok(0),
        Some(b) => {
            if b.len() == 8 {
                let v = read_u64_be(b.as_slice(), 0);
                proof {
                    assert(b@.subrange(0, 8) =~= b@);
                }
                Ok(v)
            } else {
                Err(ClientError::Decode(Resource::Balance))
            }
        },
    }
}

/// A balance stored as the eight big-endian bytes of `v` reads back as `v`.
pub proof fn lemma_balance_round_trip(v: u64)
    ensures
        balance_of(Some(be_bytes(v))) == Ok::<u64, ClientError>(v),
{
    lemma_be_bytes_value(v);
}

/// A stored balance whose length is not eight is a decode failure, never a value.
pub proof fn lemma_balance_wrong_length(b: Seq<u8>)
    requires
        b.len() != 8,
    ensures
        balance_of(Some(b)) == Err::<u64, ClientError>(ClientError::Decode(Resource::Balance)),
{
}

} // verus!
