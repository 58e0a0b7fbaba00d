//! The Bitcoin header trunk and tip, as the node's header cache reports them.
//!
//! Which headers form the trunk is decided by the header cache. This module decides
//! what a caller receives for each thing the cache can report.
use crate::error::{ClientError, Resource};
use bitcoin::hash_types::BlockHash;
use bitcoin::BlockHeader;
use vstd::prelude::*;

verus! {

/// Declares bitcoin's `hash_types::BlockHash` so that its values can be carried
/// through; nothing is assumed about what they hold.
#[verifier::external_type_specification]
#[verifier::external_body]
pub struct ExBlockHash(BlockHash);

/// Declares bitcoin's `BlockHeader` so that its values can be carried through; nothing
/// is assumed about what they hold.
#[verifier::external_type_specification]
#[verifier::external_body]
pub struct ExBlockHeader(BlockHeader);

/// The header trunk as the caller receives it: absent or empty is the absence of chain
/// knowledge, a failure; otherwise the hashes exactly as reported, earliest first.
pub open spec fn trunk_of(trunk: Option<Vec<BlockHash>>) -> Result<Vec<BlockHash>, ClientError> {
    match trunk {
        Some(t) => if t@.len() > 0 {
            Ok(t)
        } else {
            Err(ClientError::NotFound(Resource::HeaderTrunk))
        },
        None => Err(ClientError::NotFound(Resource::HeaderTrunk)),
    }
}

/// Turns the trunk reported by the header cache into the caller's result.
pub fn trunk_from_cache(trunk: Option<Vec<BlockHash>>) -> (r: Result<Vec<BlockHash>, ClientError>)
    ensures
        r == trunk_of(trunk),
        r is Ok ==> r->Ok_0@ == trunk->0@,
{
    match trunk {
        Some(t) => {
            if t.len() > 0 {
                Ok(t)
            } else {
                Err(ClientError::NotFound(Resource::HeaderTrunk))
            }
        },
        None => Err(ClientError::NotFound(Resource::HeaderTrunk)),
    }
}

/// Turns the tip reported by the header cache into the caller's result. A node that has
/// not synchronised any Bitcoin header has no tip; that is an ordinary, recoverable state.
pub fn tip_from_cache(tip: Option<BlockHeader>) -> (r: Result<BlockHeader, ClientError>)
    ensures
        match tip {
            Some(h) => r == Ok::<BlockHeader, ClientError>(h),
            None => r == Err::<BlockHeader, ClientError>(ClientError::NotFound(Resource::BitcoinTip)),
        },
{
    match tip {
        Some(h) => Ok(h),
        None => Err(ClientError::NotFound(Resource::BitcoinTip)),
    }
}

} // verus!
