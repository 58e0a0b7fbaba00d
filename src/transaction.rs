//! Transactions that the client submits to the node.
use crate::bytes::copy_range;
use vstd::prelude::*;

verus! {

/// Redeems a proof-of-work nonce, granting voting power to a validator public key.
#[derive(Clone, Debug, PartialEq, Eq)]
pub struct WorkProofTransaction {
    pub public_key: Vec<u8>,
    pub nonce: u64,
}

/// An application-level intent submitted to the node.
#[derive(Clone, Debug, PartialEq, Eq)]
pub enum Transaction {
    WorkProof(WorkProofTransaction),
}

/// The one transaction that redeems `nonce` for `public_key`.
pub fn work_proof_transaction(public_key: &[u8], nonce: u64) -> (r: Transaction)
    ensures
        match r {
            Transaction::WorkProof(w) => w.public_key@ == public_key@ && w.nonce == nonce,
        },
{
    let key = copy_range(public_key, 0, public_key.len());
    proof {
        assert(public_key@.subrange(0, public_key@.len() as int) =~= public_key@);
    }
    Transaction::WorkProof(WorkProofTransaction { public_key: key, nonce })
}

} // verus!
