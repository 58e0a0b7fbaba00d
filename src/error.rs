//! Failures that a view or a submission reports to its caller.
use vstd::prelude::*;

verus! {

/// What a failure is about: a store key, or a view derived from the store.
#[derive(Clone, Copy, Debug, PartialEq, Eq, Structural)]
pub enum Resource {
    /// The current signatory set snapshot, under `signatories`.
    SignatorySet,
    /// The previous signatory set snapshot, under `prev_signatories`.
    PreviousSignatorySet,
    /// The current snapshot as a whole, under `signatories`.
    SignatorySetSnapshot,
    /// The Bitcoin header trunk of the node's header cache.
    HeaderTrunk,
    /// The Bitcoin tip header of the node's header cache.
    BitcoinTip,
    /// An account balance, under `balances/` followed by the address.
    Balance,
}

/// A recoverable failure of a client operation.
#[derive(Clone, Debug, PartialEq, Eq)]
pub enum ClientError {
    /// The node could not be reached, or its RPC call failed; carries the transport's message.
    Transport(String),
    /// A value the operation needs is absent from the node's state.
    NotFound(Resource),
    /// The bytes stored for a resource do not have the expected shape.
    Decode(Resource),
}

impl Resource {
    /// A short human-readable name of the resource.
    pub fn name(&self) -> (r: &'static str)
        ensures
            match *self {
                Resource::SignatorySet => r@ == "signatory set"@,
                Resource::PreviousSignatorySet => r@ == "previous signatory set"@,
                Resource::SignatorySetSnapshot => r@ == "signatory set snapshot"@,
                Resource::HeaderTrunk => r@ == "header trunk"@,
                Resource::BitcoinTip => r@ == "Bitcoin tip header"@,
                Resource::Balance => r@ == "balance"@,
            },
    {
        match self {
            Resource::SignatorySet => {
                proof { reveal_strlit("signatory set"); }
                "signatory set"
            },
            Resource::PreviousSignatorySet => {
                proof { reveal_strlit("previous signatory set"); }
                "previous signatory set"
            },
            Resource::SignatorySetSnapshot => {
                proof { reveal_strlit("signatory set snapshot"); }
                "signatory set snapshot"
            },
            Resource::HeaderTrunk => {
                proof { reveal_strlit("header trunk"); }
                "header trunk"
            },
            Resource::BitcoinTip => {
                proof { reveal_strlit("Bitcoin tip header"); }
                "Bitcoin tip header"
            },
            Resource::Balance => {
                proof { reveal_strlit("balance"); }
                "balance"
            },
        }
    }
}

} // verus!
