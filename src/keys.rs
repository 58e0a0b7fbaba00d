//! The node's store key namespace. These keys are a stable contract with the node.
use vstd::prelude::*;

verus! {

/// What a store lookup found, as a sequence of bytes.
pub open spec fn found(value: Option<Vec<u8>>) -> Option<Seq<u8>> {
    match value {
        Some(v) => Some(v@),
        None => None,
    }
}

/// `signatories`: where the current signatory set snapshot is kept.
pub open spec fn signatories_key_spec() -> Seq<u8> {
    seq![115, 105, 103, 110, 97, 116, 111, 114, 105, 101, 115]
}

/// `prev_signatories`: where the previous signatory set snapshot is kept.
pub open spec fn prev_signatories_key_spec() -> Seq<u8> {
    seq![112, 114, 101, 118, 95] + signatories_key_spec()
}

/// `balances/`: the namespace of account balances.
pub open spec fn balance_prefix() -> Seq<u8> {
    seq![98, 97, 108, 97, 110, 99, 101, 115, 47]
}

/// The key of the current signatory set snapshot.
pub fn signatories_key() -> (r: Vec<u8>)
    ensures
        r@ == signatories_key_spec(),
{
    let r: Vec<u8> = vec![115, 105, 103, 110, 97, 116, 111, 114, 105, 101, 115];
    proof {
        assert(r@ =~= signatories_key_spec());
    }
    r
}

/// The key of the previous signatory set snapshot.
pub fn prev_signatories_key() -> (r: Vec<u8>)
    ensures
        r@ == prev_signatories_key_spec(),
{
    let r: Vec<u8> = vec![
        112, 114, 101, 118, 95, 115, 105, 103, 110, 97, 116, 111, 114, 105, 101, 115,
    ];
    proof {
        assert(r@ =~= prev_signatories_key_spec());
    }
    r
}

/// The key of the balance of `address`: `balances/` followed by the raw address bytes.
pub fn balance_key(address: &[u8]) -> (r: Vec<u8>)
    requires
        address@.len() + 9 <= usize::MAX,
    ensures
        r@ == balance_prefix() + address@,
{
    let mut r: Vec<u8> = vec![98, 97, 108, 97, 110, 99, 101, 115, 47];
    let mut i: usize = 0;
    while i < address.len()
        invariant
            i <= address@.len(),
            r@ == balance_prefix() + address@.take(i as int),
        decreases address@.len() - i,
    {
        r.push(address[i]);
        proof {
            assert(address@.take(i + 1) =~= address@.take(i as int).push(address@[i as int]));
            assert(r@ =~= balance_prefix() + address@.take(i + 1));
        }
        i = i + 1;
    }
    proof {
        assert(address@.take(address@.len() as int) =~= address@);
    }
    r
}

} // verus!
