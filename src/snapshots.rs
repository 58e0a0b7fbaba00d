//! Signatory set snapshots and sets, from what lookups of the store keys `signatories`
//! and `prev_signatories` return.
//!
//! The stored bytes are read in the byte layout that this library defines for snapshots
//! (see the `signatory` module); nothing here checks that a node stores that layout.
use crate::keys::found;
use crate::error::{ClientError, Resource};
use crate::signatory::{decode_snapshot, SignatoryModel, SignatorySet, SignatorySetSnapshot, SnapshotModel};
use vstd::prelude::*;

verus! {

/// The snapshot that a lookup yields: an absent key is `NotFound`, bytes that do not
/// decode are `Decode`, both about `res`.
pub open spec fn snapshot_of(value: Option<Seq<u8>>, res: Resource) -> Result<SnapshotModel, ClientError> {
    match value {
        None => Err(ClientError::NotFound(res)),
        Some(b) => match decode_snapshot(b) {
            Some(m) => Ok(m),
            None => Err(ClientError::Decode(res)),
        },
    }
}

/// The current and previous signatory sets that two lookups yield; the current one is
/// looked at first.
pub open spec fn signatory_sets_of(current: Option<Seq<u8>>, previous: Option<Seq<u8>>) -> Result<
    (Seq<SignatoryModel>, Seq<SignatoryModel>),
    ClientError,
> {
    match snapshot_of(current, Resource::SignatorySet) {
        Err(e) => Err(e),
        Ok(c) => match snapshot_of(previous, Resource::PreviousSignatorySet) {
            Err(e) => Err(e),
            Ok(p) => Ok((c.0, p.0)),
        },
    }
}

fn snapshot_for(value: Option<Vec<u8>>, res: Resource) -> (r: Result<SignatorySetSnapshot, ClientError>)
    ensures
        match r {
            Ok(s) => snapshot_of(found(value), res) == Ok::<SnapshotModel, ClientError>(s@)
                && s.wf(),
            Err(e) => snapshot_of(found(value), res) == Err::<SnapshotModel, ClientError>(e),
        },
{
    match value {
        None => Err(ClientError::NotFound(res)),
        Some(b) => match SignatorySetSnapshot::decode(b.as_slice()) {
            Some(s) => Ok(s),
            None => Err(ClientError::Decode(res)),
        },
    }
}

/// Turns what the store holds under `signatories` into the current snapshot.
pub fn snapshot_from_lookup(value: Option<Vec<u8>>) -> (r: Result<SignatorySetSnapshot, ClientError>)
    ensures
        match r {
            Ok(s) => snapshot_of(found(value), Resource::SignatorySetSnapshot) == Ok::<
                SnapshotModel,
                ClientError,
            >(s@) && s.wf(),
            Err(e) => snapshot_of(found(value), Resource::SignatorySetSnapshot) == Err::<
                SnapshotModel,
                ClientError,
            >(e),
        },
        value is None ==> r == Err::<SignatorySetSnapshot, ClientError>(
            ClientError::NotFound(Resource::SignatorySetSnapshot),
        ),
{
    snapshot_for(value, Resource::SignatorySetSnapshot)
}

/// Turns what the store holds under one snapshot key into that snapshot's signatory set;
/// failures are about `res`.
pub fn signatory_set_from_lookup(value: Option<Vec<u8>>, res: Resource) -> (r: Result<
    SignatorySet,
    ClientError,
>)
    ensures
        match r {
            Ok(set) => snapshot_of(found(value), res) is Ok && set@ == snapshot_of(
                found(value),
                res,
            )->Ok_0.0,
            Err(e) => snapshot_of(found(value), res) == Err::<SnapshotModel, ClientError>(e),
        },
{
    match snapshot_for(value, res) {
        Ok(s) => Ok(s.signatories),
        Err(e) => Err(e),
    }
}

/// Turns what the store holds under `signatories` and `prev_signatories` into the
/// current and the previous signatory set, in that order.
pub fn signatory_sets_from_lookups(current: Option<Vec<u8>>, previous: Option<Vec<u8>>) -> (r:
    Result<Vec<SignatorySet>, ClientError>)
    ensures
        match r {
            Ok(v) => v@.len() == 2 && signatory_sets_of(found(current), found(previous)) == Ok::<
                (Seq<SignatoryModel>, Seq<SignatoryModel>),
                ClientError,
            >((v@[0]@, v@[1]@)),
            Err(e) => signatory_sets_of(found(current), found(previous)) == Err::<
                (Seq<SignatoryModel>, Seq<SignatoryModel>),
                ClientError,
            >(e),
        },
{
    let cur = match signatory_set_from_lookup(current, Resource::SignatorySet) {
        Ok(s) => s,
        Err(e) => return Err(e),
    };
    let prev = match signatory_set_from_lookup(previous, Resource::PreviousSignatorySet) {
        Ok(s) => s,
        Err(e) => return Err(e),
    };
    let mut v: Vec<SignatorySet> = Vec::new();
    v.push(cur);
    v.push(prev);
    Ok(v)
}

} // verus!
