use nomic_client::error::{ClientError, Resource};
use nomic_client::keys::{prev_signatories_key, signatories_key};
use nomic_client::signatory::{Signatory, SignatorySet, SignatorySetSnapshot};
use nomic_client::snapshots::{
    signatory_set_from_lookup, signatory_sets_from_lookups, snapshot_from_lookup,
};

fn signatory(voting_power: u64, fill: u8) -> Signatory {
    Signatory {
        voting_power,
        pubkey: vec![fill; 33],
    }
}

fn snapshot(time: u64, powers: &[u64]) -> SignatorySetSnapshot {
    SignatorySetSnapshot {
        signatories: SignatorySet {
            signatories: powers
                .iter()
                .enumerate()
                .map(|(i, p)| signatory(*p, i as u8 + 2))
                .collect(),
        },
        time,
    }
}

#[test]
fn snapshot_keys() {
    assert_eq!(signatories_key(), b"signatories".to_vec());
    assert_eq!(prev_signatories_key(), b"prev_signatories".to_vec());
}

#[test]
fn snapshot_encoding_layout() {
    let s = snapshot(0x0102, &[7]);
    let mut want = vec![0, 0, 0, 0, 0, 0, 1, 2, 0, 0, 0, 0, 0, 0, 0, 7];
    want.extend_from_slice(&[2; 33]);
    assert_eq!(s.encode(), want);
}

#[test]
fn snapshot_round_trip() {
    for s in [
        snapshot(0, &[]),
        snapshot(42, &[10]),
        snapshot(u64::MAX, &[1, 2, 3, u64::MAX]),
    ] {
        assert_eq!(SignatorySetSnapshot::decode(&s.encode()), Some(s.clone()));
    }
}

#[test]
fn snapshot_decode_is_deterministic() {
    let bytes = snapshot(9, &[4, 5]).encode();
    assert_eq!(
        SignatorySetSnapshot::decode(&bytes),
        SignatorySetSnapshot::decode(&bytes.clone())
    );
}

#[test]
fn snapshot_decode_rejects_bad_lengths() {
    assert_eq!(SignatorySetSnapshot::decode(&[0; 7]), None);
    assert_eq!(SignatorySetSnapshot::decode(&[0; 9]), None);
    assert_eq!(SignatorySetSnapshot::decode(&[0; 48]), None);
    let mut one = vec![0, 0, 0, 0, 0, 0, 0, 5, 0, 0, 0, 0, 0, 0, 1, 0];
    one.extend_from_slice(&[3; 33]);
    assert_eq!(
        SignatorySetSnapshot::decode(&one),
        Some(SignatorySetSnapshot {
            signatories: SignatorySet {
                signatories: vec![Signatory {
                    voting_power: 256,
                    pubkey: vec![3; 33],
                }],
            },
            time: 5,
        })
    );
}

#[test]
fn missing_snapshot_is_not_found() {
    assert_eq!(
        snapshot_from_lookup(None),
        Err(ClientError::NotFound(Resource::SignatorySetSnapshot))
    );
}

#[test]
fn malformed_snapshot_is_decode_error() {
    assert_eq!(
        snapshot_from_lookup(Some(vec![1, 2, 3])),
        Err(ClientError::Decode(Resource::SignatorySetSnapshot))
    );
}

#[test]
fn stored_snapshot_is_decoded() {
    let s = snapshot(77, &[3, 1]);
    assert_eq!(snapshot_from_lookup(Some(s.encode())), Ok(s));
}

#[test]
fn both_signatory_sets_in_order() {
    let cur = snapshot(2, &[5, 6]);
    let prev = snapshot(1, &[8]);
    assert_eq!(
        signatory_sets_from_lookups(Some(cur.encode()), Some(prev.encode())),
        Ok(vec![cur.signatories, prev.signatories])
    );
}

#[test]
fn missing_current_set_is_named() {
    let prev = snapshot(1, &[8]);
    assert_eq!(
        signatory_sets_from_lookups(None, Some(prev.encode())),
        Err(ClientError::NotFound(Resource::SignatorySet))
    );
}

#[test]
fn missing_previous_set_is_named() {
    let cur = snapshot(2, &[5]);
    assert_eq!(
        signatory_sets_from_lookups(Some(cur.encode()), None),
        Err(ClientError::NotFound(Resource::PreviousSignatorySet))
    );
}

#[test]
fn malformed_previous_set_is_decode_error() {
    let cur = snapshot(2, &[5]);
    assert_eq!(
        signatory_sets_from_lookups(Some(cur.encode()), Some(vec![0; 10])),
        Err(ClientError::Decode(Resource::PreviousSignatorySet))
    );
}

#[test]
fn current_set_failure_comes_first() {
    assert_eq!(
        signatory_sets_from_lookups(Some(vec![0; 3]), None),
        Err(ClientError::Decode(Resource::SignatorySet))
    );
}

#[test]
fn resource_names() {
    assert_eq!(Resource::SignatorySet.name(), "signatory set");
    assert_eq!(Resource::PreviousSignatorySet.name(), "previous signatory set");
    assert_eq!(Resource::SignatorySetSnapshot.name(), "signatory set snapshot");
    assert_eq!(Resource::HeaderTrunk.name(), "header trunk");
    assert_eq!(Resource::BitcoinTip.name(), "Bitcoin tip header");
    assert_eq!(Resource::Balance.name(), "balance");
}

#[test]
fn single_set_from_lookup() {
    let s = snapshot(3, &[9, 4]);
    assert_eq!(
        signatory_set_from_lookup(Some(s.encode()), Resource::PreviousSignatorySet),
        Ok(s.signatories)
    );
    assert_eq!(
        signatory_set_from_lookup(None, Resource::PreviousSignatorySet),
        Err(ClientError::NotFound(Resource::PreviousSignatorySet))
    );
    assert_eq!(
        signatory_set_from_lookup(Some(vec![1]), Resource::SignatorySet),
        Err(ClientError::Decode(Resource::SignatorySet))
    );
}
