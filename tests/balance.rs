use nomic_client::balance::balance_from_lookup;
use nomic_client::error::{ClientError, Resource};
use nomic_client::keys::balance_key;

#[test]
fn missing_balance_is_zero() {
    assert_eq!(balance_from_lookup(None), Ok(0));
}

#[test]
fn balance_reads_big_endian() {
    let stored = vec![0, 0, 0, 0, 0, 0, 0x01, 0x02];
    assert_eq!(balance_from_lookup(Some(stored)), Ok(258));
}

#[test]
fn balance_round_trips_through_be_bytes() {
    for v in [0u64, 1, 255, 256, 1_000_000, u64::MAX, 0x0102_0304_0506_0708] {
        assert_eq!(balance_from_lookup(Some(v.to_be_bytes().to_vec())), Ok(v));
    }
}

#[test]
fn balance_most_significant_byte_first() {
    let stored = vec![0x01, 0, 0, 0, 0, 0, 0, 0];
    assert_eq!(balance_from_lookup(Some(stored)), Ok(1u64 << 56));
}

#[test]
fn short_balance_is_decode_error() {
    assert_eq!(
        balance_from_lookup(Some(vec![1, 2, 3])),
        Err(ClientError::Decode(Resource::Balance))
    );
}

#[test]
fn long_balance_is_decode_error() {
    assert_eq!(
        balance_from_lookup(Some(vec![0; 9])),
        Err(ClientError::Decode(Resource::Balance))
    );
}

#[test]
fn empty_balance_is_decode_error() {
    assert_eq!(
        balance_from_lookup(Some(Vec::new())),
        Err(ClientError::Decode(Resource::Balance))
    );
}

#[test]
fn balance_key_is_namespaced() {
    assert_eq!(balance_key(&[0xaa, 0xbb]), b"balances/\xaa\xbb".to_vec());
    assert_eq!(balance_key(&[]), b"balances/".to_vec());
}
