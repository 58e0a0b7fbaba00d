use nomic_client::transaction::{work_proof_transaction, Transaction, WorkProofTransaction};

#[test]
fn work_proof_carries_key_and_nonce() {
    assert_eq!(
        work_proof_transaction(&[0x01, 0x02, 0x03], 42),
        Transaction::WorkProof(WorkProofTransaction {
            public_key: vec![0x01, 0x02, 0x03],
            nonce: 42,
        })
    );
}

#[test]
fn work_proof_with_empty_key() {
    assert_eq!(
        work_proof_transaction(&[], u64::MAX),
        Transaction::WorkProof(WorkProofTransaction {
            public_key: Vec::new(),
            nonce: u64::MAX,
        })
    );
}
