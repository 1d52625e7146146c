use phapchain::{Block, Timestamp, Transaction, TransactionData};
use blake2::{Blake2s256, Digest};
use std::time::{Duration, UNIX_EPOCH};

fn stamped(from: &str, record: TransactionData, nonce: u128) -> Transaction {
    Transaction::with_timestamp(
        from.to_string(),
        record,
        nonce,
        Timestamp { tv_sec: 1_700_000_000, tv_nsec: 5 },
    )
}

#[test]
fn transaction_hash_is_blake2s256_of_its_debug_text() {
    let record = TransactionData::CreateUserAccount("phap".to_string());
    let t = stamped("phap", record.clone(), 0);
    let text = "(SystemTime { tv_sec: 1700000000, tv_nsec: 5 }, CreateUserAccount(\"phap\"), \"phap\", 0)";
    let expected = Blake2s256::digest(text.as_bytes()).to_vec();
    assert_eq!(t.calculate_hash(), expected);
    assert_eq!(t.calculate_hash().len(), 32);

    // The same text as `{:?}` makes of the system time and the other fields.
    let time = UNIX_EPOCH + Duration::new(1_700_000_000, 5);
    let from = "phap".to_string();
    let nonce: u128 = 0;
    assert_eq!(format!("{:?}", (&time, &record, &from, &nonce)), text);
}

#[test]
fn transaction_hash_escapes_strings_and_writes_big_numbers() {
    let record = TransactionData::TransferTokens { to: "a \"quoted\" name".to_string(), amount: u128::MAX };
    let t = stamped("x\\y", record.clone(), u128::MAX);
    let time = UNIX_EPOCH + Duration::new(1_700_000_000, 5);
    let from = "x\\y".to_string();
    let nonce = u128::MAX;
    let text = format!("{:?}", (&time, &record, &from, &nonce));
    assert_eq!(t.calculate_hash(), Blake2s256::digest(text.as_bytes()).to_vec());
}

#[test]
fn transaction_hash_before_the_epoch() {
    let record = TransactionData::CreateTokens { receiver: "r".to_string(), amount: 12 };
    let t = Transaction::with_timestamp(
        "r".to_string(),
        record.clone(),
        9,
        Timestamp { tv_sec: -2, tv_nsec: 500 },
    );
    let text = "(SystemTime { tv_sec: -2, tv_nsec: 500 }, CreateTokens { receiver: \"r\", amount: 12 }, \"r\", 9)";
    assert_eq!(t.calculate_hash(), Blake2s256::digest(text.as_bytes()).to_vec());

    // The system clock shows an instant 1.9999995 s before the epoch the same way.
    let time = UNIX_EPOCH - Duration::new(1, 999_999_500);
    let from = "r".to_string();
    let nonce: u128 = 9;
    assert_eq!(format!("{:?}", (&time, &record, &from, &nonce)), text);
    assert_eq!(
        Timestamp::from_epoch_offset(true, 1, 999_999_500),
        Timestamp { tv_sec: -2, tv_nsec: 500 }
    );
}

#[test]
fn block_hash_covers_transaction_digests_and_link() {
    let mut block = Block::new(Some("prev".to_string()));
    let t1 = stamped("a", TransactionData::CreateUserAccount("a".to_string()), 0);
    let t2 = stamped("a", TransactionData::CreateTokens { receiver: "a".to_string(), amount: 3 }, 1);
    block.add_transaction(t1.clone());
    block.add_transaction(t2.clone());

    let mut hasher = Blake2s256::new();
    hasher.update(t1.calculate_hash());
    hasher.update(t2.calculate_hash());
    let prev: Option<String> = Some("prev".to_string());
    hasher.update(format!("{:?}", (&prev, &0u128)));
    let expected = hasher.finalize().to_vec();
    assert_eq!(block.calculate_hash(), expected);

    let as_text: String = expected.iter().map(|&b| b as char).collect();
    assert_eq!(block.hash(), Some(as_text));
    assert!(block.verify_own_hash());
}

#[test]
fn empty_genesis_block_hash() {
    let block = Block::new(None);
    let expected = Blake2s256::digest("(None, 0)".as_bytes()).to_vec();
    assert_eq!(block.calculate_hash(), expected);
    assert_eq!(block.hash(), None);
    assert!(!block.verify_own_hash());
}

#[test]
fn sealing_and_tampering() {
    let mut block = Block::new(None);
    assert!(!block.verify_own_hash());
    block.add_transaction(stamped("a", TransactionData::CreateUserAccount("a".to_string()), 0));
    assert!(block.verify_own_hash());
    assert_eq!(block.get_transaction_count(), 1);
    let sealed = block.hash();
    block.update_hash();
    assert_eq!(block.hash(), sealed);
    block.transactions[0].record = TransactionData::CreateUserAccount("b".to_string());
    assert!(!block.verify_own_hash());
    block.update_hash();
    assert!(block.verify_own_hash());
    assert_ne!(block.hash(), sealed);
}
