use phapchain::{Block, Blockchain, Transaction, TransactionData, WorldState};

fn create_user(name: &str) -> Transaction {
    Transaction::new(name.to_string(), TransactionData::CreateUserAccount(name.to_string()), 0)
}

fn create_tokens(name: &str, amount: u128) -> Transaction {
    Transaction::new(
        name.to_string(),
        TransactionData::CreateTokens { receiver: name.to_string(), amount },
        0,
    )
}

fn transfer(from: &str, to: &str, amount: u128) -> Transaction {
    Transaction::new(
        from.to_string(),
        TransactionData::TransferTokens { to: to.to_string(), amount },
        0,
    )
}

fn balance(bc: &Blockchain, id: &str) -> u128 {
    bc.get_account_by_id(&id.to_string()).expect("account exists").tokens()
}

/// The chain of the demo: a genesis block for two users with 100000000
/// tokens each, then a block that moves one token from "luong" to "phap".
fn demo_chain() -> Blockchain {
    let mut bc = Blockchain::new();
    let mut genesis = Block::new(None);
    for user in ["phap", "luong"] {
        genesis.add_transaction(create_user(user));
        genesis.add_transaction(create_tokens(user, 100_000_000));
    }
    assert_eq!(bc.append_block(genesis), Ok(()));
    let mut block2 = Block::new(bc.get_last_block_hash());
    block2.add_transaction(transfer("luong", "phap", 1));
    assert_eq!(bc.append_block(block2), Ok(()));
    bc
}

#[test]
fn new_chain_is_empty_and_valid() {
    let bc = Blockchain::new();
    assert_eq!(bc.len(), 0);
    assert_eq!(bc.get_last_block_hash(), None);
    assert_eq!(bc.check_validity(), Ok(()));
    assert!(bc.get_user_ids().is_empty());
}

#[test]
fn genesis_block_creates_accounts_and_tokens() {
    let mut bc = Blockchain::new();
    let mut genesis = Block::new(None);
    genesis.add_transaction(create_user("phap"));
    genesis.add_transaction(create_tokens("phap", 100_000_000));
    genesis.add_transaction(create_user("luong"));
    genesis.add_transaction(create_tokens("luong", 100_000_000));
    let hash = genesis.hash();
    assert_eq!(bc.append_block(genesis), Ok(()));
    assert_eq!(bc.len(), 1);
    assert_eq!(bc.get_last_block_hash(), hash);
    assert!(hash.is_some());
    assert_eq!(balance(&bc, "phap"), 100_000_000);
    assert_eq!(balance(&bc, "luong"), 100_000_000);
    let mut ids = bc.get_user_ids();
    ids.sort();
    assert_eq!(ids, vec!["luong".to_string(), "phap".to_string()]);
    assert_eq!(bc.check_validity(), Ok(()));
}

#[test]
fn transfer_block_moves_one_token() {
    let bc = demo_chain();
    assert_eq!(bc.len(), 2);
    assert_eq!(balance(&bc, "phap"), 100_000_001);
    assert_eq!(balance(&bc, "luong"), 99_999_999);
    assert_eq!(balance(&bc, "phap") + balance(&bc, "luong"), 200_000_000);
    assert_eq!(bc.check_validity(), Ok(()));
    assert_eq!(bc.get_last_block_hash(), bc.blocks[1].hash());
    assert_eq!(bc.blocks[1].prev_hash(), bc.blocks[0].hash());
}

#[test]
fn changed_transfer_amount_is_detected() {
    let bc = demo_chain();
    let mut attacked = bc.clone();
    match &mut attacked.blocks[1].transactions[0].record {
        TransactionData::TransferTokens { amount, .. } => *amount = 100,
        _ => panic!("expected a transfer"),
    }
    assert_eq!(
        attacked.check_validity(),
        Err("Stored hash for Block #2 does not match calculated hash (Code: mod.rs: 204)"
            .to_string())
    );
    assert_eq!(bc.check_validity(), Ok(()));
}

#[test]
fn rehashed_block_breaks_the_link() {
    let bc = demo_chain();
    let mut attacked = bc.clone();
    match &mut attacked.blocks[0].transactions[1].record {
        TransactionData::CreateTokens { amount, .. } => *amount = 100_000_000_000,
        _ => panic!("expected a token creation"),
    }
    assert_eq!(
        attacked.check_validity(),
        Err("Stored hash for Block #1 does not match calculated hash (Code: mod.rs: 204)"
            .to_string())
    );
    attacked.blocks[0].update_hash();
    assert_eq!(
        attacked.check_validity(),
        Err("Block #2 is not connected to previous block".to_string())
    );
}

#[test]
fn unsealed_block_is_refused() {
    let mut bc = Blockchain::new();
    let block = Block::new(None);
    assert_eq!(
        bc.append_block(block),
        Err("The block hash in mismatching! (code: mod.rs: 140)".to_string())
    );
    assert_eq!(bc.len(), 0);
}

#[test]
fn block_with_wrong_link_is_refused() {
    let mut bc = demo_chain();
    let mut block = Block::new(Some("not the last hash".to_string()));
    block.add_transaction(transfer("phap", "luong", 1));
    assert_eq!(
        bc.append_block(block),
        Err("The new block has to point to the previous block (Code: mod.rs: 147)".to_string())
    );
    let mut genesis_again = Block::new(None);
    genesis_again.add_transaction(transfer("phap", "luong", 1));
    assert_eq!(
        bc.append_block(genesis_again),
        Err("The new block has to point to the previous block (Code: mod.rs: 147)".to_string())
    );
    assert_eq!(bc.len(), 2);
    assert_eq!(balance(&bc, "phap"), 100_000_001);
}

#[test]
fn empty_block_is_refused() {
    let mut bc = Blockchain::new();
    let mut block = Block::new(None);
    block.update_hash();
    assert!(block.verify_own_hash());
    assert_eq!(
        bc.append_block(block),
        Err("There has to be at least one transaction inside the block! (Code: mod.rs: 153)"
            .to_string())
    );
    assert_eq!(bc.len(), 0);
}

#[test]
fn failing_transaction_rolls_back_the_block() {
    let mut bc = demo_chain();
    let last = bc.get_last_block_hash();
    let mut block = Block::new(last.clone());
    block.add_transaction(transfer("phap", "luong", 5));
    block.add_transaction(transfer("nobody", "luong", 5));
    assert_eq!(
        bc.append_block(block),
        Err("Could not execute transaction 2 due to `Account does not exist (Code: mod.rs: 362)`. Rolling back (Code: mod.rs: 171)".to_string())
    );
    assert_eq!(balance(&bc, "phap"), 100_000_001);
    assert_eq!(balance(&bc, "luong"), 99_999_999);
    assert_eq!(bc.len(), 2);
    assert_eq!(bc.get_last_block_hash(), last);
}

#[test]
fn overspending_is_refused() {
    let mut bc = demo_chain();
    let mut block = Block::new(bc.get_last_block_hash());
    block.add_transaction(transfer("luong", "phap", 100_000_000));
    assert_eq!(
        bc.append_block(block),
        Err("Could not execute transaction 1 due to `Overspent or Arithmetic error (Code: mod.rs: 414)`. Rolling back (Code: mod.rs: 171)".to_string())
    );
    assert_eq!(balance(&bc, "luong"), 99_999_999);
}

#[test]
fn tokens_cannot_be_created_after_genesis() {
    let mut bc = demo_chain();
    let mut block = Block::new(bc.get_last_block_hash());
    block.add_transaction(create_tokens("phap", 5));
    assert_eq!(
        bc.append_block(block),
        Err("Could not execute transaction 1 due to `Token creation is only available on initial creation (Code: mod.rs: 373)`. Rolling back (Code: mod.rs: 171)".to_string())
    );
    assert_eq!(balance(&bc, "phap"), 100_000_001);
}

#[test]
fn accounts_can_be_created_after_genesis_by_members() {
    let mut bc = demo_chain();
    let mut block = Block::new(bc.get_last_block_hash());
    block.add_transaction(Transaction::new(
        "phap".to_string(),
        TransactionData::CreateUserAccount("tam".to_string()),
        1,
    ));
    assert_eq!(bc.append_block(block), Ok(()));
    assert_eq!(balance(&bc, "tam"), 0);
    assert_eq!(bc.get_user_ids().len(), 3);
    assert_eq!(bc.check_validity(), Ok(()));
}

#[test]
fn genesis_with_previous_hash_fails_the_check() {
    let mut bc = Blockchain::new();
    let mut block = Block::new(Some("somewhere".to_string()));
    block.add_transaction(create_user("phap"));
    bc.blocks.push(block);
    assert_eq!(
        bc.check_validity(),
        Err("The genesis block has a previous hash set which it shouldn't Code :mod.rs: 215"
            .to_string())
    );
}

#[test]
fn later_block_without_link_fails_the_check() {
    let mut bc = demo_chain();
    let mut block = Block::new(None);
    block.add_transaction(transfer("phap", "luong", 1));
    bc.blocks.push(block);
    assert_eq!(
        bc.check_validity(),
        Err("Block #3 has no previous hash set".to_string())
    );
}

#[test]
fn world_state_of_chain_creates_accounts_once() {
    let mut bc = Blockchain::new();
    assert_eq!(bc.create_account("a".to_string(), phapchain::AccountType::User), Ok(()));
    assert_eq!(
        bc.create_account("a".to_string(), phapchain::AccountType::_Contract),
        Err("User already exists! (Code: mod.rs: 279)")
    );
    assert_eq!(bc.get_user_ids(), vec!["a".to_string()]);
    assert!(bc.get_account_by_id(&"b".to_string()).is_none());
    assert_eq!(bc.get_account_by_id_mut(&"a".to_string()).map(|a| a.tokens()), Some(0));
}

#[test]
fn later_blocks_keep_the_total_of_tokens() {
    let mut bc = demo_chain();
    let total = |bc: &Blockchain| -> u128 {
        bc.get_user_ids().iter().map(|id| balance(bc, id)).sum()
    };
    assert_eq!(total(&bc), 200_000_000);
    let mut block = Block::new(bc.get_last_block_hash());
    block.add_transaction(transfer("phap", "phap", 50));
    block.add_transaction(transfer("phap", "luong", 7));
    block.add_transaction(Transaction::new(
        "luong".to_string(),
        TransactionData::CreateUserAccount("tam".to_string()),
        0,
    ));
    block.add_transaction(transfer("luong", "tam", 3));
    assert_eq!(bc.append_block(block), Ok(()));
    assert_eq!(total(&bc), 200_000_000);
    assert_eq!(balance(&bc, "phap"), 99_999_994);
    assert_eq!(balance(&bc, "luong"), 100_000_003);
    assert_eq!(balance(&bc, "tam"), 3);
}

#[test]
fn transactions_run_on_a_fresh_chain() {
    let mut bc = Blockchain::new();
    assert_eq!(bc.create_account("a".to_string(), phapchain::AccountType::User), Ok(()));
    assert_eq!(bc.create_account("b".to_string(), phapchain::AccountType::User), Ok(()));
    assert_eq!(create_tokens("a", 5).execute(&mut bc, &true), Ok(()));
    assert_eq!(transfer("a", "a", 3).execute(&mut bc, &false), Ok(()));
    assert_eq!(balance(&bc, "a"), 5);
    assert_eq!(
        transfer("a", "b", 7).execute(&mut bc, &false),
        Err("Overspent or Arithmetic error (Code: mod.rs: 414)")
    );
    assert_eq!(transfer("a", "b", 3).execute(&mut bc, &false), Ok(()));
    assert_eq!(balance(&bc, "a"), 2);
    assert_eq!(balance(&bc, "b"), 3);
    assert_eq!(bc.len(), 0);
}

#[test]
fn overflowing_genesis_is_detected_before_appending() {
    let bc = Blockchain::new();
    let mut genesis = Block::new(None);
    genesis.add_transaction(create_user("a"));
    genesis.add_transaction(create_tokens("a", u128::MAX));
    assert!(!bc.append_would_overflow(&genesis));
    genesis.add_transaction(create_tokens("a", 1));
    assert!(bc.append_would_overflow(&genesis));
    // A block that the checks refuse, or whose run fails first, does not overflow.
    let mut unlinked = Block::new(Some("x".to_string()));
    unlinked.add_transaction(create_user("a"));
    unlinked.add_transaction(create_tokens("a", u128::MAX));
    unlinked.add_transaction(create_tokens("a", 1));
    assert!(!bc.append_would_overflow(&unlinked));
    let mut failing = Block::new(None);
    failing.add_transaction(create_tokens("nobody", 1));
    failing.add_transaction(create_user("a"));
    failing.add_transaction(create_tokens("a", u128::MAX));
    failing.add_transaction(create_tokens("a", 1));
    assert!(!bc.append_would_overflow(&failing));
    let demo = demo_chain();
    let mut later = Block::new(demo.get_last_block_hash());
    later.add_transaction(create_tokens("phap", u128::MAX));
    assert!(!demo.append_would_overflow(&later));
}
