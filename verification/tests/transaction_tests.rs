use phapchain::{AccountTable, AccountType, Timestamp, Transaction, TransactionData, WorldState};

fn at(from: &str, record: TransactionData) -> Transaction {
    Transaction::with_timestamp(
        from.to_string(),
        record,
        0,
        Timestamp { tv_sec: 1_700_000_000, tv_nsec: 5 },
    )
}

fn world_with(accounts: &[(&str, u128)]) -> AccountTable {
    let mut w = AccountTable::new();
    for (id, tokens) in accounts {
        assert_eq!(w.create_account(id.to_string(), AccountType::User), Ok(()));
        if *tokens > 0 {
            let mint = at(id, TransactionData::CreateTokens { receiver: id.to_string(), amount: *tokens });
            assert_eq!(mint.execute(&mut w, &true), Ok(()));
        }
    }
    w
}

fn tokens(w: &AccountTable, id: &str) -> u128 {
    w.get(&id.to_string()).expect("account exists").tokens()
}

#[test]
fn unknown_sender_is_refused_after_genesis() {
    let mut w = world_with(&[("a", 10)]);
    let t = at("ghost", TransactionData::TransferTokens { to: "a".to_string(), amount: 1 });
    assert_eq!(t.execute(&mut w, &false), Err("Account does not exist (Code: mod.rs: 362)"));
    assert_eq!(tokens(&w, "a"), 10);
}

#[test]
fn create_user_account_adds_empty_user() {
    let mut w = AccountTable::new();
    let t = at("anyone", TransactionData::CreateUserAccount("new".to_string()));
    assert_eq!(t.execute(&mut w, &true), Ok(()));
    assert_eq!(tokens(&w, "new"), 0);
    assert_eq!(
        t.execute(&mut w, &true),
        Err("User already exists! (Code: mod.rs: 279)")
    );
}

#[test]
fn create_tokens_errors() {
    let mut w = world_with(&[("a", 0)]);
    let t = at("a", TransactionData::CreateTokens { receiver: "a".to_string(), amount: 7 });
    assert_eq!(
        t.execute(&mut w, &false),
        Err("Token creation is only available on initial creation (Code: mod.rs: 373)")
    );
    let missing = at("a", TransactionData::CreateTokens { receiver: "b".to_string(), amount: 7 });
    assert_eq!(
        missing.execute(&mut w, &true),
        Err("Receiver Account does not exist (Code: mod.rs: 382)")
    );
    assert_eq!(t.execute(&mut w, &true), Ok(()));
    assert_eq!(t.execute(&mut w, &true), Ok(()));
    assert_eq!(tokens(&w, "a"), 14);
}

#[test]
fn transfer_errors() {
    let mut w = world_with(&[("a", 10), ("b", u128::MAX)]);
    let to_missing = at("a", TransactionData::TransferTokens { to: "z".to_string(), amount: 1 });
    assert_eq!(
        to_missing.execute(&mut w, &false),
        Err("Receiver Account does not exist! (Code: mod.rs: 393)")
    );
    let from_missing = at("z", TransactionData::TransferTokens { to: "a".to_string(), amount: 1 });
    assert_eq!(
        from_missing.execute(&mut w, &true),
        Err("That account does not exist! (Code: mod.rs: 399)")
    );
    let overspent = at("a", TransactionData::TransferTokens { to: "b".to_string(), amount: 11 });
    assert_eq!(
        overspent.execute(&mut w, &false),
        Err("Overspent or Arithmetic error (Code: mod.rs: 414)")
    );
    let overflow = at("a", TransactionData::TransferTokens { to: "b".to_string(), amount: 1 });
    assert_eq!(
        overflow.execute(&mut w, &false),
        Err("Overspent or Arithmetic error (Code: mod.rs: 414)")
    );
    assert_eq!(tokens(&w, "a"), 10);
    assert_eq!(tokens(&w, "b"), u128::MAX);
}

#[test]
fn transfer_conserves_tokens_between_two_accounts() {
    let mut w = world_with(&[("a", 10), ("b", 3), ("c", 8)]);
    let t = at("a", TransactionData::TransferTokens { to: "b".to_string(), amount: 4 });
    assert_eq!(t.execute(&mut w, &false), Ok(()));
    assert_eq!(tokens(&w, "a"), 6);
    assert_eq!(tokens(&w, "b"), 7);
    assert_eq!(tokens(&w, "a") + tokens(&w, "b"), 13);
    assert_eq!(tokens(&w, "c"), 8);
}

#[test]
fn transfer_to_oneself_keeps_the_balance() {
    let mut w = world_with(&[("a", 10)]);
    let t = at("a", TransactionData::TransferTokens { to: "a".to_string(), amount: 4 });
    assert_eq!(t.execute(&mut w, &false), Ok(()));
    assert_eq!(tokens(&w, "a"), 10);
    let too_much = at("a", TransactionData::TransferTokens { to: "a".to_string(), amount: 11 });
    assert_eq!(
        too_much.execute(&mut w, &false),
        Err("Overspent or Arithmetic error (Code: mod.rs: 414)")
    );
    assert_eq!(tokens(&w, "a"), 10);
}

#[test]
fn change_store_value_is_not_implemented() {
    let mut w = world_with(&[("a", 1)]);
    let t = at(
        "a",
        TransactionData::ChangeStoreValue { key: "k".to_string(), value: "v".to_string() },
    );
    assert_eq!(
        t.execute(&mut w, &false),
        Err("Unknown Transaction type (not implemented) (Code: mod.rs: 419)")
    );
}

#[test]
fn new_transactions_are_unsigned() {
    let t = Transaction::new(
        "a".to_string(),
        TransactionData::CreateUserAccount("a".to_string()),
        3,
    );
    assert!(!t.is_signed());
    assert!(!t.check_signature());
}

#[test]
fn timestamps_from_epoch_offsets() {
    assert_eq!(
        Timestamp::from_epoch_offset(false, 1_700_000_000, 5),
        Timestamp { tv_sec: 1_700_000_000, tv_nsec: 5 }
    );
    assert_eq!(
        Timestamp::from_epoch_offset(true, 10, 0),
        Timestamp { tv_sec: -10, tv_nsec: 0 }
    );
    assert_eq!(
        Timestamp::from_epoch_offset(true, 10, 250_000_000),
        Timestamp { tv_sec: -11, tv_nsec: 750_000_000 }
    );
    assert_eq!(
        Timestamp::from_epoch_offset(false, u64::MAX, 1),
        Timestamp { tv_sec: i64::MAX, tv_nsec: 1 }
    );
    assert_eq!(
        Timestamp::from_epoch_offset(true, u64::MAX, 1),
        Timestamp { tv_sec: i64::MIN, tv_nsec: 999_999_999 }
    );
}

#[test]
fn current_time_is_after_2020() {
    let now = Timestamp::now();
    assert!(now.tv_sec > 1_577_836_800);
    assert!(now.tv_nsec < 1_000_000_000);
}

#[test]
fn clock_readings_become_timestamps() {
    assert_eq!(
        Timestamp::from_reading(Ok((1_700_000_000, 5))),
        Timestamp { tv_sec: 1_700_000_000, tv_nsec: 5 }
    );
    assert_eq!(
        Timestamp::from_reading(Err((1, 999_999_500))),
        Timestamp { tv_sec: -2, tv_nsec: 500 }
    );
    assert_eq!(Timestamp::from_reading(Err((3, 0))), Timestamp { tv_sec: -3, tv_nsec: 0 });
}

#[test]
fn overflow_is_reported_before_execution() {
    let w = world_with(&[("a", u128::MAX - 1)]);
    let one = at("a", TransactionData::CreateTokens { receiver: "a".to_string(), amount: 1 });
    let two = at("a", TransactionData::CreateTokens { receiver: "a".to_string(), amount: 2 });
    assert!(!one.would_overflow(&w, &true));
    assert!(two.would_overflow(&w, &true));
    assert!(!two.would_overflow(&w, &false));
}
