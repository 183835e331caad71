use legatia_token::account::{validate_account, Account, Principal};
use legatia_token::arith::safe_add;
use legatia_token::balances::BalanceStore;
use legatia_token::rewards::RewardStore;
use legatia_token::config::{
    TokenData, TokenInitArgs, DEDUPLICATION_WINDOW, FEE_CHANGE_DELAY, MAX_FEE, MAX_MEMO_SIZE,
    MAX_REWARD_PER_CALL, MAX_SUPPLY,
};
use legatia_token::dedup::DedupStore;
use legatia_token::errors::{SecurityError, TransferError};
use legatia_token::fingerprint::generate_tx_hash;
use legatia_token::ledger::{validate_amount, validate_memo, Ledger};
use legatia_token::types::{TransferArgs, Value};

// Test helper to create an account with a valid identity.
fn create_account(id: u64) -> Account {
    Account { owner: Principal::from_bytes(id.to_be_bytes().to_vec()), subaccount: None }
}

fn create_minter() -> Account {
    create_account(1)
}

fn create_user(id: u8) -> Account {
    create_account(id as u64 + 1000)
}

fn simple_transfer(to: Account, amount: u128) -> TransferArgs {
    TransferArgs {
        from_subaccount: None,
        to,
        amount,
        fee: None,
        memo: None,
        created_at_time: None,
    }
}

// A freshly initialized ledger, its minting account, and its admin.
fn setup(total_supply: u128, fee: u128) -> (Ledger, Account, Principal) {
    let minter = create_minter();
    let admin = Principal::from_bytes(vec![9, 9]);
    let args = TokenInitArgs {
        name: "Test Token".to_string(),
        symbol: "TEST".to_string(),
        decimals: 8,
        total_supply,
        fee,
        minting_account: minter.clone(),
        initial_balances: vec![],
        max_supply: None,
    };
    let ledger = Ledger::init(args, &admin, 0).unwrap();
    (ledger, minter, admin)
}

#[test]
fn test_input_validation() {
    let valid_account = create_user(1);
    let anonymous_account = Account { owner: Principal::anonymous(), subaccount: None };

    // Test account validation
    assert!(validate_account(&valid_account).is_ok());
    assert!(validate_account(&anonymous_account).is_err());

    // Test amount validation
    assert!(validate_amount(0).is_err());
    assert!(validate_amount(100).is_ok());

    // Test memo validation
    let valid_memo = Some(vec![1, 2, 3]);
    let invalid_memo = Some(vec![0; MAX_MEMO_SIZE + 1]);

    assert!(validate_memo(&valid_memo).is_ok());
    assert!(validate_memo(&invalid_memo).is_err());
}

#[test]
fn test_subaccount_validation() {
    let ok = Account { owner: Principal::from_bytes(vec![7]), subaccount: Some(vec![0u8; 32]) };
    assert!(validate_account(&ok).is_ok());
    let short = Account { owner: Principal::from_bytes(vec![7]), subaccount: Some(vec![0u8; 2]) };
    assert!(matches!(
        validate_account(&short),
        Err(TransferError::GenericError { error_code: 1001, .. })
    ));
    let anon = Account { owner: Principal::anonymous(), subaccount: None };
    assert!(matches!(
        validate_account(&anon),
        Err(TransferError::GenericError { error_code: 1000, .. })
    ));
}

#[test]
fn test_transaction_deduplication() {
    let args = TransferArgs {
        from_subaccount: None,
        to: create_user(1),
        amount: 1000,
        fee: Some(100),
        memo: None,
        created_at_time: None,
    };

    let caller = Principal::from_bytes(vec![1]);
    // Use a fixed timestamp for testing.
    let tx_hash = generate_tx_hash(&args, &caller, 12345);

    // Test deduplication logic with direct fingerprint storage
    let mut window = DedupStore::new();

    // First insertion should succeed
    assert!(window.lookup(&tx_hash).is_none());
    window.record(tx_hash.clone(), 12345);

    // Second check with same hash should find existing entry
    assert!(window.lookup(&tx_hash).is_some());
}

#[test]
fn test_enhanced_token_initialization() {
    let minter = create_minter();

    let data = TokenData {
        name: "Test Token".to_string(),
        symbol: "TEST".to_string(),
        decimals: 8,
        total_supply: 1000000,
        fee: 100,
        minting_account: Some(minter.clone()),
        max_supply: MAX_SUPPLY,
        admin: minter.owner.clone(),
        fee_change_delay: 24 * 60 * 60 * 1_000_000_000,
        last_fee_change: 0,
    };

    // Test that data was set correctly
    assert_eq!(data.name, "Test Token");
    assert_eq!(data.symbol, "TEST");
    assert_eq!(data.decimals, 8);
    assert_eq!(data.total_supply, 1000000);
    assert_eq!(data.fee, 100);
    assert_eq!(data.max_supply, MAX_SUPPLY);
}

#[test]
fn test_supply_limit_enforcement() {
    let minter = create_minter();

    let data = TokenData {
        name: "Test Token".to_string(),
        symbol: "TEST".to_string(),
        decimals: 8,
        total_supply: MAX_SUPPLY - 1000, // Near max supply
        fee: 100,
        minting_account: Some(minter.clone()),
        max_supply: MAX_SUPPLY,
        admin: minter.owner.clone(),
        fee_change_delay: 24 * 60 * 60 * 1_000_000_000,
        last_fee_change: 0,
    };

    // Test that minting beyond max supply fails
    let current_supply = data.total_supply;
    let mint_amount = 2000; // This would exceed max supply

    match safe_add(current_supply, mint_amount) {
        Ok(new_supply) => {
            if new_supply > MAX_SUPPLY {
                // This is the expected behavior - should reject
                assert!(true);
            } else {
                assert!(false, "Should have detected supply limit violation");
            }
        }
        Err(_) => {
            // Overflow also indicates supply limit issue
            assert!(true);
        }
    }
}

#[test]
fn test_authorization_controls() {
    let minter = create_minter();
    let user1 = create_user(1);
    let unauthorized_user = create_user(2);

    let data = TokenData {
        name: "Test Token".to_string(),
        symbol: "TEST".to_string(),
        decimals: 8,
        total_supply: 1000000,
        fee: 100,
        minting_account: Some(minter.clone()),
        max_supply: MAX_SUPPLY,
        admin: minter.owner.clone(),
        fee_change_delay: 24 * 60 * 60 * 1_000_000_000,
        last_fee_change: 0,
    };

    // Test authorization logic
    let authorized_caller = minter.owner.clone();
    let unauthorized_caller = unauthorized_user.owner;

    if let Some(ref minting_account) = data.minting_account {
        assert_eq!(authorized_caller, minting_account.owner);
        assert_ne!(unauthorized_caller, minting_account.owner);
    }

    // Test input validation still works
    assert!(validate_account(&user1).is_ok());
    assert!(validate_amount(5000).is_ok());
}

#[test]
fn test_transfer_scenario() {
    let (mut ledger, minter, _admin) = setup(1_000_000, 100);
    let b = create_user(2);
    assert_eq!(ledger.icrc1_balance_of(legatia_token::types::BalanceArgs {
        account: minter.clone(),
    }), 1_000_000);

    let r = ledger.icrc1_transfer(simple_transfer(b.clone(), 1000), &minter.owner, 1);
    assert_eq!(r.unwrap(), 1);
    assert_eq!(
        ledger.icrc1_balance_of(legatia_token::types::BalanceArgs { account: minter.clone() }),
        998_900
    );
    assert_eq!(
        ledger.icrc1_balance_of(legatia_token::types::BalanceArgs { account: b }),
        1000
    );
    // The fee is burned: conservation keeps the supply equal to the sum
    // of balances.
    assert_eq!(ledger.icrc1_total_supply(), 999_900);
}

#[test]
fn test_transfer_error_paths() {
    let (mut ledger, minter, _admin) = setup(1_000_000, 100);
    let b = create_user(2);

    // Declared fee must match the configured one.
    let mut args = simple_transfer(b.clone(), 1000);
    args.fee = Some(7);
    assert!(matches!(
        ledger.icrc1_transfer(args, &minter.owner, 1),
        Err(TransferError::BadFee { expected_fee: 100 })
    ));

    // Zero amounts are refused.
    assert!(matches!(
        ledger.icrc1_transfer(simple_transfer(b.clone(), 0), &minter.owner, 1),
        Err(TransferError::InvalidAmount)
    ));

    // Oversized memos are refused.
    let mut args = simple_transfer(b.clone(), 1000);
    args.memo = Some(vec![0u8; MAX_MEMO_SIZE + 1]);
    assert!(matches!(
        ledger.icrc1_transfer(args, &minter.owner, 1),
        Err(TransferError::MemoTooLarge)
    ));

    // Insufficient funds report the available balance.
    assert!(matches!(
        ledger.icrc1_transfer(simple_transfer(minter.clone(), 1), &b.owner, 1),
        Err(TransferError::InsufficientFunds { balance: 0 })
    ));

    // A creation time in the future is refused.
    let mut args = simple_transfer(b.clone(), 1000);
    args.created_at_time = Some(50);
    assert!(matches!(
        ledger.icrc1_transfer(args, &minter.owner, 10),
        Err(TransferError::CreatedInFuture { ledger_time: 10 })
    ));

    // A creation time older than the window is refused.
    let mut args = simple_transfer(b.clone(), 1000);
    args.created_at_time = Some(0);
    assert!(matches!(
        ledger.icrc1_transfer(args, &minter.owner, DEDUPLICATION_WINDOW + 1),
        Err(TransferError::TooOld)
    ));

    // Nothing settled: the ledger is unchanged.
    assert_eq!(ledger.icrc1_total_supply(), 1_000_000);
    assert_eq!(
        ledger.icrc1_balance_of(legatia_token::types::BalanceArgs { account: b }),
        0
    );
}

#[test]
fn test_duplicate_transfer_rejected() {
    let (mut ledger, minter, _admin) = setup(1_000_000, 100);
    let b = create_user(2);

    let first = ledger.icrc1_transfer(simple_transfer(b.clone(), 1000), &minter.owner, 42);
    assert_eq!(first.unwrap(), 1);

    // The identical request at the same observed time is a replay.
    let second = ledger.icrc1_transfer(simple_transfer(b.clone(), 1000), &minter.owner, 42);
    assert!(matches!(second, Err(TransferError::Duplicate { duplicate_of: 0 })));

    // Exactly one settled transaction.
    assert_eq!(
        ledger.icrc1_balance_of(legatia_token::types::BalanceArgs { account: b.clone() }),
        1000
    );

    // After the window has elapsed the same request settles anew.
    let third = ledger.icrc1_transfer(
        simple_transfer(b.clone(), 1000),
        &minter.owner,
        42 + DEDUPLICATION_WINDOW + 1,
    );
    assert_eq!(third.unwrap(), 2);
    assert_eq!(
        ledger.icrc1_balance_of(legatia_token::types::BalanceArgs { account: b }),
        2000
    );
}

#[test]
fn test_mint_and_boundary() {
    let (mut ledger, minter, _admin) = setup(MAX_SUPPLY - 1000, 100);
    let u = create_user(3);

    // Unauthorized callers may not mint.
    assert!(matches!(
        ledger.mint(u.clone(), 500, &u.owner, 1),
        Err(TransferError::Unauthorized)
    ));

    // A mint that would exceed the cap fails and changes nothing.
    assert!(matches!(
        ledger.mint(u.clone(), 2000, &minter.owner, 1),
        Err(TransferError::SupplyExceeded)
    ));
    assert_eq!(ledger.icrc1_total_supply(), MAX_SUPPLY - 1000);
    assert_eq!(
        ledger.icrc1_balance_of(legatia_token::types::BalanceArgs { account: u.clone() }),
        0
    );

    // A mint within the cap settles.
    let id = ledger.mint(u.clone(), 500, &minter.owner, 1).unwrap();
    assert_eq!(id, 1);
    assert_eq!(ledger.icrc1_total_supply(), MAX_SUPPLY - 500);
    assert_eq!(
        ledger.icrc1_balance_of(legatia_token::types::BalanceArgs { account: u }),
        500
    );
}

#[test]
fn test_mint_without_minting_account() {
    let mut ledger = Ledger {
        config: TokenData { minting_account: None, ..TokenData::default() },
        balances: BalanceStore::new(),
        transactions: vec![],
        reward_stats: RewardStore::new(),
        dedup: DedupStore::new(),
    };
    let u = create_user(1);
    assert!(matches!(
        ledger.mint(u.clone(), 5, &u.owner, 1),
        Err(TransferError::GenericError { error_code: 2, .. })
    ));
}

#[test]
fn test_burn_and_boundary() {
    let (mut ledger, minter, _admin) = setup(1_000_000, 100);
    let bal = ledger.icrc1_balance_of(legatia_token::types::BalanceArgs {
        account: minter.clone(),
    });

    // Burning one more than the balance fails with the balance reported
    // and changes nothing.
    assert!(matches!(
        ledger.burn(minter.clone(), bal + 1, &minter.owner, 1),
        Err(TransferError::InsufficientFunds { balance }) if balance == bal
    ));
    assert_eq!(ledger.icrc1_total_supply(), 1_000_000);
    assert_eq!(
        ledger.icrc1_balance_of(legatia_token::types::BalanceArgs { account: minter.clone() }),
        bal
    );

    // Only the owner or the minting authority may burn.
    let stranger = create_user(9);
    assert!(matches!(
        ledger.burn(minter.clone(), 1, &stranger.owner, 1),
        Err(TransferError::Unauthorized)
    ));

    // Burning the whole balance empties the account and the supply.
    let id = ledger.burn(minter.clone(), bal, &minter.owner, 1).unwrap();
    assert_eq!(id, 1);
    assert_eq!(ledger.icrc1_total_supply(), 0);
    assert_eq!(
        ledger.icrc1_balance_of(legatia_token::types::BalanceArgs { account: minter }),
        0
    );
}

#[test]
fn test_reward_scenario() {
    let (mut ledger, _minter, admin) = setup(1_000_000, 100);
    let u = create_user(4);

    let id = ledger.reward_user(u.clone(), 2500, "milestone".to_string(), &admin, 7).unwrap();
    assert_eq!(id, 1);
    assert_eq!(
        ledger.icrc1_balance_of(legatia_token::types::BalanceArgs { account: u.clone() }),
        2500
    );
    let stats = ledger.get_reward_stats(u.clone());
    assert_eq!(stats.reward_count, 1);
    assert_eq!(stats.total_rewards, 2500);
    assert_eq!(stats.last_reward, Some(7));
    assert_eq!(ledger.icrc1_total_supply(), 1_002_500);
}

#[test]
fn test_reward_error_paths() {
    let (mut ledger, _minter, admin) = setup(1_000_000, 100);
    let u = create_user(4);

    assert!(matches!(
        ledger.reward_user(u.clone(), MAX_REWARD_PER_CALL + 1, "m".to_string(), &admin, 1),
        Err(TransferError::GenericError { error_code: 1005, .. })
    ));
    assert!(matches!(
        ledger.reward_user(u.clone(), 10, "".to_string(), &admin, 1),
        Err(TransferError::GenericError { error_code: 1006, .. })
    ));
    assert!(matches!(
        ledger.reward_user(u.clone(), 10, "r".repeat(101), &admin, 1),
        Err(TransferError::GenericError { error_code: 1006, .. })
    ));
    let stranger = create_user(9);
    assert!(matches!(
        ledger.reward_user(u.clone(), 10, "thanks".to_string(), &stranger.owner, 1),
        Err(TransferError::Unauthorized)
    ));
    assert_eq!(ledger.get_reward_stats(u).reward_count, 0);
}

#[test]
fn test_set_fee_cooldown() {
    let (mut ledger, _minter, admin) = setup(1_000_000, 100);

    // After the initial cooldown a change is accepted.
    let t1 = FEE_CHANGE_DELAY;
    assert!(ledger.set_fee(200, &admin, t1).is_ok());
    assert_eq!(ledger.icrc1_fee(), 200);

    // A second change in quick succession is refused.
    assert!(matches!(
        ledger.set_fee(300, &admin, t1 + 1),
        Err(TransferError::GenericError { error_code: 1004, .. })
    ));
    assert_eq!(ledger.icrc1_fee(), 200);

    // Once the cooldown elapses it succeeds.
    assert!(ledger.set_fee(300, &admin, t1 + FEE_CHANGE_DELAY).is_ok());
    assert_eq!(ledger.icrc1_fee(), 300);

    // Non-admins and oversized fees are refused.
    let stranger = create_user(9);
    assert!(matches!(
        ledger.set_fee(1, &stranger.owner, t1 + 3 * FEE_CHANGE_DELAY),
        Err(TransferError::Unauthorized)
    ));
    assert!(matches!(
        ledger.set_fee(MAX_FEE + 1, &admin, t1 + 3 * FEE_CHANGE_DELAY),
        Err(TransferError::GenericError { error_code: 1003, .. })
    ));
}

#[test]
fn test_transaction_ids_across_operations() {
    let (mut ledger, minter, admin) = setup(1_000_000, 100);
    let u = create_user(5);

    let id1 = ledger.icrc1_transfer(simple_transfer(u.clone(), 1000), &minter.owner, 1).unwrap();
    let id2 = ledger.mint(u.clone(), 50, &minter.owner, 2).unwrap();
    let id3 = ledger.burn(u.clone(), 25, &u.owner, 3).unwrap();
    let id4 = ledger.reward_user(u.clone(), 5, "steady".to_string(), &admin, 4).unwrap();
    let id5 = ledger.icrc1_transfer(simple_transfer(minter.clone(), 100), &u.owner, 5).unwrap();
    assert_eq!(vec![id1, id2, id3, id4, id5], vec![1, 2, 3, 4, 5]);
}

#[test]
fn test_queries_and_metadata() {
    let (ledger, minter, _admin) = setup(1_000_000, 100);

    assert_eq!(ledger.icrc1_name(), "Test Token");
    assert_eq!(ledger.icrc1_symbol(), "TEST");
    assert_eq!(ledger.icrc1_decimals(), 8);
    assert_eq!(ledger.icrc1_fee(), 100);
    assert_eq!(ledger.get_max_supply(), MAX_SUPPLY);
    assert_eq!(ledger.icrc1_minting_account().unwrap(), minter);

    let md = ledger.icrc1_metadata();
    assert_eq!(md.len(), 6);
    assert_eq!(md[0], ("icrc1:name".to_string(), Value::Text("Test Token".to_string())));
    assert_eq!(md[1], ("icrc1:symbol".to_string(), Value::Text("TEST".to_string())));
    assert_eq!(md[2], ("icrc1:decimals".to_string(), Value::Nat(8)));
    assert_eq!(md[3], ("icrc1:fee".to_string(), Value::Nat(100)));
    assert_eq!(md[4], ("icrc1:total_supply".to_string(), Value::Nat(1_000_000)));
    assert_eq!(md[5], ("icrc1:max_supply".to_string(), Value::Nat(MAX_SUPPLY)));

    let standards = ledger.icrc1_supported_standards();
    assert_eq!(standards.len(), 2);
    assert_eq!(standards[0].name, "ICRC-1");
    assert_eq!(standards[0].url, "https://github.com/dfinity/ICRC-1");
    assert_eq!(standards[1].name, "Legatia-Token");
    assert_eq!(standards[1].url, "https://legatia.family/token");

    let info = ledger.get_security_info();
    assert_eq!(info.max_supply, MAX_SUPPLY);
    assert_eq!(info.max_fee, MAX_FEE);
    assert_eq!(info.max_memo_size, MAX_MEMO_SIZE);
    assert_eq!(info.deduplication_window_ns, DEDUPLICATION_WINDOW);
    assert_eq!(info.max_reward_per_call, MAX_REWARD_PER_CALL);
}

#[test]
fn test_init_errors() {
    let minter = create_minter();
    let admin = Principal::from_bytes(vec![9]);
    let base = || TokenInitArgs {
        name: "Test Token".to_string(),
        symbol: "TEST".to_string(),
        decimals: 8,
        total_supply: 1_000_000,
        fee: 100,
        minting_account: minter.clone(),
        initial_balances: vec![],
        max_supply: None,
    };

    let mut args = base();
    args.name = "".to_string();
    assert!(matches!(
        Ledger::init(args, &admin, 0),
        Err(SecurityError::InvalidInput { field, .. }) if field == "name"
    ));

    let mut args = base();
    args.total_supply = MAX_SUPPLY + 1;
    assert!(matches!(Ledger::init(args, &admin, 0), Err(SecurityError::SupplyExceeded)));

    let mut args = base();
    args.fee = MAX_FEE + 1;
    assert!(matches!(
        Ledger::init(args, &admin, 0),
        Err(SecurityError::InvalidInput { field, .. }) if field == "fee"
    ));

    let mut args = base();
    args.max_supply = Some(MAX_SUPPLY + 1);
    assert!(matches!(
        Ledger::init(args, &admin, 0),
        Err(SecurityError::InvalidInput { field, .. }) if field == "max_supply"
    ));

    // A declared supply above the declared cap is refused.
    let mut args = base();
    args.max_supply = Some(1000);
    assert!(matches!(Ledger::init(args, &admin, 0), Err(SecurityError::SupplyExceeded)));

    let mut args = base();
    args.initial_balances = vec![(
        Account { owner: Principal::anonymous(), subaccount: None },
        10,
    )];
    assert!(matches!(
        Ledger::init(args, &admin, 0),
        Err(SecurityError::InvalidInput { field, .. }) if field == "initial_balances"
    ));

    let mut args = base();
    args.initial_balances = vec![(create_user(1), 600_000), (create_user(2), 600_000)];
    assert!(matches!(
        Ledger::init(args, &admin, 0),
        Err(SecurityError::InvalidInput { field, .. }) if field == "initial_balances"
    ));
}

#[test]
fn test_init_allocations() {
    let minter = create_minter();
    let admin = Principal::from_bytes(vec![9]);
    let a = create_user(1);
    let b = create_user(2);
    let args = TokenInitArgs {
        name: "Test Token".to_string(),
        symbol: "TEST".to_string(),
        decimals: 8,
        total_supply: 1_000_000,
        fee: 100,
        minting_account: minter.clone(),
        initial_balances: vec![(a.clone(), 300_000), (b.clone(), 200_000)],
        max_supply: None,
    };
    let ledger = Ledger::init(args, &admin, 0).unwrap();
    assert_eq!(
        ledger.icrc1_balance_of(legatia_token::types::BalanceArgs { account: a }),
        300_000
    );
    assert_eq!(
        ledger.icrc1_balance_of(legatia_token::types::BalanceArgs { account: b }),
        200_000
    );
    // The remainder is credited to the minting account.
    assert_eq!(
        ledger.icrc1_balance_of(legatia_token::types::BalanceArgs { account: minter }),
        500_000
    );
    assert_eq!(ledger.icrc1_total_supply(), 1_000_000);
}

#[test]
fn test_fingerprint_shape() {
    let args = simple_transfer(create_user(1), 1000);
    let caller = Principal::from_bytes(vec![1]);
    let h1 = generate_tx_hash(&args, &caller, 12345);
    let h2 = generate_tx_hash(&simple_transfer(create_user(1), 1000), &caller, 12345);
    // Deterministic in the request and the observed time.
    assert_eq!(h1, h2);
    assert_eq!(h1.len(), 32);
    assert!(h1[8..].iter().all(|&b| b == 0));
    // Mixing in a different observed time changes the fingerprint.
    let h3 = generate_tx_hash(&args, &caller, 12346);
    assert_ne!(h1, h3);
    // A different amount changes the fingerprint.
    let h4 = generate_tx_hash(&simple_transfer(create_user(1), 1001), &caller, 12345);
    assert_ne!(h1, h4);
}

#[test]
fn test_fingerprint_exact_value() {
    // The fingerprint of this request, worked out by hand from the
    // length-prefixed field encoding and the 64-bit FNV-1a fold.
    let args = TransferArgs {
        from_subaccount: None,
        to: create_user(1),
        amount: 1000,
        fee: Some(100),
        memo: None,
        created_at_time: None,
    };
    let caller = Principal::from_bytes(vec![1]);
    let h = generate_tx_hash(&args, &caller, 12345);
    let mut expected = vec![10u8, 5, 127, 132, 63, 103, 41, 106];
    expected.extend(std::iter::repeat(0u8).take(24));
    assert_eq!(h, expected);
}

#[test]
fn test_self_transfer_nets_the_fee() {
    let (mut ledger, minter, _admin) = setup(1_000_000, 100);
    let r = ledger.icrc1_transfer(simple_transfer(minter.clone(), 1000), &minter.owner, 1);
    assert_eq!(r.unwrap(), 1);
    // A self-transfer moves nothing and burns the fee.
    assert_eq!(
        ledger.icrc1_balance_of(legatia_token::types::BalanceArgs { account: minter }),
        999_900
    );
    assert_eq!(ledger.icrc1_total_supply(), 999_900);
}
