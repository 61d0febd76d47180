use nl_kdapp::pipeline::TRANSACTION_FEE;
use nl_kdapp::{ApiError, Outpoint, RateLimiter, ServerWallet, SessionLimits, Utxo, UtxoManager};

fn utxo(txid: u64, index: u32, amount: u64) -> Utxo {
    Utxo {
        outpoint: Outpoint { transaction_id: txid, index },
        amount,
        script_public_key: vec![0xAA, 0xBB],
        is_spent: false,
    }
}

#[test]
fn test_ledger_refresh_and_balance() {
    let mut ledger = UtxoManager::new();
    ledger
        .update_utxos(vec![utxo(1, 0, 700), utxo(2, 1, 300)])
        .unwrap();
    assert_eq!(ledger.get_total_balance(), 1000);
    let available = ledger.get_available_utxos().unwrap();
    assert_eq!(available.len(), 2);
    assert_eq!(available[0].outpoint, Outpoint { transaction_id: 1, index: 0 });
    assert_eq!(available[1].outpoint, Outpoint { transaction_id: 2, index: 1 });
}

#[test]
fn test_no_double_spend() {
    let mut ledger = UtxoManager::new();
    ledger
        .update_utxos(vec![utxo(1, 0, 700), utxo(2, 1, 300)])
        .unwrap();
    let op = Outpoint { transaction_id: 1, index: 0 };
    assert!(ledger.mark_spent(&op).is_ok());
    // the second mark of the same identity is an error, not a no-op
    assert_eq!(ledger.mark_spent(&op), Err(ApiError::NotFound));
    // and the identity never shows up as available again
    let available = ledger.get_available_utxos().unwrap();
    assert_eq!(available.len(), 1);
    assert_eq!(available[0].outpoint, Outpoint { transaction_id: 2, index: 1 });
    assert_eq!(ledger.get_total_balance(), 300);
}

#[test]
fn test_mark_spent_unknown_identity() {
    let mut ledger = UtxoManager::new();
    ledger.update_utxos(vec![utxo(1, 0, 700)]).unwrap();
    let ghost_op = Outpoint { transaction_id: 99, index: 0 };
    assert_eq!(ledger.mark_spent(&ghost_op), Err(ApiError::NotFound));
    assert_eq!(ledger.get_total_balance(), 700);
}

#[test]
fn test_rate_limiter_window() {
    let limits = SessionLimits {
        transactions_per_hour: 3,
        episodes_per_day: 5,
        max_total_transactions: 100,
    };
    let mut limiter = RateLimiter::with_limits(limits);
    let start = 10_000;
    // three calls within the same hour pass
    for _ in 0..3 {
        assert!(limiter.check_and_update("alice", start).is_ok());
    }
    // the fourth is denied
    assert_eq!(
        limiter.check_and_update("alice", start),
        Err(ApiError::RateLimited)
    );
    // an independent session is unaffected
    assert!(limiter.check_and_update("bob", start).is_ok());
    // one hour later the window is clear again
    assert!(limiter.check_and_update("alice", start + 3600).is_ok());
}

#[test]
fn test_rate_limiter_lifetime_cap() {
    let limits = SessionLimits {
        transactions_per_hour: 10,
        episodes_per_day: 5,
        max_total_transactions: 2,
    };
    let mut limiter = RateLimiter::with_limits(limits);
    assert!(limiter.check_and_update("carol", 0).is_ok());
    assert!(limiter.check_and_update("carol", 5000).is_ok());
    // the window has room, but the lifetime cap denies
    assert_eq!(
        limiter.check_and_update("carol", 10_000),
        Err(ApiError::RateLimited)
    );
}

#[test]
fn test_rate_limiter_episode_creation_and_usage() {
    let limits = SessionLimits {
        transactions_per_hour: 20,
        episodes_per_day: 2,
        max_total_transactions: 100,
    };
    let mut limiter = RateLimiter::with_limits(limits);
    assert!(limiter.check_episode_creation("dave", 100).is_ok());
    assert!(limiter.check_episode_creation("dave", 200).is_ok());
    assert_eq!(
        limiter.check_episode_creation("dave", 300),
        Err(ApiError::RateLimited)
    );
    assert!(limiter.check_and_update("dave", 400).is_ok());
    assert_eq!(limiter.get_usage("dave", 400), Some((1, 2, 1)));
    assert_eq!(limiter.get_usage("nobody", 400), None);
    // a day later the creations have aged out of the window
    assert_eq!(limiter.get_usage("dave", 200 + 86_400), Some((0, 0, 1)));
}

#[test]
fn test_rate_limiter_gc() {
    let mut limiter = RateLimiter::new();
    assert!(limiter.check_and_update("early", 0).is_ok());
    assert!(limiter.check_and_update("late", 604_800).is_ok());
    limiter.cleanup_old_sessions(604_800);
    assert_eq!(limiter.get_usage("early", 604_800), None);
    assert!(limiter.get_usage("late", 604_800).is_some());
}

#[test]
fn test_default_limits() {
    let limits = SessionLimits::default();
    assert_eq!(limits.transactions_per_hour, 20);
    assert_eq!(limits.episodes_per_day, 5);
    assert_eq!(limits.max_total_transactions, 100);
}

fn funded_wallet(amount: u64) -> ServerWallet {
    let mut wallet = ServerWallet::new("kaspatest:qabc".to_string(), SessionLimits::default());
    wallet.refresh_utxos(vec![utxo(7, 0, amount)]).unwrap();
    wallet
}

#[test]
fn test_resource_chaining() {
    let mut wallet = funded_wallet(1_000_000);
    let planned = wallet
        .create_episode_transaction("42", vec![1, 2, 3], "sess", 50)
        .unwrap();
    assert_eq!(planned.consumed, Outpoint { transaction_id: 7, index: 0 });
    assert_eq!(planned.input_amount, 1_000_000);
    assert_eq!(planned.change_amount, Some(1_000_000 - TRANSACTION_FEE));
    assert_eq!(planned.episode_id, 42);
    assert_eq!(planned.payload, vec![1, 2, 3]);

    // the submission is acknowledged under transaction id 8
    wallet
        .apply_submission_success(&planned.consumed, 8, vec![0xCC])
        .unwrap();
    assert_eq!(wallet.get_balance().unwrap(), 1_000_000 - TRANSACTION_FEE);
}

#[test]
fn test_resource_chaining_no_dust_output() {
    // the remainder after the fee is not positive: no new resource enters
    let mut wallet = funded_wallet(TRANSACTION_FEE);
    let planned = wallet
        .create_episode_transaction("1", vec![], "sess", 0)
        .unwrap();
    assert_eq!(planned.change_amount, None);
    wallet
        .apply_submission_success(&planned.consumed, 9, vec![])
        .unwrap();
    assert_eq!(wallet.get_balance().unwrap(), 0);
}

#[test]
fn test_pipeline_no_resources() {
    let mut wallet = ServerWallet::new("kaspatest:qxyz".to_string(), SessionLimits::default());
    assert_eq!(
        wallet.create_episode_transaction("1", vec![], "sess", 0).err(),
        Some(ApiError::NoResourcesAvailable)
    );
}

#[test]
fn test_pipeline_bad_episode_id() {
    let mut wallet = funded_wallet(50_000);
    assert_eq!(
        wallet.create_episode_transaction("tictactoe-1", vec![], "sess", 0).err(),
        Some(ApiError::EncodingFailed)
    );
}

#[test]
fn test_pipeline_rate_limited() {
    let limits = SessionLimits {
        transactions_per_hour: 1,
        episodes_per_day: 5,
        max_total_transactions: 100,
    };
    let mut wallet = ServerWallet::new("kaspatest:qq".to_string(), limits);
    wallet.refresh_utxos(vec![utxo(3, 0, 100_000)]).unwrap();
    assert!(wallet
        .create_episode_transaction("5", vec![], "sess", 0)
        .is_ok());
    assert_eq!(
        wallet.create_episode_transaction("5", vec![], "sess", 10).err(),
        Some(ApiError::RateLimited)
    );
}

#[test]
fn test_new_episode_transaction_skips_rate_limit() {
    let limits = SessionLimits {
        transactions_per_hour: 0,
        episodes_per_day: 0,
        max_total_transactions: 0,
    };
    let mut wallet = ServerWallet::new("kaspatest:qq".to_string(), limits);
    wallet.refresh_utxos(vec![utxo(4, 2, 99_000)]).unwrap();
    let planned = wallet
        .create_new_episode_transaction(11, vec![vec![1; 33], vec![2; 33]])
        .unwrap();
    assert_eq!(planned.episode_id, 11);
    assert_eq!(planned.input_amount, 99_000);
    assert_eq!(planned.change_amount, Some(99_000 - TRANSACTION_FEE));
}

#[test]
fn test_parse_private_key_round_trip() {
    let hex = "00112233445566778899aabbccddeeff00112233445566778899AABBCCDDEEFF";
    let key = nl_kdapp::parse_private_key(hex).unwrap();
    assert_eq!(key.len(), 32);
    assert_eq!(key[0], 0x00);
    assert_eq!(key[1], 0x11);
    assert_eq!(key[15], 0xff);
    assert_eq!(key[31], 0xff);
    // a wrapper handing its input back unchanged could not produce this
    assert_eq!(key[2], 0x22);
}

#[test]
fn test_parse_private_key_rejects_bad_input() {
    assert_eq!(
        nl_kdapp::parse_private_key("zz").err(),
        Some(ApiError::SigningFailed)
    );
    let not_hex = "0g112233445566778899aabbccddeeff00112233445566778899aabbccddeeff";
    assert_eq!(
        nl_kdapp::parse_private_key(not_hex).err(),
        Some(ApiError::SigningFailed)
    );
}

#[test]
fn test_error_transience() {
    assert!(ApiError::RateLimited.is_transient());
    assert!(ApiError::NoResourcesAvailable.is_transient());
    assert!(!ApiError::NotFound.is_transient());
    assert!(!ApiError::Expired.is_transient());
    assert!(!ApiError::ExecutionFailed.is_transient());
}
