//! Balances, remembered and summarised.
use kiro_admin::amount::Amount;
use kiro_admin::balance::{fresh, CachedBalance, FetchedBalance, BALANCE_CACHE_TTL_SECS};
use kiro_admin::config::{CompressionConfig, Config};
use kiro_admin::error::AdminServiceError;
use kiro_admin::service::AdminService;
use kiro_admin::types::{
    BalanceResponse, CachedBalanceInfo, CredentialEntry, ManagerSnapshot, UsageReading,
};

fn amount(x: f64) -> Amount {
    Amount { bits: x.to_bits() }
}

fn value(a: Amount) -> f64 {
    f64::from_bits(a.bits)
}

fn compression() -> CompressionConfig {
    CompressionConfig {
        enabled: true,
        whitespace_compression: true,
        thinking_strategy: "discard".to_string(),
        tool_result_max_chars: 1,
        tool_result_head_lines: 2,
        tool_result_tail_lines: 3,
        tool_use_input_max_chars: 4,
        tool_description_max_chars: 5,
        max_history_turns: 6,
        max_history_chars: 7,
        max_request_body_bytes: 8,
    }
}

fn service(stored: Vec<(String, CachedBalance)>) -> AdminService {
    let config = Config {
        region: "us-east-1".to_string(),
        credential_rpm: None,
        proxy_url: None,
        proxy_username: None,
        proxy_password: None,
        compression: compression(),
    };
    AdminService::new(config, compression(), stored)
}

fn balance(id: u64, remaining: f64) -> BalanceResponse {
    BalanceResponse {
        id,
        subscription_title: Some("PRO".to_string()),
        current_usage: amount(1.0),
        usage_limit: amount(1.0 + remaining),
        remaining: amount(remaining),
        usage_percentage: amount(50.0),
        next_reset_at: None,
    }
}

fn cached(id: u64, remaining: f64, cached_at: i64) -> CachedBalance {
    CachedBalance {
        cached_at,
        stored_time: None,
        data: balance(id, remaining),
    }
}

#[test]
fn a_recorded_balance_is_given_back_until_it_is_too_old() {
    let mut service = service(Vec::new());
    assert!(service.get_balance_at(1, 1000).is_none());
    service.record_balance_at(1, balance(1, 9.5), 1000);
    let found = service.get_balance_at(1, 1000).unwrap();
    assert_eq!(found.id, 1);
    assert_eq!(value(found.remaining), 9.5);
    assert_eq!(found.subscription_title, Some("PRO".to_string()));
    assert!(service.get_balance_at(1, 1299).is_some());
    assert!(service.get_balance_at(1, 1300).is_none());
    assert!(service.get_balance_at(1, 5000).is_none());
    // A clock that was set back does not make it old.
    assert!(service.get_balance_at(1, 0).is_some());
    assert!(service.get_balance_at(2, 1000).is_none());
    service.record_balance_at(2, balance(2, 1.0), 1100);
    assert_eq!(value(service.get_balance_at(1, 1100).unwrap().remaining), 9.5);
    service.record_balance_at(1, balance(1, 3.0), 1250);
    assert_eq!(value(service.get_balance_at(1, 1400).unwrap().remaining), 3.0);
}

#[test]
fn freshness() {
    assert_eq!(BALANCE_CACHE_TTL_SECS, 300);
    assert!(fresh(0, 299));
    assert!(!fresh(0, 300));
    assert!(fresh(i64::MAX, i64::MIN));
    assert!(!fresh(i64::MIN, i64::MAX));
}

#[test]
fn a_balance_recorded_now_is_remembered_now() {
    let mut service = service(Vec::new());
    assert!(service.get_balance(3).is_none());
    let fetched = FetchedBalance {
        balance: balance(3, 2.5),
        email: None,
    };
    let answer = service.balance_fetched(3, Ok(fetched)).unwrap();
    assert_eq!(value(answer.remaining), 2.5);
    assert_eq!(value(service.get_balance(3).unwrap().remaining), 2.5);
    let stored = service.save_balance_cache();
    let now = std::time::SystemTime::now()
        .duration_since(std::time::UNIX_EPOCH)
        .unwrap()
        .as_secs() as i64;
    assert_eq!(stored.len(), 1);
    assert!((now - stored[0].1.cached_at).abs() <= 60);
}

#[test]
fn a_deleted_credential_is_forgotten() {
    let mut service = service(Vec::new());
    service.record_balance_at(1, balance(1, 1.0), 100);
    service.record_balance_at(2, balance(2, 2.0), 100);
    match service.delete_credential(1, Err("请先禁用凭据".to_string())) {
        Err(AdminServiceError::InvalidCredential(m)) => assert_eq!(m, "请先禁用凭据"),
        other => panic!("{:?}", other),
    }
    assert!(service.get_balance_at(1, 100).is_some());
    assert!(service.delete_credential(1, Ok(())).is_ok());
    assert!(service.get_balance_at(1, 100).is_none());
    assert!(service.get_balance_at(2, 100).is_some());
    // Deleting what has no balance is no failure.
    assert!(service.delete_credential(9, Ok(())).is_ok());
    assert!(matches!(
        service.delete_credential(9, Err("凭据不存在".to_string())),
        Err(AdminServiceError::NotFound { id: 9 })
    ));
}

#[test]
fn stored_balances_are_read() {
    let entries = vec![
        ("1".to_string(), cached(1, 1.0, 1000)),
        ("+2".to_string(), cached(2, 2.0, 1000)),
        ("003".to_string(), cached(3, 3.0, 1000)),
        ("18446744073709551615".to_string(), cached(u64::MAX, 4.0, 1000)),
        // None of these is an id.
        ("".to_string(), cached(5, 5.0, 1000)),
        ("+".to_string(), cached(5, 5.0, 1000)),
        ("-5".to_string(), cached(5, 5.0, 1000)),
        (" 5".to_string(), cached(5, 5.0, 1000)),
        ("5x".to_string(), cached(5, 5.0, 1000)),
        ("18446744073709551616".to_string(), cached(5, 5.0, 1000)),
        // This is too old.
        ("6".to_string(), cached(6, 6.0, 900)),
        ("7".to_string(), cached(7, 7.0, 901)),
    ];
    let cache = AdminService::load_balance_cache_at(entries, 1200);
    let mut ids: Vec<u64> = cache.keys().cloned().collect();
    ids.sort();
    assert_eq!(ids, vec![1, 2, 3, 7, u64::MAX]);
    assert_eq!(value(cache[&2].data.remaining), 2.0);
}

#[test]
fn of_equal_ids_the_last_counts() {
    let entries = vec![
        ("1".to_string(), cached(1, 1.0, 1000)),
        ("01".to_string(), cached(1, 2.0, 1001)),
        ("+1".to_string(), cached(1, 3.0, 1)),
    ];
    let cache = AdminService::load_balance_cache_at(entries, 1001);
    assert_eq!(cache.len(), 1);
    assert_eq!(value(cache[&1].data.remaining), 2.0);
}

#[test]
fn the_service_starts_with_what_is_still_good() {
    let service = service(vec![
        ("1".to_string(), cached(1, 1.0, i64::MAX)),
        ("2".to_string(), cached(2, 2.0, 1000)),
    ]);
    assert!(service.get_balance(1).is_some());
    assert!(service.get_balance(2).is_none());
    assert_eq!(service.save_balance_cache().len(), 1);
}

#[test]
fn what_was_stored_is_read_back() {
    let mut service = service(Vec::new());
    for id in [1, 20, 300, u64::MAX] {
        service.record_balance_at(id, balance(id, id as f64), 1000 + (id % 7) as i64);
    }
    service.record_balance_at(5, balance(5, 5.0), 10);
    let stored = service.save_balance_cache();
    assert_eq!(stored.len(), 5);
    let mut keys: Vec<String> = stored.iter().map(|(k, _)| k.clone()).collect();
    keys.sort();
    assert_eq!(keys, vec!["1", "18446744073709551615", "20", "300", "5"]);
    let cache = AdminService::load_balance_cache_at(stored, 1200);
    assert_eq!(cache.len(), 4);
    for id in [1, 20, 300, u64::MAX] {
        assert_eq!(value(cache[&id].data.remaining), id as f64);
        assert_eq!(cache[&id].cached_at, 1000 + (id % 7) as i64);
    }
}

fn reading(current: f64, limit: f64) -> UsageReading {
    UsageReading {
        current_usage: amount(current),
        usage_limit: amount(limit),
        difference: amount(limit - current),
        ratio: amount(current / limit * 100.0),
        subscription_title: Some("PRO".to_string()),
        email: Some("a@b".to_string()),
        next_reset_at: Some(amount(12.0)),
    }
}

#[test]
fn fetched_balances() {
    for (current, limit, remaining, percentage) in [
        (25.0, 100.0, 75.0, 25.0),
        (100.0, 100.0, 0.0, 100.0),
        (150.0, 100.0, 0.0, 100.0),
        (5.0, 0.0, 0.0, 0.0),
        (0.0, 0.0, 0.0, 0.0),
        (0.0, 10.0, 10.0, 0.0),
        (1.0, -3.0, 0.0, 0.0),
        (0.1, 0.3, 0.3 - 0.1, 0.1 / 0.3 * 100.0),
    ] {
        let fetched = AdminService::fetch_balance(8, Ok(reading(current, limit))).unwrap();
        let balance = fetched.balance;
        assert_eq!(balance.id, 8);
        assert_eq!(value(balance.current_usage), current);
        assert_eq!(value(balance.usage_limit), limit);
        assert_eq!(value(balance.remaining), remaining);
        assert_eq!(value(balance.usage_percentage), percentage);
        assert_eq!(value(balance.remaining), (limit - current).max(0.0));
        assert_eq!(value(balance.next_reset_at.unwrap()), 12.0);
        assert_eq!(balance.subscription_title, Some("PRO".to_string()));
        assert_eq!(fetched.email, Some("a@b".to_string()));
    }
    assert!(matches!(
        AdminService::fetch_balance(8, Err("请求超时 timeout".to_string())),
        Err(AdminServiceError::UpstreamError(_))
    ));
    assert!(matches!(
        AdminService::fetch_balance(8, Err("凭据不存在".to_string())),
        Err(AdminServiceError::NotFound { id: 8 })
    ));
}

#[test]
fn amounts_compare_like_their_numbers() {
    let numbers = [
        f64::NEG_INFINITY, -1e300, -2.5, -1.0, -1e-310, -0.0, 0.0, 1e-310, 0.5, 0.999, 1.0, 1.5,
        99.9, 100.0, 100.1, 1e300, f64::INFINITY,
    ];
    for x in numbers {
        for y in numbers {
            assert_eq!(
                amount(x).position().partial_cmp(&amount(y).position()),
                x.partial_cmp(&y)
            );
        }
        assert!(!amount(x).not_a_number());
        assert_eq!(amount(x).positive(), x > 0.0);
        assert_eq!(amount(x).used_up(), x <= 0.0);
        assert_eq!(amount(x).low(), x > 0.0 && x < 1.0);
        assert_eq!(value(amount(x).raised_to_zero()), x.max(0.0));
        assert_eq!(value(amount(x).lowered_to_hundred()), x.min(100.0));
    }
    let nan = amount(f64::NAN);
    assert!(nan.not_a_number() && amount(-f64::NAN).not_a_number());
    assert!(!nan.positive() && !nan.used_up() && !nan.low());
    assert_eq!(value(nan.raised_to_zero()), f64::NAN.max(0.0));
    assert_eq!(value(nan.lowered_to_hundred()), f64::NAN.min(100.0));
}

fn info(id: u64, remaining: f64) -> CachedBalanceInfo {
    CachedBalanceInfo {
        id,
        remaining: amount(remaining),
        cached_at: 1000 + id,
        ttl_secs: 60,
    }
}

fn entry(id: u64) -> CredentialEntry {
    CredentialEntry {
        id,
        priority: 0,
        disabled: id % 2 == 0,
        failure_count: 0,
        expires_at: None,
        auth_method: None,
        has_profile_arn: false,
        refresh_token_hash: None,
        email: Some(format!("{}@x", id)),
        success_count: 0,
        last_used_at: None,
        region: None,
        api_region: None,
    }
}

fn snapshot(ids: &[u64]) -> ManagerSnapshot {
    ManagerSnapshot {
        entries: ids.iter().map(|id| entry(*id)).collect(),
        total: ids.len(),
        available: 0,
    }
}

#[test]
fn remembered_balances_are_listed() {
    let listed = AdminService::get_cached_balances(vec![info(2, 1.5), info(1, 0.0)]).balances;
    assert_eq!(listed.len(), 2);
    assert_eq!((listed[0].id, value(listed[0].remaining)), (2, 1.5));
    assert_eq!((listed[0].cached_at, listed[0].ttl_secs), (1002, 60));
    assert_eq!((listed[1].id, value(listed[1].remaining)), (1, 0.0));
}

#[test]
fn a_summary() {
    let summary = AdminService::get_balance_summary(
        &snapshot(&[1, 2, 3, 4, 5]),
        vec![info(1, 10.0), info(3, 0.5), info(4, 0.0), info(5, -1.0), info(1, 7.0), info(9, 0.25)],
    );
    assert_eq!(summary.total_credentials, 5);
    // Credential 1 has two balances, of which the last counts; credential 2 has none.
    assert_eq!(summary.cached_count, 5);
    let mut remainings: Vec<f64> = summary.remainings.iter().map(|a| value(*a)).collect();
    remainings.sort_by(|a, b| a.partial_cmp(b).unwrap());
    assert_eq!(remainings, vec![-1.0, 0.0, 0.25, 0.5, 7.0]);
    assert_eq!(value(summary.min_remaining.unwrap()), -1.0);
    assert_eq!(value(summary.max_remaining.unwrap()), 7.0);
    assert_eq!(summary.zero_balance_count, 2);
    assert_eq!(summary.low_balance_count, 2);
    let ids: Vec<u64> = summary.details.iter().map(|d| d.id).collect();
    assert_eq!(ids, vec![5, 2, 4, 3, 1]);
    assert_eq!(value(summary.details[1].remaining), 0.0);
    assert_eq!(summary.details[1].cached_at, None);
    assert!(summary.details[1].disabled);
    assert_eq!(summary.details[4].cached_at, Some(1001));
    assert_eq!(value(summary.details[4].remaining), 7.0);
    assert_eq!(summary.details[4].email, Some("1@x".to_string()));
}

#[test]
fn a_summary_of_nothing() {
    let summary = AdminService::get_balance_summary(&snapshot(&[]), Vec::new());
    assert_eq!(summary.total_credentials, 0);
    assert_eq!(summary.cached_count, 0);
    assert!(summary.min_remaining.is_none());
    assert!(summary.max_remaining.is_none());
    assert_eq!(summary.zero_balance_count, 0);
    assert_eq!(summary.low_balance_count, 0);
    assert_eq!(summary.details.len(), 0);
}

#[test]
fn what_is_no_number_is_not_counted() {
    let summary = AdminService::get_balance_summary(
        &snapshot(&[1]),
        vec![info(1, f64::NAN), info(2, 3.0), info(3, f64::NAN)],
    );
    assert_eq!(summary.cached_count, 3);
    assert_eq!(value(summary.min_remaining.unwrap()), 3.0);
    assert_eq!(value(summary.max_remaining.unwrap()), 3.0);
    assert_eq!(summary.zero_balance_count + summary.low_balance_count, 0);
}

#[test]
fn credentials_stay_in_order_where_an_amount_is_no_number() {
    let summary = AdminService::get_balance_summary(
        &snapshot(&[1, 2, 3]),
        vec![info(1, f64::NAN), info(2, 1.0), info(3, 0.5)],
    );
    let ids: Vec<u64> = summary.details.iter().map(|d| d.id).collect();
    assert_eq!(ids, vec![1, 2, 3]);
    // A balance without a credential is not among those that are ordered.
    let summary = AdminService::get_balance_summary(
        &snapshot(&[2, 3]),
        vec![info(1, f64::NAN), info(2, 1.0), info(3, 0.5)],
    );
    let ids: Vec<u64> = summary.details.iter().map(|d| d.id).collect();
    assert_eq!(ids, vec![3, 2]);
}

#[test]
fn a_fetched_balance_is_answered_and_remembered() {
    let mut service = service(Vec::new());
    let fetched = FetchedBalance {
        balance: balance(4, 8.0),
        email: Some("a@b".to_string()),
    };
    let answer = service.balance_fetched_at(4, Ok(fetched), 1000).unwrap();
    assert_eq!(value(answer.remaining), 8.0);
    assert_eq!(value(service.get_balance_at(4, 1299).unwrap().remaining), 8.0);
    assert!(service.get_balance_at(4, 1300).is_none());
}

#[test]
fn a_failed_fetch_leaves_the_remembered_balances_alone() {
    let mut service = service(Vec::new());
    service.record_balance_at(4, balance(4, 8.0), 1000);
    match service.balance_fetched_at(4, Err(AdminServiceError::NotFound { id: 4 }), 2000) {
        Err(AdminServiceError::NotFound { id }) => assert_eq!(id, 4),
        other => panic!("{:?}", other),
    }
    match service.balance_fetched(5, Err(AdminServiceError::UpstreamError("timeout".to_string()))) {
        Err(AdminServiceError::UpstreamError(m)) => assert_eq!(m, "timeout"),
        other => panic!("{:?}", other),
    }
    assert_eq!(service.save_balance_cache().len(), 1);
    assert_eq!(value(service.get_balance_at(4, 1000).unwrap().remaining), 8.0);
}

#[test]
fn a_stored_time_with_a_fraction_is_kept() {
    let mut entry = cached(1, 1.0, 1001);
    entry.stored_time = Some(amount(1000.5));
    let cache = AdminService::load_balance_cache_at(vec![("1".to_string(), entry)], 1300);
    assert_eq!(value(cache[&1].stored_time.unwrap()), 1000.5);
    assert_eq!(cache[&1].clone().stored_time, Some(amount(1000.5)));
}
