//! Listing, changing, adding and checking credentials.
use kiro_admin::amount::Amount;
use kiro_admin::error::AdminServiceError;
use kiro_admin::service::{AdminService, ManagerCommand};
use kiro_admin::types::{
    AddCredentialRequest, BatchVerifyRequest, CredentialEntry, ManagerSnapshot,
};

fn some(text: &str) -> Option<String> {
    Some(text.to_string())
}

fn entry(id: u64, priority: u32) -> CredentialEntry {
    CredentialEntry {
        id,
        priority,
        disabled: false,
        failure_count: 2,
        expires_at: some("2030"),
        auth_method: some("idc"),
        has_profile_arn: true,
        refresh_token_hash: some("hash"),
        email: some("a@b"),
        success_count: 7,
        last_used_at: some("2029"),
        region: some("r"),
        api_region: None,
    }
}

fn snapshot(entries: Vec<CredentialEntry>) -> ManagerSnapshot {
    ManagerSnapshot {
        entries,
        total: 12,
        available: 5,
    }
}

#[test]
fn credentials_are_listed_by_priority() {
    let listed = AdminService::get_all_credentials(snapshot(vec![
        entry(1, 5),
        entry(2, 0),
        entry(3, 5),
        entry(4, 1),
        entry(5, 0),
    ]));
    let ids: Vec<u64> = listed.credentials.iter().map(|c| c.id).collect();
    assert_eq!(ids, vec![2, 5, 4, 1, 3]);
    assert_eq!((listed.total, listed.available), (12, 5));
    let first = &listed.credentials[0];
    assert_eq!((first.priority, first.failure_count, first.success_count), (0, 2, 7));
    assert_eq!(first.expires_at, some("2030"));
    assert_eq!(first.auth_method, some("idc"));
    assert!(first.has_profile_arn && !first.disabled);
    assert_eq!(first.refresh_token_hash, some("hash"));
    assert_eq!(first.email, some("a@b"));
    assert_eq!(first.last_used_at, some("2029"));
    assert_eq!(first.region, some("r"));
    assert_eq!(first.api_region, None);
    assert_eq!(AdminService::get_all_credentials(snapshot(Vec::new())).credentials.len(), 0);
}

#[test]
fn commands_for_the_token_manager() {
    assert!(matches!(
        AdminService::set_disabled(4, true),
        ManagerCommand::SetDisabled { id: 4, disabled: true }
    ));
    assert!(matches!(
        AdminService::set_priority(4, 9),
        ManagerCommand::SetPriority { id: 4, priority: 9 }
    ));
    assert!(matches!(
        AdminService::reset_and_enable(4),
        ManagerCommand::ResetAndEnable { id: 4 }
    ));
}

#[test]
fn regions_are_trimmed() {
    for (given, kept) in [
        (None, None),
        (some(""), None),
        (some(" \t\r\n\u{b}\u{c}\u{85}\u{a0}\u{1680}\u{2003}\u{2028}\u{2029}\u{202f}\u{205f}\u{3000}"), None),
        (some(" us-east-1 "), some("us-east-1")),
        (some("a b"), some("a b")),
        // This is no white space.
        (some("\u{200b}"), some("\u{200b}")),
    ] {
        match AdminService::set_region(4, given.clone(), None) {
            ManagerCommand::SetRegion { id, region, api_region } => {
                assert_eq!(id, 4);
                assert_eq!(region, kept);
                assert_eq!(api_region, None);
            }
            other => panic!("{:?}", other),
        }
        match AdminService::set_region(4, some("x"), given) {
            ManagerCommand::SetRegion { region, api_region, .. } => {
                assert_eq!(region, some("x"));
                assert_eq!(api_region, kept);
            }
            other => panic!("{:?}", other),
        }
    }
}

#[test]
fn outcomes_of_commands() {
    for command in [
        AdminService::set_disabled(6, false),
        AdminService::set_priority(6, 1),
        AdminService::set_region(6, None, None),
        AdminService::reset_and_enable(6),
    ] {
        assert!(matches!(
            command.settle(Err("凭据不存在: 6".to_string())),
            Err(AdminServiceError::NotFound { id: 6 })
        ));
    }
    assert!(AdminService::set_disabled(6, false).settle(Ok(())).is_ok());
    match AdminService::set_priority(6, 1).settle(Err("磁盘已满".to_string())) {
        Err(AdminServiceError::InternalError(m)) => assert_eq!(m, "磁盘已满"),
        other => panic!("{:?}", other),
    }
}

fn add_request() -> AddCredentialRequest {
    AddCredentialRequest {
        refresh_token: "token".to_string(),
        auth_method: "IDC".to_string(),
        client_id: some("client"),
        client_secret: some("secret"),
        priority: 4,
        region: some(" r "),
        api_region: some("api"),
        machine_id: some("machine"),
        email: some("a@b"),
        proxy_url: some("http://p"),
        proxy_username: some("u"),
        proxy_password: some("p"),
    }
}

#[test]
fn a_credential_is_added() {
    let (credential, pending) = AdminService::add_credential(add_request());
    assert_eq!(credential.id, None);
    assert_eq!(credential.access_token, None);
    assert_eq!(credential.refresh_token, some("token"));
    assert_eq!(credential.profile_arn, None);
    assert_eq!(credential.expires_at, None);
    // The request is taken as it is.
    assert_eq!(credential.auth_method, some("IDC"));
    assert_eq!(credential.region, some(" r "));
    assert_eq!(credential.api_region, some("api"));
    assert_eq!(credential.client_id, some("client"));
    assert_eq!(credential.client_secret, some("secret"));
    assert_eq!(credential.priority, 4);
    assert_eq!(credential.machine_id, some("machine"));
    assert_eq!(credential.email, some("a@b"));
    assert_eq!(credential.subscription_title, None);
    assert_eq!(credential.proxy_url, some("http://p"));
    assert_eq!(credential.proxy_username, some("u"));
    assert_eq!(credential.proxy_password, some("p"));
    assert!(!credential.disabled);
    let response = pending.resolve(Ok(1205)).unwrap();
    assert!(response.success);
    assert_eq!(response.message, "凭据添加成功，ID: 1205");
    assert_eq!(response.credential_id, 1205);
    assert_eq!(response.email, some("a@b"));
}

#[test]
fn numbers_in_messages() {
    for id in [0, 7, 10, 99, 100, u64::MAX] {
        let (_, pending) = AdminService::add_credential(add_request());
        let response = pending.resolve(Ok(id)).unwrap();
        assert_eq!(response.message, format!("凭据添加成功，ID: {}", id));
    }
}

#[test]
fn a_credential_that_cannot_be_added() {
    let (_, pending) = AdminService::add_credential(add_request());
    match pending.resolve(Err("凭据已存在".to_string())) {
        Err(AdminServiceError::InvalidCredential(m)) => assert_eq!(m, "凭据已存在"),
        other => panic!("{:?}", other),
    }
}

#[test]
fn which_credentials_are_checked() {
    let plan = |ids: Option<Vec<u64>>, concurrency: usize| {
        AdminService::plan_batch_verify(
            BatchVerifyRequest { ids, concurrency },
            &snapshot(vec![entry(3, 0), entry(1, 0)]),
        )
    };
    assert_eq!(plan(Some(vec![9, 8, 9]), 4).ids, vec![9, 8, 9]);
    assert_eq!(plan(Some(Vec::new()), 4).ids, vec![3, 1]);
    assert_eq!(plan(None, 4).ids, vec![3, 1]);
    for (asked, given) in [(0, 1), (1, 1), (4, 4), (50, 50), (51, 50), (usize::MAX, 50)] {
        assert_eq!(plan(None, asked).concurrency, given);
    }
}

#[test]
fn checks_are_ordered_and_counted() {
    let good = |id: u64| AdminService::verify_item(id, Ok(Amount { bits: 1.5f64.to_bits() }));
    let bad = |id: u64| AdminService::verify_item(id, Err(format!("failed {}", id)));
    let response = AdminService::batch_verify(vec![good(5), bad(2), good(9), bad(1), good(2)]);
    assert_eq!((response.total, response.success, response.failed), (5, 3, 2));
    let ids: Vec<u64> = response.results.iter().map(|r| r.id).collect();
    assert_eq!(ids, vec![1, 2, 2, 5, 9]);
    // Of equal ids, the one that ended first comes first.
    assert!(!response.results[1].success && response.results[2].success);
    assert_eq!(response.results[0].error, some("failed 1"));
    assert_eq!(response.results[0].remaining, None);
    assert_eq!(response.results[3].error, None);
    assert_eq!(response.results[3].remaining, Some(Amount { bits: 1.5f64.to_bits() }));
    let empty = AdminService::batch_verify(Vec::new());
    assert_eq!((empty.total, empty.success, empty.failed), (0, 0, 0));
}

#[test]
fn checks_may_end_in_any_order() {
    let item = |id: u64| AdminService::verify_item(id, Err(format!("failed {}", id)));
    let first = AdminService::batch_verify(vec![item(1), item(2), item(3)]);
    let second = AdminService::batch_verify(vec![item(3), item(1), item(2)]);
    assert_eq!(format!("{:?}", first), format!("{:?}", second));
}

#[test]
fn preparing_a_region_twice_is_preparing_it_once() {
    for given in [None, some(""), some(" \t"), some(" us-east-1 "), some("a b")] {
        let once = match AdminService::set_region(1, given, None) {
            ManagerCommand::SetRegion { region, .. } => region,
            other => panic!("{:?}", other),
        };
        match AdminService::set_region(1, once.clone(), None) {
            ManagerCommand::SetRegion { region, .. } => assert_eq!(region, once),
            other => panic!("{:?}", other),
        }
    }
}
