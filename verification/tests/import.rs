//! Importing token files.
use kiro_admin::amount::Amount;
use kiro_admin::import::{
    ImportDecision, ImportProgress, ImportReplies, ImportStart, ImportedUsage, IMPORT_CONCURRENCY,
};
use kiro_admin::service::AdminService;
use kiro_admin::text::floor_char_boundary;
use kiro_admin::types::{ImportAction, ImportItemResult, TokenJsonItem};

fn some(text: &str) -> Option<String> {
    Some(text.to_string())
}

fn item(token: Option<&str>) -> TokenJsonItem {
    TokenJsonItem {
        provider: None,
        refresh_token: token.map(|t| t.to_string()),
        client_id: None,
        client_secret: None,
        auth_method: None,
        priority: 3,
        region: None,
        api_region: None,
        machine_id: None,
    }
}

fn replies(known: bool, added: Result<u64, &str>, usage: Result<Option<&str>, &str>) -> ImportReplies {
    ImportReplies {
        known,
        added: added.map_err(|m| m.to_string()),
        usage: usage
            .map(|email| ImportedUsage {
                difference: Amount { bits: (-1.5f64).to_bits() },
                email: email.map(|e| e.to_string()),
            })
            .map_err(|m| m.to_string()),
    }
}

#[test]
fn sign_in_methods() {
    let method = |auth: Option<&str>, provider: Option<&str>| {
        let mut entry = item(Some("t"));
        entry.auth_method = auth.map(|a| a.to_string());
        entry.provider = provider.map(|p| p.to_string());
        AdminService::map_auth_method(&entry)
    };
    // By provider.
    for provider in ["BuilderId", "builder-id", "idc", "IdC", "BUILDER-ID", "builderid"] {
        assert_eq!(method(None, Some(provider)), "idc");
    }
    for provider in ["Social", "social", "Google", "github", ""] {
        assert_eq!(method(None, Some(provider)), "social");
    }
    // The method itself comes first.
    for auth in ["idc", "IDC", "Builder-Id", "BuilderId"] {
        assert_eq!(method(Some(auth), Some("social")), "idc");
    }
    assert_eq!(method(Some("Social"), Some("idc")), "social");
    assert_eq!(method(Some("SAML"), Some("idc")), "saml");
    assert_eq!(method(Some(""), Some("idc")), "");
    assert_eq!(method(Some("ÄÖÜ"), None), "äöü");
    assert_eq!(method(None, None), "social");
}

#[test]
fn methods_from_lower_case() {
    assert_eq!(AdminService::method_from_lowercase("builderid".to_string()), "idc");
    assert_eq!(AdminService::method_from_lowercase("social".to_string()), "social");
    assert_eq!(AdminService::method_from_lowercase("BuilderId".to_string()), "BuilderId");
    assert_eq!(AdminService::method_from_provider("builder-id".to_string()), "idc");
    assert_eq!(AdminService::method_from_provider("other".to_string()), "social");
}

#[test]
fn fingerprints() {
    let fingerprint = |token: Option<&str>| AdminService::generate_fingerprint(&item(token));
    assert_eq!(fingerprint(None), "(empty)");
    assert_eq!(fingerprint(Some("")), "");
    assert_eq!(fingerprint(Some("short")), "short");
    assert_eq!(fingerprint(Some("123456789012345")), "123456789012345");
    assert_eq!(fingerprint(Some("1234567890123456")), "1234567890123456...");
    assert_eq!(fingerprint(Some("1234567890123456789")), "1234567890123456...");
    // A character of three bytes lies across the limit.
    assert_eq!(fingerprint(Some("12345678901234钥匙")), "12345678901234...");
    assert_eq!(fingerprint(Some("1234567890123钥匙")), "1234567890123钥...");
    assert_eq!(fingerprint(Some("钥钥钥钥钥钥")), "钥钥钥钥钥...");
    // A character of four bytes.
    assert_eq!(fingerprint(Some("1234567890123😀x")), "1234567890123...");
    assert_eq!(fingerprint(Some("123456789012😀x")), "123456789012😀...");
}

#[test]
fn character_boundaries() {
    let text = "a钥b";
    let floors: Vec<usize> = (0..8).map(|i| floor_char_boundary(text, i)).collect();
    assert_eq!(floors, vec![0, 1, 1, 1, 4, 5, 5, 5]);
    assert_eq!(floor_char_boundary("", 3), 0);
}

#[test]
fn an_entry_without_a_token_is_invalid() {
    for token in [None, Some("")] {
        let result = AdminService::process_token_json_item(
            4,
            item(token),
            false,
            replies(false, Ok(1), Ok(None)),
        );
        assert_eq!(result.index, 4);
        assert_eq!(result.action, ImportAction::Invalid);
        assert_eq!(result.reason, some("缺少 refreshToken"));
        assert_eq!(result.credential_id, None);
        assert_eq!(result.email, None);
    }
}

#[test]
fn identity_center_needs_a_client() {
    for (id, secret) in [(None, None), (some("i"), None), (None, some("s"))] {
        let mut entry = item(Some("token"));
        entry.provider = some("BuilderId");
        entry.client_id = id;
        entry.client_secret = secret;
        let result = AdminService::process_token_json_item(
            0,
            entry,
            true,
            replies(true, Ok(1), Ok(None)),
        );
        assert_eq!(result.action, ImportAction::Invalid);
        assert_eq!(result.reason, some("idc 认证需要 clientId 和 clientSecret"));
        assert_eq!(result.fingerprint, "token");
    }
    // With a client, or with another method, the import goes on.
    let mut entry = item(Some("token"));
    entry.auth_method = some("IdC");
    entry.client_id = some("");
    entry.client_secret = some("");
    assert!(matches!(
        AdminService::begin_import(0, entry, false),
        ImportStart::CheckKnown(_)
    ));
    assert!(matches!(
        AdminService::begin_import(0, item(Some("token")), false),
        ImportStart::CheckKnown(_)
    ));
    assert!(matches!(
        AdminService::begin_import_as(0, item(Some("token")), false, "idc".to_string()),
        ImportStart::Finished(_)
    ));
}

#[test]
fn a_known_token_is_skipped() {
    for dry_run in [false, true] {
        let result = AdminService::process_token_json_item(
            1,
            item(Some("12345678901234567")),
            dry_run,
            replies(true, Ok(1), Ok(None)),
        );
        assert_eq!(result.action, ImportAction::Skipped);
        assert_eq!(result.reason, some("凭据已存在"));
        assert_eq!(result.fingerprint, "1234567890123456...");
        assert_eq!(result.credential_id, None);
    }
}

#[test]
fn a_dry_run_only_previews() {
    let result = AdminService::process_token_json_item(
        1,
        item(Some("token")),
        true,
        replies(false, Ok(1), Ok(Some("a@b"))),
    );
    assert_eq!(result.action, ImportAction::Added);
    assert_eq!(result.reason, some("预览模式"));
    assert_eq!(result.credential_id, None);
    assert_eq!(result.email, None);
}

#[test]
fn an_added_entry() {
    let result = AdminService::process_token_json_item(
        2,
        item(Some("token")),
        false,
        replies(false, Ok(17), Ok(Some("a@b"))),
    );
    assert_eq!(result.index, 2);
    assert_eq!(result.action, ImportAction::Added);
    assert_eq!(result.reason, None);
    assert_eq!(result.credential_id, Some(17));
    assert_eq!(result.email, some("a@b"));

    // It stays added where its usage is not known.
    let result = AdminService::process_token_json_item(
        2,
        item(Some("token")),
        false,
        replies(false, Ok(17), Err("timeout")),
    );
    assert_eq!(result.action, ImportAction::Added);
    assert_eq!(result.credential_id, Some(17));
    assert_eq!(result.email, None);
}

#[test]
fn an_entry_that_cannot_be_added_is_invalid() {
    let result = AdminService::process_token_json_item(
        2,
        item(Some("token")),
        false,
        replies(false, Err("refreshToken 重复"), Ok(None)),
    );
    assert_eq!(result.action, ImportAction::Invalid);
    assert_eq!(result.reason, some("refreshToken 重复"));
    assert_eq!(result.credential_id, None);
}

#[test]
fn the_steps_of_an_import() {
    let mut entry = item(Some("token"));
    entry.auth_method = some("IDC");
    entry.client_id = some("client");
    entry.client_secret = some("secret");
    entry.region = some("  eu-west-1\t");
    entry.api_region = some(" \u{3000} ");
    entry.machine_id = some("machine");
    let check = match AdminService::begin_import(9, entry, false) {
        ImportStart::CheckKnown(check) => check,
        ImportStart::Finished(_) => panic!("finished"),
    };
    assert_eq!(check.refresh_token, "token");
    let (credential, add) = match check.resolve(false) {
        ImportDecision::Add(credential, add) => (credential, add),
        ImportDecision::Finished(_) => panic!("finished"),
    };
    assert_eq!(credential.id, None);
    assert_eq!(credential.access_token, None);
    assert_eq!(credential.refresh_token, some("token"));
    assert_eq!(credential.auth_method, some("idc"));
    assert_eq!(credential.client_id, some("client"));
    assert_eq!(credential.client_secret, some("secret"));
    assert_eq!(credential.priority, 3);
    assert_eq!(credential.region, some("eu-west-1"));
    assert_eq!(credential.api_region, None);
    assert_eq!(credential.machine_id, some("machine"));
    assert_eq!(credential.email, None);
    assert_eq!(credential.proxy_url, None);
    assert!(!credential.disabled);
    let usage = match add.resolve(Ok(5)) {
        ImportProgress::FetchUsage(usage) => usage,
        ImportProgress::Finished(_) => panic!("finished"),
    };
    assert_eq!(usage.credential_id, 5);
    let end = usage.resolve(Ok(ImportedUsage {
        difference: Amount { bits: (-2.0f64).to_bits() },
        email: some("a@b"),
    }));
    assert_eq!(end.result.index, 9);
    assert_eq!(end.result.fingerprint, "token");
    assert_eq!(end.result.email, some("a@b"));
    let note = end.note.unwrap();
    assert_eq!(note.credential_id, 5);
    // What remains is noted as it is, negative or not.
    assert_eq!(note.remaining.bits, (-2.0f64).to_bits());
    assert_eq!(note.email, some("a@b"));
}

#[test]
fn nothing_is_noted_without_usage() {
    let check = match AdminService::begin_import(0, item(Some("token")), false) {
        ImportStart::CheckKnown(check) => check,
        ImportStart::Finished(_) => panic!("finished"),
    };
    let add = match check.resolve(false) {
        ImportDecision::Add(_, add) => add,
        ImportDecision::Finished(_) => panic!("finished"),
    };
    let usage = match add.resolve(Ok(5)) {
        ImportProgress::FetchUsage(usage) => usage,
        ImportProgress::Finished(_) => panic!("finished"),
    };
    let end = usage.resolve(Err("timeout".to_string()));
    assert!(end.note.is_none());
    assert_eq!(end.result.credential_id, Some(5));
}

fn result(index: usize, action: ImportAction) -> ImportItemResult {
    ImportItemResult {
        index,
        fingerprint: format!("token {}", index),
        action,
        reason: None,
        credential_id: None,
        email: None,
    }
}

#[test]
fn outcomes_come_in_the_order_of_the_file() {
    let finished = vec![
        result(3, ImportAction::Added),
        result(0, ImportAction::Invalid),
        result(4, ImportAction::Added),
        result(1, ImportAction::Skipped),
        result(2, ImportAction::Added),
    ];
    let response = AdminService::import_token_json(finished);
    let indices: Vec<usize> = response.items.iter().map(|i| i.index).collect();
    assert_eq!(indices, vec![0, 1, 2, 3, 4]);
    assert_eq!(response.items[3].fingerprint, "token 3");
    assert_eq!(response.summary.parsed, 5);
    assert_eq!(response.summary.added, 3);
    assert_eq!(response.summary.skipped, 1);
    assert_eq!(response.summary.invalid, 1);
}

#[test]
fn an_empty_file() {
    let response = AdminService::import_token_json(Vec::new());
    assert_eq!(response.items.len(), 0);
    assert_eq!(response.summary.parsed, 0);
    assert_eq!(response.summary.added, 0);
    assert_eq!(AdminService::number_items(Vec::new()).len(), 0);
}

#[test]
fn entries_are_numbered() {
    let numbered = AdminService::number_items(vec![item(Some("a")), item(Some("b"))]);
    assert_eq!(numbered[0].0, 0);
    assert_eq!(numbered[0].1.refresh_token, some("a"));
    assert_eq!(numbered[1].0, 1);
    assert_eq!(numbered[1].1.refresh_token, some("b"));
    assert_eq!(IMPORT_CONCURRENCY, 10);
}

#[test]
fn a_dry_run_foretells_the_import() {
    for (token, known) in [(Some("t"), false), (Some("t"), true), (None, false)] {
        let dry = AdminService::process_token_json_item(
            0,
            item(token),
            true,
            replies(known, Ok(1), Ok(None)),
        );
        let real = AdminService::process_token_json_item(
            0,
            item(token),
            false,
            replies(known, Ok(1), Ok(None)),
        );
        assert_eq!(dry.action, real.action);
    }
}

#[test]
fn a_mapped_method_maps_to_itself() {
    for (auth, provider) in [
        (Some("BuilderId"), None),
        (Some("Social"), Some("idc")),
        (Some("SAML"), Some("idc")),
        (None, Some("builder-id")),
        (None, Some("Google")),
        (None, None),
    ] {
        let mut entry = item(Some("t"));
        entry.auth_method = auth.map(|a| a.to_string());
        entry.provider = provider.map(|p| p.to_string());
        let method = AdminService::map_auth_method(&entry);
        for provider in [None, some("idc"), some("social")] {
            let mut again = item(Some("t"));
            again.auth_method = Some(method.clone());
            again.provider = provider;
            assert_eq!(AdminService::map_auth_method(&again), method);
        }
    }
}
