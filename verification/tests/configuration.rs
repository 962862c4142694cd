//! Changing the configuration.
use kiro_admin::config::{
    CompressionConfig, Config, ProxyConfig, ProxyStep, UpdateCompressionConfigRequest,
    UpdateGlobalConfigRequest, UpdateProxyConfigRequest,
};
use kiro_admin::error::AdminServiceError;
use kiro_admin::service::AdminService;

fn some(text: &str) -> Option<String> {
    Some(text.to_string())
}

fn compression() -> CompressionConfig {
    CompressionConfig {
        enabled: true,
        whitespace_compression: true,
        thinking_strategy: "discard".to_string(),
        tool_result_max_chars: 1,
        tool_result_head_lines: 2,
        tool_result_tail_lines: 3,
        tool_use_input_max_chars: 4,
        tool_description_max_chars: 5,
        max_history_turns: 6,
        max_history_chars: 7,
        max_request_body_bytes: 8,
    }
}

fn service(url: Option<&str>, user: Option<&str>, password: Option<&str>) -> AdminService {
    let text = |t: Option<&str>| t.map(|t| t.to_string());
    let config = Config {
        region: "us-east-1".to_string(),
        credential_rpm: Some(5),
        proxy_url: text(url),
        proxy_username: text(user),
        proxy_password: text(password),
        compression: compression(),
    };
    AdminService::new(config, compression(), Vec::new())
}

fn request(url: Option<&str>, user: Option<&str>, password: Option<&str>) -> UpdateProxyConfigRequest {
    let text = |t: Option<&str>| t.map(|t| t.to_string());
    UpdateProxyConfigRequest {
        proxy_url: text(url),
        proxy_username: text(user),
        proxy_password: text(password),
    }
}

/// Changes the proxy and stores the change.
fn store_proxy(service: &mut AdminService, req: UpdateProxyConfigRequest) -> Option<ProxyConfig> {
    let update = service.update_proxy_config(req);
    match service.proxy_config_saved(update, Ok(()), false) {
        Ok(ProxyStep::Announce(proxy)) => proxy,
        other => panic!("{:?}", other),
    }
}

fn no_compression_change() -> UpdateCompressionConfigRequest {
    UpdateCompressionConfigRequest {
        enabled: None,
        whitespace_compression: None,
        thinking_strategy: None,
        tool_result_max_chars: None,
        tool_result_head_lines: None,
        tool_result_tail_lines: None,
        tool_use_input_max_chars: None,
        tool_description_max_chars: None,
        max_history_turns: None,
        max_history_chars: None,
        max_request_body_bytes: None,
    }
}

#[test]
fn the_proxy_is_shown_without_its_login() {
    let shown = service(Some("http://p"), Some("u"), Some("p")).get_proxy_config();
    assert_eq!(shown.proxy_url, some("http://p"));
    assert!(shown.has_credentials);
    assert!(!service(Some("http://p"), Some("u"), None).get_proxy_config().has_credentials);
    assert!(!service(None, None, Some("p")).get_proxy_config().has_credentials);
    assert_eq!(service(None, None, None).get_proxy_config().proxy_url, None);
}

#[test]
fn a_new_proxy_with_a_login() {
    let mut service = service(Some("http://old"), Some("u0"), Some("p0"));
    let proxy = store_proxy(&mut service, request(Some(" http://new "), Some(" u "), Some("p\n"))).unwrap();
    assert_eq!(proxy.url, "http://new");
    assert_eq!(proxy.username, some("u"));
    assert_eq!(proxy.password, some("p"));
    assert_eq!(service.config.proxy_url, some("http://new"));
    assert_eq!(service.config.proxy_username, some("u"));
    assert_eq!(service.config.proxy_password, some("p"));
    assert_eq!(service.config.region, "us-east-1");
}

#[test]
fn an_incomplete_login_keeps_the_old_one() {
    for (user, password) in [
        (None, None),
        (Some("u"), None),
        (None, Some("p")),
        (Some("  "), Some("p")),
        (Some("u"), Some("")),
    ] {
        let mut service = service(Some("http://old"), Some(" u0"), Some("p0 "));
        let proxy = store_proxy(&mut service, request(Some("http://new"), user, password)).unwrap();
        assert_eq!(proxy.url, "http://new");
        assert_eq!(proxy.username, some(" u0"));
        assert_eq!(proxy.password, some("p0 "));
        assert_eq!(service.config.proxy_username, some(" u0"));
    }
    // Half of a login is none.
    let mut service = service(Some("http://old"), Some("u0"), None);
    let proxy = store_proxy(&mut service, request(Some("http://new"), Some("u"), None)).unwrap();
    assert_eq!(proxy.username, None);
    assert_eq!(proxy.password, None);
    assert_eq!(service.config.proxy_username, None);
    assert_eq!(service.config.proxy_password, None);
}

#[test]
fn a_blank_address_removes_the_proxy() {
    for url in [None, Some(""), Some(" \t\u{3000}")] {
        let mut service = service(Some("http://old"), Some("u0"), Some("p0"));
        assert!(store_proxy(&mut service, request(url, Some("u"), Some("p"))).is_none());
        assert_eq!(service.config.proxy_url, None);
        assert_eq!(service.config.proxy_username, None);
        assert_eq!(service.config.proxy_password, None);
    }
}

#[test]
fn changing_the_proxy_twice_is_changing_it_once() {
    let mut service = service(Some("http://old"), Some("u0"), Some("p0"));
    store_proxy(&mut service, request(Some(" http://new"), Some("u"), None));
    let first = (service.config.proxy_url.clone(), service.config.proxy_username.clone());
    store_proxy(&mut service, request(Some(" http://new"), Some("u"), None));
    assert_eq!(first, (service.config.proxy_url.clone(), service.config.proxy_username.clone()));
}

#[test]
fn a_proxy_goes_from_store_to_provider_to_the_others() {
    let mut service = service(None, None, None);
    let update = service.update_proxy_config(request(Some("http://new"), None, None));
    assert_eq!(update.config.proxy_url, some("http://new"));
    assert_eq!(service.config.proxy_url, None);
    let offer = match service.proxy_config_saved(update, Ok(()), true) {
        Ok(ProxyStep::UpdateProvider(offer)) => offer,
        other => panic!("{:?}", other),
    };
    assert_eq!(service.config.proxy_url, some("http://new"));
    let proxy = offer.provider_updated(Ok(())).unwrap();
    assert_eq!(proxy.unwrap().url, "http://new");

    let update = service.update_proxy_config(request(Some("http://new"), None, None));
    match service.proxy_config_saved(update, Ok(()), false) {
        Ok(ProxyStep::Announce(proxy)) => assert_eq!(proxy.unwrap().url, "http://new"),
        other => panic!("{:?}", other),
    }
}

#[test]
fn a_proxy_that_is_not_stored_changes_nothing() {
    for (url, user, password) in [
        (None, None, None),
        (Some("http://old"), None, None),
        (Some("http://old"), Some("u0"), Some("p0")),
    ] {
        for address in [Some("http://new"), None] {
            let mut service = service(url, user, password);
            let before = format!("{:?}", service.config);
            let update = service.update_proxy_config(request(address, Some("u"), Some("p")));
            match service.proxy_config_saved(update, Err("磁盘已满".to_string()), true) {
                Err(AdminServiceError::InternalError(m)) => assert_eq!(m, "磁盘已满"),
                other => panic!("{:?}", other),
            }
            assert_eq!(format!("{:?}", service.config), before);
            let shown = service.get_proxy_config();
            assert_eq!(shown.proxy_url, url.map(|u| u.to_string()));
            assert_eq!(shown.has_credentials, user.is_some());
            // The login of the request is not taken over by a later one.
            let proxy = store_proxy(&mut service, request(Some("http://later"), None, None));
            assert_eq!(proxy.unwrap().username, user.map(|u| u.to_string()));
        }
    }
}

#[test]
fn a_proxy_that_is_not_accepted() {
    let mut service = service(None, None, None);
    let update = service.update_proxy_config(request(Some("bad"), None, None));
    let offer = match service.proxy_config_saved(update, Ok(()), true) {
        Ok(ProxyStep::UpdateProvider(offer)) => offer,
        other => panic!("{:?}", other),
    };
    match offer.provider_updated(Err("unknown scheme".to_string())) {
        Err(AdminServiceError::InternalError(m)) => assert_eq!(m, "代理配置无效: unknown scheme"),
        other => panic!("{:?}", other),
    }
}

#[test]
fn the_configuration_is_shown() {
    let mut service = service(None, None, None);
    service.compression_config.max_history_turns = 60;
    let shown = service.get_global_config();
    assert_eq!(shown.region, "us-east-1");
    assert_eq!(shown.credential_rpm, Some(5));
    let c = shown.compression;
    assert!(c.enabled && c.whitespace_compression);
    assert_eq!(c.thinking_strategy, "discard");
    assert_eq!(
        [
            c.tool_result_max_chars,
            c.tool_result_head_lines,
            c.tool_result_tail_lines,
            c.tool_use_input_max_chars,
            c.tool_description_max_chars,
            // The compression in force is shown, not the stored one.
            c.max_history_turns,
            c.max_history_chars,
            c.max_request_body_bytes,
        ],
        [1, 2, 3, 4, 5, 60, 7, 8]
    );
}

#[test]
fn a_blank_region_is_refused() {
    for region in ["", "  \n"] {
        let service = service(None, None, None);
        let refused = service.update_global_config(UpdateGlobalConfigRequest {
            region: some(region),
            credential_rpm: Some(Some(9)),
            compression: Some(no_compression_change()),
        });
        match refused {
            Err(AdminServiceError::InvalidRequest(m)) => assert_eq!(m, "Region 不能为空"),
            other => panic!("{:?}", other),
        }
        assert_eq!(service.config.region, "us-east-1");
        assert_eq!(service.config.credential_rpm, Some(5));
    }
}

#[test]
fn a_change_takes_effect_once_it_is_stored() {
    let mut service = service(None, None, None);
    let mut change = no_compression_change();
    change.enabled = Some(false);
    change.thinking_strategy = some("keep");
    change.tool_result_max_chars = Some(10);
    change.tool_result_head_lines = Some(20);
    change.tool_result_tail_lines = Some(30);
    change.tool_use_input_max_chars = Some(40);
    change.tool_description_max_chars = Some(50);
    change.max_history_turns = Some(60);
    change.max_history_chars = Some(70);
    change.max_request_body_bytes = Some(80);
    let update = service
        .update_global_config(UpdateGlobalConfigRequest {
            region: some(" eu-west-1 "),
            credential_rpm: Some(None),
            compression: Some(change),
        })
        .unwrap();
    assert_eq!(update.config.region, "eu-west-1");
    assert_eq!(update.config.credential_rpm, None);
    assert_eq!(update.config.compression.max_request_body_bytes, 80);
    assert_eq!(service.config.region, "us-east-1");
    assert_eq!(service.config.compression.max_request_body_bytes, 8);
    assert_eq!(service.compression_config.max_request_body_bytes, 8);
    let changes = service.global_config_saved(update, Ok(())).unwrap();
    assert_eq!(service.config.region, "eu-west-1");
    assert_eq!(service.config.credential_rpm, None);
    assert_eq!(service.config.compression.max_request_body_bytes, 80);
    assert_eq!(changes.region, some("eu-west-1"));
    assert_eq!(changes.credential_rpm, Some(None));
    let c = &service.compression_config;
    assert!(!c.enabled);
    assert!(c.whitespace_compression);
    assert_eq!(c.thinking_strategy, "keep");
    assert_eq!(
        [
            c.tool_result_max_chars,
            c.tool_result_head_lines,
            c.tool_result_tail_lines,
            c.tool_use_input_max_chars,
            c.tool_description_max_chars,
            c.max_history_turns,
            c.max_history_chars,
            c.max_request_body_bytes,
        ],
        [10, 20, 30, 40, 50, 60, 70, 80]
    );
    assert_eq!(
        format!("{:?}", service.config.compression),
        format!("{:?}", service.compression_config)
    );
}

#[test]
fn a_change_that_is_not_stored_takes_no_effect() {
    let mut service = service(Some("http://p"), Some("u"), Some("p"));
    let before = format!("{:?} {:?}", service.config, service.compression_config);
    let shown = format!("{:?}", service.get_global_config());
    let mut change = no_compression_change();
    change.whitespace_compression = Some(false);
    let update = service
        .update_global_config(UpdateGlobalConfigRequest {
            region: some("eu-west-1"),
            credential_rpm: Some(None),
            compression: Some(change),
        })
        .unwrap();
    match service.global_config_saved(update, Err("只读".to_string())) {
        Err(AdminServiceError::InternalError(m)) => assert_eq!(m, "只读"),
        other => panic!("{:?}", other),
    }
    assert_eq!(format!("{:?} {:?}", service.config, service.compression_config), before);
    assert_eq!(format!("{:?}", service.get_global_config()), shown);
}

#[test]
fn what_a_request_does_not_name_stays() {
    let mut service = service(Some("http://p"), Some("u"), Some("p"));
    let before = format!("{:?}", service.config);
    let update = service
        .update_global_config(UpdateGlobalConfigRequest {
            region: None,
            credential_rpm: None,
            compression: None,
        })
        .unwrap();
    let changes = service.global_config_saved(update, Ok(())).unwrap();
    assert_eq!(format!("{:?}", service.config), before);
    assert_eq!(changes.region, None);
    assert_eq!(changes.credential_rpm, None);
}

#[test]
fn changing_the_configuration_twice_is_changing_it_once() {
    let mut service = service(None, None, None);
    let mut states = Vec::new();
    for _ in 0..2 {
        let mut change = no_compression_change();
        change.max_history_turns = Some(60);
        let update = service
            .update_global_config(UpdateGlobalConfigRequest {
                region: some(" eu-west-1"),
                credential_rpm: Some(Some(9)),
                compression: Some(change),
            })
            .unwrap();
        service.global_config_saved(update, Ok(())).unwrap();
        states.push(format!("{:?}", service.config));
    }
    assert_eq!(states[0], states[1]);
}
