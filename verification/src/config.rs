//! Configuration that can be changed while the service runs.
//!
//! A change is first worked out and handed out to be stored, and the service stays as it is; only
//! after it was stored does the change take effect.  What was stored is then the configuration, so
//! one change is to be settled before the next is worked out.
use crate::error::{AdminServiceError, ErrorView};
use crate::service::AdminService;
use crate::text::{is_white_space, nonblank, preparing_a_text_trims_it, trim, trimmed};
use crate::types::copy_text;
use vstd::prelude::*;
use vstd::string::*;

verus! {

/// How requests are compressed.
#[derive(Debug)]
pub struct CompressionConfig {
    pub enabled: bool,
    pub whitespace_compression: bool,
    pub thinking_strategy: String,
    pub tool_result_max_chars: usize,
    pub tool_result_head_lines: usize,
    pub tool_result_tail_lines: usize,
    pub tool_use_input_max_chars: usize,
    pub tool_description_max_chars: usize,
    pub max_history_turns: usize,
    pub max_history_chars: usize,
    pub max_request_body_bytes: usize,
}

impl Clone for CompressionConfig {
    fn clone(&self) -> (r: Self)
        ensures
            r == *self,
    {
        CompressionConfig {
            enabled: self.enabled,
            whitespace_compression: self.whitespace_compression,
            thinking_strategy: self.thinking_strategy.clone(),
            tool_result_max_chars: self.tool_result_max_chars,
            tool_result_head_lines: self.tool_result_head_lines,
            tool_result_tail_lines: self.tool_result_tail_lines,
            tool_use_input_max_chars: self.tool_use_input_max_chars,
            tool_description_max_chars: self.tool_description_max_chars,
            max_history_turns: self.max_history_turns,
            max_history_chars: self.max_history_chars,
            max_request_body_bytes: self.max_request_body_bytes,
        }
    }
}

/// The stored configuration.
#[derive(Debug)]
pub struct Config {
    pub region: String,
    pub credential_rpm: Option<u32>,
    pub proxy_url: Option<String>,
    pub proxy_username: Option<String>,
    pub proxy_password: Option<String>,
    pub compression: CompressionConfig,
}

impl Clone for Config {
    fn clone(&self) -> (r: Self)
        ensures
            r == *self,
    {
        Config {
            region: self.region.clone(),
            credential_rpm: self.credential_rpm,
            proxy_url: copy_text(&self.proxy_url),
            proxy_username: copy_text(&self.proxy_username),
            proxy_password: copy_text(&self.proxy_password),
            compression: self.compression.clone(),
        }
    }
}

/// A proxy server.
#[derive(Debug)]
pub struct ProxyConfig {
    pub url: String,
    pub username: Option<String>,
    pub password: Option<String>,
}

/// A proxy server, as contracts speak of it.
pub struct ProxyView {
    pub url: Seq<char>,
    pub username: Option<Seq<char>>,
    pub password: Option<Seq<char>>,
}

impl View for ProxyConfig {
    type V = ProxyView;

    open spec fn view(&self) -> ProxyView {
        ProxyView {
            url: self.url@,
            username: self.username.deep_view(),
            password: self.password.deep_view(),
        }
    }
}

impl Clone for ProxyConfig {
    fn clone(&self) -> (r: Self)
        ensures
            r == *self,
    {
        ProxyConfig {
            url: self.url.clone(),
            username: copy_text(&self.username),
            password: copy_text(&self.password),
        }
    }
}

/// The proxy in the configuration, without its login.
#[derive(Debug)]
pub struct ProxyConfigResponse {
    pub proxy_url: Option<String>,
    pub has_credentials: bool,
}

/// A request to change the proxy.
#[derive(Debug)]
pub struct UpdateProxyConfigRequest {
    pub proxy_url: Option<String>,
    pub proxy_username: Option<String>,
    pub proxy_password: Option<String>,
}

/// The compression settings in an answer.
#[derive(Debug)]
pub struct CompressionConfigResponse {
    pub enabled: bool,
    pub whitespace_compression: bool,
    pub thinking_strategy: String,
    pub tool_result_max_chars: usize,
    pub tool_result_head_lines: usize,
    pub tool_result_tail_lines: usize,
    pub tool_use_input_max_chars: usize,
    pub tool_description_max_chars: usize,
    pub max_history_turns: usize,
    pub max_history_chars: usize,
    pub max_request_body_bytes: usize,
}

/// The configuration in an answer.
#[derive(Debug)]
pub struct GlobalConfigResponse {
    pub region: String,
    pub credential_rpm: Option<u32>,
    pub compression: CompressionConfigResponse,
}

/// A request to change compression settings; what is absent stays as it is.
#[derive(Debug)]
pub struct UpdateCompressionConfigRequest {
    pub enabled: Option<bool>,
    pub whitespace_compression: Option<bool>,
    pub thinking_strategy: Option<String>,
    pub tool_result_max_chars: Option<usize>,
    pub tool_result_head_lines: Option<usize>,
    pub tool_result_tail_lines: Option<usize>,
    pub tool_use_input_max_chars: Option<usize>,
    pub tool_description_max_chars: Option<usize>,
    pub max_history_turns: Option<usize>,
    pub max_history_chars: Option<usize>,
    pub max_request_body_bytes: Option<usize>,
}

/// A request to change the configuration; what is absent stays as it is.
#[derive(Debug)]
pub struct UpdateGlobalConfigRequest {
    pub region: Option<String>,
    pub credential_rpm: Option<Option<u32>>,
    pub compression: Option<UpdateCompressionConfigRequest>,
}

/// The new value if there is one, else the old.
pub open spec fn changed<T>(new: Option<T>, old_value: T) -> T {
    match new {
        Some(v) => v,
        None => old_value,
    }
}

/// Compression settings after a change.
pub open spec fn changed_compression(
    target: CompressionConfig,
    src: UpdateCompressionConfigRequest,
) -> CompressionConfig {
    CompressionConfig {
        enabled: changed(src.enabled, target.enabled),
        whitespace_compression: changed(src.whitespace_compression, target.whitespace_compression),
        thinking_strategy: changed(src.thinking_strategy, target.thinking_strategy),
        tool_result_max_chars: changed(src.tool_result_max_chars, target.tool_result_max_chars),
        tool_result_head_lines: changed(src.tool_result_head_lines, target.tool_result_head_lines),
        tool_result_tail_lines: changed(src.tool_result_tail_lines, target.tool_result_tail_lines),
        tool_use_input_max_chars: changed(
            src.tool_use_input_max_chars,
            target.tool_use_input_max_chars,
        ),
        tool_description_max_chars: changed(
            src.tool_description_max_chars,
            target.tool_description_max_chars,
        ),
        max_history_turns: changed(src.max_history_turns, target.max_history_turns),
        max_history_chars: changed(src.max_history_chars, target.max_history_chars),
        max_request_body_bytes: changed(src.max_request_body_bytes, target.max_request_body_bytes),
    }
}

/// Compression settings after a change that may be absent.
pub open spec fn maybe_changed_compression(
    target: CompressionConfig,
    src: Option<UpdateCompressionConfigRequest>,
) -> CompressionConfig {
    match src {
        Some(s) => changed_compression(target, s),
        None => target,
    }
}

/// Each setting that a change names has the named value afterwards, and each that it does not name
/// keeps its value.
pub proof fn named_settings_change_and_others_stay(
    target: CompressionConfig,
    src: UpdateCompressionConfigRequest,
)
    ensures
        src.enabled is Some ==> changed_compression(target, src).enabled
            == src.enabled->0,
        src.enabled is None ==> changed_compression(target, src).enabled
            == target.enabled,
        src.whitespace_compression is Some
            ==> changed_compression(target, src).whitespace_compression
            == src.whitespace_compression->0,
        src.whitespace_compression is None
            ==> changed_compression(target, src).whitespace_compression
            == target.whitespace_compression,
        src.thinking_strategy is Some ==> changed_compression(target, src).thinking_strategy
            == src.thinking_strategy->0,
        src.thinking_strategy is None ==> changed_compression(target, src).thinking_strategy
            == target.thinking_strategy,
        src.tool_result_max_chars is Some ==> changed_compression(target, src).tool_result_max_chars
            == src.tool_result_max_chars->0,
        src.tool_result_max_chars is None ==> changed_compression(target, src).tool_result_max_chars
            == target.tool_result_max_chars,
        src.tool_result_head_lines is Some
            ==> changed_compression(target, src).tool_result_head_lines
            == src.tool_result_head_lines->0,
        src.tool_result_head_lines is None
            ==> changed_compression(target, src).tool_result_head_lines
            == target.tool_result_head_lines,
        src.tool_result_tail_lines is Some
            ==> changed_compression(target, src).tool_result_tail_lines
            == src.tool_result_tail_lines->0,
        src.tool_result_tail_lines is None
            ==> changed_compression(target, src).tool_result_tail_lines
            == target.tool_result_tail_lines,
        src.tool_use_input_max_chars is Some
            ==> changed_compression(target, src).tool_use_input_max_chars
            == src.tool_use_input_max_chars->0,
        src.tool_use_input_max_chars is None
            ==> changed_compression(target, src).tool_use_input_max_chars
            == target.tool_use_input_max_chars,
        src.tool_description_max_chars is Some
            ==> changed_compression(target, src).tool_description_max_chars
            == src.tool_description_max_chars->0,
        src.tool_description_max_chars is None
            ==> changed_compression(target, src).tool_description_max_chars
            == target.tool_description_max_chars,
        src.max_history_turns is Some ==> changed_compression(target, src).max_history_turns
            == src.max_history_turns->0,
        src.max_history_turns is None ==> changed_compression(target, src).max_history_turns
            == target.max_history_turns,
        src.max_history_chars is Some ==> changed_compression(target, src).max_history_chars
            == src.max_history_chars->0,
        src.max_history_chars is None ==> changed_compression(target, src).max_history_chars
            == target.max_history_chars,
        src.max_request_body_bytes is Some
            ==> changed_compression(target, src).max_request_body_bytes
            == src.max_request_body_bytes->0,
        src.max_request_body_bytes is None
            ==> changed_compression(target, src).max_request_body_bytes
            == target.max_request_body_bytes,
{
}

/// Of two changes, one after the other, the later decides what both name.
pub proof fn later_change_decides(
    target: CompressionConfig,
    first: UpdateCompressionConfigRequest,
    second: UpdateCompressionConfigRequest,
)
    ensures
        ({
            let after = changed_compression(changed_compression(target, first), second);
            &&& after.enabled == if second.enabled is Some {
                second.enabled->0
            } else if first.enabled is Some {
                first.enabled->0
            } else {
                target.enabled
            }
            &&& after.whitespace_compression == if second.whitespace_compression is Some {
                second.whitespace_compression->0
            } else if first.whitespace_compression is Some {
                first.whitespace_compression->0
            } else {
                target.whitespace_compression
            }
            &&& after.thinking_strategy == if second.thinking_strategy is Some {
                second.thinking_strategy->0
            } else if first.thinking_strategy is Some {
                first.thinking_strategy->0
            } else {
                target.thinking_strategy
            }
            &&& after.tool_result_max_chars == if second.tool_result_max_chars is Some {
                second.tool_result_max_chars->0
            } else if first.tool_result_max_chars is Some {
                first.tool_result_max_chars->0
            } else {
                target.tool_result_max_chars
            }
            &&& after.tool_result_head_lines == if second.tool_result_head_lines is Some {
                second.tool_result_head_lines->0
            } else if first.tool_result_head_lines is Some {
                first.tool_result_head_lines->0
            } else {
                target.tool_result_head_lines
            }
            &&& after.tool_result_tail_lines == if second.tool_result_tail_lines is Some {
                second.tool_result_tail_lines->0
            } else if first.tool_result_tail_lines is Some {
                first.tool_result_tail_lines->0
            } else {
                target.tool_result_tail_lines
            }
            &&& after.tool_use_input_max_chars == if second.tool_use_input_max_chars is Some {
                second.tool_use_input_max_chars->0
            } else if first.tool_use_input_max_chars is Some {
                first.tool_use_input_max_chars->0
            } else {
                target.tool_use_input_max_chars
            }
            &&& after.tool_description_max_chars == if second.tool_description_max_chars is Some {
                second.tool_description_max_chars->0
            } else if first.tool_description_max_chars is Some {
                first.tool_description_max_chars->0
            } else {
                target.tool_description_max_chars
            }
            &&& after.max_history_turns == if second.max_history_turns is Some {
                second.max_history_turns->0
            } else if first.max_history_turns is Some {
                first.max_history_turns->0
            } else {
                target.max_history_turns
            }
            &&& after.max_history_chars == if second.max_history_chars is Some {
                second.max_history_chars->0
            } else if first.max_history_chars is Some {
                first.max_history_chars->0
            } else {
                target.max_history_chars
            }
            &&& after.max_request_body_bytes == if second.max_request_body_bytes is Some {
                second.max_request_body_bytes->0
            } else if first.max_request_body_bytes is Some {
                first.max_request_body_bytes->0
            } else {
                target.max_request_body_bytes
            }
        }),
{
}

/// Making the same change twice is making it once.
pub proof fn compression_change_is_idempotent(
    target: CompressionConfig,
    src: UpdateCompressionConfigRequest,
)
    ensures
        changed_compression(changed_compression(target, src), src) == changed_compression(
            target,
            src,
        ),
{
}

/// The user name and password for a new proxy: those of the request if it has both and neither is
/// blank, else those in use if there are both, else none.
pub open spec fn proxy_login(
    req: UpdateProxyConfigRequest,
    config: Config,
) -> (Option<Seq<char>>, Option<Seq<char>>) {
    let user = nonblank(req.proxy_username.deep_view());
    let password = nonblank(req.proxy_password.deep_view());
    if user is Some && password is Some {
        (user, password)
    } else if config.proxy_username is Some && config.proxy_password is Some {
        (config.proxy_username.deep_view(), config.proxy_password.deep_view())
    } else {
        (None, None)
    }
}

/// The proxy that a request asks for; a blank address asks for none.
pub open spec fn requested_proxy(req: UpdateProxyConfigRequest, config: Config) -> Option<
    ProxyView,
> {
    match nonblank(req.proxy_url.deep_view()) {
        Some(url) => {
            let (username, password) = proxy_login(req, config);
            Some(ProxyView { url, username, password })
        },
        None => None,
    }
}

/// `config` uses `proxy`.
pub open spec fn uses_proxy(config: Config, proxy: Option<ProxyView>) -> bool {
    match proxy {
        Some(p) => {
            &&& config.proxy_url.deep_view() == Some(p.url)
            &&& config.proxy_username.deep_view() == p.username
            &&& config.proxy_password.deep_view() == p.password
        },
        None => {
            &&& config.proxy_url is None
            &&& config.proxy_username is None
            &&& config.proxy_password is None
        },
    }
}

/// A proxy, if there is one, as contracts speak of it.
pub open spec fn proxy_view(proxy: Option<ProxyConfig>) -> Option<ProxyView> {
    match proxy {
        Some(p) => Some(p@),
        None => None,
    }
}

/// A change of the proxy that waits to be stored.
#[derive(Debug)]
pub struct ProxyUpdate {
    /// The configuration to store.
    pub config: Config,
    /// The proxy that it uses.
    pub proxy: Option<ProxyConfig>,
}

/// A stored change of the proxy that waits to be accepted by the provider.
#[derive(Debug)]
pub struct ProxyOffer {
    pub proxy: Option<ProxyConfig>,
}

/// What follows after a change of the proxy was stored.
#[derive(Debug)]
pub enum ProxyStep {
    /// The provider is to accept the proxy first.
    UpdateProvider(ProxyOffer),
    /// The proxy is to be handed to all who use it.
    Announce(Option<ProxyConfig>),
}

/// A change of the configuration that waits to be stored.
#[derive(Debug)]
pub struct GlobalUpdate {
    /// The configuration to store.
    pub config: Config,
    pub region_changed: bool,
    pub rpm_changed: bool,
    pub compression: Option<UpdateCompressionConfigRequest>,
}

/// What the token manager is to be told after a change of the configuration.
#[derive(Debug)]
pub struct RuntimeChanges {
    pub region: Option<String>,
    pub credential_rpm: Option<Option<u32>>,
}

/// `update` is the change that `req` asks for, to a service in the state `before`: only the proxy
/// changes.
pub open spec fn prepares_proxy(
    before: AdminService,
    req: UpdateProxyConfigRequest,
    update: ProxyUpdate,
) -> bool {
    &&& proxy_view(update.proxy) == requested_proxy(req, before.config)
    &&& uses_proxy(update.config, requested_proxy(req, before.config))
    &&& update.config.region == before.config.region
    &&& update.config.credential_rpm == before.config.credential_rpm
    &&& update.config.compression == before.config.compression
}

/// `after` is `before` once a change of the proxy was stored, or could not be: a change that was
/// not stored changes nothing.
pub open spec fn settles_proxy(
    before: AdminService,
    update: ProxyUpdate,
    saved: Result<(), String>,
    after: AdminService,
) -> bool {
    match saved {
        Ok(_) => {
            &&& after.config == update.config
            &&& after.compression_config == before.compression_config
            &&& after.balance_cache == before.balance_cache
        },
        Err(_) => after == before,
    }
}

/// A request to change the configuration is refused: its region is blank.
pub open spec fn refuses_global(req: UpdateGlobalConfigRequest) -> bool {
    req.region is Some && trimmed(req.region->0@).len() == 0
}

/// `update` is the change that `req` asks for, to a service in the state `before`: its
/// configuration, and what is to take effect once it is stored.
pub open spec fn prepares_global(
    before: AdminService,
    req: UpdateGlobalConfigRequest,
    update: GlobalUpdate,
) -> bool {
    &&& update.config.region@ == match req.region {
        Some(region) => trimmed(region@),
        None => before.config.region@,
    }
    &&& update.config.credential_rpm == changed(req.credential_rpm, before.config.credential_rpm)
    &&& update.config.compression == maybe_changed_compression(
        before.config.compression,
        req.compression,
    )
    &&& update.config.proxy_url == before.config.proxy_url
    &&& update.config.proxy_username == before.config.proxy_username
    &&& update.config.proxy_password == before.config.proxy_password
    &&& update.region_changed == (req.region is Some)
    &&& update.rpm_changed == (req.credential_rpm is Some)
    &&& update.compression == req.compression
}

/// `after` is `before` once a change of the configuration was stored, or could not be: a change
/// that was not stored changes nothing.
pub open spec fn settles_global(
    before: AdminService,
    update: GlobalUpdate,
    saved: Result<(), String>,
    after: AdminService,
) -> bool {
    match saved {
        Ok(_) => {
            &&& after.config == update.config
            &&& after.compression_config == maybe_changed_compression(
                before.compression_config,
                update.compression,
            )
            &&& after.balance_cache == before.balance_cache
        },
        Err(_) => after == before,
    }
}

/// `changes` is what the token manager is to be told of a stored change.
pub open spec fn announces_global(update: GlobalUpdate, changes: RuntimeChanges) -> bool {
    &&& changes.region == if update.region_changed {
        Some(update.config.region)
    } else {
        None
    }
    &&& changes.credential_rpm == if update.rpm_changed {
        Some(update.config.credential_rpm)
    } else {
        None
    }
}

/// Works out the proxy that a request asks for.
fn build_proxy(req: &UpdateProxyConfigRequest, config: &Config) -> (r: Option<ProxyConfig>)
    ensures
        proxy_view(r) == requested_proxy(*req, *config),
{
    let url = match &req.proxy_url {
        Some(url) => trim(url.as_str()),
        None => {
            return None;
        },
    };
    if url.is_empty() {
        return None;
    }
    match (&req.proxy_username, &req.proxy_password) {
        (Some(user), Some(password)) => {
            let user = trim(user.as_str());
            let password = trim(password.as_str());
            if !user.is_empty() && !password.is_empty() {
                return Some(
                    ProxyConfig {
                        url: url.to_owned(),
                        username: Some(user.to_owned()),
                        password: Some(password.to_owned()),
                    },
                );
            }
        },
        _ => {},
    }
    match (&config.proxy_username, &config.proxy_password) {
        (Some(user), Some(password)) => Some(
            ProxyConfig {
                url: url.to_owned(),
                username: Some(user.clone()),
                password: Some(password.clone()),
            },
        ),
        _ => Some(ProxyConfig { url: url.to_owned(), username: None, password: None }),
    }
}

impl AdminService {
    /// Changes those compression settings that a request names.
    pub fn apply_compression_fields(
        target: &mut CompressionConfig,
        src: &UpdateCompressionConfigRequest,
    )
        ensures
            *final(target) == changed_compression(*old(target), *src),
            src.enabled is Some ==> final(target).enabled == src.enabled->0,
            src.enabled is None ==> final(target).enabled == old(target).enabled,
            src.whitespace_compression is Some
                ==> final(target).whitespace_compression == src.whitespace_compression->0,
            src.whitespace_compression is None
                ==> final(target).whitespace_compression == old(target).whitespace_compression,
            src.thinking_strategy is Some
                ==> final(target).thinking_strategy == src.thinking_strategy->0,
            src.thinking_strategy is None
                ==> final(target).thinking_strategy == old(target).thinking_strategy,
            src.tool_result_max_chars is Some
                ==> final(target).tool_result_max_chars == src.tool_result_max_chars->0,
            src.tool_result_max_chars is None
                ==> final(target).tool_result_max_chars == old(target).tool_result_max_chars,
            src.tool_result_head_lines is Some
                ==> final(target).tool_result_head_lines == src.tool_result_head_lines->0,
            src.tool_result_head_lines is None
                ==> final(target).tool_result_head_lines == old(target).tool_result_head_lines,
            src.tool_result_tail_lines is Some
                ==> final(target).tool_result_tail_lines == src.tool_result_tail_lines->0,
            src.tool_result_tail_lines is None
                ==> final(target).tool_result_tail_lines == old(target).tool_result_tail_lines,
            src.tool_use_input_max_chars is Some
                ==> final(target).tool_use_input_max_chars == src.tool_use_input_max_chars->0,
            src.tool_use_input_max_chars is None
                ==> final(target).tool_use_input_max_chars == old(target).tool_use_input_max_chars,
            src.tool_description_max_chars is Some
                ==> final(target).tool_description_max_chars == src.tool_description_max_chars->0,
            src.tool_description_max_chars is None
                ==> final(target).tool_description_max_chars == old(target).tool_description_max_chars,
            src.max_history_turns is Some
                ==> final(target).max_history_turns == src.max_history_turns->0,
            src.max_history_turns is None
                ==> final(target).max_history_turns == old(target).max_history_turns,
            src.max_history_chars is Some
                ==> final(target).max_history_chars == src.max_history_chars->0,
            src.max_history_chars is None
                ==> final(target).max_history_chars == old(target).max_history_chars,
            src.max_request_body_bytes is Some
                ==> final(target).max_request_body_bytes == src.max_request_body_bytes->0,
            src.max_request_body_bytes is None
                ==> final(target).max_request_body_bytes == old(target).max_request_body_bytes,
    {
        if let Some(v) = src.enabled {
            target.enabled = v;
        }
        if let Some(v) = src.whitespace_compression {
            target.whitespace_compression = v;
        }
        if let Some(v) = &src.thinking_strategy {
            target.thinking_strategy = v.clone();
        }
        if let Some(v) = src.tool_result_max_chars {
            target.tool_result_max_chars = v;
        }
        if let Some(v) = src.tool_result_head_lines {
            target.tool_result_head_lines = v;
        }
        if let Some(v) = src.tool_result_tail_lines {
            target.tool_result_tail_lines = v;
        }
        if let Some(v) = src.tool_use_input_max_chars {
            target.tool_use_input_max_chars = v;
        }
        if let Some(v) = src.tool_description_max_chars {
            target.tool_description_max_chars = v;
        }
        if let Some(v) = src.max_history_turns {
            target.max_history_turns = v;
        }
        if let Some(v) = src.max_history_chars {
            target.max_history_chars = v;
        }
        if let Some(v) = src.max_request_body_bytes {
            target.max_request_body_bytes = v;
        }
    }

    /// The proxy in the configuration: its address, and whether it has a user name and a password.
    pub fn get_proxy_config(&self) -> (r: ProxyConfigResponse)
        ensures
            r.proxy_url == self.config.proxy_url,
            r.has_credentials == (self.config.proxy_username is Some
                && self.config.proxy_password is Some),
    {
        ProxyConfigResponse {
            proxy_url: copy_text(&self.config.proxy_url),
            has_credentials: self.config.proxy_username.is_some()
                && self.config.proxy_password.is_some(),
        }
    }

    /// The configuration, with the compression in force.
    pub fn get_global_config(&self) -> (r: GlobalConfigResponse)
        ensures
            r == (GlobalConfigResponse {
                region: self.config.region,
                credential_rpm: self.config.credential_rpm,
                compression: CompressionConfigResponse {
                    enabled: self.compression_config.enabled,
                    whitespace_compression: self.compression_config.whitespace_compression,
                    thinking_strategy: self.compression_config.thinking_strategy,
                    tool_result_max_chars: self.compression_config.tool_result_max_chars,
                    tool_result_head_lines: self.compression_config.tool_result_head_lines,
                    tool_result_tail_lines: self.compression_config.tool_result_tail_lines,
                    tool_use_input_max_chars: self.compression_config.tool_use_input_max_chars,
                    tool_description_max_chars: self.compression_config.tool_description_max_chars,
                    max_history_turns: self.compression_config.max_history_turns,
                    max_history_chars: self.compression_config.max_history_chars,
                    max_request_body_bytes: self.compression_config.max_request_body_bytes,
                },
            }),
    {
        let c = &self.compression_config;
        GlobalConfigResponse {
            region: self.config.region.clone(),
            credential_rpm: self.config.credential_rpm,
            compression: CompressionConfigResponse {
                enabled: c.enabled,
                whitespace_compression: c.whitespace_compression,
                thinking_strategy: c.thinking_strategy.clone(),
                tool_result_max_chars: c.tool_result_max_chars,
                tool_result_head_lines: c.tool_result_head_lines,
                tool_result_tail_lines: c.tool_result_tail_lines,
                tool_use_input_max_chars: c.tool_use_input_max_chars,
                tool_description_max_chars: c.tool_description_max_chars,
                max_history_turns: c.max_history_turns,
                max_history_chars: c.max_history_chars,
                max_request_body_bytes: c.max_request_body_bytes,
            },
        }
    }

    /// Works out a change of the proxy, whose configuration is then to be stored.  The service
    /// stays as it is until it was.
    pub fn update_proxy_config(&self, req: UpdateProxyConfigRequest) -> (r: ProxyUpdate)
        ensures
            prepares_proxy(*self, req, r),
            r.proxy is None <==> req.proxy_url is None || trimmed(req.proxy_url->0@).len() == 0,
            r.proxy is Some ==> {
                &&& r.proxy->0.url@ == trimmed(req.proxy_url->0@)
                &&& r.config.proxy_url is Some && r.config.proxy_url->0@ == r.proxy->0.url@
            },
            r.proxy is None ==> r.config.proxy_url is None && r.config.proxy_username is None
                && r.config.proxy_password is None,
            r.config.region == self.config.region,
            r.config.credential_rpm == self.config.credential_rpm,
            r.config.compression == self.config.compression,
    {
        let proxy = build_proxy(&req, &self.config);
        let mut config = self.config.clone();
        match &proxy {
            Some(p) => {
                config.proxy_url = Some(p.url.clone());
                config.proxy_username = copy_text(&p.username);
                config.proxy_password = copy_text(&p.password);
            },
            None => {
                config.proxy_url = None;
                config.proxy_username = None;
                config.proxy_password = None;
            },
        }
        ProxyUpdate { config, proxy }
    }

    /// Goes on with a change of the proxy once its configuration was stored, or could not be.  A
    /// stored change takes effect and goes to the provider first, if there is one; one that was not
    /// stored leaves the service as it was.
    pub fn proxy_config_saved(
        &mut self,
        update: ProxyUpdate,
        saved: Result<(), String>,
        has_provider: bool,
    ) -> (r: Result<ProxyStep, AdminServiceError>)
        ensures
            settles_proxy(*old(self), update, saved, *final(self)),
            match saved {
                Ok(_) => r == Ok::<ProxyStep, AdminServiceError>(
                    if has_provider {
                        ProxyStep::UpdateProvider(ProxyOffer { proxy: update.proxy })
                    } else {
                        ProxyStep::Announce(update.proxy)
                    },
                ),
                Err(message) => r is Err && r->Err_0@ == ErrorView::InternalError(message@),
            },
    {
        match saved {
            Err(message) => Err(AdminServiceError::InternalError(message)),
            Ok(_) => {
                self.config = update.config;
                if has_provider {
                    Ok(ProxyStep::UpdateProvider(ProxyOffer { proxy: update.proxy }))
                } else {
                    Ok(ProxyStep::Announce(update.proxy))
                }
            },
        }
    }

    /// Works out a change of the configuration, which is then to be stored.  The service stays as
    /// it is until it was.  A blank region is refused.
    pub fn update_global_config(&self, req: UpdateGlobalConfigRequest) -> (r: Result<
        GlobalUpdate,
        AdminServiceError,
    >)
        ensures
            r is Err <==> refuses_global(req),
            match r {
                Ok(update) => prepares_global(*self, req, update),
                Err(error) => error@ == ErrorView::InvalidRequest("Region 不能为空"@),
            },
    {
        let mut config = self.config.clone();
        let region_changed = req.region.is_some();
        if let Some(region) = &req.region {
            let inner = trim(region.as_str());
            if inner.is_empty() {
                return Err(AdminServiceError::InvalidRequest("Region 不能为空".to_owned()));
            }
            config.region = inner.to_owned();
        }
        let rpm_changed = req.credential_rpm.is_some();
        if let Some(rpm) = req.credential_rpm {
            config.credential_rpm = rpm;
        }
        if let Some(c) = &req.compression {
            Self::apply_compression_fields(&mut config.compression, c);
        }
        Ok(GlobalUpdate { config, region_changed, rpm_changed, compression: req.compression })
    }

    /// Goes on with a change of the configuration once it was stored, or could not be.  A stored
    /// change takes effect, and the token manager is to be told; one that was not stored leaves the
    /// service as it was.
    pub fn global_config_saved(&mut self, update: GlobalUpdate, saved: Result<(), String>) -> (r:
        Result<RuntimeChanges, AdminServiceError>)
        ensures
            settles_global(*old(self), update, saved, *final(self)),
            match saved {
                Ok(_) => r is Ok && announces_global(update, r->Ok_0),
                Err(message) => r is Err && r->Err_0@ == ErrorView::InternalError(message@),
            },
    {
        match saved {
            Ok(_) => {},
            Err(message) => {
                return Err(AdminServiceError::InternalError(message));
            },
        }
        let region = if update.region_changed {
            Some(update.config.region.clone())
        } else {
            None
        };
        let credential_rpm = if update.rpm_changed {
            Some(update.config.credential_rpm)
        } else {
            None
        };
        if let Some(c) = &update.compression {
            Self::apply_compression_fields(&mut self.compression_config, c);
        }
        self.config = update.config;
        Ok(RuntimeChanges { region, credential_rpm })
    }
}

impl ProxyOffer {
    /// Goes on once the provider accepted the proxy, or did not: only an accepted proxy is handed
    /// to the others.
    pub fn provider_updated(self, accepted: Result<(), String>) -> (r: Result<
        Option<ProxyConfig>,
        AdminServiceError,
    >)
        ensures
            match accepted {
                Ok(_) => r == Ok::<Option<ProxyConfig>, AdminServiceError>(self.proxy),
                Err(message) => r is Err && r->Err_0@ == ErrorView::InternalError(
                    "代理配置无效: "@ + message@,
                ),
            },
    {
        match accepted {
            Ok(_) => Ok(self.proxy),
            Err(message) => Err(
                AdminServiceError::InternalError(
                    "代理配置无效: ".to_owned().concat(message.as_str()),
                ),
            ),
        }
    }
}

/// A change of the proxy that could not be stored leaves the service as it was; nothing of it shows
/// in what a later request asks for.
pub proof fn unstored_proxy_change_changes_nothing(
    before: AdminService,
    req: UpdateProxyConfigRequest,
    update: ProxyUpdate,
    saved: Result<(), String>,
    after: AdminService,
    later: UpdateProxyConfigRequest,
)
    requires
        prepares_proxy(before, req, update),
        saved is Err,
        settles_proxy(before, update, saved, after),
    ensures
        after == before,
        requested_proxy(later, after.config) == requested_proxy(later, before.config),
{
}

/// A change of the proxy that was stored is in the configuration, and nothing else changes.
pub proof fn stored_proxy_change_takes_effect(
    before: AdminService,
    req: UpdateProxyConfigRequest,
    update: ProxyUpdate,
    saved: Result<(), String>,
    after: AdminService,
)
    requires
        prepares_proxy(before, req, update),
        saved is Ok,
        settles_proxy(before, update, saved, after),
    ensures
        uses_proxy(after.config, requested_proxy(req, before.config)),
        after.config.region == before.config.region,
        after.config.credential_rpm == before.config.credential_rpm,
        after.config.compression == before.config.compression,
        after.compression_config == before.compression_config,
        after.balance_cache == before.balance_cache,
{
}

/// A change of the configuration that could not be stored leaves the service as it was; nothing of
/// it shows in a later change.
pub proof fn unstored_global_change_changes_nothing(
    before: AdminService,
    req: UpdateGlobalConfigRequest,
    update: GlobalUpdate,
    saved: Result<(), String>,
    after: AdminService,
    later: UpdateGlobalConfigRequest,
    next: GlobalUpdate,
)
    requires
        prepares_global(before, req, update),
        saved is Err,
        settles_global(before, update, saved, after),
    ensures
        after == before,
        prepares_global(after, later, next) <==> prepares_global(before, later, next),
{
}

/// A request without an address, or with a blank one, removes the proxy and its login.
pub proof fn blank_address_removes_the_proxy(
    req: UpdateProxyConfigRequest,
    before: Config,
    after: Config,
)
    requires
        req.proxy_url is None || trimmed(req.proxy_url->0@).len() == 0,
        uses_proxy(after, requested_proxy(req, before)),
    ensures
        after.proxy_url is None,
        after.proxy_username is None,
        after.proxy_password is None,
{
}

/// A request for a proxy is a request for its address without outer white space; the configuration
/// then has that address.
pub proof fn address_is_taken_over(req: UpdateProxyConfigRequest, before: Config, after: Config)
    requires
        req.proxy_url is Some && trimmed(req.proxy_url->0@).len() > 0,
        uses_proxy(after, requested_proxy(req, before)),
    ensures
        requested_proxy(req, before) is Some,
        requested_proxy(req, before)->0.url == trimmed(req.proxy_url->0@),
        after.proxy_url is Some,
        after.proxy_url->0@ == trimmed(req.proxy_url->0@),
{
}

/// A request with a user name and a password, neither of them blank, puts both in use without outer
/// white space, whatever login there was.
pub proof fn given_login_is_used(req: UpdateProxyConfigRequest, before: Config, after: Config)
    requires
        req.proxy_url is Some && trimmed(req.proxy_url->0@).len() > 0,
        req.proxy_username is Some && trimmed(req.proxy_username->0@).len() > 0,
        req.proxy_password is Some && trimmed(req.proxy_password->0@).len() > 0,
        uses_proxy(after, requested_proxy(req, before)),
    ensures
        after.proxy_username is Some && after.proxy_username->0@ == trimmed(
            req.proxy_username->0@,
        ),
        after.proxy_password is Some && after.proxy_password->0@ == trimmed(
            req.proxy_password->0@,
        ),
        requested_proxy(req, before)->0.username == Some(trimmed(req.proxy_username->0@)),
        requested_proxy(req, before)->0.password == Some(trimmed(req.proxy_password->0@)),
{
}

/// Where neither the request nor the configuration has a complete login, the new proxy has none.
pub proof fn half_a_login_is_none(req: UpdateProxyConfigRequest, before: Config, after: Config)
    requires
        req.proxy_username is None || trimmed(req.proxy_username->0@).len() == 0
            || req.proxy_password is None || trimmed(req.proxy_password->0@).len() == 0,
        before.proxy_username is None || before.proxy_password is None,
        uses_proxy(after, requested_proxy(req, before)),
    ensures
        after.proxy_username is None,
        after.proxy_password is None,
{
}

/// What is handed to those who use the proxy is what the configuration then has.
pub proof fn announced_proxy_is_the_stored_one(
    before: AdminService,
    req: UpdateProxyConfigRequest,
    update: ProxyUpdate,
)
    requires
        prepares_proxy(before, req, update),
    ensures
        update.proxy is None <==> update.config.proxy_url is None,
        update.proxy is Some ==> {
            let proxy = update.proxy->0;
            &&& update.config.proxy_url->0@ == proxy.url@
            &&& update.config.proxy_username.deep_view() == proxy.username.deep_view()
            &&& update.config.proxy_password.deep_view() == proxy.password.deep_view()
        },
{
}

/// Exactly a request with a region of nothing but white space is refused.
pub proof fn only_blank_regions_are_refused(req: UpdateGlobalConfigRequest)
    ensures
        req.region is None ==> !refuses_global(req),
        req.region is Some ==> (refuses_global(req) <==> forall|k: int|
            0 <= k < req.region->0@.len() ==> is_white_space(#[trigger] req.region->0@[k])),
{
    if req.region is Some {
        preparing_a_text_trims_it(req.region->0@);
    }
}

/// A request that has no complete login keeps the login in use.
pub proof fn login_is_kept(req: UpdateProxyConfigRequest, before: Config, after: Config)
    requires
        req.proxy_url is Some && trimmed(req.proxy_url->0@).len() > 0,
        nonblank(req.proxy_username.deep_view()) is None || nonblank(
            req.proxy_password.deep_view(),
        ) is None,
        before.proxy_username is Some && before.proxy_password is Some,
        uses_proxy(after, requested_proxy(req, before)),
    ensures
        after.proxy_url.deep_view() == Some(trimmed(req.proxy_url->0@)),
        after.proxy_username.deep_view() == before.proxy_username.deep_view(),
        after.proxy_password.deep_view() == before.proxy_password.deep_view(),
{
}

/// After any change of the proxy, there is a user name exactly if there is a password.
pub proof fn login_is_complete_or_absent(
    req: UpdateProxyConfigRequest,
    before: Config,
    after: Config,
)
    requires
        uses_proxy(after, requested_proxy(req, before)),
    ensures
        after.proxy_username is Some <==> after.proxy_password is Some,
        after.proxy_url is None ==> after.proxy_username is None,
{
}

/// Making the same change of the proxy twice is making it once.
pub proof fn proxy_change_is_idempotent(
    req: UpdateProxyConfigRequest,
    before: Config,
    after: Config,
)
    requires
        uses_proxy(after, requested_proxy(req, before)),
    ensures
        requested_proxy(req, after) == requested_proxy(req, before),
{
}

/// What a request changes is what takes effect once it was stored: it is in the configuration, the
/// token manager is told the new region and rate, and no others; and if the compression in force
/// was the stored one, it still is.
pub proof fn stored_change_takes_effect(
    before: AdminService,
    req: UpdateGlobalConfigRequest,
    update: GlobalUpdate,
    saved: Result<(), String>,
    after: AdminService,
    changes: RuntimeChanges,
)
    requires
        prepares_global(before, req, update),
        saved is Ok,
        settles_global(before, update, saved, after),
        announces_global(update, changes),
    ensures
        after.config == update.config,
        changes.region.deep_view() == match req.region {
            Some(region) => Some(trimmed(region@)),
            None => None,
        },
        changes.credential_rpm == req.credential_rpm,
        after.config.region@ == match req.region {
            Some(region) => trimmed(region@),
            None => before.config.region@,
        },
        req.credential_rpm is Some ==> after.config.credential_rpm == req.credential_rpm->0,
        req.credential_rpm is None ==> after.config.credential_rpm == before.config.credential_rpm,
        req.compression is Some ==> {
            &&& after.config.compression == changed_compression(
                before.config.compression,
                req.compression->0,
            )
            &&& after.compression_config == changed_compression(
                before.compression_config,
                req.compression->0,
            )
        },
        req.compression is None ==> {
            &&& after.config.compression == before.config.compression
            &&& after.compression_config == before.compression_config
        },
        after.config.proxy_url == before.config.proxy_url,
        after.config.proxy_username == before.config.proxy_username,
        after.config.proxy_password == before.config.proxy_password,
        after.balance_cache == before.balance_cache,
        before.config.compression == before.compression_config ==> after.config.compression
            == after.compression_config,
{
}

/// Making the same change of the configuration twice is making it once.
pub proof fn global_change_is_idempotent(
    before: AdminService,
    req: UpdateGlobalConfigRequest,
    first: GlobalUpdate,
    once: AdminService,
    second: GlobalUpdate,
)
    requires
        prepares_global(before, req, first),
        once.config == first.config,
        prepares_global(once, req, second),
    ensures
        second.config.region@ == first.config.region@,
        second.config.credential_rpm == first.config.credential_rpm,
        second.config.compression == first.config.compression,
{
}

} // verus!
