//! The data that the service takes and gives.
use crate::amount::Amount;
use crate::sorting::SortKey;
use vstd::prelude::*;

verus! {

/// Copies an optional text.
pub fn copy_text(text: &Option<String>) -> (r: Option<String>)
    ensures
        r == *text,
{
    match text {
        Some(t) => Some(t.clone()),
        None => None,
    }
}

/// A credential as the token manager reports it.
#[derive(Debug)]
pub struct CredentialEntry {
    pub id: u64,
    pub priority: u32,
    pub disabled: bool,
    pub failure_count: u32,
    pub expires_at: Option<String>,
    pub auth_method: Option<String>,
    pub has_profile_arn: bool,
    pub refresh_token_hash: Option<String>,
    pub email: Option<String>,
    pub success_count: u64,
    pub last_used_at: Option<String>,
    pub region: Option<String>,
    pub api_region: Option<String>,
}

/// All credentials as the token manager reports them.
#[derive(Debug)]
pub struct ManagerSnapshot {
    pub entries: Vec<CredentialEntry>,
    pub total: usize,
    pub available: usize,
}

/// The status of one credential.
#[derive(Debug)]
pub struct CredentialStatusItem {
    pub id: u64,
    pub priority: u32,
    pub disabled: bool,
    pub failure_count: u32,
    pub expires_at: Option<String>,
    pub auth_method: Option<String>,
    pub has_profile_arn: bool,
    pub refresh_token_hash: Option<String>,
    pub email: Option<String>,
    pub success_count: u64,
    pub last_used_at: Option<String>,
    pub region: Option<String>,
    pub api_region: Option<String>,
}

impl SortKey for CredentialStatusItem {
    open spec fn sort_key(&self) -> int {
        self.priority as int
    }

    fn key(&self) -> (k: i128) {
        self.priority as i128
    }
}

/// The status of all credentials.
#[derive(Debug)]
pub struct CredentialsStatusResponse {
    pub total: usize,
    pub available: usize,
    pub credentials: Vec<CredentialStatusItem>,
}

/// A balance that the token manager remembers.
#[derive(Debug, Clone, Copy)]
pub struct CachedBalanceInfo {
    pub id: u64,
    pub remaining: Amount,
    pub cached_at: u64,
    pub ttl_secs: u64,
}

/// A remembered balance in an answer.
#[derive(Debug, Clone, Copy)]
pub struct CachedBalanceItem {
    pub id: u64,
    pub remaining: Amount,
    pub cached_at: u64,
    pub ttl_secs: u64,
}

/// All remembered balances.
#[derive(Debug)]
pub struct CachedBalancesResponse {
    pub balances: Vec<CachedBalanceItem>,
}

/// The balance of a credential.
#[derive(Debug)]
pub struct BalanceResponse {
    pub id: u64,
    pub subscription_title: Option<String>,
    pub current_usage: Amount,
    pub usage_limit: Amount,
    pub remaining: Amount,
    pub usage_percentage: Amount,
    pub next_reset_at: Option<Amount>,
}

impl Clone for BalanceResponse {
    fn clone(&self) -> (r: Self)
        ensures
            r == *self,
    {
        BalanceResponse {
            id: self.id,
            subscription_title: copy_text(&self.subscription_title),
            current_usage: self.current_usage,
            usage_limit: self.usage_limit,
            remaining: self.remaining,
            usage_percentage: self.usage_percentage,
            next_reset_at: self.next_reset_at,
        }
    }
}

/// What the upstream service reports of a credential's usage.
#[derive(Debug)]
pub struct UsageReading {
    pub current_usage: Amount,
    pub usage_limit: Amount,
    /// The limit less the usage.
    pub difference: Amount,
    /// The usage divided by the limit, times one hundred.
    pub ratio: Amount,
    pub subscription_title: Option<String>,
    pub email: Option<String>,
    pub next_reset_at: Option<Amount>,
}

/// One credential in the balance summary.
#[derive(Debug)]
pub struct BalanceSummaryItem {
    pub id: u64,
    pub remaining: Amount,
    pub disabled: bool,
    pub email: Option<String>,
    pub cached_at: Option<u64>,
}

impl SortKey for BalanceSummaryItem {
    open spec fn sort_key(&self) -> int {
        self.remaining.rank()
    }

    fn key(&self) -> (k: i128) {
        self.remaining.position() as i128
    }
}

/// A summary of the remembered balances; their sum and mean follow from `remainings`.
#[derive(Debug)]
pub struct BalanceSummary {
    pub total_credentials: usize,
    pub cached_count: usize,
    pub min_remaining: Option<Amount>,
    pub max_remaining: Option<Amount>,
    pub zero_balance_count: usize,
    pub low_balance_count: usize,
    pub remainings: Vec<Amount>,
    pub details: Vec<BalanceSummaryItem>,
}

/// A request to check credentials.
#[derive(Debug)]
pub struct BatchVerifyRequest {
    pub ids: Option<Vec<u64>>,
    pub concurrency: usize,
}

/// Which credentials to check, and how many at a time.
#[derive(Debug)]
pub struct BatchVerifyPlan {
    pub ids: Vec<u64>,
    pub concurrency: usize,
}

/// The outcome of one check.
#[derive(Debug)]
pub struct VerifyResultItem {
    pub id: u64,
    pub success: bool,
    pub remaining: Option<Amount>,
    pub error: Option<String>,
}

impl SortKey for VerifyResultItem {
    open spec fn sort_key(&self) -> int {
        self.id as int
    }

    fn key(&self) -> (k: i128) {
        self.id as i128
    }
}

/// The outcome of all checks.
#[derive(Debug)]
pub struct BatchVerifyResponse {
    pub total: usize,
    pub success: usize,
    pub failed: usize,
    pub results: Vec<VerifyResultItem>,
}

/// A credential as the token manager stores it.
#[derive(Debug)]
pub struct KiroCredentials {
    pub id: Option<u64>,
    pub access_token: Option<String>,
    pub refresh_token: Option<String>,
    pub profile_arn: Option<String>,
    pub expires_at: Option<String>,
    pub auth_method: Option<String>,
    pub client_id: Option<String>,
    pub client_secret: Option<String>,
    pub priority: u32,
    pub region: Option<String>,
    pub api_region: Option<String>,
    pub machine_id: Option<String>,
    pub email: Option<String>,
    pub subscription_title: Option<String>,
    pub proxy_url: Option<String>,
    pub proxy_username: Option<String>,
    pub proxy_password: Option<String>,
    pub disabled: bool,
}

/// A request to add a credential.
#[derive(Debug)]
pub struct AddCredentialRequest {
    pub refresh_token: String,
    pub auth_method: String,
    pub client_id: Option<String>,
    pub client_secret: Option<String>,
    pub priority: u32,
    pub region: Option<String>,
    pub api_region: Option<String>,
    pub machine_id: Option<String>,
    pub email: Option<String>,
    pub proxy_url: Option<String>,
    pub proxy_username: Option<String>,
    pub proxy_password: Option<String>,
}

/// The answer to a request to add a credential.
#[derive(Debug)]
pub struct AddCredentialResponse {
    pub success: bool,
    pub message: String,
    pub credential_id: u64,
    pub email: Option<String>,
}

/// One entry of a token file.
#[derive(Debug)]
pub struct TokenJsonItem {
    pub provider: Option<String>,
    pub refresh_token: Option<String>,
    pub client_id: Option<String>,
    pub client_secret: Option<String>,
    pub auth_method: Option<String>,
    pub priority: u32,
    pub region: Option<String>,
    pub api_region: Option<String>,
    pub machine_id: Option<String>,
}

/// What became of an entry.
#[derive(Debug, Clone, Copy, PartialEq, Eq, Structural)]
pub enum ImportAction {
    Added,
    Skipped,
    Invalid,
}

/// The outcome of importing one entry.
#[derive(Debug)]
pub struct ImportItemResult {
    pub index: usize,
    pub fingerprint: String,
    pub action: ImportAction,
    pub reason: Option<String>,
    pub credential_id: Option<u64>,
    pub email: Option<String>,
}

impl SortKey for ImportItemResult {
    open spec fn sort_key(&self) -> int {
        self.index as int
    }

    fn key(&self) -> (k: i128) {
        self.index as i128
    }
}

/// The outcome of importing one entry, as contracts speak of it.
pub struct ImportItemView {
    pub index: usize,
    pub fingerprint: Seq<char>,
    pub action: ImportAction,
    pub reason: Option<Seq<char>>,
    pub credential_id: Option<u64>,
    pub email: Option<Seq<char>>,
}

impl View for ImportItemResult {
    type V = ImportItemView;

    open spec fn view(&self) -> ImportItemView {
        ImportItemView {
            index: self.index,
            fingerprint: self.fingerprint@,
            action: self.action,
            reason: self.reason.deep_view(),
            credential_id: self.credential_id,
            email: self.email.deep_view(),
        }
    }
}

/// How many entries had which outcome.
#[derive(Debug, Clone, Copy, PartialEq, Eq, Structural)]
pub struct ImportSummary {
    pub parsed: usize,
    pub added: usize,
    pub skipped: usize,
    pub invalid: usize,
}

/// The outcome of an import.
#[derive(Debug)]
pub struct ImportTokenJsonResponse {
    pub summary: ImportSummary,
    pub items: Vec<ImportItemResult>,
}

/// Each list is sorted by what it is meant to be sorted by: credentials by their priority, the
/// summary by what is left, checks by the credential, and imports by their place in the file.
pub proof fn lists_are_sorted_by(
    status: CredentialStatusItem,
    detail: BalanceSummaryItem,
    check: VerifyResultItem,
    import: ImportItemResult,
)
    ensures
        status.sort_key() == status.priority,
        detail.sort_key() == detail.remaining.rank(),
        check.sort_key() == check.id,
        import.sort_key() == import.index,
{
}

/// Contracts speak of the outcome of an import as it is.
pub proof fn import_results_are_seen_as_they_are(result: ImportItemResult)
    ensures
        result@.index == result.index,
        result@.fingerprint == result.fingerprint@,
        result@.action == result.action,
        result.reason is None <==> result@.reason is None,
        result.reason is Some ==> result@.reason == Some(result.reason->0@),
        result@.credential_id == result.credential_id,
        result.email is None <==> result@.email is None,
        result.email is Some ==> result@.email == Some(result.email->0@),
{
}

} // verus!
