//! The service: its state, and what it answers to simple requests.
//!
//! The token manager is asked from outside.  What it says comes here as a plain value, and with a
//! failure comes its message.
use crate::balance::{is_clock_reading, loaded, CachedBalance};
use crate::classify::{add_failure, delete_failure, simple_failure};
use crate::config::{CompressionConfig, Config};
use crate::error::AdminServiceError;
use crate::sorting::{
    ordered_items_stay, same_items_are_found, sorted_lists_ascend, stable_sort, stably_sorted,
    SortKey,
};
use crate::text::{
    decimal, decimal_text, has_part, nonblank, nonblank_text, trimmed, trimming_is_idempotent,
};
use crate::types::{
    copy_text, AddCredentialRequest, AddCredentialResponse, CredentialEntry, CredentialStatusItem,
    CredentialsStatusResponse, KiroCredentials, ManagerSnapshot,
};
use std::collections::HashMap;
use vstd::prelude::*;
use vstd::string::*;

verus! {

broadcast use vstd::std_specs::hash::group_hash_axioms;

/// The administration service: what it remembers and decides.
pub struct AdminService {
    /// The stored configuration.
    pub config: Config,
    /// The compression in force.
    pub compression_config: CompressionConfig,
    /// The balances that were fetched last, by credential.
    pub balance_cache: HashMap<u64, CachedBalance>,
}

/// A change of one credential that the token manager is to make.
#[derive(Debug)]
pub enum ManagerCommand {
    SetDisabled { id: u64, disabled: bool },
    SetPriority { id: u64, priority: u32 },
    SetRegion { id: u64, region: Option<String>, api_region: Option<String> },
    ResetAndEnable { id: u64 },
}

/// A new credential that waits to be added.
#[derive(Debug)]
pub struct PendingCredential {
    pub email: Option<String>,
}

/// The status of a credential.
pub open spec fn status_of(entry: CredentialEntry) -> CredentialStatusItem {
    CredentialStatusItem {
        id: entry.id,
        priority: entry.priority,
        disabled: entry.disabled,
        failure_count: entry.failure_count,
        expires_at: entry.expires_at,
        auth_method: entry.auth_method,
        has_profile_arn: entry.has_profile_arn,
        refresh_token_hash: entry.refresh_token_hash,
        email: entry.email,
        success_count: entry.success_count,
        last_used_at: entry.last_used_at,
        region: entry.region,
        api_region: entry.api_region,
    }
}

/// The status of every credential, in the order in which the token manager lists them.
pub open spec fn statuses_of(entries: Seq<CredentialEntry>) -> Seq<CredentialStatusItem> {
    entries.map_values(|e: CredentialEntry| status_of(e))
}

/// `r` is the answer to a simple operation on credential `id` with the given outcome.
pub open spec fn answers_simply(
    outcome: Result<(), String>,
    id: u64,
    r: Result<(), AdminServiceError>,
) -> bool {
    match outcome {
        Ok(_) => r is Ok,
        Err(message) => r is Err && r->Err_0@ == simple_failure(message@, id),
    }
}

/// The credential that a request asks to add: it is enabled and has no id yet.
pub open spec fn requested_credential(req: AddCredentialRequest) -> KiroCredentials {
    KiroCredentials {
        id: None,
        access_token: None,
        refresh_token: Some(req.refresh_token),
        profile_arn: None,
        expires_at: None,
        auth_method: Some(req.auth_method),
        client_id: req.client_id,
        client_secret: req.client_secret,
        priority: req.priority,
        region: req.region,
        api_region: req.api_region,
        machine_id: req.machine_id,
        email: req.email,
        subscription_title: None,
        proxy_url: req.proxy_url,
        proxy_username: req.proxy_username,
        proxy_password: req.proxy_password,
        disabled: false,
    }
}

impl AdminService {
    /// Starts the service with its configuration and the balances that were stored.
    pub fn new(
        config: Config,
        compression_config: CompressionConfig,
        stored: Vec<(String, CachedBalance)>,
    ) -> (r: Self)
        ensures
            r.config == config,
            r.compression_config == compression_config,
            exists|now: i64| r.balance_cache@ == #[trigger] loaded(stored@, now),
            exists|now: i64| #[trigger]
                is_clock_reading(now) && r.balance_cache@ == loaded(stored@, now),
    {
        let balance_cache = Self::load_balance_cache_from(stored);
        AdminService { config, compression_config, balance_cache }
    }

    /// Lists all credentials, those with the lowest priority number first.
    pub fn get_all_credentials(snapshot: ManagerSnapshot) -> (r: CredentialsStatusResponse)
        ensures
            r.total == snapshot.total,
            r.available == snapshot.available,
            stably_sorted(statuses_of(snapshot.entries@), r.credentials@),
            r.credentials@.to_multiset() == statuses_of(snapshot.entries@).to_multiset(),
            r.credentials@.len() == snapshot.entries@.len(),
            forall|i: int, j: int|
                #![trigger r.credentials@[i], r.credentials@[j]]
                0 <= i <= j < r.credentials@.len() ==> r.credentials@[i].priority
                    <= r.credentials@[j].priority,
    {
        let total: usize = snapshot.total;
        let available: usize = snapshot.available;
        let entries = snapshot.entries;
        let ghost all = entries@;
        let mut credentials: Vec<CredentialStatusItem> = Vec::new();
        for entry in iter: entries
            invariant
                iter.seq() == all,
                credentials@ == statuses_of(all.take(iter.index() as int)),
        {
            let ghost i = iter.index() as int;
            credentials.push(
                CredentialStatusItem {
                    id: entry.id,
                    priority: entry.priority,
                    disabled: entry.disabled,
                    failure_count: entry.failure_count,
                    expires_at: entry.expires_at,
                    auth_method: entry.auth_method,
                    has_profile_arn: entry.has_profile_arn,
                    refresh_token_hash: entry.refresh_token_hash,
                    email: entry.email,
                    success_count: entry.success_count,
                    last_used_at: entry.last_used_at,
                    region: entry.region,
                    api_region: entry.api_region,
                },
            );
            assert(credentials@ =~= statuses_of(all.take(i + 1)));
        }
        assert(all.take(all.len() as int) =~= all);
        let ghost listed = credentials@;
        let credentials = stable_sort(credentials);
        proof {
            assert forall|i: int, j: int|
                #![trigger credentials@[i], credentials@[j]]
                0 <= i <= j < credentials@.len() implies credentials@[i].priority
                <= credentials@[j].priority by {
                sorted_lists_ascend(listed, credentials@, i, j);
            }
        }
        CredentialsStatusResponse { total, available, credentials }
    }

    /// Disables or enables a credential.
    pub fn set_disabled(id: u64, disabled: bool) -> (r: ManagerCommand)
        ensures
            r == (ManagerCommand::SetDisabled { id, disabled }),
    {
        ManagerCommand::SetDisabled { id, disabled }
    }

    /// Sets the priority of a credential.
    pub fn set_priority(id: u64, priority: u32) -> (r: ManagerCommand)
        ensures
            r == (ManagerCommand::SetPriority { id, priority }),
    {
        ManagerCommand::SetPriority { id, priority }
    }

    /// Sets the regions of a credential: white space around them is dropped, and a blank region is
    /// none.
    pub fn set_region(id: u64, region: Option<String>, api_region: Option<String>) -> (r:
        ManagerCommand)
        ensures
            r is SetRegion,
            r.credential() == id,
            r->SetRegion_region.deep_view() == nonblank(region.deep_view()),
            r->SetRegion_api_region.deep_view() == nonblank(api_region.deep_view()),
            r->SetRegion_region is None <==> region is None || trimmed(region->0@).len() == 0,
            r->SetRegion_region is Some ==> r->SetRegion_region->0@ == trimmed(region->0@),
            r->SetRegion_api_region is None <==> api_region is None || trimmed(
                api_region->0@,
            ).len() == 0,
            r->SetRegion_api_region is Some ==> r->SetRegion_api_region->0@ == trimmed(
                api_region->0@,
            ),
    {
        ManagerCommand::SetRegion {
            id,
            region: nonblank_text(region),
            api_region: nonblank_text(api_region),
        }
    }

    /// Forgets the failures of a credential and enables it.
    pub fn reset_and_enable(id: u64) -> (r: ManagerCommand)
        ensures
            r == (ManagerCommand::ResetAndEnable { id }),
    {
        ManagerCommand::ResetAndEnable { id }
    }

    /// Makes the credential that a request asks to add.
    pub fn add_credential(req: AddCredentialRequest) -> (r: (KiroCredentials, PendingCredential))
        ensures
            r.0 == requested_credential(req),
            r.1.email == req.email,
    {
        let email = copy_text(&req.email);
        (
            KiroCredentials {
                id: None,
                access_token: None,
                refresh_token: Some(req.refresh_token),
                profile_arn: None,
                expires_at: None,
                auth_method: Some(req.auth_method),
                client_id: req.client_id,
                client_secret: req.client_secret,
                priority: req.priority,
                region: req.region,
                api_region: req.api_region,
                machine_id: req.machine_id,
                email: req.email,
                subscription_title: None,
                proxy_url: req.proxy_url,
                proxy_username: req.proxy_username,
                proxy_password: req.proxy_password,
                disabled: false,
            },
            PendingCredential { email },
        )
    }

    /// Answers once a credential was deleted, or could not be; with the credential goes its
    /// remembered balance.
    pub fn delete_credential(&mut self, id: u64, outcome: Result<(), String>) -> (r: Result<
        (),
        AdminServiceError,
    >)
        ensures
            match outcome {
                Ok(_) => {
                    &&& r is Ok
                    &&& final(self).balance_cache@ == old(self).balance_cache@.remove(id)
                },
                Err(message) => {
                    &&& r is Err && r->Err_0@ == delete_failure(message@, id)
                    &&& final(self).balance_cache@ == old(self).balance_cache@
                },
            },
            final(self).config == old(self).config,
            final(self).compression_config == old(self).compression_config,
    {
        match outcome {
            Ok(_) => {
                self.balance_cache.remove(&id);
                Ok(())
            },
            Err(message) => Err(Self::classify_delete_error(message, id)),
        }
    }
}

impl ManagerCommand {
    /// The credential that the command changes.
    pub open spec fn credential(self) -> u64 {
        match self {
            ManagerCommand::SetDisabled { id, .. } => id,
            ManagerCommand::SetPriority { id, .. } => id,
            ManagerCommand::SetRegion { id, .. } => id,
            ManagerCommand::ResetAndEnable { id } => id,
        }
    }

    /// Answers once the token manager made the change, or could not.
    pub fn settle(self, outcome: Result<(), String>) -> (r: Result<(), AdminServiceError>)
        ensures
            answers_simply(outcome, self.credential(), r),
    {
        let id: u64 = match self {
            ManagerCommand::SetDisabled { id, .. } => id,
            ManagerCommand::SetPriority { id, .. } => id,
            ManagerCommand::SetRegion { id, .. } => id,
            ManagerCommand::ResetAndEnable { id } => id,
        };
        match outcome {
            Ok(_) => Ok(()),
            Err(message) => Err(AdminService::classify_error(message, id)),
        }
    }
}

impl PendingCredential {
    /// Answers once the credential was added, or could not be.
    pub fn resolve(self, added: Result<u64, String>) -> (r: Result<
        AddCredentialResponse,
        AdminServiceError,
    >)
        ensures
            match added {
                Ok(id) => {
                    &&& r is Ok
                    &&& r->Ok_0.success
                    &&& r->Ok_0.message@ == "凭据添加成功，ID: "@ + decimal(id as nat)
                    &&& r->Ok_0.credential_id == id
                    &&& r->Ok_0.email == self.email
                },
                Err(message) => r is Err && r->Err_0@ == add_failure(message@),
            },
    {
        match added {
            Ok(credential_id) => {
                let number = decimal_text(credential_id);
                Ok(
                    AddCredentialResponse {
                        success: true,
                        message: "凭据添加成功，ID: ".to_owned().concat(number.as_str()),
                        credential_id,
                        email: self.email,
                    },
                )
            },
            Err(message) => Err(AdminService::classify_add_error(message)),
        }
    }
}

/// Every credential is listed, and each with what the token manager reports of it.
pub proof fn credentials_are_listed_as_reported(
    entries: Seq<CredentialEntry>,
    listed: Seq<CredentialStatusItem>,
    i: int,
)
    requires
        listed.to_multiset() == statuses_of(entries).to_multiset(),
        0 <= i < entries.len(),
    ensures
        listed.len() == entries.len(),
        exists|j: int|
            0 <= j < listed.len() && (#[trigger] listed[j]).id == entries[i].id
                && listed[j].priority == entries[i].priority
                && listed[j].disabled == entries[i].disabled
                && listed[j].failure_count == entries[i].failure_count
                && listed[j].expires_at == entries[i].expires_at
                && listed[j].auth_method == entries[i].auth_method
                && listed[j].has_profile_arn == entries[i].has_profile_arn
                && listed[j].refresh_token_hash == entries[i].refresh_token_hash
                && listed[j].email == entries[i].email
                && listed[j].success_count == entries[i].success_count
                && listed[j].last_used_at == entries[i].last_used_at
                && listed[j].region == entries[i].region
                && listed[j].api_region == entries[i].api_region,
{
    same_items_are_found(listed, statuses_of(entries));
    assert(statuses_of(entries)[i] == status_of(entries[i]));
    assert(statuses_of(entries).contains(status_of(entries[i])));
    assert(listed.contains(status_of(entries[i])));
}

/// Nothing is listed but what the token manager reports of a credential.
pub proof fn only_credentials_are_listed(
    entries: Seq<CredentialEntry>,
    listed: Seq<CredentialStatusItem>,
    j: int,
)
    requires
        listed.to_multiset() == statuses_of(entries).to_multiset(),
        0 <= j < listed.len(),
    ensures
        exists|i: int|
            0 <= i < entries.len() && listed[j].id == (#[trigger] entries[i]).id
                && listed[j].priority == entries[i].priority
                && listed[j].disabled == entries[i].disabled
                && listed[j].failure_count == entries[i].failure_count
                && listed[j].expires_at == entries[i].expires_at
                && listed[j].auth_method == entries[i].auth_method
                && listed[j].has_profile_arn == entries[i].has_profile_arn
                && listed[j].refresh_token_hash == entries[i].refresh_token_hash
                && listed[j].email == entries[i].email
                && listed[j].success_count == entries[i].success_count
                && listed[j].last_used_at == entries[i].last_used_at
                && listed[j].region == entries[i].region
                && listed[j].api_region == entries[i].api_region,
{
    same_items_are_found(listed, statuses_of(entries));
    assert(listed.contains(listed[j]));
    let i = choose|i: int|
        0 <= i < statuses_of(entries).len() && statuses_of(entries)[i] == listed[j];
    assert(entries[i].id == listed[j].id);
}

/// Credentials that the token manager lists by ascending priority are listed in its order, those
/// with the same priority included.
pub proof fn listed_order_is_kept(
    entries: Seq<CredentialEntry>,
    listed: Seq<CredentialStatusItem>,
)
    requires
        forall|i: int, j: int|
            #![trigger entries[i], entries[j]]
            0 <= i <= j < entries.len() ==> entries[i].priority <= entries[j].priority,
        stably_sorted(statuses_of(entries), listed),
    ensures
        listed.len() == entries.len(),
        forall|i: int| 0 <= i < entries.len() ==> (#[trigger] listed[i]).id == entries[i].id,
{
    let statuses = statuses_of(entries);
    assert forall|i: int, j: int|
        #![trigger statuses[i], statuses[j]]
        0 <= i <= j < statuses.len() implies statuses[i].sort_key() <= statuses[j].sort_key() by {
        assert(entries[i].priority <= entries[j].priority);
    }
    ordered_items_stay(statuses, listed);
}

/// A new credential is what the request asks for: enabled, without an id or an access token, and
/// with every text and the priority of the request as they are.
pub proof fn requested_credential_is_as_asked(req: AddCredentialRequest)
    ensures
        ({
            let credential = requested_credential(req);
            &&& credential.id is None
            &&& credential.access_token is None
            &&& credential.refresh_token == Some(req.refresh_token)
            &&& credential.profile_arn is None
            &&& credential.expires_at is None
            &&& credential.auth_method == Some(req.auth_method)
            &&& credential.client_id == req.client_id
            &&& credential.client_secret == req.client_secret
            &&& credential.priority == req.priority
            &&& credential.region == req.region
            &&& credential.api_region == req.api_region
            &&& credential.machine_id == req.machine_id
            &&& credential.email == req.email
            &&& credential.subscription_title is None
            &&& credential.proxy_url == req.proxy_url
            &&& credential.proxy_username == req.proxy_username
            &&& credential.proxy_password == req.proxy_password
            &&& !credential.disabled
        }),
{
}

/// A command that was carried out is answered with success, and one that was not is answered as not
/// found with its own id, or with the whole message.
pub proof fn commands_are_answered(
    command: ManagerCommand,
    outcome: Result<(), String>,
    r: Result<(), AdminServiceError>,
)
    requires
        answers_simply(outcome, command.credential(), r),
    ensures
        outcome is Ok <==> r is Ok,
        r is Err ==> r->Err_0 is NotFound || r->Err_0 is InternalError,
        r is Err && r->Err_0 is NotFound ==> r->Err_0->id == match command {
            ManagerCommand::SetDisabled { id, .. } => id,
            ManagerCommand::SetPriority { id, .. } => id,
            ManagerCommand::SetRegion { id, .. } => id,
            ManagerCommand::ResetAndEnable { id } => id,
        },
        r is Err && r->Err_0 is InternalError ==> r->Err_0->InternalError_0@ == outcome->Err_0@,
        r is Err ==> (r->Err_0 is NotFound <==> has_part(outcome->Err_0@, "不存在"@)),
{
}

/// Preparing a region twice is preparing it once.
pub proof fn region_preparation_is_idempotent(region: Option<Seq<char>>)
    ensures
        nonblank(nonblank(region)) == nonblank(region),
{
    if let Some(text) = region {
        trimming_is_idempotent(text);
    }
}

} // verus!
