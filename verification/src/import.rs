//! Importing credentials from a token file.
//!
//! Each entry takes up to three questions to the token manager: whether the token is known, to add
//! the credential, and what its usage is.  The steps below decide what to ask next and what the
//! outcome is.
use crate::amount::Amount;
use crate::service::AdminService;
use crate::sorting::{
    arrival_order_is_forgotten, same_items_are_found, sorted_lists_ascend, stable_sort,
    stably_sorted,
};
use crate::text::{
    all_ascii, ascii_lower, fingerprint, fingerprint_text, lowercase, nonblank, nonblank_text,
    to_lowercase, trimmed,
};
use crate::types::{
    copy_text, ImportAction, ImportItemResult, ImportItemView, ImportSummary,
    ImportTokenJsonResponse, KiroCredentials, TokenJsonItem,
};
use vstd::prelude::*;
use vstd::string::*;

verus! {

/// A text in lower case is one of the names of identity center sign-in.
pub open spec fn names_idc(lower: Seq<char>) -> bool {
    ||| lower == "idc"@
    ||| lower == "builder-id"@
    ||| lower == "builderid"@
}

/// The sign-in method that a method in lower case stands for.
pub open spec fn method_of_lower(lower: Seq<char>) -> Seq<char> {
    if names_idc(lower) {
        "idc"@
    } else {
        lower
    }
}

/// The sign-in method of a provider in lower case.
pub open spec fn method_of_provider(lower: Seq<char>) -> Seq<char> {
    if names_idc(lower) {
        "idc"@
    } else {
        "social"@
    }
}

/// The sign-in method of an entry: its own method, else that of its provider, else social.
pub open spec fn auth_method_of(item: TokenJsonItem) -> Seq<char> {
    match item.auth_method {
        Some(auth) => method_of_lower(lowercase(auth@)),
        None => match item.provider {
            Some(provider) => method_of_provider(lowercase(provider@)),
            None => "social"@,
        },
    }
}

/// A text with its ASCII letters in lower case.
pub open spec fn ascii_lowered(text: Seq<char>) -> Seq<char> {
    text.map_values(|c: char| ascii_lower(c))
}

/// The text that decides the sign-in method of an entry, if any, is an ASCII text.
pub open spec fn has_ascii_method(item: TokenJsonItem) -> bool {
    match item.auth_method {
        Some(auth) => all_ascii(auth@),
        None => item.provider is Some ==> all_ascii(item.provider->0@),
    }
}

/// The sign-in method of an entry whose deciding text is an ASCII text.
pub open spec fn ascii_method_of(item: TokenJsonItem) -> Seq<char> {
    match item.auth_method {
        Some(auth) => method_of_lower(ascii_lowered(auth@)),
        None => match item.provider {
            Some(provider) => method_of_provider(ascii_lowered(provider@)),
            None => "social"@,
        },
    }
}

/// The fingerprint of an entry: that of its refresh token.
pub open spec fn fingerprint_of(item: TokenJsonItem) -> Seq<char> {
    match item.refresh_token {
        Some(token) => fingerprint(token@),
        None => "(empty)"@,
    }
}

/// The entry has a refresh token.
pub open spec fn has_refresh_token(item: TokenJsonItem) -> bool {
    item.refresh_token is Some && item.refresh_token->0@.len() > 0
}

/// Why an entry cannot be imported, if it cannot, where `method` is its sign-in method.
pub open spec fn defect_of(item: TokenJsonItem, method: Seq<char>) -> Option<Seq<char>> {
    if !has_refresh_token(item) {
        Some("缺少 refreshToken"@)
    } else if method == "idc"@ && (item.client_id is None || item.client_secret is None) {
        Some(method + " 认证需要 clientId 和 clientSecret"@)
    } else {
        None
    }
}

/// `credential` is the new credential for an entry with the given refresh token and sign-in
/// method.
pub open spec fn is_credential_for(
    credential: KiroCredentials,
    item: TokenJsonItem,
    token: String,
    method: Seq<char>,
) -> bool {
    &&& credential.id is None
    &&& credential.access_token is None
    &&& credential.refresh_token == Some(token)
    &&& credential.profile_arn is None
    &&& credential.expires_at is None
    &&& credential.auth_method.deep_view() == Some(method)
    &&& credential.client_id == item.client_id
    &&& credential.client_secret == item.client_secret
    &&& credential.priority == item.priority
    &&& credential.region.deep_view() == nonblank(item.region.deep_view())
    &&& credential.api_region.deep_view() == nonblank(item.api_region.deep_view())
    &&& credential.machine_id == item.machine_id
    &&& credential.email is None
    &&& credential.subscription_title is None
    &&& credential.proxy_url is None
    &&& credential.proxy_username is None
    &&& credential.proxy_password is None
    &&& !credential.disabled
}

/// An outcome without a credential.
pub open spec fn unstored(
    index: usize,
    fp: Seq<char>,
    action: ImportAction,
    reason: Seq<char>,
) -> ImportItemView {
    ImportItemView {
        index,
        fingerprint: fp,
        action,
        reason: Some(reason),
        credential_id: None,
        email: None,
    }
}

/// What the token manager answers while an entry is imported.
pub struct ImportReplies {
    /// The refresh token is known already.
    pub known: bool,
    /// The id of the added credential, or why it was not added.
    pub added: Result<u64, String>,
    /// The usage of the added credential, or why it is not known.
    pub usage: Result<ImportedUsage, String>,
}

/// What is known of the usage of a new credential.
pub struct ImportedUsage {
    /// The limit less the usage.
    pub difference: Amount,
    /// The email that belongs to the credential.
    pub email: Option<String>,
}

/// How many entries are imported at a time.
pub const IMPORT_CONCURRENCY: usize = 10;

/// The outcome of importing an entry, for given answers of the token manager.
pub open spec fn import_outcome(
    index: usize,
    item: TokenJsonItem,
    dry_run: bool,
    replies: ImportReplies,
) -> ImportItemView {
    let fp = fingerprint_of(item);
    match defect_of(item, auth_method_of(item)) {
        Some(reason) => unstored(index, fp, ImportAction::Invalid, reason),
        None => if replies.known {
            unstored(index, fp, ImportAction::Skipped, "凭据已存在"@)
        } else if dry_run {
            unstored(index, fp, ImportAction::Added, "预览模式"@)
        } else {
            match replies.added {
                Ok(id) => ImportItemView {
                    index,
                    fingerprint: fp,
                    action: ImportAction::Added,
                    reason: None,
                    credential_id: Some(id),
                    email: match replies.usage {
                        Ok(usage) => usage.email.deep_view(),
                        Err(_) => None,
                    },
                },
                Err(message) => unstored(index, fp, ImportAction::Invalid, message@),
            }
        },
    }
}

/// The first step of an import: it is over, or the token manager is asked for the refresh token.
pub enum ImportStart {
    Finished(ImportItemResult),
    CheckKnown(ImportCheck),
}

/// An import that waits for word on whether `refresh_token` is known.
pub struct ImportCheck {
    pub index: usize,
    pub fingerprint: String,
    pub refresh_token: String,
    pub auth_method: String,
    pub item: TokenJsonItem,
    pub dry_run: bool,
}

/// The second step: the import is over, or the credential is to be added.
pub enum ImportDecision {
    Finished(ImportItemResult),
    Add(KiroCredentials, ImportAdd),
}

/// An import that waits for its credential to be added.
pub struct ImportAdd {
    pub index: usize,
    pub fingerprint: String,
}

/// The third step: the import is over, or the usage of the new credential is to be fetched.
pub enum ImportProgress {
    Finished(ImportItemResult),
    FetchUsage(ImportUsage),
}

/// An import that waits for the usage of its credential.
pub struct ImportUsage {
    pub index: usize,
    pub fingerprint: String,
    pub credential_id: u64,
}

/// The last step: the outcome, and what to note of the credential, if its usage is known.
pub struct ImportEnd {
    pub result: ImportItemResult,
    pub note: Option<UsageNote>,
}

/// What remains for a credential, and its email, for the token manager to note.
pub struct UsageNote {
    pub credential_id: u64,
    pub remaining: Amount,
    pub email: Option<String>,
}

/// `start` is how the import of an entry with the given sign-in method begins: a defect ends it,
/// and an entry without one waits for word on its refresh token.
pub open spec fn begins_import(
    index: usize,
    item: TokenJsonItem,
    dry_run: bool,
    method: Seq<char>,
    start: ImportStart,
) -> bool {
    match start {
        ImportStart::Finished(result) => {
            &&& defect_of(item, method) is Some
            &&& result@ == unstored(
                index,
                fingerprint_of(item),
                ImportAction::Invalid,
                defect_of(item, method)->0,
            )
        },
        ImportStart::CheckKnown(check) => {
            &&& defect_of(item, method) is None
            &&& check.index == index
            &&& check.fingerprint@ == fingerprint_of(item)
            &&& Some(check.refresh_token) == item.refresh_token
            &&& check.auth_method@ == method
            &&& check.item == item
            &&& check.dry_run == dry_run
        },
    }
}

/// Tells whether two texts are the same.
fn same_text(a: &String, b: &str) -> (r: bool)
    ensures
        r == (a@ == b@),
{
    *a == b.to_owned()
}

/// Tells whether a text in lower case names identity center sign-in.
fn is_idc_name(lower: &String) -> (r: bool)
    ensures
        r == names_idc(lower@),
{
    same_text(lower, "idc") || same_text(lower, "builder-id") || same_text(lower, "builderid")
}

/// Makes an outcome without a credential.
fn unstored_result(index: usize, fp: String, action: ImportAction, reason: String) -> (r:
    ImportItemResult)
    ensures
        r@ == unstored(index, fp@, action, reason@),
{
    ImportItemResult {
        index,
        fingerprint: fp,
        action,
        reason: Some(reason),
        credential_id: None,
        email: None,
    }
}

impl AdminService {
    /// The fingerprint of an entry, by which it can be recognised.
    pub fn generate_fingerprint(item: &TokenJsonItem) -> (r: String)
        ensures
            r@ == fingerprint_of(*item),
    {
        match &item.refresh_token {
            Some(token) => fingerprint_text(token),
            None => "(empty)".to_owned(),
        }
    }

    /// The sign-in method for a method in lower case.
    pub fn method_from_lowercase(lower: String) -> (r: String)
        ensures
            r@ == method_of_lower(lower@),
    {
        if is_idc_name(&lower) {
            "idc".to_owned()
        } else {
            lower
        }
    }

    /// The sign-in method for a provider in lower case.
    pub fn method_from_provider(lower: String) -> (r: String)
        ensures
            r@ == method_of_provider(lower@),
    {
        if is_idc_name(&lower) {
            "idc".to_owned()
        } else {
            "social".to_owned()
        }
    }

    /// The sign-in method of an entry.
    ///
    /// The letters of an ASCII method or provider may be large or small.
    pub fn map_auth_method(item: &TokenJsonItem) -> (r: String)
        ensures
            r@ == auth_method_of(*item),
            has_ascii_method(*item) ==> r@ == ascii_method_of(*item),
    {
        match &item.auth_method {
            Some(auth) => Self::method_from_lowercase(to_lowercase(auth.as_str())),
            None => match &item.provider {
                Some(provider) => Self::method_from_provider(to_lowercase(provider.as_str())),
                None => "social".to_owned(),
            },
        }
    }

    /// Begins to import an entry whose sign-in method is `auth_method`: what can be seen to be
    /// invalid ends here.
    pub fn begin_import_as(
        index: usize,
        item: TokenJsonItem,
        dry_run: bool,
        auth_method: String,
    ) -> (r: ImportStart)
        ensures
            begins_import(index, item, dry_run, auth_method@, r),
            r is Finished <==> item.refresh_token is None || item.refresh_token->0@.len() == 0 || (
            auth_method@ == "idc"@ && (item.client_id is None || item.client_secret is None)),
            r is CheckKnown ==> {
                &&& r->CheckKnown_0.index == index
                &&& r->CheckKnown_0.item == item
                &&& r->CheckKnown_0.dry_run == dry_run
                &&& r->CheckKnown_0.refresh_token == item.refresh_token->0
                &&& r->CheckKnown_0.auth_method@ == auth_method@
            },
    {
        let fp = Self::generate_fingerprint(&item);
        let refresh_token = match &item.refresh_token {
            Some(token) => if token.as_str().is_empty() {
                None
            } else {
                Some(token.clone())
            },
            None => None,
        };
        match refresh_token {
            None => ImportStart::Finished(
                unstored_result(index, fp, ImportAction::Invalid, "缺少 refreshToken".to_owned()),
            ),
            Some(refresh_token) => {
                if same_text(&auth_method, "idc") && (item.client_id.is_none()
                    || item.client_secret.is_none()) {
                    ImportStart::Finished(
                        unstored_result(
                            index,
                            fp,
                            ImportAction::Invalid,
                            auth_method.concat(" 认证需要 clientId 和 clientSecret"),
                        ),
                    )
                } else {
                    ImportStart::CheckKnown(
                        ImportCheck {
                            index,
                            fingerprint: fp,
                            refresh_token,
                            auth_method,
                            item,
                            dry_run,
                        },
                    )
                }
            },
        }
    }

    /// Begins to import an entry: what can be seen to be invalid ends here.
    pub fn begin_import(index: usize, item: TokenJsonItem, dry_run: bool) -> (r: ImportStart)
        ensures
            begins_import(index, item, dry_run, auth_method_of(item), r),
    {
        let auth_method = Self::map_auth_method(&item);
        Self::begin_import_as(index, item, dry_run, auth_method)
    }

    /// The outcome of importing an entry, for given answers of the token manager.
    pub fn process_token_json_item(
        index: usize,
        item: TokenJsonItem,
        dry_run: bool,
        replies: ImportReplies,
    ) -> (r: ImportItemResult)
        ensures
            r@ == import_outcome(index, item, dry_run, replies),
    {
        let check = match Self::begin_import(index, item, dry_run) {
            ImportStart::Finished(result) => {
                return result;
            },
            ImportStart::CheckKnown(check) => check,
        };
        match check.resolve(replies.known) {
            ImportDecision::Finished(result) => result,
            ImportDecision::Add(_, add) => match add.resolve(replies.added) {
                ImportProgress::Finished(result) => result,
                ImportProgress::FetchUsage(usage) => usage.resolve(replies.usage).result,
            },
        }
    }
}

/// The test for an outcome.
pub open spec fn has_action(action: ImportAction) -> spec_fn(ImportItemResult) -> bool {
    |r: ImportItemResult| r.action == action
}

/// How many entries had the outcome `action`.
pub open spec fn count_action(results: Seq<ImportItemResult>, action: ImportAction) -> nat {
    results.filter(has_action(action)).len()
}

/// Counting goes entry by entry.
proof fn lemma_count_action_next(results: Seq<ImportItemResult>, i: int, action: ImportAction)
    requires
        0 <= i < results.len(),
    ensures
        count_action(results.take(i + 1), action) == count_action(results.take(i), action) + if (
        results[i].action == action) {
            1nat
        } else {
            0nat
        },
{
    reveal(Seq::filter);
    assert(results.take(i + 1).drop_last() =~= results.take(i));
}

impl AdminService {
    /// Numbers the entries of a token file.
    pub fn number_items(items: Vec<TokenJsonItem>) -> (r: Vec<(usize, TokenJsonItem)>)
        ensures
            r@.len() == items@.len(),
            forall|i: int|
                0 <= i < items@.len() ==> (#[trigger] r@[i]).0 == i && r@[i].1 == items@[i],
    {
        let mut numbered: Vec<(usize, TokenJsonItem)> = Vec::new();
        for item in iter: items
            invariant
                iter.seq() == items@,
                numbered@.len() == iter.index(),
                forall|i: int|
                    0 <= i < numbered@.len() ==> (#[trigger] numbered@[i]).0 == i && numbered@[i].1
                        == items@[i],
        {
            let index: usize = numbered.len();
            numbered.push((index, item));
        }
        numbered
    }

    /// Puts the outcomes of an import in the order of the token file and counts them.
    pub fn import_token_json(results: Vec<ImportItemResult>) -> (r: ImportTokenJsonResponse)
        ensures
            stably_sorted(results@, r.items@),
            r.items@.to_multiset() == results@.to_multiset(),
            r.summary.parsed == results@.len(),
            r.summary.added == count_action(results@, ImportAction::Added),
            r.summary.skipped == count_action(results@, ImportAction::Skipped),
            r.summary.invalid == count_action(results@, ImportAction::Invalid),
            r.summary.added + r.summary.skipped + r.summary.invalid == r.summary.parsed,
            r.items@.len() == results@.len(),
            forall|i: int, j: int|
                #![trigger r.items@[i], r.items@[j]]
                0 <= i <= j < r.items@.len() ==> r.items@[i].index <= r.items@[j].index,
            forall|x: ImportItemResult| #[trigger] r.items@.contains(x) <==> results@.contains(x),
    {
        let mut added: usize = 0;
        let mut skipped: usize = 0;
        let mut invalid: usize = 0;
        let mut i: usize = 0;
        proof {
            reveal(Seq::filter);
            assert(results@.take(0) =~= Seq::<ImportItemResult>::empty());
        }
        while i < results.len()
            invariant
                i <= results@.len(),
                added == count_action(results@.take(i as int), ImportAction::Added),
                skipped == count_action(results@.take(i as int), ImportAction::Skipped),
                invalid == count_action(results@.take(i as int), ImportAction::Invalid),
                added + skipped + invalid == i,
            decreases results@.len() - i,
        {
            proof {
                lemma_count_action_next(results@, i as int, ImportAction::Added);
                lemma_count_action_next(results@, i as int, ImportAction::Skipped);
                lemma_count_action_next(results@, i as int, ImportAction::Invalid);
            }
            match results[i].action {
                ImportAction::Added => {
                    added = added + 1;
                },
                ImportAction::Skipped => {
                    skipped = skipped + 1;
                },
                ImportAction::Invalid => {
                    invalid = invalid + 1;
                },
            }
            i = i + 1;
        }
        assert(results@.take(results@.len() as int) =~= results@);
        let parsed: usize = results.len();
        let ghost finished = results@;
        let items = stable_sort(results);
        proof {
            same_items_are_found(items@, finished);
            assert forall|i: int, j: int|
                #![trigger items@[i], items@[j]]
                0 <= i <= j < items@.len() implies items@[i].index <= items@[j].index by {
                sorted_lists_ascend(finished, items@, i, j);
            }
        }
        ImportTokenJsonResponse {
            summary: ImportSummary { parsed, added, skipped, invalid },
            items,
        }
    }
}

/// A new credential is what its entry says: enabled, without an id or an access token, with the
/// entry's token, client, priority and machine as they are, and with both regions without outer
/// white space; a region is absent only if the entry's is absent or blank.
pub proof fn imported_credential_is_as_the_entry_says(
    credential: KiroCredentials,
    item: TokenJsonItem,
    token: String,
    method: Seq<char>,
)
    requires
        is_credential_for(credential, item, token, method),
    ensures
        credential.id is None,
        credential.access_token is None,
        credential.refresh_token == Some(token),
        credential.profile_arn is None,
        credential.expires_at is None,
        credential.auth_method is Some && credential.auth_method->0@ == method,
        credential.client_id == item.client_id,
        credential.client_secret == item.client_secret,
        credential.priority == item.priority,
        credential.region is None <==> item.region is None || trimmed(item.region->0@).len() == 0,
        credential.region is Some ==> credential.region->0@ == trimmed(item.region->0@),
        credential.api_region is None
            <==> item.api_region is None || trimmed(item.api_region->0@).len() == 0,
        credential.api_region is Some ==> credential.api_region->0@ == trimmed(item.api_region->0@),
        credential.machine_id == item.machine_id,
        credential.email is None,
        credential.subscription_title is None,
        credential.proxy_url is None,
        credential.proxy_username is None,
        credential.proxy_password is None,
        !credential.disabled,
{
}

/// An import and a command to set the regions prepare the same regions from the same texts.
pub proof fn import_and_command_prepare_the_same_regions(
    credential: KiroCredentials,
    item: TokenJsonItem,
    token: String,
    method: Seq<char>,
    region: Option<String>,
    api_region: Option<String>,
)
    requires
        is_credential_for(credential, item, token, method),
        region is None <==> item.region is None || trimmed(item.region->0@).len() == 0,
        region is Some ==> region->0@ == trimmed(item.region->0@),
        api_region is None <==> item.api_region is None || trimmed(item.api_region->0@).len() == 0,
        api_region is Some ==> api_region->0@ == trimmed(item.api_region->0@),
    ensures
        credential.region.deep_view() == region.deep_view(),
        credential.api_region.deep_view() == api_region.deep_view(),
{
}

/// Without a method of its own, an entry signs in as its provider says: with one of the three names
/// of identity center sign-in that way, and with any other or none socially.
pub proof fn provider_decides_without_a_method(item: TokenJsonItem)
    requires
        item.auth_method is None,
    ensures
        item.provider is None ==> auth_method_of(item) == "social"@,
        item.provider is Some ==> ({
            let lower = lowercase(item.provider->0@);
            if lower == "idc"@ || lower == "builder-id"@ || lower == "builderid"@ {
                auth_method_of(item) == "idc"@
            } else {
                auth_method_of(item) == "social"@
            }
        }),
{
}

/// The names of identity center sign-in are three, and every other method is kept.
pub proof fn three_names_stand_for_identity_center(lower: Seq<char>)
    ensures
        names_idc(lower) <==> lower == "idc"@ || lower == "builder-id"@ || lower == "builderid"@,
        lower == "idc"@ || lower == "builder-id"@ || lower == "builderid"@ ==> method_of_lower(
            lower,
        ) == "idc"@ && method_of_provider(lower) == "idc"@,
        !(lower == "idc"@ || lower == "builder-id"@ || lower == "builderid"@) ==> method_of_lower(
            lower,
        ) == lower && method_of_provider(lower) == "social"@,
{
}

/// An entry is recognised by the fingerprint of its refresh token, and without one by a fixed text.
pub proof fn entries_are_recognised_by_their_token(item: TokenJsonItem, other: TokenJsonItem)
    ensures
        item.refresh_token is None ==> fingerprint_of(item) == "(empty)"@,
        item.refresh_token is Some ==> fingerprint_of(item) == fingerprint(item.refresh_token->0@),
        item.refresh_token == other.refresh_token ==> fingerprint_of(item) == fingerprint_of(other),
{
}

/// An entry without a refresh token, or without the client that identity center sign-in needs, is
/// invalid whatever the token manager answers, and says why.
pub proof fn defective_entries_are_invalid(
    index: usize,
    item: TokenJsonItem,
    dry_run: bool,
    replies: ImportReplies,
)
    ensures
        ({
            let outcome = import_outcome(index, item, dry_run, replies);
            let lacks_token = item.refresh_token is None || item.refresh_token->0@.len() == 0;
            let lacks_client = auth_method_of(item) == "idc"@ && (item.client_id is None
                || item.client_secret is None);
            &&& lacks_token || lacks_client ==> {
                &&& outcome.action == ImportAction::Invalid
                &&& outcome.credential_id is None
                &&& outcome.email is None
            }
            &&& lacks_token ==> outcome.reason == Some("缺少 refreshToken"@)
            &&& !lacks_token && lacks_client ==> outcome.reason == Some(
                "idc"@ + " 认证需要 clientId 和 clientSecret"@,
            )
            &&& !lacks_token && !lacks_client && outcome.action == ImportAction::Invalid ==> {
                &&& !replies.known && !dry_run
                &&& replies.added is Err
            }
        }),
{
}

/// An entry without a defect is reported as what became of it: skipped if it is known, previewed in
/// a dry run, invalid with the token manager's message if it could not be added, and else added, with
/// its id and, where the usage is known, its email.
pub proof fn sound_entries_are_reported(
    index: usize,
    item: TokenJsonItem,
    dry_run: bool,
    replies: ImportReplies,
)
    requires
        item.refresh_token is Some && item.refresh_token->0@.len() > 0,
        auth_method_of(item) == "idc"@ ==> item.client_id is Some && item.client_secret is Some,
    ensures
        ({
            let outcome = import_outcome(index, item, dry_run, replies);
            &&& outcome.index == index
            &&& outcome.fingerprint == fingerprint(item.refresh_token->0@)
            &&& replies.known ==> {
                &&& outcome.action == ImportAction::Skipped
                &&& outcome.reason == Some("凭据已存在"@)
                &&& outcome.credential_id is None
            }
            &&& !replies.known && dry_run ==> {
                &&& outcome.action == ImportAction::Added
                &&& outcome.reason == Some("预览模式"@)
                &&& outcome.credential_id is None
            }
            &&& !replies.known && !dry_run && replies.added is Err ==> {
                &&& outcome.action == ImportAction::Invalid
                &&& outcome.reason == Some(replies.added->Err_0@)
                &&& outcome.credential_id is None
            }
            &&& !replies.known && !dry_run && replies.added is Ok ==> {
                &&& outcome.action == ImportAction::Added
                &&& outcome.reason is None
                &&& outcome.credential_id == Some(replies.added->Ok_0)
                &&& replies.usage is Ok ==> outcome.email == replies.usage->Ok_0.email.deep_view()
                &&& replies.usage is Err ==> outcome.email is None
            }
        }),
{
}

/// An outcome without a credential has the given place, fingerprint, action and reason.
pub proof fn unstored_outcomes_are_as_given(
    index: usize,
    fp: Seq<char>,
    action: ImportAction,
    reason: Seq<char>,
)
    ensures
        unstored(index, fp, action, reason).index == index,
        unstored(index, fp, action, reason).fingerprint == fp,
        unstored(index, fp, action, reason).action == action,
        unstored(index, fp, action, reason).reason == Some(reason),
        unstored(index, fp, action, reason).credential_id is None,
        unstored(index, fp, action, reason).email is None,
{
}

/// Each entry is counted once, under its outcome and no other.
pub proof fn outcomes_are_counted_one_by_one(
    results: Seq<ImportItemResult>,
    next: ImportItemResult,
    action: ImportAction,
)
    ensures
        count_action(Seq::empty(), action) == 0,
        next.action == action ==> count_action(results.push(next), action) == count_action(
            results,
            action,
        ) + 1,
        next.action != action ==> count_action(results.push(next), action) == count_action(
            results,
            action,
        ),
{
    reveal(Seq::filter);
    assert(results.push(next).drop_last() =~= results);
}

/// An entry's own method decides, whatever its provider: the names of identity center sign-in stand
/// for it, and any other method stands for itself in lower case.  What a method in lower case
/// stands for stands for itself.
pub proof fn own_method_decides(item: TokenJsonItem, other: TokenJsonItem)
    requires
        item.auth_method is Some,
        other.auth_method == item.auth_method,
    ensures
        auth_method_of(other) == auth_method_of(item),
        ({
            let lower = lowercase(item.auth_method->0@);
            &&& names_idc(lower) ==> auth_method_of(item) == "idc"@
            &&& !names_idc(lower) ==> auth_method_of(item) == lower
            &&& method_of_lower(auth_method_of(item)) == auth_method_of(item)
        }),
{
}

/// The sign-in method of an ASCII entry is its own sign-in method: an entry that is given it as its
/// method, with whatever provider, has the same.
pub proof fn ascii_method_is_its_own_method(item: TokenJsonItem, again: TokenJsonItem)
    requires
        has_ascii_method(item),
        again.auth_method is Some,
        again.auth_method->0@ == ascii_method_of(item),
    ensures
        has_ascii_method(again),
        ascii_method_of(again) == ascii_method_of(item),
{
    reveal_strlit("idc");
    reveal_strlit("social");
    reveal_strlit("builder-id");
    reveal_strlit("builderid");
    let method = ascii_method_of(item);
    assert(ascii_lowered(method) =~= method);
}

/// In whatever order the imports end, their outcomes are reported in the order of the token file.
pub proof fn import_keeps_file_order(
    finished: Seq<ImportItemResult>,
    in_file_order: Seq<ImportItemResult>,
    reported: Seq<ImportItemResult>,
)
    requires
        forall|i: int|
            0 <= i < in_file_order.len() ==> (#[trigger] in_file_order[i]).index == i,
        finished.to_multiset() == in_file_order.to_multiset(),
        stably_sorted(finished, reported),
    ensures
        reported == in_file_order,
{
    assert(stably_sorted(in_file_order, in_file_order));
    arrival_order_is_forgotten(in_file_order, finished, in_file_order, reported);
}

/// A dry run stores nothing, and neither does an entry that is invalid or known; what is stored
/// was added under the id that the token manager gave.
pub proof fn import_stores_only_what_it_should(
    index: usize,
    item: TokenJsonItem,
    dry_run: bool,
    replies: ImportReplies,
)
    ensures
        ({
            let outcome = import_outcome(index, item, dry_run, replies);
            &&& outcome.index == index
            &&& outcome.fingerprint == fingerprint_of(item)
            &&& outcome.credential_id is Some <==> {
                &&& defect_of(item, auth_method_of(item)) is None
                &&& !replies.known
                &&& !dry_run
                &&& replies.added is Ok
            }
            &&& outcome.credential_id is Some ==> {
                &&& outcome.action == ImportAction::Added
                &&& outcome.credential_id == Some(replies.added->Ok_0)
            }
            &&& outcome.email is Some ==> outcome.credential_id is Some
            &&& outcome.action == ImportAction::Skipped <==> {
                &&& defect_of(item, auth_method_of(item)) is None
                &&& replies.known
            }
        }),
{
}

/// A dry run finds an entry invalid, known or new as a real run would, as long as the token manager
/// adds what it is given.
pub proof fn dry_run_foretells_the_import(index: usize, item: TokenJsonItem, replies: ImportReplies)
    requires
        replies.added is Ok,
    ensures
        import_outcome(index, item, true, replies).action == import_outcome(
            index,
            item,
            false,
            replies,
        ).action,
{
}

impl ImportCheck {
    /// Goes on once it is clear whether the refresh token is known: a known one is skipped, a dry
    /// run ends here, and otherwise the credential is to be added.
    pub fn resolve(self, known: bool) -> (r: ImportDecision)
        ensures
            match r {
                ImportDecision::Finished(result) => {
                    &&& known || self.dry_run
                    &&& result@ == if known {
                        unstored(
                            self.index,
                            self.fingerprint@,
                            ImportAction::Skipped,
                            "凭据已存在"@,
                        )
                    } else {
                        unstored(
                            self.index,
                            self.fingerprint@,
                            ImportAction::Added,
                            "预览模式"@,
                        )
                    }
                },
                ImportDecision::Add(credential, add) => {
                    &&& !known && !self.dry_run
                    &&& add.index == self.index
                    &&& add.fingerprint == self.fingerprint
                    &&& is_credential_for(
                        credential,
                        self.item,
                        self.refresh_token,
                        self.auth_method@,
                    )
                    &&& credential.id is None
                    &&& credential.access_token is None
                    &&& credential.refresh_token == Some(self.refresh_token)
                    &&& credential.profile_arn is None
                    &&& credential.expires_at is None
                    &&& credential.auth_method is Some && credential.auth_method->0@
                        == self.auth_method@
                    &&& credential.client_id == self.item.client_id
                    &&& credential.client_secret == self.item.client_secret
                    &&& credential.priority == self.item.priority
                    &&& credential.region is None
                        <==> self.item.region is None || trimmed(self.item.region->0@).len() == 0
                    &&& credential.region is Some
                        ==> credential.region->0@ == trimmed(self.item.region->0@)
                    &&& credential.api_region is None
                        <==> self.item.api_region is None || trimmed(self.item.api_region->0@).len() == 0
                    &&& credential.api_region is Some
                        ==> credential.api_region->0@ == trimmed(self.item.api_region->0@)
                    &&& credential.machine_id == self.item.machine_id
                    &&& credential.email is None
                    &&& credential.subscription_title is None
                    &&& credential.proxy_url is None
                    &&& credential.proxy_username is None
                    &&& credential.proxy_password is None
                    &&& !credential.disabled
                },
            },
            r is Finished <==> known || self.dry_run,
            r is Finished ==> {
                &&& r->Finished_0.index == self.index
                &&& r->Finished_0.fingerprint@ == self.fingerprint@
                &&& r->Finished_0.reason is Some
                &&& r->Finished_0.credential_id is None
                &&& r->Finished_0.email is None
                &&& r->Finished_0.action == if known {
                    ImportAction::Skipped
                } else {
                    ImportAction::Added
                }
            },
    {
        if known {
            return ImportDecision::Finished(
                unstored_result(
                    self.index,
                    self.fingerprint,
                    ImportAction::Skipped,
                    "凭据已存在".to_owned(),
                ),
            );
        }
        if self.dry_run {
            return ImportDecision::Finished(
                unstored_result(
                    self.index,
                    self.fingerprint,
                    ImportAction::Added,
                    "预览模式".to_owned(),
                ),
            );
        }
        let item = self.item;
        let credential = KiroCredentials {
            id: None,
            access_token: None,
            refresh_token: Some(self.refresh_token),
            profile_arn: None,
            expires_at: None,
            auth_method: Some(self.auth_method),
            client_id: item.client_id,
            client_secret: item.client_secret,
            priority: item.priority,
            region: nonblank_text(item.region),
            api_region: nonblank_text(item.api_region),
            machine_id: item.machine_id,
            email: None,
            subscription_title: None,
            proxy_url: None,
            proxy_username: None,
            proxy_password: None,
            disabled: false,
        };
        ImportDecision::Add(
            credential,
            ImportAdd { index: self.index, fingerprint: self.fingerprint },
        )
    }
}

impl ImportAdd {
    /// Goes on once the credential was added, or was not.
    pub fn resolve(self, added: Result<u64, String>) -> (r: ImportProgress)
        ensures
            match r {
                ImportProgress::Finished(result) => {
                    &&& added is Err
                    &&& result@ == unstored(
                        self.index,
                        self.fingerprint@,
                        ImportAction::Invalid,
                        added->Err_0@,
                    )
                },
                ImportProgress::FetchUsage(usage) => {
                    &&& added is Ok
                    &&& usage.index == self.index
                    &&& usage.fingerprint == self.fingerprint
                    &&& usage.credential_id == added->Ok_0
                },
            },
    {
        match added {
            Ok(credential_id) => ImportProgress::FetchUsage(
                ImportUsage { index: self.index, fingerprint: self.fingerprint, credential_id },
            ),
            Err(message) => ImportProgress::Finished(
                unstored_result(self.index, self.fingerprint, ImportAction::Invalid, message),
            ),
        }
    }
}

impl ImportUsage {
    /// Ends the import.  The credential stays added even where its usage is not known; the email
    /// and the balance are noted only where it is.
    pub fn resolve(self, usage: Result<ImportedUsage, String>) -> (r: ImportEnd)
        ensures
            r.result@ == (ImportItemView {
                index: self.index,
                fingerprint: self.fingerprint@,
                action: ImportAction::Added,
                reason: None,
                credential_id: Some(self.credential_id),
                email: match usage {
                    Ok(known) => known.email.deep_view(),
                    Err(_) => None,
                },
            }),
            match usage {
                Ok(known) => r.note == Some(
                    UsageNote {
                        credential_id: self.credential_id,
                        remaining: known.difference,
                        email: known.email,
                    },
                ),
                Err(_) => r.note is None,
            },
    {
        let (email, note) = match usage {
            Ok(known) => (
                copy_text(&known.email),
                Some(
                    UsageNote {
                        credential_id: self.credential_id,
                        remaining: known.difference,
                        email: known.email,
                    },
                ),
            ),
            Err(_) => (None, None),
        };
        ImportEnd {
            result: ImportItemResult {
                index: self.index,
                fingerprint: self.fingerprint,
                action: ImportAction::Added,
                reason: None,
                credential_id: Some(self.credential_id),
                email,
            },
            note,
        }
    }
}

} // verus!
