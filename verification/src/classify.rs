//! Sorting failures by what their messages say.
use crate::error::{AdminServiceError, ErrorView};
use crate::service::AdminService;
use crate::text::{contains, has_part};
use vstd::prelude::*;

verus! {

/// The message says that a credential does not exist.
pub open spec fn says_missing(message: Seq<char>) -> bool {
    has_part(message, "不存在"@)
}

/// The message says that the upstream service refused, failed or could not be reached.
pub open spec fn says_upstream(message: Seq<char>) -> bool {
    ||| has_part(message, "凭证已过期或无效"@)
    ||| has_part(message, "权限不足"@)
    ||| has_part(message, "已被限流"@)
    ||| has_part(message, "服务器错误"@)
    ||| has_part(message, "Token 刷新失败"@)
    ||| has_part(message, "暂时不可用"@)
    ||| has_part(message, "error trying to connect"@)
    ||| has_part(message, "connection"@)
    ||| has_part(message, "timeout"@)
    ||| has_part(message, "timed out"@)
}

/// The message says that a new credential is not acceptable.
pub open spec fn says_unacceptable(message: Seq<char>) -> bool {
    ||| has_part(message, "缺少 refreshToken"@)
    ||| has_part(message, "refreshToken 为空"@)
    ||| has_part(message, "refreshToken 已被截断"@)
    ||| has_part(message, "凭据已存在"@)
    ||| has_part(message, "refreshToken 重复"@)
    ||| has_part(message, "凭证已过期或无效"@)
    ||| has_part(message, "权限不足"@)
    ||| has_part(message, "已被限流"@)
}

/// The message says that the network failed.
pub open spec fn says_unreachable(message: Seq<char>) -> bool {
    ||| has_part(message, "error trying to connect"@)
    ||| has_part(message, "connection"@)
    ||| has_part(message, "timeout"@)
}

/// The message says that a credential must be disabled before it is deleted.
pub open spec fn says_enabled(message: Seq<char>) -> bool {
    ||| has_part(message, "只能删除已禁用的凭据"@)
    ||| has_part(message, "请先禁用凭据"@)
}

/// The failure of a simple operation on credential `id`.
pub open spec fn simple_failure(message: Seq<char>, id: u64) -> ErrorView {
    if says_missing(message) {
        ErrorView::NotFound { id }
    } else {
        ErrorView::InternalError(message)
    }
}

/// The failure to find out the balance of credential `id`.
pub open spec fn balance_failure(message: Seq<char>, id: u64) -> ErrorView {
    if says_missing(message) {
        ErrorView::NotFound { id }
    } else if says_upstream(message) {
        ErrorView::UpstreamError(message)
    } else {
        ErrorView::InternalError(message)
    }
}

/// The failure to add a credential.
pub open spec fn add_failure(message: Seq<char>) -> ErrorView {
    if says_unacceptable(message) {
        ErrorView::InvalidCredential(message)
    } else if says_unreachable(message) {
        ErrorView::UpstreamError(message)
    } else {
        ErrorView::InternalError(message)
    }
}

/// The failure to delete credential `id`.
pub open spec fn delete_failure(message: Seq<char>, id: u64) -> ErrorView {
    if says_missing(message) {
        ErrorView::NotFound { id }
    } else if says_enabled(message) {
        ErrorView::InvalidCredential(message)
    } else {
        ErrorView::InternalError(message)
    }
}

impl AdminService {
    /// Classifies the failure of a simple operation.
    pub fn classify_error(message: String, id: u64) -> (r: AdminServiceError)
        ensures
            r@ == simple_failure(message@, id),
    {
        if contains(message.as_str(), "不存在") {
            AdminServiceError::NotFound { id }
        } else {
            AdminServiceError::InternalError(message)
        }
    }

    /// Classifies the failure to find out a balance, which may lie with the upstream service.
    pub fn classify_balance_error(message: String, id: u64) -> (r: AdminServiceError)
        ensures
            r@ == balance_failure(message@, id),
    {
        let text = message.as_str();
        if contains(text, "不存在") {
            return AdminServiceError::NotFound { id };
        }
        let is_upstream_error = contains(text, "凭证已过期或无效") || contains(
            text,
            "权限不足",
        ) || contains(text, "已被限流") || contains(text, "服务器错误") || contains(
            text,
            "Token 刷新失败",
        ) || contains(text, "暂时不可用") || contains(text, "error trying to connect")
            || contains(text, "connection") || contains(text, "timeout") || contains(
            text,
            "timed out",
        );
        if is_upstream_error {
            AdminServiceError::UpstreamError(message)
        } else {
            AdminServiceError::InternalError(message)
        }
    }

    /// Classifies the failure to add a credential.
    pub fn classify_add_error(message: String) -> (r: AdminServiceError)
        ensures
            r@ == add_failure(message@),
    {
        let text = message.as_str();
        let is_invalid_credential = contains(text, "缺少 refreshToken") || contains(
            text,
            "refreshToken 为空",
        ) || contains(text, "refreshToken 已被截断") || contains(text, "凭据已存在")
            || contains(text, "refreshToken 重复") || contains(text, "凭证已过期或无效")
            || contains(text, "权限不足") || contains(text, "已被限流");
        if is_invalid_credential {
            AdminServiceError::InvalidCredential(message)
        } else if contains(text, "error trying to connect") || contains(text, "connection")
            || contains(text, "timeout") {
            AdminServiceError::UpstreamError(message)
        } else {
            AdminServiceError::InternalError(message)
        }
    }

    /// Classifies the failure to delete a credential.
    pub fn classify_delete_error(message: String, id: u64) -> (r: AdminServiceError)
        ensures
            r@ == delete_failure(message@, id),
    {
        let text = message.as_str();
        if contains(text, "不存在") {
            AdminServiceError::NotFound { id }
        } else if contains(text, "只能删除已禁用的凭据") || contains(
            text,
            "请先禁用凭据",
        ) {
            AdminServiceError::InvalidCredential(message)
        } else {
            AdminServiceError::InternalError(message)
        }
    }
}

/// A simple operation fails as not found exactly if the message says that the credential does not
/// exist, and otherwise internally.
pub proof fn simple_failures_are_told_apart(message: Seq<char>, id: u64)
    ensures
        has_part(message, "不存在"@) ==> simple_failure(message, id) == (ErrorView::NotFound { id }),
        !has_part(message, "不存在"@) ==> simple_failure(message, id) == ErrorView::InternalError(
            message,
        ),
{
}

/// The failure to find out a balance is laid to the upstream service exactly if the message has one
/// of ten parts and does not say that the credential does not exist; else it is internal.
pub proof fn balance_failures_are_told_apart(message: Seq<char>, id: u64)
    ensures
        has_part(message, "不存在"@) ==> balance_failure(message, id) == (ErrorView::NotFound { id }),
        !has_part(message, "不存在"@) && ({
            ||| has_part(message, "凭证已过期或无效"@)
            ||| has_part(message, "权限不足"@)
            ||| has_part(message, "已被限流"@)
            ||| has_part(message, "服务器错误"@)
            ||| has_part(message, "Token 刷新失败"@)
            ||| has_part(message, "暂时不可用"@)
            ||| has_part(message, "error trying to connect"@)
            ||| has_part(message, "connection"@)
            ||| has_part(message, "timeout"@)
            ||| has_part(message, "timed out"@)
        }) ==> balance_failure(message, id) == ErrorView::UpstreamError(message),
        !has_part(message, "不存在"@) && !({
            ||| has_part(message, "凭证已过期或无效"@)
            ||| has_part(message, "权限不足"@)
            ||| has_part(message, "已被限流"@)
            ||| has_part(message, "服务器错误"@)
            ||| has_part(message, "Token 刷新失败"@)
            ||| has_part(message, "暂时不可用"@)
            ||| has_part(message, "error trying to connect"@)
            ||| has_part(message, "connection"@)
            ||| has_part(message, "timeout"@)
            ||| has_part(message, "timed out"@)
        }) ==> balance_failure(message, id) == ErrorView::InternalError(message),
{
}

/// The failure to add a credential is laid to the credential exactly if the message has one of
/// eight parts, else to the upstream service if it has one of three, and else it is internal.
pub proof fn add_failures_are_told_apart(message: Seq<char>)
    ensures
        ({
            ||| has_part(message, "缺少 refreshToken"@)
            ||| has_part(message, "refreshToken 为空"@)
            ||| has_part(message, "refreshToken 已被截断"@)
            ||| has_part(message, "凭据已存在"@)
            ||| has_part(message, "refreshToken 重复"@)
            ||| has_part(message, "凭证已过期或无效"@)
            ||| has_part(message, "权限不足"@)
            ||| has_part(message, "已被限流"@)
        }) ==> add_failure(message) == ErrorView::InvalidCredential(message),
        !({
            ||| has_part(message, "缺少 refreshToken"@)
            ||| has_part(message, "refreshToken 为空"@)
            ||| has_part(message, "refreshToken 已被截断"@)
            ||| has_part(message, "凭据已存在"@)
            ||| has_part(message, "refreshToken 重复"@)
            ||| has_part(message, "凭证已过期或无效"@)
            ||| has_part(message, "权限不足"@)
            ||| has_part(message, "已被限流"@)
        }) && ({
            ||| has_part(message, "error trying to connect"@)
            ||| has_part(message, "connection"@)
            ||| has_part(message, "timeout"@)
        }) ==> add_failure(message) == ErrorView::UpstreamError(message),
        !({
            ||| has_part(message, "缺少 refreshToken"@)
            ||| has_part(message, "refreshToken 为空"@)
            ||| has_part(message, "refreshToken 已被截断"@)
            ||| has_part(message, "凭据已存在"@)
            ||| has_part(message, "refreshToken 重复"@)
            ||| has_part(message, "凭证已过期或无效"@)
            ||| has_part(message, "权限不足"@)
            ||| has_part(message, "已被限流"@)
        }) && !({
            ||| has_part(message, "error trying to connect"@)
            ||| has_part(message, "connection"@)
            ||| has_part(message, "timeout"@)
        }) ==> add_failure(message) == ErrorView::InternalError(message),
{
}

/// The failure to delete a credential is laid to the credential exactly if the message has one of
/// two parts and does not say that the credential does not exist; else it is internal.
pub proof fn delete_failures_are_told_apart(message: Seq<char>, id: u64)
    ensures
        has_part(message, "不存在"@) ==> delete_failure(message, id) == (ErrorView::NotFound { id }),
        !has_part(message, "不存在"@) && ({
            ||| has_part(message, "只能删除已禁用的凭据"@)
            ||| has_part(message, "请先禁用凭据"@)
        }) ==> delete_failure(message, id) == ErrorView::InvalidCredential(message),
        !has_part(message, "不存在"@) && !({
            ||| has_part(message, "只能删除已禁用的凭据"@)
            ||| has_part(message, "请先禁用凭据"@)
        }) ==> delete_failure(message, id) == ErrorView::InternalError(message),
{
}

/// A message that says more says no less: what is part of a message is part of every longer one, so
/// a failure that is not found stays so with a longer message.
pub proof fn longer_messages_say_no_less(
    before: Seq<char>,
    message: Seq<char>,
    after: Seq<char>,
    id: u64,
)
    requires
        has_part(message, "不存在"@),
    ensures
        simple_failure(before + message + after, id) == (ErrorView::NotFound { id }),
        balance_failure(before + message + after, id) == (ErrorView::NotFound { id }),
        delete_failure(before + message + after, id) == (ErrorView::NotFound { id }),
{
    let part = "不存在"@;
    let longer = before + message + after;
    let i = choose|i: int|
        0 <= i <= message.len() - part.len() && #[trigger] message.subrange(i, i + part.len())
            == part;
    assert(longer.subrange(before.len() + i, before.len() + i + part.len()) =~= message.subrange(
        i,
        i + part.len(),
    ));
}

/// Whatever the operation on a credential, a message that says the credential is missing is
/// answered as not found, with the id that was asked for, and no other message is.
pub proof fn missing_is_not_found(message: Seq<char>, id: u64)
    ensures
        simple_failure(message, id) is NotFound <==> says_missing(message),
        balance_failure(message, id) is NotFound <==> says_missing(message),
        delete_failure(message, id) is NotFound <==> says_missing(message),
        says_missing(message) ==> simple_failure(message, id) == (ErrorView::NotFound { id }),
        says_missing(message) ==> balance_failure(message, id) == (ErrorView::NotFound { id }),
        says_missing(message) ==> delete_failure(message, id) == (ErrorView::NotFound { id }),
{
}

/// The message that a failure carries.
pub open spec fn carried_message(failure: ErrorView) -> Option<Seq<char>> {
    match failure {
        ErrorView::NotFound { .. } => None,
        ErrorView::UpstreamError(m) => Some(m),
        ErrorView::InternalError(m) => Some(m),
        ErrorView::InvalidCredential(m) => Some(m),
        ErrorView::InvalidRequest(m) => Some(m),
    }
}

/// A failure other than not found carries the whole message.
pub proof fn messages_are_kept(message: Seq<char>, id: u64)
    ensures
        !says_missing(message) ==> carried_message(simple_failure(message, id)) == Some(message),
        !says_missing(message) ==> carried_message(balance_failure(message, id)) == Some(message),
        !says_missing(message) ==> carried_message(delete_failure(message, id)) == Some(message),
        carried_message(add_failure(message)) == Some(message),
{
}

/// Trouble with the network is laid to the upstream service both when a balance is asked for and
/// when a credential is added, unless the message says more than that.
pub proof fn network_trouble_is_upstream(message: Seq<char>, id: u64)
    requires
        says_unreachable(message),
        !says_missing(message),
        !says_unacceptable(message),
    ensures
        balance_failure(message, id) == ErrorView::UpstreamError(message),
        add_failure(message) == ErrorView::UpstreamError(message),
{
}

} // verus!
