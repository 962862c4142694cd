//! Failures and what they are answered with.
use kiro_admin::error::AdminServiceError;
use kiro_admin::service::AdminService;

fn text(message: &str) -> String {
    message.to_string()
}

#[test]
fn a_missing_credential_is_not_found() {
    for message in ["凭据不存在: 7", "不存在", "timeout, 不存在"] {
        assert!(matches!(
            AdminService::classify_error(text(message), 7),
            AdminServiceError::NotFound { id: 7 }
        ));
        assert!(matches!(
            AdminService::classify_balance_error(text(message), 8),
            AdminServiceError::NotFound { id: 8 }
        ));
        assert!(matches!(
            AdminService::classify_delete_error(text(message), 9),
            AdminServiceError::NotFound { id: 9 }
        ));
    }
}

#[test]
fn other_simple_failures_are_internal() {
    for message in ["", "不存", "磁盘已满", "timeout"] {
        match AdminService::classify_error(text(message), 7) {
            AdminServiceError::InternalError(m) => assert_eq!(m, message),
            other => panic!("{:?}", other),
        }
    }
}

#[test]
fn upstream_failures_of_a_balance() {
    for message in [
        "凭证已过期或无效，需要重新登录",
        "权限不足",
        "请求已被限流",
        "服务器错误 502",
        "Token 刷新失败: 400",
        "服务暂时不可用",
        "error trying to connect: dns",
        "connection reset",
        "operation timeout",
        "request timed out",
    ] {
        match AdminService::classify_balance_error(text(message), 1) {
            AdminServiceError::UpstreamError(m) => assert_eq!(m, message),
            other => panic!("{:?}", other),
        }
    }
    for message in ["缺少 refreshToken", "Connection", "time out", "无法生成 machineId"] {
        match AdminService::classify_balance_error(text(message), 1) {
            AdminServiceError::InternalError(m) => assert_eq!(m, message),
            other => panic!("{:?}", other),
        }
    }
}

#[test]
fn failures_to_add_a_credential() {
    for message in [
        "缺少 refreshToken",
        "refreshToken 为空",
        "refreshToken 已被截断（长度: 10）",
        "凭据已存在",
        "refreshToken 重复",
        "凭证已过期或无效",
        "权限不足",
        "已被限流",
        // A credential that is not acceptable counts as such even where the network is named.
        "已被限流: connection",
    ] {
        match AdminService::classify_add_error(text(message)) {
            AdminServiceError::InvalidCredential(m) => assert_eq!(m, message),
            other => panic!("{:?}", other),
        }
    }
    for message in ["error trying to connect", "connection refused", "timeout"] {
        match AdminService::classify_add_error(text(message)) {
            AdminServiceError::UpstreamError(m) => assert_eq!(m, message),
            other => panic!("{:?}", other),
        }
    }
    // Neither a missing credential nor these two count here.
    for message in ["不存在", "timed out", "服务器错误"] {
        match AdminService::classify_add_error(text(message)) {
            AdminServiceError::InternalError(m) => assert_eq!(m, message),
            other => panic!("{:?}", other),
        }
    }
}

#[test]
fn failures_to_delete_a_credential() {
    for message in ["只能删除已禁用的凭据", "请先禁用凭据 #3"] {
        match AdminService::classify_delete_error(text(message), 3) {
            AdminServiceError::InvalidCredential(m) => assert_eq!(m, message),
            other => panic!("{:?}", other),
        }
    }
    match AdminService::classify_delete_error(text("禁用"), 3) {
        AdminServiceError::InternalError(m) => assert_eq!(m, "禁用"),
        other => panic!("{:?}", other),
    }
}

#[test]
fn network_trouble_is_laid_to_the_upstream_service() {
    let message = "error trying to connect: tcp connect error";
    assert!(matches!(
        AdminService::classify_balance_error(text(message), 1),
        AdminServiceError::UpstreamError(_)
    ));
    assert!(matches!(
        AdminService::classify_add_error(text(message)),
        AdminServiceError::UpstreamError(_)
    ));
}
