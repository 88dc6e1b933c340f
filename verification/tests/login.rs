//! Logging in.

use emrs::auth::DeviceInfo;
use emrs::login::{
    admin_login_event, after_admin_issue, after_issue, authenticate_by_name, begin_admin_login,
    client_ip_from, decide_admin_login, decide_user_login, fail_key, failures, login_fail_allowed,
    login_fail_record, user_login_event, FailReason, LoginRefusal, LoginStep, UserLookup,
};

fn refused(body: &str, cached: Option<&str>, device: &str) -> Option<LoginRefusal> {
    authenticate_by_name(body.as_bytes(), cached, device).err()
}

#[test]
fn names_and_passwords() {
    let form = authenticate_by_name(br#"{"UserName":" bob ","PW":"x","n":1}"#, None, "d").unwrap();
    assert_eq!((form.username.as_str(), form.password.as_str()), ("bob", "x"));
    let form =
        authenticate_by_name(br#"{"Username":" ","Name":"al","Pw":"","Password":"y"}"#, None, "d")
            .unwrap();
    assert_eq!((form.username.as_str(), form.password.as_str()), ("al", "y"));
    let form = authenticate_by_name(br#"{"name":"al"}"#, None, "d").unwrap();
    assert_eq!(form.password, "");
    let form =
        authenticate_by_name(br#"{"Username":"upper","username":"lower"}"#, None, "d").unwrap();
    assert_eq!(form.username, "lower", "the later one counts");
}

#[test]
fn refusals_before_the_lookup() {
    assert_eq!(refused("{", None, "d"), Some(LoginRefusal::BadBody));
    assert_eq!(refused("[]", None, "d"), Some(LoginRefusal::NoName));
    assert_eq!(refused(r#"{"username":5}"#, None, "d"), Some(LoginRefusal::NoName));
    assert_eq!(
        refused(r#"{"username":"a"}"#, Some("10"), ""),
        Some(LoginRefusal::TooManyFailures)
    );
    assert_eq!(refused(r#"{"username":"a"}"#, Some("9"), ""), Some(LoginRefusal::NoDevice));
    assert_eq!(refused(r#"{"username":"a"}"#, Some("x"), "d"), None);
}

#[test]
fn failures_count_up_to_the_limit() {
    assert_eq!(failures(None), 0);
    assert_eq!(failures(Some("oops")), 0);
    let mut cached: Option<String> = None;
    for n in 0..10 {
        assert!(login_fail_allowed(cached.as_deref()), "after {n} failures");
        cached = Some(login_fail_record(cached.as_deref()));
    }
    assert_eq!(cached.as_deref(), Some("10"));
    assert!(!login_fail_allowed(cached.as_deref()));
    assert_eq!(fail_key("1.2.3.4"), "login:fail:1.2.3.4");
}

#[test]
fn addresses_of_clients() {
    assert_eq!(client_ip_from(Some("1.1.1.1"), Some("2.2.2.2")), "1.1.1.1");
    assert_eq!(client_ip_from(None, Some(" 2.2.2.2 , 3.3.3.3")), "2.2.2.2");
    assert_eq!(client_ip_from(None, Some(" ,3.3.3.3")), "unknown");
    assert_eq!(client_ip_from(None, None), "unknown");
}

fn found(has_password: bool, matches: bool, disabled: bool, admin: bool) -> UserLookup {
    UserLookup::Found {
        has_password,
        password_matches: matches,
        is_disabled: disabled,
        is_admin: admin,
    }
}

#[test]
fn users_log_in() {
    assert_eq!(decide_user_login(found(true, true, false, false)), LoginStep::Issue);
    assert_eq!(decide_user_login(found(false, false, false, false)), LoginStep::Issue);
    assert_eq!(
        decide_user_login(found(true, false, true, false)),
        LoginStep::Refuse {
            refusal: LoginRefusal::BadCredentials,
            counted: true,
            logged: Some(FailReason::PasswordMismatch)
        }
    );
    assert_eq!(
        decide_user_login(found(true, true, true, false)),
        LoginStep::Refuse { refusal: LoginRefusal::Disabled, counted: false, logged: None }
    );
    assert_eq!(
        decide_user_login(UserLookup::Missing),
        LoginStep::Refuse {
            refusal: LoginRefusal::BadCredentials,
            counted: true,
            logged: Some(FailReason::UserNotFound)
        }
    );
    assert_eq!(
        decide_user_login(UserLookup::Failed),
        LoginStep::Refuse { refusal: LoginRefusal::StoreFailed, counted: false, logged: None }
    );
    assert_eq!(after_issue(true), Ok(()));
    assert_eq!(after_issue(false), Err(LoginRefusal::SessionNotStored));
}

#[test]
fn administrators_log_in() {
    assert_eq!(begin_admin_login("", "x"), Err(LoginRefusal::EmptyCredentials));
    assert_eq!(begin_admin_login("a", "x"), Ok(()));
    assert_eq!(decide_admin_login(found(true, true, false, true)), LoginStep::Issue);
    assert_eq!(
        decide_admin_login(found(true, true, false, false)),
        LoginStep::Refuse {
            refusal: LoginRefusal::NotAdmin,
            counted: false,
            logged: Some(FailReason::NotAdmin)
        }
    );
    assert_eq!(
        decide_admin_login(found(false, false, false, true)),
        LoginStep::Refuse {
            refusal: LoginRefusal::BadCredentials,
            counted: false,
            logged: Some(FailReason::PasswordMismatch)
        }
    );
    assert_eq!(
        decide_admin_login(UserLookup::Missing),
        LoginStep::Refuse {
            refusal: LoginRefusal::BadCredentials,
            counted: false,
            logged: Some(FailReason::UserNotFound)
        }
    );
    assert_eq!(
        decide_admin_login(UserLookup::Failed),
        LoginStep::Refuse { refusal: LoginRefusal::AdminStoreFailed, counted: false, logged: None }
    );
    assert_eq!(after_admin_issue(false), Err(LoginRefusal::AdminStoreFailed));
    assert_eq!(after_admin_issue(true), Ok(()));
}

#[test]
fn answers_to_refusals() {
    let all = [
        (LoginRefusal::BadBody, 400, "bad body"),
        (LoginRefusal::NoName, 422, "用户名不能为空"),
        (LoginRefusal::TooManyFailures, 429, "登录失败次数过多，请稍后再试"),
        (LoginRefusal::NoDevice, 401, "暂不兼容此设备 无 x-emby-authorization"),
        (LoginRefusal::StoreFailed, 500, "服务器错误"),
        (LoginRefusal::BadCredentials, 401, "用户名或密码错误"),
        (LoginRefusal::Disabled, 401, "账号已被封禁"),
        (LoginRefusal::SessionNotStored, 500, "保存会话失败"),
        (LoginRefusal::EmptyCredentials, 400, "用户名和密码不能为空"),
        (LoginRefusal::NotAdmin, 401, "无管理员权限"),
        (LoginRefusal::AdminStoreFailed, 500, ""),
    ];
    for (r, status, text) in all {
        assert_eq!(r.status(), status);
        assert_eq!(r.text(), text);
    }
}

#[test]
fn log_entries() {
    let d = DeviceInfo {
        client: "c".into(),
        device: "n".into(),
        device_id: "i".into(),
        version: "v".into(),
    };
    let e = user_login_event(Some(3), "bob", "ip", &d, Some(FailReason::UserNotFound));
    assert_eq!(e.user_id, Some(3));
    assert_eq!((e.username.as_str(), e.login_type.as_str(), e.success), ("bob", "user", false));
    assert_eq!((e.ip.as_str(), e.device_id.as_str()), ("ip", "i"));
    assert_eq!((e.device_name.as_str(), e.device_client.as_str()), ("n", "c"));
    assert_eq!(e.reason, "user not found");
    let a = admin_login_event(Some(4), "root", None);
    assert!(a.success);
    assert_eq!((a.login_type.as_str(), a.reason.as_str(), a.ip.as_str()), ("admin", "", ""));
    assert_eq!(
        admin_login_event(None, "root", Some(FailReason::PasswordMismatch)).reason,
        "password mismatch"
    );
    assert_eq!(
        admin_login_event(Some(4), "al", Some(FailReason::NotAdmin)).reason,
        "not an administrator"
    );
}
