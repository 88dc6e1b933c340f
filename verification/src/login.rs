//! Logging in: what the request says, how often it may fail, and how it is
//! answered.

use vstd::prelude::*;
use vstd::string::*;

use crate::auth::{last_value, value_or_empty, DeviceInfo};
use crate::json::{members_view, parse_json, parsed_json, Json, JsonView};
use crate::number::{is_digit, lemma_nat_text, nat_text, parse_u32, u32_of};
use crate::text::{
    find_char, is_space, join2, lemma_filter_map_all, lemma_position, lemma_trim_bounds, lower,
    lowered, opt, opt_str, position, range_text, same, to_chars, trim, trimmed,
};

verus! {

// ---------------------------------------------------------------------------
// The form

/// The name and the password that a client sends.
#[derive(Debug)]
pub struct LoginForm {
    pub username: String,
    pub password: String,
}

/// A member of the request that holds a text, its name in lower case.
pub open spec fn text_member() -> spec_fn((Seq<char>, JsonView)) -> Option<(Seq<char>, Seq<char>)> {
    |m: (Seq<char>, JsonView)|
        match m.1 {
            JsonView::Text(s) => Some((lower(m.0), s)),
            _ => None,
        }
}

/// The texts that a request holds, by name; those of anything but an object are none.
pub open spec fn text_members(body: JsonView) -> Seq<(Seq<char>, Seq<char>)> {
    match body {
        JsonView::Object(members) => members.filter_map(text_member()),
        _ => Seq::empty(),
    }
}

/// The name: that of `username`, or of `name` where that is blank.
pub open spec fn form_name(fields: Seq<(Seq<char>, Seq<char>)>) -> Seq<char> {
    let a = trim(value_or_empty(last_value(fields, "username"@)));
    if a.len() > 0 {
        a
    } else {
        trim(value_or_empty(last_value(fields, "name"@)))
    }
}

/// The password: that of `pw`, or of `password` where that is empty.
pub open spec fn form_password(fields: Seq<(Seq<char>, Seq<char>)>) -> Seq<char> {
    let a = value_or_empty(last_value(fields, "pw"@));
    if a.len() > 0 {
        a
    } else {
        value_or_empty(last_value(fields, "password"@))
    }
}

fn last_text(members: &Vec<(String, Json)>, name: &str) -> (r: Option<String>)
    ensures
        opt(r) == last_value(
            members_view(members@).filter_map(text_member()),
            name@,
        ),
{
    let ghost all = members_view(members@);
    let ghost f = text_member();
    let mut found: Option<String> = None;
    let mut i: usize = 0;
    while i < members.len()
        invariant
            i <= members.len(),
            all == members_view(members@),
            f == text_member(),
            opt(found) == last_value(all.take(i as int).filter_map(f), name@),
        decreases members.len() - i,
    {
        let ghost known = all.take(i as int).filter_map(f);
        let ghost next = all.take(i + 1).filter_map(f);
        let m = &members[i];
        proof {
            all.lemma_filter_map_take_succ(f, i as int);
            assert(all[i as int] == (m.0@, m.1@));
        }
        if let Json::Text(s) = &m.1 {
            let key = lowered(m.0.as_str());
            proof {
                assert(f(all[i as int]) == Some((key@, s@)));
                assert(next =~= known.push((key@, s@)));
                assert(next.last() == (key@, s@));
                assert(next.drop_last() =~= known);
            }
            if same(key.as_str(), name) {
                found = Some(s.clone());
            }
        } else {
            assert(f(all[i as int]) is None);
            assert(next =~= known);
        }
        i = i + 1;
    }
    assert(all.take(all.len() as int) =~= all);
    found
}

fn text_in(body: &Json, name: &str) -> (r: String)
    ensures
        r@ == value_or_empty(last_value(text_members(body@), name@)),
{
    let none = String::new();
    assert(none@ =~= Seq::empty());
    match body {
        Json::Object(members) => {
            assert(body@->Object_0 =~= members_view(members@));
            match last_text(members, name) {
                Some(s) => s,
                None => none,
            }
        },
        _ => none,
    }
}

/// The name and the password in a request.
pub fn login_form(body: &Json) -> (r: LoginForm)
    ensures
        r.username@ == form_name(text_members(body@)),
        r.password@ == form_password(text_members(body@)),
{
    let a = text_in(body, "username");
    let first = trimmed(a.as_str());
    let username = if first.as_str().is_empty() {
        let b = text_in(body, "name");
        trimmed(b.as_str())
    } else {
        first
    };
    let pw = text_in(body, "pw");
    let password = if pw.as_str().is_empty() {
        text_in(body, "password")
    } else {
        pw
    };
    LoginForm { username, password }
}

// ---------------------------------------------------------------------------
// Failures

/// How often a client may fail before it has to wait.
pub const LOGIN_FAIL_LIMIT: u32 = 10;

/// How long failures are remembered, in seconds.
pub const LOGIN_FAIL_WINDOW_SECS: u64 = 600;

/// The address that failures are counted for: that of the connection, or the
/// first one that a proxy names, or a word for an unknown one.
pub open spec fn client_address(peer: Option<Seq<char>>, forwarded: Option<Seq<char>>) -> Seq<char> {
    match peer {
        Some(p) => p,
        None => match forwarded {
            Some(f) => {
                let first = trim(f.take(position(f, ',')));
                if first.len() > 0 {
                    first
                } else {
                    "unknown"@
                }
            },
            None => "unknown"@,
        },
    }
}

/// The address that failures are counted for.
pub fn client_ip_from(peer: Option<&str>, forwarded: Option<&str>) -> (r: String)
    ensures
        r@ == client_address(opt_str(peer), opt_str(forwarded)),
{
    if let Some(p) = peer {
        return p.to_owned();
    }
    if let Some(f) = forwarded {
        let cs = to_chars(f);
        let at: usize = find_char(cs.as_slice(), 0, cs.len(), ',');
        assert(cs@.subrange(0, cs@.len() as int) =~= f@);
        let head = range_text(cs.as_slice(), 0, at);
        assert(head@ =~= f@.take(position(f@, ',')));
        let first = trimmed(head.as_str());
        if !first.as_str().is_empty() {
            return first;
        }
    }
    "unknown".to_owned()
}

/// The key under which the cache counts the failures of an address.
pub fn fail_key(ip: &str) -> (r: String)
    ensures
        r@ == "login:fail:"@ + ip@,
{
    join2("login:fail:", ip)
}

/// The number of failures that the cache holds; none counts as zero.
pub open spec fn failures_of(cached: Option<Seq<char>>) -> u32 {
    match cached {
        Some(v) => match u32_of(v) {
            Some(n) => n,
            None => 0,
        },
        None => 0,
    }
}

/// The number of failures that the cache holds.
pub fn failures(cached: Option<&str>) -> (r: u32)
    ensures
        r == failures_of(opt_str(cached)),
{
    match cached {
        Some(v) => match parse_u32(v) {
            Some(n) => n,
            None => 0,
        },
        None => 0,
    }
}

/// Whether a client may try to log in.
pub fn login_fail_allowed(cached: Option<&str>) -> (r: bool)
    ensures
        r == (failures_of(opt_str(cached)) < LOGIN_FAIL_LIMIT),
{
    failures(cached) < LOGIN_FAIL_LIMIT
}

/// What the cache holds after one more failure.
pub open spec fn after_failure(cached: Option<Seq<char>>) -> Seq<char> {
    nat_text((failures_of(cached) + 1) as nat)
}

/// What the cache holds after one more failure.
pub fn login_fail_record(cached: Option<&str>) -> (r: String)
    requires
        failures_of(opt_str(cached)) < u32::MAX,
    ensures
        r@ == after_failure(opt_str(cached)),
{
    let n: u32 = failures(cached) + 1;
    crate::number::u64_text(n as u64)
}

/// A recorded failure counts as one more.
pub proof fn law_failure_counts(cached: Option<Seq<char>>)
    requires
        failures_of(cached) < u32::MAX,
    ensures
        failures_of(Some(after_failure(cached))) == failures_of(cached) + 1,
{
    let n = (failures_of(cached) + 1) as nat;
    lemma_nat_text(n);
    let s = nat_text(n);
    assert(crate::number::is_digit(s[0]));
}

/// What the cache holds after `n` failures in a row.
pub open spec fn after_failures(cached: Option<Seq<char>>, n: nat) -> Option<Seq<char>>
    decreases n,
{
    if n == 0 {
        cached
    } else {
        Some(after_failure(after_failures(cached, (n - 1) as nat)))
    }
}

/// A client that has failed as often as it may is not let in, and one that has
/// failed less often is.
pub proof fn law_limit(n: nat)
    requires
        n <= u32::MAX,
    ensures
        failures_of(after_failures(None, n)) == n,
        failures_of(after_failures(None, n)) < LOGIN_FAIL_LIMIT <==> n < LOGIN_FAIL_LIMIT,
    decreases n,
{
    if n > 0 {
        law_limit((n - 1) as nat);
        law_failure_counts(after_failures(None, (n - 1) as nat));
    }
}

// ---------------------------------------------------------------------------
// Answers

/// Why a login is refused.
#[derive(Debug, Clone, Copy, PartialEq, Eq, Structural)]
pub enum LoginRefusal {
    /// The request is no JSON document.
    BadBody,
    /// There is no name.
    NoName,
    /// The client has failed too often.
    TooManyFailures,
    /// The client does not say which device it is.
    NoDevice,
    /// The store cannot be asked.
    StoreFailed,
    /// There is no such user, or the password is another one.
    BadCredentials,
    /// The user is locked out.
    Disabled,
    /// The session cannot be stored.
    SessionNotStored,
    /// The name or the password is empty.
    EmptyCredentials,
    /// The user is no administrator.
    NotAdmin,
    /// An administrator's session cannot be looked up or stored.
    AdminStoreFailed,
}

/// The status of a refusal.
pub open spec fn status_of(r: LoginRefusal) -> u16 {
    match r {
        LoginRefusal::BadBody | LoginRefusal::EmptyCredentials => 400,
        LoginRefusal::NoName => 422,
        LoginRefusal::TooManyFailures => 429,
        LoginRefusal::NoDevice | LoginRefusal::BadCredentials | LoginRefusal::Disabled
        | LoginRefusal::NotAdmin => 401,
        LoginRefusal::StoreFailed | LoginRefusal::SessionNotStored
        | LoginRefusal::AdminStoreFailed => 500,
    }
}

/// The text of a refusal.
pub open spec fn answer_of(r: LoginRefusal) -> Seq<char> {
    match r {
        LoginRefusal::BadBody => "bad body"@,
        LoginRefusal::NoName => "用户名不能为空"@,
        LoginRefusal::TooManyFailures => "登录失败次数过多，请稍后再试"@,
        LoginRefusal::NoDevice => "暂不兼容此设备 无 x-emby-authorization"@,
        LoginRefusal::StoreFailed => "服务器错误"@,
        LoginRefusal::BadCredentials => "用户名或密码错误"@,
        LoginRefusal::Disabled => "账号已被封禁"@,
        LoginRefusal::SessionNotStored => "保存会话失败"@,
        LoginRefusal::EmptyCredentials => "用户名和密码不能为空"@,
        LoginRefusal::NotAdmin => "无管理员权限"@,
        LoginRefusal::AdminStoreFailed => ""@,
    }
}

impl LoginRefusal {
    /// The status of the answer.
    pub fn status(self) -> (r: u16)
        ensures
            r == status_of(self),
    {
        match self {
            LoginRefusal::BadBody | LoginRefusal::EmptyCredentials => 400,
            LoginRefusal::NoName => 422,
            LoginRefusal::TooManyFailures => 429,
            LoginRefusal::NoDevice | LoginRefusal::BadCredentials | LoginRefusal::Disabled
            | LoginRefusal::NotAdmin => 401,
            LoginRefusal::StoreFailed | LoginRefusal::SessionNotStored
        | LoginRefusal::AdminStoreFailed => 500,
        }
    }

    /// The text of the answer.
    pub fn text(self) -> (r: &'static str)
        ensures
            r@ == answer_of(self),
    {
        match self {
            LoginRefusal::BadBody => "bad body",
            LoginRefusal::NoName => "用户名不能为空",
            LoginRefusal::TooManyFailures => "登录失败次数过多，请稍后再试",
            LoginRefusal::NoDevice => "暂不兼容此设备 无 x-emby-authorization",
            LoginRefusal::StoreFailed => "服务器错误",
            LoginRefusal::BadCredentials => "用户名或密码错误",
            LoginRefusal::Disabled => "账号已被封禁",
            LoginRefusal::SessionNotStored => "保存会话失败",
            LoginRefusal::EmptyCredentials => "用户名和密码不能为空",
            LoginRefusal::NotAdmin => "无管理员权限",
            LoginRefusal::AdminStoreFailed => "",
        }
    }
}

/// Why a request is refused before the user is looked up; none where it is not.
pub open spec fn refused_early(
    body: Option<JsonView>,
    cached: Option<Seq<char>>,
    device_id: Seq<char>,
) -> Option<LoginRefusal> {
    match body {
        None => Some(LoginRefusal::BadBody),
        Some(b) => if form_name(text_members(b)).len() == 0 {
            Some(LoginRefusal::NoName)
        } else if failures_of(cached) >= LOGIN_FAIL_LIMIT {
            Some(LoginRefusal::TooManyFailures)
        } else if device_id.len() == 0 {
            Some(LoginRefusal::NoDevice)
        } else {
            None
        },
    }
}

/// The name and the password of a request, or why it is refused before the user
/// is looked up. `cached` is what the cache holds on the client's failures.
pub fn begin_login(body: &Option<Json>, cached: Option<&str>, device_id: &str) -> (r: Result<
    LoginForm,
    LoginRefusal,
>)
    ensures
        match r {
            Ok(form) => body is Some && refused_early(
                Some(body->0@),
                opt_str(cached),
                device_id@,
            ) is None && form.username@ == form_name(text_members(body->0@)) && form.password@
                == form_password(text_members(body->0@)),
            Err(e) => refused_early(
                crate::json::opt_tree(*body),
                opt_str(cached),
                device_id@,
            ) == Some(e),
        },
{
    match body {
        None => Err(LoginRefusal::BadBody),
        Some(b) => {
            let form = login_form(b);
            if form.username.as_str().is_empty() {
                return Err(LoginRefusal::NoName);
            }
            if !login_fail_allowed(cached) {
                return Err(LoginRefusal::TooManyFailures);
            }
            if device_id.is_empty() {
                return Err(LoginRefusal::NoDevice);
            }
            Ok(form)
        },
    }
}

/// The name and the password of a request in bytes, or why it is refused before
/// the user is looked up.
pub fn authenticate_by_name(body: &[u8], cached: Option<&str>, device_id: &str) -> (r: Result<
    LoginForm,
    LoginRefusal,
>)
    ensures
        match r {
            Ok(form) => {
                let document = parsed_json(body@);
                &&& document is Some
                &&& refused_early(document, opt_str(cached), device_id@) is None
                &&& form.username@ == form_name(text_members(document->0))
                &&& form.password@ == form_password(text_members(document->0))
            },
            Err(e) => refused_early(parsed_json(body@), opt_str(cached), device_id@) == Some(e),
        },
{
    let document = parse_json(body);
    begin_login(&document, cached, device_id)
}

/// What looking up a user gave.
#[derive(Debug, Clone, Copy, PartialEq, Eq, Structural)]
pub enum UserLookup {
    /// The store could not be asked.
    Failed,
    /// There is no such user.
    Missing,
    /// There is one. `has_password`: whether a password was set;
    /// `password_matches`: whether the given one is it.
    Found { has_password: bool, password_matches: bool, is_disabled: bool, is_admin: bool },
}

/// What to do about a login.
#[derive(Debug, Clone, Copy, PartialEq, Eq, Structural)]
pub enum LoginStep {
    /// Refuse it. `counted`: the failure counts against the client;
    /// `logged`: it is logged, with this reason.
    Refuse { refusal: LoginRefusal, counted: bool, logged: Option<FailReason> },
    /// Issue a session.
    Issue,
}

/// Why a login failed, as it is logged.
#[derive(Debug, Clone, Copy, PartialEq, Eq, Structural)]
pub enum FailReason {
    UserNotFound,
    PasswordMismatch,
    NotAdmin,
}

/// The words for a reason.
pub open spec fn reason_words(r: FailReason) -> Seq<char> {
    match r {
        FailReason::UserNotFound => "user not found"@,
        FailReason::PasswordMismatch => "password mismatch"@,
        FailReason::NotAdmin => "not an administrator"@,
    }
}

/// The words for a reason.
pub fn reason_text(r: FailReason) -> (s: &'static str)
    ensures
        s@ == reason_words(r),
{
    match r {
        FailReason::UserNotFound => "user not found",
        FailReason::PasswordMismatch => "password mismatch",
        FailReason::NotAdmin => "not an administrator",
    }
}

/// What to do about a user's login: a user without a password needs none, and a
/// wrong name or password counts against the client.
pub open spec fn user_login(lookup: UserLookup) -> LoginStep {
    match lookup {
        UserLookup::Failed => LoginStep::Refuse {
            refusal: LoginRefusal::StoreFailed,
            counted: false,
            logged: None,
        },
        UserLookup::Missing => LoginStep::Refuse {
            refusal: LoginRefusal::BadCredentials,
            counted: true,
            logged: Some(FailReason::UserNotFound),
        },
        UserLookup::Found { has_password, password_matches, is_disabled, is_admin } => if has_password
            && !password_matches {
            LoginStep::Refuse {
                refusal: LoginRefusal::BadCredentials,
                counted: true,
                logged: Some(FailReason::PasswordMismatch),
            }
        } else if is_disabled {
            LoginStep::Refuse { refusal: LoginRefusal::Disabled, counted: false, logged: None }
        } else {
            LoginStep::Issue
        },
    }
}

/// What to do about a user's login.
pub fn decide_user_login(lookup: UserLookup) -> (r: LoginStep)
    ensures
        r == user_login(lookup),
{
    match lookup {
        UserLookup::Failed => LoginStep::Refuse {
            refusal: LoginRefusal::StoreFailed,
            counted: false,
            logged: None,
        },
        UserLookup::Missing => LoginStep::Refuse {
            refusal: LoginRefusal::BadCredentials,
            counted: true,
            logged: Some(FailReason::UserNotFound),
        },
        UserLookup::Found { has_password, password_matches, is_disabled, is_admin: _ } => {
            if has_password && !password_matches {
                LoginStep::Refuse {
                    refusal: LoginRefusal::BadCredentials,
                    counted: true,
                    logged: Some(FailReason::PasswordMismatch),
                }
            } else if is_disabled {
                LoginStep::Refuse { refusal: LoginRefusal::Disabled, counted: false, logged: None }
            } else {
                LoginStep::Issue
            }
        },
    }
}

/// What to do once a session was issued: a session that could not be stored
/// is refused, and one that was stored clears the client's failures.
pub fn after_issue(stored: bool) -> (r: Result<(), LoginRefusal>)
    ensures
        match r {
            Ok(_) => stored,
            Err(e) => !stored && e == LoginRefusal::SessionNotStored,
        },
{
    if stored {
        Ok(())
    } else {
        Err(LoginRefusal::SessionNotStored)
    }
}

/// Whether an administrator's login names a user and a password at all.
pub fn begin_admin_login(username: &str, password: &str) -> (r: Result<(), LoginRefusal>)
    ensures
        match r {
            Ok(_) => username@.len() > 0 && password@.len() > 0,
            Err(e) => (username@.len() == 0 || password@.len() == 0) && e
                == LoginRefusal::EmptyCredentials,
        },
{
    if username.is_empty() || password.is_empty() {
        Err(LoginRefusal::EmptyCredentials)
    } else {
        Ok(())
    }
}

/// What to do about an administrator's login: the password always counts, it is
/// only looked at for an administrator, and every login that is refused on what
/// the store says is logged.
pub open spec fn admin_login_step(lookup: UserLookup) -> LoginStep {
    match lookup {
        UserLookup::Failed => LoginStep::Refuse {
            refusal: LoginRefusal::AdminStoreFailed,
            counted: false,
            logged: None,
        },
        UserLookup::Missing => LoginStep::Refuse {
            refusal: LoginRefusal::BadCredentials,
            counted: false,
            logged: Some(FailReason::UserNotFound),
        },
        UserLookup::Found { has_password, password_matches, is_disabled, is_admin } => if !is_admin {
            LoginStep::Refuse {
                refusal: LoginRefusal::NotAdmin,
                counted: false,
                logged: Some(FailReason::NotAdmin),
            }
        } else if !password_matches {
            LoginStep::Refuse {
                refusal: LoginRefusal::BadCredentials,
                counted: false,
                logged: Some(FailReason::PasswordMismatch),
            }
        } else {
            LoginStep::Issue
        },
    }
}

/// What to do about an administrator's login.
pub fn decide_admin_login(lookup: UserLookup) -> (r: LoginStep)
    ensures
        r == admin_login_step(lookup),
{
    match lookup {
        UserLookup::Failed => LoginStep::Refuse {
            refusal: LoginRefusal::AdminStoreFailed,
            counted: false,
            logged: None,
        },
        UserLookup::Missing => LoginStep::Refuse {
            refusal: LoginRefusal::BadCredentials,
            counted: false,
            logged: Some(FailReason::UserNotFound),
        },
        UserLookup::Found { has_password: _, password_matches, is_disabled: _, is_admin } => {
            if !is_admin {
                LoginStep::Refuse {
                    refusal: LoginRefusal::NotAdmin,
                    counted: false,
                    logged: Some(FailReason::NotAdmin),
                }
            } else if !password_matches {
                LoginStep::Refuse {
                    refusal: LoginRefusal::BadCredentials,
                    counted: false,
                    logged: Some(FailReason::PasswordMismatch),
                }
            } else {
                LoginStep::Issue
            }
        },
    }
}

/// What to do once an administrator's session was issued.
pub fn after_admin_issue(stored: bool) -> (r: Result<(), LoginRefusal>)
    ensures
        match r {
            Ok(_) => stored,
            Err(e) => !stored && e == LoginRefusal::AdminStoreFailed,
        },
{
    if stored {
        Ok(())
    } else {
        Err(LoginRefusal::AdminStoreFailed)
    }
}

/// A session is issued only for a user that exists and whose password, if one
/// was set, was given; and never for a user that is locked out.
pub proof fn law_login_needs_credentials(lookup: UserLookup)
    ensures
        user_login(lookup) == LoginStep::Issue <==> (lookup matches UserLookup::Found {
            has_password,
            password_matches,
            is_disabled,
            is_admin,
        } && (password_matches || !has_password) && !is_disabled),
        admin_login_step(lookup) == LoginStep::Issue <==> (lookup matches UserLookup::Found {
            has_password,
            password_matches,
            is_disabled,
            is_admin,
        } && password_matches && is_admin),
{
}

/// A login as it is logged.
#[derive(Debug)]
pub struct LoginEvent {
    pub user_id: Option<i64>,
    pub username: String,
    pub login_type: String,
    pub success: bool,
    pub ip: String,
    pub device_id: String,
    pub device_name: String,
    pub device_client: String,
    pub reason: String,
}

/// The log entry of a user's login; a failed one gives the reason.
pub fn user_login_event(
    user_id: Option<i64>,
    username: &str,
    ip: &str,
    device: &DeviceInfo,
    failure: Option<FailReason>,
) -> (r: LoginEvent)
    ensures
        r.user_id == user_id,
        r.username@ == username@,
        r.login_type@ == "user"@,
        r.success == (failure is None),
        r.ip@ == ip@,
        r.device_id@ == device.device_id@,
        r.device_name@ == device.device@,
        r.device_client@ == device.client@,
        r.reason@ == (match failure {
            Some(f) => reason_words(f),
            None => Seq::empty(),
        }),
        event_of(r, "user"@, user_id, username@, failure) && from_client(r, ip@, *device),
{
    let reason = match failure {
        Some(f) => reason_text(f).to_owned(),
        None => String::new(),
    };
    LoginEvent {
        user_id,
        username: username.to_owned(),
        login_type: "user".to_owned(),
        success: failure.is_none(),
        ip: ip.to_owned(),
        device_id: device.device_id.clone(),
        device_name: device.device.clone(),
        device_client: device.client.clone(),
        reason,
    }
}

/// The log entry of an administrator's login, which names no client.
pub fn admin_login_event(user_id: Option<i64>, username: &str, failure: Option<FailReason>) -> (r:
    LoginEvent)
    ensures
        r.user_id == user_id,
        r.username@ == username@,
        r.login_type@ == "admin"@,
        r.success == (failure is None),
        r.ip@.len() == 0,
        r.device_id@.len() == 0,
        r.device_name@.len() == 0,
        r.device_client@.len() == 0,
        r.reason@ == (match failure {
            Some(f) => reason_words(f),
            None => Seq::empty(),
        }),
        event_of(r, "admin"@, user_id, username@, failure) && from_nowhere(r),
{
    let reason = match failure {
        Some(f) => reason_text(f).to_owned(),
        None => String::new(),
    };
    LoginEvent {
        user_id,
        username: username.to_owned(),
        login_type: "admin".to_owned(),
        success: failure.is_none(),
        ip: String::new(),
        device_id: String::new(),
        device_name: String::new(),
        device_client: String::new(),
        reason,
    }
}

// ---------------------------------------------------------------------------
// What a login comes to

proof fn lemma_two_members(a: Seq<char>, x: Seq<char>, b: Seq<char>, y: Seq<char>)
    ensures
        text_members(JsonView::Object(seq![(a, JsonView::Text(x)), (b, JsonView::Text(y))])) == seq![
            (lower(a), x),
            (lower(b), y),
        ],
{
    let members = seq![(a, JsonView::Text(x)), (b, JsonView::Text(y))];
    lemma_filter_map_all(members, text_member(), seq![(lower(a), x), (lower(b), y)]);
}

/// The form of a login gives the name without blanks around it and the password
/// letter by letter. Clients call them `Username` and `Pw`, or `Name` and
/// `Password`.
pub proof fn law_login_form(name: Seq<char>, password: Seq<char>)
    ensures
        ({
            let fields = text_members(
                JsonView::Object(
                    seq![("Username"@, JsonView::Text(name)), ("Pw"@, JsonView::Text(password))],
                ),
            );
            form_name(fields) == trim(name) && form_password(fields) == password
        }),
        ({
            let fields = text_members(
                JsonView::Object(
                    seq![("Name"@, JsonView::Text(name)), ("Password"@, JsonView::Text(password))],
                ),
            );
            form_name(fields) == trim(name) && form_password(fields) == password
        }),
        ({
            let fields = text_members(JsonView::Object(Seq::empty()));
            form_name(fields).len() == 0 && form_password(fields).len() == 0
        }),
{
    reveal_strlit("Username");
    reveal_strlit("Pw");
    reveal_strlit("Name");
    reveal_strlit("Password");
    reveal_strlit("username");
    reveal_strlit("pw");
    reveal_strlit("name");
    reveal_strlit("password");
    assert(lower("Username"@) =~= "username"@);
    assert(lower("Pw"@) =~= "pw"@);
    assert(lower("Name"@) =~= "name"@);
    assert(lower("Password"@) =~= "password"@);
    assert("username"@.len() == 8 && "pw"@.len() == 2 && "name"@.len() == 4 && "password"@.len()
        == 8);
    assert("username"@[0] == 'u' && "password"@[0] == 'p');
    lemma_two_members("Username"@, name, "Pw"@, password);
    lemma_two_members("Name"@, name, "Password"@, password);
    reveal_with_fuel(last_value, 3);
    let none = Seq::<(Seq<char>, Seq<char>)>::empty();
    let a = seq![("username"@, name), ("pw"@, password)];
    let b = seq![("name"@, name), ("password"@, password)];
    assert(a.drop_last() =~= seq![("username"@, name)]);
    assert(b.drop_last() =~= seq![("name"@, name)]);
    assert(seq![("username"@, name)].drop_last() =~= none);
    assert(seq![("name"@, name)].drop_last() =~= none);
    let empty = Seq::<char>::empty();
    lemma_trim_bounds(empty, |c: char| is_space(c), 0, 0);
    assert(empty.subrange(0, 0) =~= empty);
    reveal(Seq::filter_map);
}

/// The address of a client is that of its connection. Only where that is not
/// known, it is the first one that a proxy names.
pub proof fn law_client_address(
    peer: Seq<char>,
    first: Seq<char>,
    rest: Seq<char>,
    forwarded: Option<Seq<char>>,
)
    requires
        first.len() > 0,
        !is_space(first[0]) && !is_space(first.last()),
        !first.contains(','),
    ensures
        client_address(Some(peer), forwarded) == peer,
        client_address(None, Some(first)) == first,
        client_address(None, Some(first.push(',') + rest)) == first,
        client_address(None, None) == "unknown"@,
{
    let all = first.push(',') + rest;
    assert forall|i: int| 0 <= i < first.len() implies #[trigger] all[i] != ',' && first[i] != ',' by {
        assert(all[i] == first[i]);
        assert(first.contains(first[i]));
    }
    assert forall|i: int| 0 <= i < first.len() implies #[trigger] first[i] != ',' by {
        assert(first.contains(first[i]));
    }
    lemma_position(all, ',', first.len() as int);
    lemma_position(first, ',', first.len() as int);
    assert(all.take(first.len() as int) =~= first);
    assert(first.take(first.len() as int) =~= first);
    lemma_trim_bounds(first, |c: char| is_space(c), 0, first.len() as int);
    assert(first.subrange(0, first.len() as int) =~= first);
}

/// Ten failures lock a client out, and fewer do not.
pub proof fn law_ten_failures(n: nat)
    requires
        n <= u32::MAX,
    ensures
        failures_of(Some(nat_text(n))) == n,
        failures_of(None) == 0,
        n < 10 <==> failures_of(Some(nat_text(n))) < LOGIN_FAIL_LIMIT,
{
    lemma_nat_text(n);
    assert(is_digit(nat_text(n)[0]));
}

/// A login is refused before the store is asked exactly where it is no
/// document, names nobody, comes from a client that failed ten times, or does
/// not say which device it comes from; the first of these is the answer.
pub proof fn law_refused_early(
    body: Option<JsonView>,
    cached: Option<Seq<char>>,
    device_id: Seq<char>,
)
    ensures
        body is None <==> refused_early(body, cached, device_id) == Some(LoginRefusal::BadBody),
        body is Some ==> ({
            let named = form_name(text_members(body->0)).len() > 0;
            let locked = failures_of(cached) >= 10;
            let r = refused_early(body, cached, device_id);
            &&& r is None <==> named && !locked && device_id.len() > 0
            &&& r == Some(LoginRefusal::NoName) <==> !named
            &&& r == Some(LoginRefusal::TooManyFailures) <==> named && locked
            &&& r == Some(LoginRefusal::NoDevice) <==> named && !locked && device_id.len() == 0
        }),
{
}

/// What a refused login is answered with.
pub proof fn law_refusals_are_answered()
    ensures
        status_of(LoginRefusal::BadBody) == 400,
        status_of(LoginRefusal::EmptyCredentials) == 400,
        status_of(LoginRefusal::NoName) == 422,
        status_of(LoginRefusal::TooManyFailures) == 429,
        status_of(LoginRefusal::NoDevice) == 401,
        status_of(LoginRefusal::BadCredentials) == 401,
        status_of(LoginRefusal::Disabled) == 401,
        status_of(LoginRefusal::NotAdmin) == 401,
        status_of(LoginRefusal::StoreFailed) == 500,
        status_of(LoginRefusal::SessionNotStored) == 500,
        status_of(LoginRefusal::AdminStoreFailed) == 500,
        answer_of(LoginRefusal::BadCredentials) == "用户名或密码错误"@,
        answer_of(LoginRefusal::Disabled) == "账号已被封禁"@,
        answer_of(LoginRefusal::TooManyFailures) == "登录失败次数过多，请稍后再试"@,
{
}

/// Only a wrong name or a wrong password counts against a client, and it is
/// answered alike whichever of the two it was; a user's login that failed for
/// another reason is neither counted nor logged.
pub proof fn law_which_failures_count(lookup: UserLookup)
    ensures
        user_login(lookup) matches LoginStep::Refuse { refusal, counted, logged } ==> {
            &&& counted <==> refusal == LoginRefusal::BadCredentials
            &&& counted <==> logged is Some
            &&& logged == Some(FailReason::UserNotFound) <==> lookup is Missing
            &&& refusal == LoginRefusal::StoreFailed <==> lookup is Failed
            &&& lookup is Missing ==> refusal == LoginRefusal::BadCredentials
        },
        lookup matches UserLookup::Found { has_password, password_matches, is_disabled, is_admin }
            ==> {
            &&& has_password && !password_matches ==> user_login(lookup) == (LoginStep::Refuse {
                refusal: LoginRefusal::BadCredentials,
                counted: true,
                logged: Some(FailReason::PasswordMismatch),
            })
            &&& (!has_password || password_matches) && is_disabled ==> user_login(lookup) == (
            LoginStep::Refuse { refusal: LoginRefusal::Disabled, counted: false, logged: None })
        },
        admin_login_step(lookup) matches LoginStep::Refuse { refusal, counted, logged } ==> {
            &&& !counted
            &&& logged is None <==> lookup is Failed
            &&& lookup is Failed ==> refusal == LoginRefusal::AdminStoreFailed
            &&& lookup is Missing ==> refusal == LoginRefusal::BadCredentials && logged == Some(
                FailReason::UserNotFound,
            )
            &&& lookup matches UserLookup::Found {
                has_password,
                password_matches,
                is_disabled,
                is_admin,
            } ==> {
                &&& !is_admin ==> refusal == LoginRefusal::NotAdmin && logged == Some(
                    FailReason::NotAdmin,
                )
                &&& is_admin ==> refusal == LoginRefusal::BadCredentials && logged == Some(
                    FailReason::PasswordMismatch,
                )
            }
        },
{
}

/// Whether `r` logs a login of a type.
pub open spec fn event_of(
    r: LoginEvent,
    login_type: Seq<char>,
    user_id: Option<i64>,
    username: Seq<char>,
    failure: Option<FailReason>,
) -> bool {
    &&& r.login_type@ == login_type
    &&& r.user_id == user_id
    &&& r.username@ == username
    &&& r.success == (failure is None)
    &&& r.reason@ == (match failure {
        Some(f) => reason_words(f),
        None => Seq::empty(),
    })
}

/// Whether `r` names the client that a login came from.
pub open spec fn from_client(r: LoginEvent, ip: Seq<char>, device: DeviceInfo) -> bool {
    &&& r.ip@ == ip
    &&& r.device_id@ == device.device_id@
    &&& r.device_name@ == device.device@
    &&& r.device_client@ == device.client@
}

/// Whether `r` names no client.
pub open spec fn from_nowhere(r: LoginEvent) -> bool {
    r.ip@.len() == 0 && r.device_id@.len() == 0 && r.device_name@.len() == 0
        && r.device_client@.len() == 0
}

/// A log entry says who logged in and from where, and it says why a login failed
/// exactly where one did.
pub proof fn law_login_events(
    r: LoginEvent,
    login_type: Seq<char>,
    user_id: Option<i64>,
    username: Seq<char>,
    failure: Option<FailReason>,
    ip: Seq<char>,
    device: DeviceInfo,
)
    requires
        event_of(r, login_type, user_id, username, failure),
    ensures
        r.user_id == user_id && r.username@ == username && r.login_type@ == login_type,
        r.success <==> failure is None,
        r.success <==> r.reason@.len() == 0,
        failure == Some(FailReason::UserNotFound) ==> r.reason@ == "user not found"@,
        failure == Some(FailReason::PasswordMismatch) ==> r.reason@ == "password mismatch"@,
        failure == Some(FailReason::NotAdmin) ==> r.reason@ == "not an administrator"@,
        from_client(r, ip, device) ==> r.ip@ == ip && r.device_id@ == device.device_id@
            && r.device_name@ == device.device@ && r.device_client@ == device.client@,
        from_nowhere(r) ==> r.ip@.len() == 0 && r.device_id@.len() == 0,
{
    reveal_strlit("user not found");
    reveal_strlit("password mismatch");
    reveal_strlit("not an administrator");
}

} // verus!
