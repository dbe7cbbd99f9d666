//! The session issuer: what login decides, and what the login page does
//! with a client that already holds a session.
//!
//! The user store is asked by the caller; the decision takes what the store
//! answered. Both ways in which a login can fail for the client look the
//! same from outside.

use crate::clock::{is_reading, unix_now, CLOCK_MAX, CLOCK_MIN};
use crate::codec::{
    lemma_decode_issued, lifetime_fits, token_text, Codec, Credential, IssueError,
};
use crate::error::{AppError, StatusError};
use crate::exchange::{jar_view, Cookie};
use crate::guard::{admitted, AuthGuard, LOGIN_PATH, SESSION_COOKIE};
use crate::models::{PrimitiveDateTime, UserRecord};
use crate::password::{verifies, verify_password};
use vstd::prelude::*;
use vstd::utf8::encode_utf8;

verus! {

/// The status of a failed login.
pub const UNAUTHORIZED_CODE: u16 = 401;

/// The name of the status of a failed login.
pub const UNAUTHORIZED_NAME: &'static str = "Unauthorized";

/// What a client is told when a login fails, whatever the reason.
pub const LOGIN_FAILED: &'static str = "Account not exist or password is incorrect.";

/// What the log is told when a session's expiry cannot be represented.
pub const ISSUE_FAILED: &'static str = "session expiry out of range";

/// The path that the session cookie is scoped to: the whole site.
pub const COOKIE_PATH: &'static str = "/";

/// Where the login page sends a client that is already logged in.
pub const HOME_PATH: &'static str = "/users";

/// Why a login was refused.
#[derive(Debug, Clone, Copy, PartialEq, Eq, Structural)]
pub enum AuthFailure {
    /// No user has the address.
    NotFound,
    /// The secret does not match the user's digest.
    BadSecret,
}

/// What a client sends to log in.
#[derive(Debug, Clone, PartialEq, Eq)]
pub struct LoginInData {
    pub email: String,
    pub password: String,
}

/// What a client gets back from a login: the user's profile, the token and
/// the instant at which the token expires.
#[derive(Debug, Clone, PartialEq, Eq)]
pub struct LoginOutData {
    pub id: String,
    pub email: String,
    pub is_vip: bool,
    pub vip_start_time: Option<PrimitiveDateTime>,
    pub vip_end_time: Option<PrimitiveDateTime>,
    pub vip_level: i32,
    pub created_at: PrimitiveDateTime,
    pub updated_at: PrimitiveDateTime,
    pub token: String,
    pub exp: i64,
}

/// The cookie that carries the session token to the client and back.
#[derive(Debug, Clone, PartialEq, Eq)]
pub struct SessionCookie {
    pub name: String,
    pub value: String,
    pub path: String,
    /// Page scripts cannot read the cookie.
    pub http_only: bool,
    /// Seconds for which the client keeps the cookie: the token's lifetime.
    pub max_age: i64,
}

/// A successful login: the reply body and the cookie to set.
#[derive(Debug, Clone, PartialEq, Eq)]
pub struct Login {
    pub data: LoginOutData,
    pub cookie: SessionCookie,
}

/// Why a login did not produce a session.
#[derive(Debug, Clone, Copy, PartialEq, Eq, Structural)]
pub enum LoginError {
    /// The client is not who it says it is.
    Auth(AuthFailure),
    /// The credential could not be issued.
    Issue(IssueError),
}

/// Issues sessions under one signing secret with one fixed lifetime. The
/// lifetime can be added to every reading of the clock, so that issuing at
/// the current time never fails for want of an expiry instant.
pub struct SessionIssuer {
    codec: Codec,
    ttl: i64,
}

impl AuthFailure {
    /// What the client is shown: status 401 and one message for both
    /// failures, so that a reply does not tell whether an address is
    /// registered.
    pub open spec fn shown(self) -> (u16, Seq<char>, Seq<char>) {
        (UNAUTHORIZED_CODE, UNAUTHORIZED_NAME@, LOGIN_FAILED@)
    }

    /// What the server's log is told: which of the two it was.
    pub fn audit_label(&self) -> (label: &'static str)
        ensures
            label@ == match self {
                AuthFailure::NotFound => "subject not found"@,
                AuthFailure::BadSecret => "bad secret"@,
            },
    {
        match self {
            AuthFailure::NotFound => "subject not found",
            AuthFailure::BadSecret => "bad secret",
        }
    }

    /// The error that the client is answered with.
    pub fn outward(&self) -> (error: AppError)
        ensures
            error matches AppError::HttpStatus(e) && (e.code, e.name@, e.brief@) == self.shown(),
    {
        AppError::HttpStatus(
            StatusError {
                code: UNAUTHORIZED_CODE,
                name: UNAUTHORIZED_NAME.to_owned(),
                brief: LOGIN_FAILED.to_owned(),
            },
        )
    }
}

/// What a login decides, given what the user store answered for the
/// address: `NotFound` without a user, `BadSecret` when the candidate does
/// not match the user's digest, an issue error when the expiry overflows,
/// and otherwise the expiry instant of the session to issue.
pub open spec fn login_decision(
    stored: Option<Seq<u8>>,
    candidate: Seq<u8>,
    ttl: i64,
    now: i64,
) -> Result<int, LoginError> {
    match stored {
        None => Err(LoginError::Auth(AuthFailure::NotFound)),
        Some(digest) => if !verifies(candidate, digest) {
            Err(LoginError::Auth(AuthFailure::BadSecret))
        } else if !(i64::MIN <= now + ttl <= i64::MAX) {
            Err(LoginError::Issue(IssueError::ExpiryOutOfRange))
        } else {
            Ok(now + ttl)
        },
    }
}

/// The digest of the stored user, if there is one.
pub open spec fn stored_digest(user: Option<UserRecord>) -> Option<Seq<u8>> {
    match user {
        Some(u) => Some(encode_utf8(u.password@)),
        None => None,
    }
}

/// Whether `login` is the session of `user` that expires at `expires_at`:
/// the user's profile, the token for the user's identifier, and the cookie
/// that carries the token for the token's lifetime, for the whole site, out
/// of reach of page scripts.
pub open spec fn is_session(
    login: Login,
    user: UserRecord,
    key: Seq<u8>,
    ttl: i64,
    expires_at: int,
) -> bool {
    &&& login.data.id == user.id
    &&& login.data.email == user.email
    &&& login.data.is_vip == user.is_vip
    &&& login.data.vip_start_time == user.vip_start_time
    &&& login.data.vip_end_time == user.vip_end_time
    &&& login.data.vip_level == user.vip_level
    &&& login.data.created_at == user.created_at
    &&& login.data.updated_at == user.updated_at
    &&& login.data.exp == expires_at
    &&& encode_utf8(login.data.token@) == token_text(key, user.id@, expires_at)
    &&& login.cookie.name@ == SESSION_COOKIE@
    &&& login.cookie.value == login.data.token
    &&& login.cookie.path@ == COOKIE_PATH@
    &&& login.cookie.http_only
    &&& login.cookie.max_age == ttl
}

/// Whether `outcome` is what `decision` says for `user`.
pub open spec fn is_login(
    outcome: Result<Login, LoginError>,
    user: Option<UserRecord>,
    key: Seq<u8>,
    ttl: i64,
    decision: Result<int, LoginError>,
) -> bool {
    match decision {
        Err(e) => outcome == Err::<Login, LoginError>(e),
        Ok(expires_at) => outcome is Ok && user is Some && is_session(
            outcome->Ok_0,
            user->Some_0,
            key,
            ttl,
            expires_at,
        ),
    }
}

/// Whether `error` is the one reply that a failed login is answered with.
pub open spec fn is_login_refusal(error: AppError) -> bool {
    error matches AppError::HttpStatus(e) && (e.code, e.name@, e.brief@) == (
        UNAUTHORIZED_CODE,
        UNAUTHORIZED_NAME@,
        LOGIN_FAILED@,
    )
}

/// Whether `outcome` is how the login endpoint answers `decision` for
/// `user`: a session, the one refusal for either authentication failure, or
/// an internal failure when the credential could not be issued.
pub open spec fn is_login_reply(
    outcome: Result<Login, AppError>,
    user: Option<UserRecord>,
    key: Seq<u8>,
    ttl: i64,
    decision: Result<int, LoginError>,
) -> bool {
    match decision {
        Err(LoginError::Auth(_)) => outcome is Err && is_login_refusal(outcome->Err_0),
        Err(LoginError::Issue(_)) => outcome is Err && outcome->Err_0 is Internal,
        Ok(expires_at) => outcome is Ok && user is Some && is_session(
            outcome->Ok_0,
            user->Some_0,
            key,
            ttl,
            expires_at,
        ),
    }
}

impl SessionIssuer {
    #[verifier::type_invariant]
    spec fn lifetime_is_safe(self) -> bool {
        lifetime_fits(self.ttl)
    }

    /// The signing key.
    pub closed spec fn key(&self) -> Seq<u8> {
        self.codec.key()
    }

    /// Seconds for which an issued token is valid.
    pub closed spec fn lifetime(&self) -> i64 {
        self.ttl
    }

    /// An issuer that signs with `codec` and issues tokens valid for `ttl`
    /// seconds; `None` for a lifetime that cannot be added to every reading
    /// of the clock.
    pub fn new(codec: Codec, ttl: i64) -> (issuer: Option<SessionIssuer>)
        ensures
            issuer is Some <==> lifetime_fits(ttl),
            issuer matches Some(made) ==> made.key() == codec.key() && made.lifetime() == ttl,
    {
        if i64::MIN - CLOCK_MIN <= ttl && ttl <= i64::MAX - CLOCK_MAX {
            Some(SessionIssuer { codec, ttl })
        } else {
            None
        }
    }

    /// Seconds for which an issued token is valid.
    pub fn ttl(&self) -> (ttl: i64)
        ensures
            ttl == self.lifetime(),
            lifetime_fits(ttl),
    {
        proof {
            use_type_invariant(self);
        }
        self.ttl
    }

    /// Logs a client in at time `now`. `user` is what the store holds for
    /// the address that the client gave, `candidate` the secret it gave.
    /// On success the reply carries the user's profile, a token for the
    /// user's identifier that expires `ttl` seconds after `now`, and the
    /// cookie that holds the token.
    pub fn login_at(&self, user: Option<UserRecord>, candidate: &str, now: i64) -> (outcome: Result<
        Login,
        LoginError,
    >)
        ensures
            is_login(
                outcome,
                user,
                self.key(),
                self.lifetime(),
                login_decision(stored_digest(user), encode_utf8(candidate@), self.lifetime(), now),
            ),
    {
        let user = match user {
            Some(user) => user,
            None => {
                return Err(LoginError::Auth(AuthFailure::NotFound));
            },
        };
        if !verify_password(candidate, user.password.as_str()) {
            return Err(LoginError::Auth(AuthFailure::BadSecret));
        }
        let Credential { token, expires_at } = match self.codec.issue_at(
            user.id.as_str(),
            self.ttl,
            now,
        ) {
            Ok(credential) => credential,
            Err(e) => {
                return Err(LoginError::Issue(e));
            },
        };
        let cookie = SessionCookie {
            name: SESSION_COOKIE.to_owned(),
            value: token.clone(),
            path: COOKIE_PATH.to_owned(),
            http_only: true,
            max_age: self.ttl,
        };
        let data = LoginOutData {
            id: user.id,
            email: user.email,
            is_vip: user.is_vip,
            vip_start_time: user.vip_start_time,
            vip_end_time: user.vip_end_time,
            vip_level: user.vip_level,
            created_at: user.created_at,
            updated_at: user.updated_at,
            token,
            exp: expires_at,
        };
        Ok(Login { data, cookie })
    }

    /// Logs a client in at the current time: `login_at` with some reading
    /// of the clock. The login succeeds exactly when there is a stored user
    /// and the candidate matches its digest.
    pub fn login(&self, user: Option<UserRecord>, candidate: &str) -> (outcome: Result<
        Login,
        LoginError,
    >)
        ensures
            exists|now: i64|
                is_reading(now) && is_login(
                    outcome,
                    user,
                    self.key(),
                    self.lifetime(),
                    #[trigger] login_decision(
                        stored_digest(user),
                        encode_utf8(candidate@),
                        self.lifetime(),
                        now,
                    ),
                ),
            outcome is Ok <==> user is Some && verifies(
                encode_utf8(candidate@),
                encode_utf8(user->Some_0.password@),
            ),
    {
        proof {
            use_type_invariant(self);
        }
        let now = unix_now();
        self.login_at(user, candidate, now)
    }
}

/// Turns a login error into the error that the client is answered with: an
/// authentication failure into the one unauthorized reply, an issue error
/// into an internal failure.
pub fn login_failure(error: LoginError) -> (shown: AppError)
    ensures
        match error {
            LoginError::Auth(_) => is_login_refusal(shown),
            LoginError::Issue(_) => shown is Internal,
        },
{
    match error {
        LoginError::Auth(failure) => failure.outward(),
        LoginError::Issue(_) => AppError::internal(ISSUE_FAILED),
    }
}

/// Answers a login that was decided at `now`.
pub fn post_login_at(
    issuer: &SessionIssuer,
    user: Option<UserRecord>,
    idata: &LoginInData,
    now: i64,
) -> (outcome: Result<Login, AppError>)
    ensures
        is_login_reply(
            outcome,
            user,
            issuer.key(),
            issuer.lifetime(),
            login_decision(
                stored_digest(user),
                encode_utf8(idata.password@),
                issuer.lifetime(),
                now,
            ),
        ),
{
    match issuer.login_at(user, idata.password.as_str(), now) {
        Ok(login) => Ok(login),
        Err(e) => Err(login_failure(e)),
    }
}

/// Serves the login endpoint at the current time: `user` is what the store
/// holds for `idata.email`. An unknown address and a wrong secret get the
/// same refusal, and a matching secret always gets a session for the user.
pub fn post_login(
    issuer: &SessionIssuer,
    user: Option<UserRecord>,
    idata: &LoginInData,
) -> (outcome: Result<Login, AppError>)
    ensures
        exists|now: i64|
            is_reading(now) && is_login_reply(
                outcome,
                user,
                issuer.key(),
                issuer.lifetime(),
                #[trigger] login_decision(
                    stored_digest(user),
                    encode_utf8(idata.password@),
                    issuer.lifetime(),
                    now,
                ),
            ),
        outcome is Ok <==> user is Some && verifies(
            encode_utf8(idata.password@),
            encode_utf8(user->Some_0.password@),
        ),
{
    proof {
        use_type_invariant(issuer);
    }
    let now = unix_now();
    post_login_at(issuer, user, idata, now)
}

/// An unknown address and a wrong secret are answered alike, whatever the
/// clock: an observer of replies cannot tell whether an address is
/// registered.
pub proof fn law_refusals_look_alike(
    unknown: Result<Login, AppError>,
    wrong: Result<Login, AppError>,
    user: UserRecord,
    candidate: Seq<u8>,
    key: Seq<u8>,
    ttl: i64,
    now_unknown: i64,
    now_wrong: i64,
)
    requires
        !verifies(candidate, encode_utf8(user.password@)),
        is_login_reply(unknown, None, key, ttl, login_decision(None, candidate, ttl, now_unknown)),
        is_login_reply(
            wrong,
            Some(user),
            key,
            ttl,
            login_decision(stored_digest(Some(user)), candidate, ttl, now_wrong),
        ),
    ensures
        unknown is Err,
        wrong is Err,
        crate::error::shown(unknown->Err_0) == crate::error::shown(wrong->Err_0),
        crate::error::logged(unknown->Err_0) == crate::error::logged(wrong->Err_0),
{
}

/// A session opens the guard: a request that presents the cookie of a
/// session first among its session cookies is admitted as the session's user
/// strictly before the session expires, and is not admitted from then on.
pub proof fn law_session_admits(
    login: Login,
    user: UserRecord,
    key: Seq<u8>,
    ttl: i64,
    expires_at: i64,
    others: Seq<(Seq<char>, Seq<char>)>,
    now: int,
)
    requires
        is_session(login, user, key, ttl, expires_at as int),
    ensures
        admitted(key, seq![(login.cookie.name@, login.cookie.value@)] + others, now) == if now
            < expires_at {
            Some(user.id@)
        } else {
            None
        },
{
    let jar = seq![(login.cookie.name@, login.cookie.value@)] + others;
    assert(jar[0] == (login.cookie.name@, login.cookie.value@));
    lemma_decode_issued(key, user.id@, expires_at as int, now);
}

/// What a page handler does next.
#[derive(Debug, Clone, Copy, PartialEq, Eq, Structural)]
pub enum PageAction {
    /// Send the client to the login page.
    ToLogin,
    /// Send the client to the page it lands on after login.
    ToHome,
    /// Render the login form.
    LoginForm,
    /// Render the user list as a whole page.
    UserListPage,
    /// Render the user list as a fragment of a page.
    UserListFragment,
}

impl PageAction {
    /// Where a redirecting action sends the client.
    pub fn location(&self) -> (path: Option<&'static str>)
        ensures
            match self {
                PageAction::ToLogin => path matches Some(p) && p@ == LOGIN_PATH@,
                PageAction::ToHome => path matches Some(p) && p@ == HOME_PATH@,
                _ => path is None,
            },
    {
        match self {
            PageAction::ToLogin => Some(LOGIN_PATH),
            PageAction::ToHome => Some(HOME_PATH),
            _ => None,
        }
    }
}

/// Serves the login page: a client whose session cookie is valid at `now`
/// is sent on, any other client gets the login form.
pub fn login_page(guard: &AuthGuard, cookies: &Vec<Cookie>, now: i64) -> (action: PageAction)
    ensures
        action == if admitted(guard.codec.key(), jar_view(cookies@), now as int) is Some {
            PageAction::ToHome
        } else {
            PageAction::LoginForm
        },
{
    match guard.check(cookies, now) {
        Some(_) => PageAction::ToHome,
        None => PageAction::LoginForm,
    }
}

} // verus!
