//! The auth guard: the pipeline stage in front of protected routes.
//!
//! It takes the session cookie from the request, has the codec judge it
//! against the instant at which the request arrived, and either stores the
//! subject for the stages behind it and advances, or writes the rejection
//! and skips the rest. It has no exit logic.

use crate::codec::{decode_text, Codec};
use crate::exchange::{
    cookie_value, find_cookie, jar_view, Cookie, Exchange, ExchangeView, Reply, ReplyView,
};
use crate::pipeline::{Flow, Stage};
use vstd::prelude::*;
use vstd::utf8::encode_utf8;

verus! {

/// The name of the cookie that carries the session token.
pub const SESSION_COOKIE: &'static str = "jwt_token";

/// The key under which the guard stores the subject in the depot.
pub const SUBJECT_KEY: &'static str = "subject";

/// Where page routes send a client that is not authenticated.
pub const LOGIN_PATH: &'static str = "/login";

/// The status and code of a rejection on an API route.
pub const UNAUTHORIZED: u16 = 401;

/// The message of a rejection on an API route.
pub const UNAUTHORIZED_MESSAGE: &'static str = "Unauthorized";

/// How a protected route answers a client that is not authenticated.
#[derive(Debug, Clone, Copy, PartialEq, Eq, Structural)]
pub enum RouteClass {
    /// An HTML page: redirect to the login page.
    Page,
    /// A JSON endpoint: answer 401 with a machine-readable body.
    Api,
}

/// The rejection that a route of class `route` answers with.
pub open spec fn rejection_view(route: RouteClass) -> ReplyView {
    match route {
        RouteClass::Page => ReplyView::Redirect { location: LOGIN_PATH@ },
        RouteClass::Api => ReplyView::Failure {
            status: UNAUTHORIZED,
            code: UNAUTHORIZED as i32,
            msg: UNAUTHORIZED_MESSAGE@,
        },
    }
}

/// The subject that a request with cookies `jar`, arriving at `now`, is
/// admitted as under `key`: the subject of the session cookie's token, if the
/// cookie is there and its token is valid at `now`.
pub open spec fn admitted(key: Seq<u8>, jar: Seq<(Seq<char>, Seq<char>)>, now: int) -> Option<
    Seq<char>,
> {
    match cookie_value(jar, SESSION_COOKIE@) {
        None => None,
        Some(token) => decode_text(key, encode_utf8(token), now),
    }
}

/// The guard of one class of routes.
pub struct AuthGuard {
    pub codec: Codec,
    pub route: RouteClass,
}

impl AuthGuard {
    /// A guard that checks tokens with `codec` and rejects as routes of
    /// class `route` do.
    pub fn new(codec: Codec, route: RouteClass) -> (guard: AuthGuard)
        ensures
            guard.codec == codec,
            guard.route == route,
    {
        AuthGuard { codec, route }
    }

    /// The subject that a request with `cookies`, arriving at `now`, is
    /// admitted as; `None` when the session cookie is missing or its token is
    /// malformed, forged or expired. The three are not told apart.
    pub fn check(&self, cookies: &Vec<Cookie>, now: i64) -> (subject: Option<String>)
        ensures
            subject is Some <==> admitted(
                self.codec.key(),
                jar_view(cookies@),
                now as int,
            ) is Some,
            subject matches Some(s) ==> admitted(
                self.codec.key(),
                jar_view(cookies@),
                now as int,
            ) == Some(s@),
    {
        match find_cookie(cookies, SESSION_COOKIE) {
            None => None,
            Some(token) => self.codec.decode_at(token.as_str(), now),
        }
    }

    /// The reply to a client that is not authenticated. It is never empty.
    pub fn rejection(&self) -> (reply: Reply)
        ensures
            reply@ == rejection_view(self.route),
            reply@ != ReplyView::Empty,
    {
        match self.route {
            RouteClass::Page => Reply::Redirect { location: LOGIN_PATH.to_owned() },
            RouteClass::Api => Reply::Failure {
                status: UNAUTHORIZED,
                code: 401,
                msg: UNAUTHORIZED_MESSAGE.to_owned(),
            },
        }
    }
}

impl Stage<Exchange> for AuthGuard {
    open spec fn entered(&self, context: ExchangeView) -> (ExchangeView, Flow) {
        match admitted(self.codec.key(), context.cookies, context.now as int) {
            Some(subject) => (
                ExchangeView { depot: context.depot.insert(SUBJECT_KEY@, subject), ..context },
                Flow::Advance,
            ),
            None => (ExchangeView { reply: rejection_view(self.route), ..context }, Flow::SkipRest),
        }
    }

    open spec fn left(&self, context: ExchangeView) -> ExchangeView {
        context
    }

    fn enter(&self, context: &mut Exchange) -> (flow: Flow) {
        match self.check(&context.cookies, context.now) {
            Some(subject) => {
                context.depot.insert(SUBJECT_KEY.to_owned(), subject);
                Flow::Advance
            },
            None => {
                context.reply = self.rejection();
                Flow::SkipRest
            },
        }
    }

    fn leave(&self, context: &mut Exchange) {
    }
}


/// The guard is idempotent and writes nothing but the subject: entering it
/// a second time changes nothing more, and the first time changes only the
/// depot's subject entry when the request is admitted and only the reply
/// when it is not.
pub proof fn law_guard_idempotent(guard: AuthGuard, context: ExchangeView)
    ensures
        guard.entered(guard.entered(context).0) == guard.entered(context),
        guard.entered(context).0.now == context.now,
        guard.entered(context).0.cookies == context.cookies,
        guard.entered(context).0.trail == context.trail,
        guard.entered(context).0.depot.remove(SUBJECT_KEY@) == context.depot.remove(SUBJECT_KEY@),
        guard.entered(context).1 == Flow::Advance ==> guard.entered(context).0.reply
            == context.reply,
        guard.entered(context).1 != Flow::Advance ==> guard.entered(context).0.depot
            == context.depot && guard.entered(context).0.reply != ReplyView::Empty,
{
    let once = guard.entered(context).0;
    let twice = guard.entered(once).0;
    assert(once.depot.remove(SUBJECT_KEY@) =~= context.depot.remove(SUBJECT_KEY@));
    assert(twice.depot =~= once.depot);
}

} // verus!
