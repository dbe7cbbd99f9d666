//! Stock stages: the four shapes a stage can take around the rest of the
//! chain, a handler that answers with fixed content, and one type that holds
//! any of them so that a chain can mix them with the auth guard.
//!
//! The logic of a stock stage is to leave its mark on the exchange's trail,
//! which is how the order of a chain is observed.

use crate::error::INTERNAL_MESSAGE;
use crate::exchange::{
    jar_view, Cookie, Exchange, ExchangeView, Mark, MarkView, Reply, ReplyView,
};
use crate::guard::AuthGuard;
use crate::pipeline::{advanced, run, Flow, Stage};
use vstd::prelude::*;

verus! {

/// The exchange with `mark` appended to its trail.
pub open spec fn marked(context: ExchangeView, mark: MarkView) -> ExchangeView {
    ExchangeView { trail: context.trail.push(mark), ..context }
}

/// Logic before the rest of the chain, none after it.
pub struct PreProcessing {
    pub label: String,
}

/// Logic after the rest of the chain, none before it.
pub struct PostProcessing {
    pub label: String,
}

/// Logic before and after the rest of the chain.
pub struct OnionModel {
    pub label: String,
}

/// Logic before and after, and between them the control signal is raised
/// instead of the rest of the chain being invoked.
pub struct SkipHandler {
    pub label: String,
}

/// A route handler that answers with fixed content and invokes nothing.
pub struct Respond {
    pub status: u16,
    pub body: String,
}

impl Stage<Exchange> for PreProcessing {
    open spec fn entered(&self, context: ExchangeView) -> (ExchangeView, Flow) {
        (marked(context, MarkView::Pre(self.label@)), Flow::Advance)
    }

    open spec fn left(&self, context: ExchangeView) -> ExchangeView {
        context
    }

    fn enter(&self, context: &mut Exchange) -> (flow: Flow) {
        context.record(Mark::Pre(self.label.clone()));
        Flow::Advance
    }

    fn leave(&self, context: &mut Exchange) {
    }
}

impl Stage<Exchange> for PostProcessing {
    open spec fn entered(&self, context: ExchangeView) -> (ExchangeView, Flow) {
        (context, Flow::Advance)
    }

    open spec fn left(&self, context: ExchangeView) -> ExchangeView {
        marked(context, MarkView::Post(self.label@))
    }

    fn enter(&self, context: &mut Exchange) -> (flow: Flow) {
        Flow::Advance
    }

    fn leave(&self, context: &mut Exchange) {
        context.record(Mark::Post(self.label.clone()));
    }
}

impl Stage<Exchange> for OnionModel {
    open spec fn entered(&self, context: ExchangeView) -> (ExchangeView, Flow) {
        (marked(context, MarkView::Pre(self.label@)), Flow::Advance)
    }

    open spec fn left(&self, context: ExchangeView) -> ExchangeView {
        marked(context, MarkView::Post(self.label@))
    }

    fn enter(&self, context: &mut Exchange) -> (flow: Flow) {
        context.record(Mark::Pre(self.label.clone()));
        Flow::Advance
    }

    fn leave(&self, context: &mut Exchange) {
        context.record(Mark::Post(self.label.clone()));
    }
}

impl Stage<Exchange> for SkipHandler {
    open spec fn entered(&self, context: ExchangeView) -> (ExchangeView, Flow) {
        (marked(context, MarkView::Pre(self.label@)), Flow::SkipRest)
    }

    open spec fn left(&self, context: ExchangeView) -> ExchangeView {
        marked(context, MarkView::Post(self.label@))
    }

    fn enter(&self, context: &mut Exchange) -> (flow: Flow) {
        context.record(Mark::Pre(self.label.clone()));
        Flow::SkipRest
    }

    fn leave(&self, context: &mut Exchange) {
        context.record(Mark::Post(self.label.clone()));
    }
}

impl Stage<Exchange> for Respond {
    open spec fn entered(&self, context: ExchangeView) -> (ExchangeView, Flow) {
        (
            ExchangeView {
                reply: ReplyView::Content { status: self.status, body: self.body@ },
                ..context
            },
            Flow::Return,
        )
    }

    open spec fn left(&self, context: ExchangeView) -> ExchangeView {
        context
    }

    fn enter(&self, context: &mut Exchange) -> (flow: Flow) {
        context.reply = Reply::Content { status: self.status, body: self.body.clone() };
        Flow::Return
    }

    fn leave(&self, context: &mut Exchange) {
    }
}

/// Any of the stages of this library.
pub enum Hoop {
    PreProcessing(PreProcessing),
    PostProcessing(PostProcessing),
    OnionModel(OnionModel),
    SkipHandler(SkipHandler),
    AuthGuard(AuthGuard),
    Respond(Respond),
}

impl Stage<Exchange> for Hoop {
    open spec fn entered(&self, context: ExchangeView) -> (ExchangeView, Flow) {
        match self {
            Hoop::PreProcessing(stage) => stage.entered(context),
            Hoop::PostProcessing(stage) => stage.entered(context),
            Hoop::OnionModel(stage) => stage.entered(context),
            Hoop::SkipHandler(stage) => stage.entered(context),
            Hoop::AuthGuard(stage) => stage.entered(context),
            Hoop::Respond(stage) => stage.entered(context),
        }
    }

    open spec fn left(&self, context: ExchangeView) -> ExchangeView {
        match self {
            Hoop::PreProcessing(stage) => stage.left(context),
            Hoop::PostProcessing(stage) => stage.left(context),
            Hoop::OnionModel(stage) => stage.left(context),
            Hoop::SkipHandler(stage) => stage.left(context),
            Hoop::AuthGuard(stage) => stage.left(context),
            Hoop::Respond(stage) => stage.left(context),
        }
    }

    fn enter(&self, context: &mut Exchange) -> (flow: Flow) {
        match self {
            Hoop::PreProcessing(stage) => stage.enter(context),
            Hoop::PostProcessing(stage) => stage.enter(context),
            Hoop::OnionModel(stage) => stage.enter(context),
            Hoop::SkipHandler(stage) => stage.enter(context),
            Hoop::AuthGuard(stage) => stage.enter(context),
            Hoop::Respond(stage) => stage.enter(context),
        }
    }

    fn leave(&self, context: &mut Exchange) {
        match self {
            Hoop::PreProcessing(stage) => stage.leave(context),
            Hoop::PostProcessing(stage) => stage.leave(context),
            Hoop::OnionModel(stage) => stage.leave(context),
            Hoop::SkipHandler(stage) => stage.leave(context),
            Hoop::AuthGuard(stage) => stage.leave(context),
            Hoop::Respond(stage) => stage.leave(context),
        }
    }
}


/// The context of a request that has just arrived at `now` with cookies
/// `jar`.
pub open spec fn arrived(now: i64, jar: Seq<(Seq<char>, Seq<char>)>) -> ExchangeView {
    ExchangeView {
        now,
        cookies: jar,
        depot: Map::empty(),
        reply: ReplyView::Empty,
        trail: Seq::empty(),
    }
}

/// The status and code of the reply that stands in for a missing one.
pub const MISSING_REPLY_STATUS: u16 = 500;

/// What is sent once the chain has run: a chain that raised the control
/// signal and wrote nothing is a fault of the server, and is answered with
/// the generic internal failure instead of an empty reply.
pub open spec fn settled(ceased: bool, context: ExchangeView) -> ExchangeView {
    if ceased && context.reply == ReplyView::Empty {
        ExchangeView {
            reply: ReplyView::Failure {
                status: MISSING_REPLY_STATUS,
                code: MISSING_REPLY_STATUS as i32,
                msg: INTERNAL_MESSAGE@,
            },
            ..context
        }
    } else {
        context
    }
}

/// Serves one request: makes its context, runs it through the whole chain,
/// and fills in the reply where a stage skipped the rest without writing
/// one. After a skip the reply is never empty.
pub fn serve<S: Stage<Exchange>>(stages: &Vec<S>, now: i64, cookies: Vec<Cookie>) -> (exchange:
    Exchange)
    ensures
        exchange@ == settled(
            advanced(stages@, 0, arrived(now, jar_view(cookies@))).ceased,
            advanced(stages@, 0, arrived(now, jar_view(cookies@))).context,
        ),
        advanced(stages@, 0, arrived(now, jar_view(cookies@))).ceased ==> exchange@.reply
            != ReplyView::Empty,
{
    let mut exchange = Exchange::new(now, cookies);
    let ceased = run(stages, &mut exchange);
    if ceased && exchange.reply.is_empty() {
        exchange.reply = Reply::Failure {
            status: MISSING_REPLY_STATUS,
            code: 500,
            msg: INTERNAL_MESSAGE.to_owned(),
        };
    }
    exchange
}

/// Ordering of a chain of onion stages: from `cursor` on, every stage leaves
/// its entry mark in registration order, then every stage leaves its exit
/// mark in reverse registration order. Nothing but the trail changes, what
/// was on the trail stays, and the control signal stays down.
pub proof fn law_onion_trail(stages: Seq<OnionModel>, cursor: int, context: ExchangeView)
    requires
        0 <= cursor <= stages.len(),
    ensures
        ({
            let after = advanced(stages, cursor, context);
            let count = stages.len() - cursor;
            let trail = after.context.trail;
            let base = context.trail.len() as int;
            &&& !after.ceased
            &&& after.cursor == stages.len()
            &&& after.context == ExchangeView { trail, ..context }
            &&& trail.len() == base + 2 * count
            &&& forall|j: int| 0 <= j < base ==> #[trigger] trail[j] == context.trail[j]
            &&& forall|j: int|
                base <= j < base + count ==> #[trigger] trail[j] == MarkView::Pre(
                    stages[cursor + (j - base)].label@,
                )
            &&& forall|j: int|
                base + count <= j < base + 2 * count ==> #[trigger] trail[j] == MarkView::Post(
                    stages[stages.len() - 1 - (j - base - count)].label@,
                )
        }),
    decreases stages.len() - cursor,
{
    if cursor < stages.len() {
        let stage = stages[cursor];
        let entered = marked(context, MarkView::Pre(stage.label@));
        law_onion_trail(stages, cursor + 1, entered);
        let inner = advanced(stages, cursor + 1, entered);
        let after = advanced(stages, cursor, context);
        let count = stages.len() - cursor;
        let base = context.trail.len() as int;
        let trail = after.context.trail;
        assert(after.context == marked(inner.context, MarkView::Post(stage.label@)));
        assert(trail == inner.context.trail.push(MarkView::Post(stage.label@)));
        assert forall|j: int| 0 <= j < base implies #[trigger] trail[j] == context.trail[j] by {
            assert(inner.context.trail[j] == entered.trail[j]);
        }
        assert forall|j: int| base <= j < base + count implies #[trigger] trail[j]
            == MarkView::Pre(stages[cursor + (j - base)].label@) by {
            assert(trail[j] == inner.context.trail[j]);
            if j == base {
                assert(inner.context.trail[j] == entered.trail[j]);
            }
        }
        assert forall|j: int| base + count <= j < base + 2 * count implies #[trigger] trail[j]
            == MarkView::Post(stages[stages.len() - 1 - (j - base - count)].label@) by {
            if j < base + 2 * count - 1 {
                assert(trail[j] == inner.context.trail[j]);
            }
        }
    }
}

} // verus!
