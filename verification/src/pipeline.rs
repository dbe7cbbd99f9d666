//! The request pipeline: an ordered chain of stages around a request.
//!
//! Each stage has logic that runs on the way in (`enter`), says what happens
//! to the rest of the chain, and has logic that runs on the way out
//! (`leave`). Stages are entered in registration order and left in reverse
//! order; a stage that skips the rest stops the way in, and every stage that
//! was entered is still left. The route handler is the last stage.

use vstd::prelude::*;

verus! {

/// What a stage does with the rest of the chain once its entry logic has run.
#[derive(Debug, Clone, Copy, PartialEq, Eq, Structural)]
pub enum Flow {
    /// Invoke the rest of the chain, then run the exit logic.
    Advance,
    /// Raise the control signal: no further stage is entered.
    SkipRest,
    /// Go straight to the exit logic and leave the control signal alone.
    Return,
}

/// A unit of request interception over a per-request context `C`.
pub trait Stage<C: View> {
    /// What `enter` makes of the context, and what it decides.
    spec fn entered(&self, context: C::V) -> (C::V, Flow);

    /// What `leave` makes of the context.
    spec fn left(&self, context: C::V) -> C::V;

    /// The logic on the way in.
    fn enter(&self, context: &mut C) -> (flow: Flow)
        ensures
            (final(context)@, flow) == self.entered(old(context)@),
    ;

    /// The logic on the way out.
    fn leave(&self, context: &mut C)
        ensures
            final(context)@ == self.left(old(context)@),
    ;
}

/// The dispatcher's state for one request: the index of the next stage to
/// enter, and the control signal.
#[derive(Debug, Clone, Copy, PartialEq, Eq, Structural)]
pub struct FlowCtrl {
    pub cursor: usize,
    pub ceased: bool,
}

impl FlowCtrl {
    /// The state at the start of a request: cursor at the first stage,
    /// control signal down.
    pub fn new() -> (ctrl: FlowCtrl)
        ensures
            ctrl == (FlowCtrl { cursor: 0, ceased: false }),
    {
        FlowCtrl { cursor: 0, ceased: false }
    }

    /// Whether a chain of `stages` stages has a stage left to enter.
    pub open spec fn spec_has_next(&self, stages: usize) -> bool {
        !self.ceased && self.cursor < stages
    }

    /// Whether a chain of `stages` stages has a stage left to enter.
    #[verifier::when_used_as_spec(spec_has_next)]
    pub fn has_next(&self, stages: usize) -> (more: bool)
        ensures
            more == self.spec_has_next(stages),
    {
        !self.ceased && self.cursor < stages
    }

    /// Picks the stage to enter next in a chain of `stages` stages and moves
    /// the cursor past it, so that the stage may itself ask for the next.
    /// `None`, with the state unchanged, when the control signal is set or
    /// the cursor is past the end.
    pub fn next(&mut self, stages: usize) -> (index: Option<usize>)
        ensures
            old(self).has_next(stages) ==> index == Some(old(self).cursor) && *final(self) == (
            FlowCtrl { cursor: (old(self).cursor + 1) as usize, ceased: false }),
            !old(self).has_next(stages) ==> index is None && *final(self) == *old(self),
    {
        if self.ceased || self.cursor >= stages {
            None
        } else {
            let index = self.cursor;
            self.cursor = index + 1;
            Some(index)
        }
    }

    /// Raises the control signal. The cursor stays where it is.
    pub fn skip_rest(&mut self)
        ensures
            *final(self) == (FlowCtrl { cursor: old(self).cursor, ceased: true }),
    {
        self.ceased = true;
    }

    /// Whether the control signal is set.
    pub fn is_ceased(&self) -> (ceased: bool)
        ensures
            ceased == self.ceased,
    {
        self.ceased
    }
}

/// Where a request stands after part of the chain has run.
pub struct Progress<V> {
    pub cursor: int,
    pub ceased: bool,
    pub context: V,
}

/// What advancing from `cursor` with the control signal down makes of the
/// context: the stage at `cursor` is entered, the chain behind it runs if the
/// stage advances, and the stage is left.
pub open spec fn advanced<C: View, S: Stage<C>>(
    stages: Seq<S>,
    cursor: int,
    context: C::V,
) -> Progress<C::V>
    decreases stages.len() - cursor,
{
    if cursor < 0 || cursor >= stages.len() {
        Progress { cursor, ceased: false, context }
    } else {
        let stage = stages[cursor];
        let (entered, flow) = stage.entered(context);
        let inner = match flow {
            Flow::Advance => advanced(stages, cursor + 1, entered),
            Flow::SkipRest => Progress { cursor: cursor + 1, ceased: true, context: entered },
            Flow::Return => Progress { cursor: cursor + 1, ceased: false, context: entered },
        };
        Progress { cursor: inner.cursor, ceased: inner.ceased, context: stage.left(inner.context) }
    }
}

/// Invokes the rest of the chain. Does nothing when the control signal is
/// set or no stage is left; otherwise moves the cursor past the next stage
/// and runs it: its entry logic, then what it decides for the rest of the
/// chain, then its exit logic.
pub fn advance<C: View, S: Stage<C>>(stages: &Vec<S>, ctrl: &mut FlowCtrl, context: &mut C)
    ensures
        old(ctrl).ceased ==> *final(ctrl) == *old(ctrl) && final(context)@ == old(context)@,
        !old(ctrl).ceased ==> {
            let after = advanced(stages@, old(ctrl).cursor as int, old(context)@);
            &&& final(ctrl).cursor == after.cursor
            &&& final(ctrl).ceased == after.ceased
            &&& final(context)@ == after.context
        },
    decreases stages.len() - old(ctrl).cursor,
{
    match ctrl.next(stages.len()) {
        None => {},
        Some(index) => {
            let stage = &stages[index];
            match stage.enter(context) {
                Flow::Advance => {
                    advance(stages, ctrl, context);
                },
                Flow::SkipRest => {
                    ctrl.skip_rest();
                },
                Flow::Return => {},
            }
            stage.leave(context);
        },
    }
}

/// Runs a request through the whole chain, from the first stage. Returns
/// whether the control signal was raised on the way.
pub fn run<C: View, S: Stage<C>>(stages: &Vec<S>, context: &mut C) -> (ceased: bool)
    ensures
        ceased == advanced(stages@, 0, old(context)@).ceased,
        final(context)@ == advanced(stages@, 0, old(context)@).context,
{
    let mut ctrl = FlowCtrl::new();
    advance(stages, &mut ctrl, context);
    ctrl.is_ceased()
}

/// How many stages are entered when advancing from `cursor`: the run of
/// stages that advance, and the first one that does not.
pub open spec fn depth<C: View, S: Stage<C>>(stages: Seq<S>, cursor: int, context: C::V) -> nat
    decreases stages.len() - cursor,
{
    if cursor < 0 || cursor >= stages.len() {
        0
    } else {
        let (entered, flow) = stages[cursor].entered(context);
        if flow == Flow::Advance {
            1 + depth(stages, cursor + 1, entered)
        } else {
            1
        }
    }
}

/// The context after the entry logic of `count` stages from `cursor` on, in
/// registration order.
pub open spec fn entered_chain<C: View, S: Stage<C>>(
    stages: Seq<S>,
    cursor: int,
    count: nat,
    context: C::V,
) -> C::V
    decreases count,
{
    if count == 0 {
        context
    } else {
        entered_chain(stages, cursor + 1, (count - 1) as nat, stages[cursor].entered(context).0)
    }
}

/// The context after the exit logic of `count` stages from `cursor` on, in
/// reverse registration order: the stage at `cursor` is left last.
pub open spec fn left_chain<C: View, S: Stage<C>>(
    stages: Seq<S>,
    cursor: int,
    count: nat,
    context: C::V,
) -> C::V
    decreases count,
{
    if count == 0 {
        context
    } else {
        stages[cursor].left(left_chain(stages, cursor + 1, (count - 1) as nat, context))
    }
}

/// What the stage that ends the way in decided: the decision of the last of
/// the `depth` stages entered from `cursor`.
pub open spec fn turning_flow<C: View, S: Stage<C>>(
    stages: Seq<S>,
    cursor: int,
    context: C::V,
) -> Flow
    decreases stages.len() - cursor,
{
    if cursor < 0 || cursor >= stages.len() {
        Flow::Return
    } else {
        let (entered, flow) = stages[cursor].entered(context);
        if flow == Flow::Advance && cursor + 1 < stages.len() {
            turning_flow(stages, cursor + 1, entered)
        } else {
            flow
        }
    }
}

/// Ordering: advancing enters stages in registration order and then leaves
/// exactly the stages it entered, in reverse order. The cursor ends behind
/// the last stage entered, and the control signal is up exactly when that
/// stage skipped the rest.
pub proof fn law_onion_order<C: View, S: Stage<C>>(stages: Seq<S>, cursor: int, context: C::V)
    requires
        0 <= cursor <= stages.len(),
    ensures
        ({
            let count = depth(stages, cursor, context);
            let after = advanced(stages, cursor, context);
            &&& cursor + count <= stages.len()
            &&& after.cursor == cursor + count
            &&& after.ceased == (turning_flow(stages, cursor, context) == Flow::SkipRest)
            &&& after.context == left_chain(
                stages,
                cursor,
                count,
                entered_chain(stages, cursor, count, context),
            )
        }),
    decreases stages.len() - cursor,
{
    if cursor < stages.len() {
        let (entered, flow) = stages[cursor].entered(context);
        if flow == Flow::Advance {
            law_onion_order(stages, cursor + 1, entered);
        } else {
            assert(entered_chain(stages, cursor + 1, 0, entered) == entered);
            assert(left_chain(stages, cursor + 1, 0, entered) == entered);
        }
    }
}

/// When every stage from `cursor` on advances whatever the context, all of
/// them are entered, the last one included.
pub proof fn law_full_chain<C: View, S: Stage<C>>(stages: Seq<S>, cursor: int, context: C::V)
    requires
        0 <= cursor <= stages.len(),
        forall|i: int, c: C::V|
            cursor <= i < stages.len() ==> (#[trigger] stages[i].entered(c)).1 == Flow::Advance,
    ensures
        depth(stages, cursor, context) == stages.len() - cursor,
        !advanced(stages, cursor, context).ceased,
    decreases stages.len() - cursor,
{
    if cursor < stages.len() {
        let (entered, flow) = stages[cursor].entered(context);
        law_full_chain(stages, cursor + 1, entered);
    }
}

/// Short circuit: when the stages before `stop` advance whatever the context
/// and the stage at `stop` skips the rest on the context that reaches it, the
/// way in ends at `stop`. No later stage is entered or left, the stages up to
/// `stop` are all left, in reverse order, and the control signal is up.
pub proof fn law_short_circuit<C: View, S: Stage<C>>(
    stages: Seq<S>,
    cursor: int,
    stop: int,
    context: C::V,
)
    requires
        0 <= cursor <= stop < stages.len(),
        forall|i: int, c: C::V|
            cursor <= i < stop ==> (#[trigger] stages[i].entered(c)).1 == Flow::Advance,
        stages[stop].entered(
            entered_chain(stages, cursor, (stop - cursor) as nat, context),
        ).1 == Flow::SkipRest,
    ensures
        depth(stages, cursor, context) == stop - cursor + 1,
        advanced(stages, cursor, context).ceased,
        advanced(stages, cursor, context).cursor == stop + 1,
        advanced(stages, cursor, context).context == left_chain(
            stages,
            cursor,
            (stop - cursor + 1) as nat,
            entered_chain(stages, cursor, (stop - cursor + 1) as nat, context),
        ),
    decreases stop - cursor,
{
    if cursor < stop {
        let (entered, flow) = stages[cursor].entered(context);
        law_short_circuit(stages, cursor + 1, stop, entered);
    } else {
        let (entered, flow) = stages[cursor].entered(context);
        assert(entered_chain(stages, cursor, 0, context) == context);
        assert(entered_chain(stages, cursor + 1, 0, entered) == entered);
        assert(left_chain(stages, cursor + 1, 0, entered) == entered);
    }
}

} // verus!
