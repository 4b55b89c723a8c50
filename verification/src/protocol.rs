//! What holds of a statement over its whole life, whatever the engine answers.

use vstd::prelude::*;
use vstd::utf8::encode_utf8;
use crate::engine::spec_status_ok;
use crate::source::{lemma_offsets_strictly_increase, remainder_offset, spec_remainder, valid_tail};
use crate::statement::{
    after_begin_bind, after_bind, after_release, after_step, compiled_view, fresh, is_live,
    next_slot, release_result, BindProgress, Compiled, StatementView,
};

verus! {

/// One thing that happens to a live statement.
pub enum Event {
    /// A bind call began.
    BeginBind,
    /// A value was offered to the slot whose turn it was, and the engine
    /// answered with this status.
    Bind(i32),
    /// A step was handed to the worker; the engine's status, or `None` where
    /// the worker was gone.
    Step(Option<i32>),
    /// The statement was reset.
    Reset,
}

/// The statement after one event. A bind with no slot left does not happen.
pub open spec fn apply(v: StatementView, event: Event) -> StatementView {
    match event {
        Event::BeginBind => after_begin_bind(v),
        Event::Bind(status) => if v.cursor < v.parameters {
            after_bind(v, Some(status))
        } else {
            v
        },
        Event::Step(status) => after_step(v, status),
        Event::Reset => fresh(v),
    }
}

/// The statement after a run of events.
pub open spec fn run(v: StatementView, events: Seq<Event>) -> StatementView
    decreases events.len(),
{
    if events.len() == 0 {
        v
    } else {
        apply(run(v, events.drop_last()), events.last())
    }
}

/// Whether the statement's counters are within its slots.
pub open spec fn within_slots(v: StatementView) -> bool {
    v.cursor <= v.bound <= v.parameters
}

/// Nothing that happens to a statement changes what it was compiled to, ends
/// its life, or fills more slots than it has.
pub proof fn lemma_run_keeps_statement(v: StatementView, events: Seq<Event>)
    requires
        is_live(v),
        within_slots(v),
    ensures
        is_live(run(v, events)),
        within_slots(run(v, events)),
        fresh(run(v, events)) == fresh(v),
        run(v, events).handle == v.handle,
    decreases events.len(),
{
    if events.len() > 0 {
        lemma_run_keeps_statement(v, events.drop_last());
    }
}

/// Reuse: after any run of binds and steps, a reset leaves the statement
/// exactly as it was when compiled. So a cycle of reset, bind and step starts
/// from the same state as a first run on a newly compiled statement, and the
/// columns are never read again.
pub proof fn lemma_reset_restores_compiled_state(v: StatementView, events: Seq<Event>)
    requires
        is_live(v),
        within_slots(v),
        v == fresh(v),
    ensures
        apply(run(v, events), Event::Reset) == v,
        run(v, events.push(Event::Reset)) == v,
{
    lemma_run_keeps_statement(v, events);
    assert(events.push(Event::Reset).drop_last() == events);
}

/// How one bind call went.
pub struct BindCall {
    /// The statement when the call is over.
    pub end: StatementView,
    /// The 1-based slot indices to which values were offered, in the order
    /// of the values. Its length is the number of values taken.
    pub slots: Seq<nat>,
    /// Whether the call ended with a bind error, at the last of `slots`.
    pub failed: bool,
}

/// A bind call from where it stands: `answers` holds, for each value that
/// is left, the status with which the engine would answer its bind. A value
/// is taken only when a slot is left for it; the call ends when the slots or
/// the values run out, or with the first value that the engine rejects.
pub open spec fn bind_from(v: StatementView, answers: Seq<i32>) -> BindCall
    decreases answers.len(),
{
    match next_slot(v) {
        BindProgress::Finished(_) => BindCall { end: v, slots: Seq::empty(), failed: false },
        BindProgress::Next { index } => if answers.len() == 0 {
            BindCall { end: v, slots: Seq::empty(), failed: false }
        } else if answers[0] == spec_status_ok() {
            let rest = bind_from(after_bind(v, Some(answers[0])), answers.drop_first());
            BindCall { slots: seq![(v.cursor + 1) as nat] + rest.slots, ..rest }
        } else {
            BindCall { end: v, slots: seq![(v.cursor + 1) as nat], failed: true }
        },
    }
}

/// A whole bind call: it begins, and then goes on as `bind_from` says.
pub open spec fn bind_call(v: StatementView, answers: Seq<i32>) -> BindCall {
    bind_from(after_begin_bind(v), answers)
}

/// The smaller of two numbers.
pub open spec fn least(a: nat, b: nat) -> nat {
    if a <= b {
        a
    } else {
        b
    }
}

/// A bind call whose values the engine all accepts, from where it stands:
/// it takes as many values as there are slots left, or all of them if they
/// are fewer, and gives them to the slots in increasing order.
pub proof fn lemma_accepted_binds_from(v: StatementView, answers: Seq<i32>)
    requires
        within_slots(v),
        forall|i: int| 0 <= i < answers.len() ==> answers[i] == spec_status_ok(),
    ensures
        ({
            let call = bind_from(v, answers);
            let taken = least(answers.len(), (v.parameters - v.cursor) as nat);
            &&& !call.failed
            &&& call.slots == Seq::new(taken, |j: int| (v.cursor + 1 + j) as nat)
            &&& call.end == (StatementView {
                cursor: v.cursor + taken,
                bound: if v.bound > v.cursor + taken {
                    v.bound
                } else {
                    v.cursor + taken
                },
                ..v
            })
        }),
    decreases answers.len(),
{
    let taken = least(answers.len(), (v.parameters - v.cursor) as nat);
    let expected = Seq::new(taken, |j: int| (v.cursor + 1 + j) as nat);
    if v.cursor < v.parameters && answers.len() > 0 {
        let next = after_bind(v, Some(answers[0]));
        lemma_accepted_binds_from(next, answers.drop_first());
        let rest = bind_from(next, answers.drop_first());
        assert(seq![(v.cursor + 1) as nat] + rest.slots =~= expected);
    } else {
        assert(bind_from(v, answers).slots =~= expected);
    }
}

/// Every bind call starts at slot 1. With `k` values that the engine all
/// accepts and `n` slots, whatever was bound before, the call ends without an
/// error, takes exactly the first `min(k, n)` values, and gives the value at
/// position `j` to slot `j`. Fewer values than slots is no error: the slots
/// behind them keep what they had, and more values than slots stay untaken.
pub proof fn lemma_partial_bind_is_no_error(v: StatementView, answers: Seq<i32>)
    requires
        within_slots(v),
        forall|i: int| 0 <= i < answers.len() ==> answers[i] == spec_status_ok(),
    ensures
        ({
            let call = bind_call(v, answers);
            let taken = least(answers.len(), v.parameters);
            &&& !call.failed
            &&& call.slots == Seq::new(taken, |j: int| (j + 1) as nat)
            &&& call.end.cursor == taken
            &&& call.end.bound == (if v.bound > taken {
                v.bound
            } else {
                taken
            })
            &&& call.end == (StatementView { cursor: call.end.cursor, bound: call.end.bound, ..v })
        }),
{
    let begun = after_begin_bind(v);
    lemma_accepted_binds_from(begun, answers);
    let taken = least(answers.len(), v.parameters);
    assert(Seq::new(taken, |j: int| (begun.cursor + 1 + j) as nat) =~= Seq::new(
        taken,
        |j: int| (j + 1) as nat,
    ));
}

/// A value that the engine rejects ends the call with an error at the index
/// of its slot, which is its position in the call; the values accepted before
/// it stay bound, and no further value is taken.
pub proof fn lemma_failed_bind_keeps_earlier(v: StatementView, answers: Seq<i32>, at: int)
    requires
        within_slots(v),
        0 <= at < answers.len(),
        v.cursor + at < v.parameters,
        forall|i: int| 0 <= i < at ==> answers[i] == spec_status_ok(),
        answers[at] != spec_status_ok(),
    ensures
        ({
            let call = bind_from(v, answers);
            &&& call.failed
            &&& call.slots == Seq::new((at + 1) as nat, |j: int| (v.cursor + 1 + j) as nat)
            &&& call.slots.last() == v.cursor + at + 1
            &&& call.end == bind_from(v, answers.take(at)).end
            &&& call.end.cursor == v.cursor + at
        }),
    decreases at,
{
    let expected = Seq::new((at + 1) as nat, |j: int| (v.cursor + 1 + j) as nat);
    if at == 0 {
        assert(bind_from(v, answers).slots =~= expected);
        assert(answers.take(0) =~= Seq::<i32>::empty());
    } else {
        let next = after_bind(v, Some(answers[0]));
        lemma_failed_bind_keeps_earlier(next, answers.drop_first(), at - 1);
        let rest = bind_from(next, answers.drop_first());
        assert(seq![(v.cursor + 1) as nat] + rest.slots =~= expected);
        assert(answers.take(at).drop_first() =~= answers.drop_first().take(at - 1));
        assert(answers.take(at)[0] == answers[0]);
    }
}

/// Two successive compiles of one batch, the second on the text that the
/// first left: the tails of the two statements, both offsets into the whole
/// batch, never decrease and lie within the batch. The second is strictly
/// greater wherever the engine reports that the second statement took at
/// least one byte.
pub proof fn lemma_tails_increase(rest: Seq<char>, start: nat, first: Compiled, second: Compiled)
    requires
        valid_tail(rest, first.tail as int),
        valid_tail(spec_remainder(rest, first.tail as int), second.tail as int),
    ensures
        ({
            let first_tail = compiled_view(first, start).tail;
            let between = start + remainder_offset(rest, first.tail as int);
            let second_tail = compiled_view(second, between as nat).tail;
            &&& start <= first_tail <= between
            &&& first_tail <= second_tail <= start + encode_utf8(rest).len()
            &&& second.tail > 0 ==> first_tail < second_tail
        }),
{
    lemma_offsets_strictly_increase(rest, first.tail as int, second.tail as int);
}

/// Release: in whatever phase a statement is, after whatever happened to it,
/// its release hands out the handle it was compiled with and ends its life; a
/// second release hands out nothing and changes nothing.
pub proof fn lemma_released_exactly_once(v: StatementView, events: Seq<Event>)
    requires
        is_live(v),
        within_slots(v),
    ensures
        release_result(run(v, events)) == v.handle,
        !is_live(after_release(run(v, events))),
        release_result(after_release(run(v, events))) is None,
        after_release(after_release(run(v, events))) == after_release(run(v, events)),
{
    lemma_run_keeps_statement(v, events);
}

} // verus!
