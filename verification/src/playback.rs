//! The playback controller: what a change of state and a teardown achieve.

use vstd::prelude::*;
use crate::error::PipelineError;
use crate::machine::{
    lemma_advance_keeps_wf, lemma_pending_admitted, met_refusal, run, target_of, to_quiesce,
    Command, ManagerView,
};
use crate::request::{Request, Step};
use crate::unit::{
    connectable, first_from, lemma_first_from, lemma_teardown_is_dependency_order,
    lemma_teardown_order_places, teardown_order,
    PlaybackState, Unit,
};

verus! {

/// From every state each command leads to its target: `play` to `Playing`,
/// `pause` to `Paused`, `stop` to `Ready`. A command given in its target
/// state is a no-op: the engine is asked nothing, nothing changes, and the
/// result is `Ok`. Otherwise the engine is asked once for the target state;
/// its acceptance brings the pipeline and every attached unit there, its
/// refusal is reported and leaves everything as it was.
pub proof fn lemma_command_reaches_target(m: ManagerView, target: PlaybackState)
    requires
        m.wf(),
        m.task is Idle,
        !m.shut_down,
    ensures
        m.graph.state == target ==> m.begin_switch(target) == (m, Step::Done(Ok(()))),
        m.graph.state != target ==> ({
            let begun = m.begin_switch(target);
            let played = begun.0.advance(true);
            let refused = begun.0.advance(false);
            &&& begun.1 == Step::Call(Request::SetState(target))
            &&& played.1 == Step::Done(Ok(()))
            &&& played.0.task is Idle
            &&& played.0.graph == m.graph.apply(Request::SetState(target))
            &&& played.0.graph.state == target
            &&& forall|u: Unit| #[trigger]
                played.0.graph.attached(u) ==> played.0.graph.live(u) == target
            &&& refused.1 == Step::Done(
                Err(PipelineError::StateChangeFailed { requested: target }),
            )
            &&& refused.0 == m
        }),
{
    if m.graph.state == target {
        let begun = m.begin_switch(target);
        assert(begun.0.graph == m.graph);
        assert(begun.0 == m);
    } else {
        let begun = m.begin_switch(target);
        let refused = begun.0.advance(false);
        assert(refused.0 == m);
    }
}

/// From every state, `play` leads to `Playing`, `pause` to `Paused` and `stop`
/// to `Ready`, once the engine has accepted the change; where the pipeline is
/// in that state already, the command ends at once with `Ok` and changes
/// nothing.
pub proof fn lemma_every_command_reaches_its_state(m: ManagerView, command: Command)
    requires
        m.wf(),
        m.task is Idle,
        !m.shut_down,
    ensures
        target_of(command) == match command {
            Command::Play => PlaybackState::Playing,
            Command::Pause => PlaybackState::Paused,
            Command::Stop => PlaybackState::Ready,
        },
        ({
            let begun = m.begin_switch(target_of(command));
            let end = run(begun, seq![true]);
            &&& end.1 == Step::Done(Ok(()))
            &&& end.0.task is Idle
            &&& end.0.graph.state == target_of(command)
            &&& m.graph.state == target_of(command) ==> begun.1 is Done && end.0 == m
        }),
{
    let target = target_of(command);
    lemma_command_reaches_target(m, target);
    let begun = m.begin_switch(target);
    let answers = seq![true];
    assert(answers[0]);
    assert(answers.drop_first().len() == 0);
    if m.graph.state != target {
        let next = begun.0.advance(true);
        assert(run(begun, answers) == run(next, answers.drop_first()));
        assert(run(next, answers.drop_first()) == next);
    } else {
        assert(run(begun, answers) == begun);
    }
}

/// A command given twice in a row is a no-op the second time.
pub proof fn lemma_repeated_command_is_noop(m: ManagerView, target: PlaybackState)
    requires
        m.wf(),
        m.task is Idle,
        !m.shut_down,
        m.graph.state != target,
    ensures
        ({
            let once = m.begin_switch(target).0.advance(true).0;
            once.begin_switch(target) == (once, Step::Done(Ok(())))
        }),
{
    lemma_command_reaches_target(m, target);
    let once = m.begin_switch(target).0.advance(true).0;
    lemma_advance_keeps_wf(m.begin_switch(target).0, true);
    lemma_command_reaches_target(once, target);
}

/// One answer to a request of a teardown. Each request brings one unit to
/// `Null`, and only a unit whose every downstream unit is in `Null` already;
/// the last request brings the pipeline itself to `Null`. A refusal ends the
/// teardown with the graph as it was and the pipeline not torn down. When the
/// teardown ends well, the pipeline and every unit are in `Null` for good.
pub proof fn lemma_teardown_step(m: ManagerView, accepted: bool)
    requires
        m.wf(),
        m.task is Teardown,
    ensures
        ({
            let request = m.next_request()->0;
            let (n, step) = m.advance(accepted);
            &&& n.wf()
            &&& match request {
                Request::SetUnitState(unit, state) => state == PlaybackState::Null
                    && m.graph.live(unit) != PlaybackState::Null && forall|to: Unit|
                    connectable(unit, to) ==> #[trigger] m.graph.live(to) == PlaybackState::Null,
                Request::SetState(state) => state == PlaybackState::Null && forall|u: Unit|
                    #[trigger]
                    m.graph.live(u) == PlaybackState::Null,
                _ => false,
            }
            &&& step is Call ==> n.task is Teardown && accepted
            &&& step is Done ==> n.task is Idle
            &&& step is Done && accepted ==> step == Step::Done(Ok(())) && n.shut_down
                && n.graph.state == PlaybackState::Null && forall|u: Unit| #[trigger]
                n.graph.live(u) == PlaybackState::Null
            &&& !accepted ==> step == Step::Done(
                Err(PipelineError::StateChangeFailed { requested: PlaybackState::Null }),
            ) && n.graph == m.graph && !n.shut_down
        }),
{
    lemma_advance_keeps_wf(m, accepted);
    lemma_pending_admitted(m);
    let g = m.graph;
    lemma_first_from(teardown_order(), to_quiesce(g), 0);
    lemma_teardown_order_places();
    match first_from(teardown_order(), to_quiesce(g), 0) {
        Some(unit) => {
            let i = choose|i: int|
                0 <= i < teardown_order().len() && teardown_order()[i] == unit && forall|j: int|
                    0 <= j < i ==> !to_quiesce(g).contains(#[trigger] teardown_order()[j]);
            assert forall|to: Unit| connectable(unit, to) implies #[trigger] g.live(to)
                == PlaybackState::Null by {
                lemma_teardown_is_dependency_order(unit, to);
                let j = teardown_order().index_of(to);
                assert(teardown_order()[j] == to);
                assert(teardown_order().index_of(unit) == i) by {
                    teardown_order().index_of_first_ensures(unit);
                    assert(teardown_order().no_duplicates());
                }
                assert(!to_quiesce(g).contains(teardown_order()[j]));
            }
        },
        None => {
            assert forall|u: Unit| #[trigger] g.live(u) == PlaybackState::Null by {
                let j = teardown_order().index_of(u);
                assert(teardown_order().contains(u));
                assert(teardown_order()[j] == u);
                assert(!to_quiesce(g).contains(teardown_order()[j]));
            }
        },
    }
    if accepted {
        let n = m.accept(m.next_request()->0);
        lemma_first_from(teardown_order(), to_quiesce(n.graph), 0);
        if n.next_request() is None {
            assert forall|u: Unit| #[trigger] n.graph.live(u) == PlaybackState::Null by {
                let j = teardown_order().index_of(u);
                assert(teardown_order().contains(u));
                assert(teardown_order()[j] == u);
                assert(!to_quiesce(n.graph).contains(teardown_order()[j]));
            }
        }
    }
}

/// A teardown run to its end. It ends well if and only if the engine refused
/// nothing on the way; then the pipeline is torn down for good, and it and
/// every unit are in `Null`. A refusal ends it with `StateChangeFailed` for
/// `Null` and the pipeline not torn down.
pub proof fn lemma_teardown_run(start: (ManagerView, Step), answers: Seq<bool>)
    requires
        start.0.wf(),
        start.0.task is Teardown,
        start.1 is Call,
        run(start, answers).1 is Done,
    ensures
        ({
            let end = run(start, answers);
            &&& end.0.wf()
            &&& end.0.task is Idle
            &&& end.1 == Step::Done(Ok(())) || end.1 == Step::Done(
                Err(PipelineError::StateChangeFailed { requested: PlaybackState::Null }),
            )
            &&& end.1 == Step::Done(Ok(())) <==> end.0.shut_down
            &&& end.1 == Step::Done(Ok(())) <==> !met_refusal(start, answers)
            &&& end.0.shut_down ==> end.0.graph.state == PlaybackState::Null && forall|u: Unit|
                #[trigger]
                end.0.graph.live(u) == PlaybackState::Null
        }),
    decreases answers.len(),
{
    if answers.len() > 0 {
        let next = start.0.advance(answers[0]);
        lemma_teardown_step(start.0, answers[0]);
        if next.1 is Call {
            lemma_teardown_run(next, answers.drop_first());
        } else {
            assert(run(next, answers.drop_first()) == next);
            assert(!met_refusal(next, answers.drop_first()));
        }
    }
}

/// A pipeline that is torn down stays so: every command is answered at once,
/// without a request to the engine and without a change, a change of state
/// and a build with `StateChangeFailed`, a command to the filter slot with
/// `LinkFailed`, a second teardown with `Ok`.
pub proof fn lemma_teardown_is_final(m: ManagerView, text: Seq<char>, target: PlaybackState)
    requires
        m.wf(),
        m.shut_down,
    ensures
        m.begin_switch(target) == (
            m,
            Step::Done(Err(PipelineError::StateChangeFailed { requested: target })),
        ),
        m.begin_build(text) == (
            m,
            Step::Done(
                Err(PipelineError::StateChangeFailed { requested: PlaybackState::Playing }),
            ),
        ),
        m.begin_swap(text) == (m, Step::Done(Err(PipelineError::LinkFailed))),
        m.begin_clear() == (m, Step::Done(Err(PipelineError::LinkFailed))),
        m.begin_teardown() == (m, Step::Done(Ok(()))),
{
}

} // verus!
