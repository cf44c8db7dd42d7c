//! The filter slot: what a swap and a clearing leave behind, whatever the
//! engine answers.

use vstd::prelude::*;
use crate::error::PipelineError;
use crate::graph::GraphView;
use crate::machine::{
    carried_error, filter_present, first_refusal, lemma_advance_keeps_wf, lemma_begin_keeps_wf,
    lemma_pending_admitted, met_refusal, on_way_back, refused_on_way_back, run, sentinel,
    slot_empty, slot_occupied, slot_settled, ManagerView, Task,
};
use crate::request::{refusal_of, Request, Step};
use crate::unit::{PlaybackState, Standing, Unit};

verus! {

/// Whether the operation under way works on the filter slot.
pub open spec fn in_slot_task(m: ManagerView) -> bool {
    m.task is Swap || m.task is Clear || m.task is Restore || m.task is Repair
}

/// The request for the direct link between converter and sink.
pub open spec fn direct_link() -> Request {
    Request::Link(Unit::VideoConvert, Unit::VideoSink)
}

/// The filter is given up only once the direct link stands: where no filter
/// exists, converter and sink are linked.
pub open spec fn slot_kept(g: GraphView) -> bool {
    !filter_present(g) ==> g.linked(Unit::VideoConvert, Unit::VideoSink)
}

/// Whether a link is one of the three that make up the slot.
pub open spec fn slot_link(from: Unit, to: Unit) -> bool {
    ||| (from == Unit::VideoConvert && to == Unit::VideoSink)
    ||| (from == Unit::VideoConvert && to == Unit::Filter)
    ||| (from == Unit::Filter && to == Unit::VideoSink)
}

/// Two graphs differ at most in the filter unit and in the slot's links.
pub open spec fn same_outside_slot(g: GraphView, h: GraphView) -> bool {
    &&& g.state == h.state
    &&& forall|u: Unit| u != Unit::Filter ==> #[trigger] g.units[u] == h.units[u]
    &&& forall|a: Unit, b: Unit|
        #![trigger g.links.contains((a, b))]
        #![trigger h.links.contains((a, b))]
        !slot_link(a, b) ==> g.links.contains((a, b)) == h.links.contains((a, b))
}

/// A command to the filter slot.
pub enum FilterCall {
    /// Put the named filter into the slot.
    Install(Seq<char>),
    /// Empty the slot.
    Clear,
}

/// The manager and the first step when the command begins.
pub open spec fn begin_call(m: ManagerView, call: FilterCall) -> (ManagerView, Step) {
    match call {
        FilterCall::Install(name) => m.begin_swap(name),
        FilterCall::Clear => m.begin_clear(),
    }
}

/// Whether, on the way, a refusal ended the operation while the slot was
/// neither empty nor occupied.
pub open spec fn gave_up_torn(start: (ManagerView, Step), answers: Seq<bool>) -> bool
    decreases answers.len(),
{
    if start.1 is Done || answers.len() == 0 {
        false
    } else {
        let next = start.0.advance(answers[0]);
        (!answers[0] && next.1 is Done && !slot_settled(start.0.graph)) || gave_up_torn(
            next,
            answers.drop_first(),
        )
    }
}

/// Whether the engine refused a request other than the direct link.
pub open spec fn refused_beside_direct_link(start: (ManagerView, Step), answers: Seq<bool>) -> bool
    decreases answers.len(),
{
    if start.1 is Done || answers.len() == 0 {
        false
    } else {
        (!answers[0] && start.0.next_request() != Some(direct_link()))
            || refused_beside_direct_link(start.0.advance(answers[0]), answers.drop_first())
    }
}

/// The manager after a sequence of commands, each run on its own answers.
pub open spec fn after_calls(
    m: ManagerView,
    calls: Seq<FilterCall>,
    answers: Seq<Seq<bool>>,
) -> ManagerView
    decreases calls.len(),
{
    if calls.len() == 0 || answers.len() == 0 {
        m
    } else {
        after_calls(
            run(begin_call(m, calls[0]), answers[0]).0,
            calls.drop_first(),
            answers.drop_first(),
        )
    }
}

/// Whether every command of the sequence ran to its end, and none was given
/// up while the slot was torn.
pub open spec fn calls_end_untorn(
    m: ManagerView,
    calls: Seq<FilterCall>,
    answers: Seq<Seq<bool>>,
) -> bool
    decreases calls.len(),
{
    if calls.len() == 0 || answers.len() == 0 {
        true
    } else {
        let end = run(begin_call(m, calls[0]), answers[0]);
        &&& end.1 is Done
        &&& !gave_up_torn(begin_call(m, calls[0]), answers[0])
        &&& calls_end_untorn(end.0, calls.drop_first(), answers.drop_first())
    }
}

/// Whether every command of the sequence ran to its end, and the engine
/// refused no request of a way back.
pub open spec fn calls_end_with_way_back(
    m: ManagerView,
    calls: Seq<FilterCall>,
    answers: Seq<Seq<bool>>,
) -> bool
    decreases calls.len(),
{
    if calls.len() == 0 || answers.len() == 0 {
        true
    } else {
        let end = run(begin_call(m, calls[0]), answers[0]);
        &&& end.1 is Done
        &&& !refused_on_way_back(begin_call(m, calls[0]), answers[0])
        &&& calls_end_with_way_back(end.0, calls.drop_first(), answers.drop_first())
    }
}

/// The slot is never both: no graph holds the direct link together with a
/// link through the filter, and it is not empty and occupied at once. A slot
/// that is settled has kept its filter or its direct link.
pub proof fn lemma_never_both(g: GraphView)
    requires
        g.wf(),
    ensures
        !(g.linked(Unit::VideoConvert, Unit::VideoSink) && g.linked(
            Unit::VideoConvert,
            Unit::Filter,
        )),
        !(g.linked(Unit::VideoConvert, Unit::VideoSink) && g.linked(Unit::Filter, Unit::VideoSink)),
        !(slot_empty(g) && slot_occupied(g)),
        slot_settled(g) ==> slot_kept(g),
{
}

/// One answer to a request of a slot operation.
///
/// The rest of the graph is left alone, and a refusal changes no part of the
/// graph. The filter is removed only when the direct link stands. An
/// operation that ends on an accepted request leaves the slot settled:
/// occupied by the wanted filter after a swap, empty after a clearing, and on
/// a way back occupied by the filter that was there or empty again. A refusal
/// of a request that is not of a way back does not end the operation with
/// the slot torn: the operation turns back, and it ends in the error of that
/// refusal.
pub proof fn lemma_slot_step(m: ManagerView, accepted: bool)
    requires
        m.wf(),
        in_slot_task(m),
    ensures
        ({
            let (n, step) = m.advance(accepted);
            let error = refusal_of(m.next_request()->0, m.graph.state);
            &&& n.wf()
            &&& n.wanted == m.wanted
            &&& n.shut_down == m.shut_down
            &&& same_outside_slot(m.graph, n.graph)
            &&& slot_kept(m.graph) ==> slot_kept(n.graph)
            &&& !accepted ==> n.graph == m.graph && n.filter == m.filter
            &&& step is Call ==> in_slot_task(n) && n.next_request() == Some(step->Call_0)
            &&& step is Done ==> n.task is Idle
            &&& step is Call && accepted ==> (n.task is Swap) == (m.task is Swap) && (n.task
                is Clear) == (m.task is Clear) && carried_error(n) == carried_error(m)
            &&& step is Call && !accepted ==> !on_way_back(m) && carried_error(n) == Some(error)
                && (m.task is Clear ==> n.task is Restore) && (n.task is Repair ==> m.task
                == Task::Swap { fresh: true })
            &&& step is Done && accepted ==> slot_settled(n.graph)
            &&& step is Done && !accepted && !on_way_back(m) && slot_kept(m.graph)
                ==> slot_settled(n.graph)
            &&& step is Done ==> step == Step::Done(
                if on_way_back(m) {
                    Err(carried_error(m)->0)
                } else if accepted {
                    Ok(())
                } else {
                    Err(error)
                },
            )
            &&& step == Step::Done(Ok(())) && m.task is Swap ==> slot_occupied(n.graph) && n.filter
                == Some(m.wanted) && n.graph.live(Unit::Filter) == n.graph.state
            &&& step == Step::Done(Ok(())) && m.task is Clear ==> slot_empty(n.graph) && n.filter
                is None
            &&& step is Done && accepted && m.task is Repair ==> slot_empty(n.graph) && n.filter
                is None
            &&& step is Done && accepted && m.task is Restore ==> slot_occupied(n.graph)
                && n.filter == m.filter && n.graph.live(Unit::Filter) == n.graph.state
        }),
{
    lemma_advance_keeps_wf(m, accepted);
    lemma_pending_admitted(m);
    let request = m.next_request()->0;
    if accepted {
        let n = m.accept(request);
        assert(same_outside_slot(m.graph, n.graph));
    }
}

/// A run of a slot operation; see `lemma_slot_step` for what each answer
/// does. Of the whole run it follows:
///
/// - the slot is settled at the end if and only if no refusal ended the
///   operation while the slot was torn;
/// - where the filter or the direct link was there at the start, the slot is
///   settled at the end unless the engine refused a request of a way back;
/// - an operation that is not on a way back ends well if and only if the
///   engine refused nothing, and else in the error of the first refusal.
pub proof fn lemma_slot_run(start: (ManagerView, Step), answers: Seq<bool>)
    requires
        start.0.wf(),
        start.1 is Call ==> in_slot_task(start.0) && start.0.next_request() == Some(
            start.1->Call_0,
        ),
        start.1 is Done ==> start.0.task is Idle,
    ensures
        ({
            let end = run(start, answers);
            &&& end.0.wf()
            &&& end.0.wanted == start.0.wanted
            &&& end.0.shut_down == start.0.shut_down
            &&& same_outside_slot(start.0.graph, end.0.graph)
            &&& slot_kept(start.0.graph) ==> slot_kept(end.0.graph)
            &&& end.1 is Done ==> end.0.task is Idle
            &&& end.1 is Call ==> in_slot_task(end.0)
            &&& start.1 is Call && end.1 is Done ==> (slot_settled(end.0.graph) <==> !gave_up_torn(
                start,
                answers,
            ))
            &&& start.1 is Call && end.1 is Done && slot_kept(start.0.graph)
                && !refused_on_way_back(start, answers) ==> slot_settled(end.0.graph)
            &&& start.1 is Call && end.1 is Done && !on_way_back(start.0) ==> end.1 == Step::Done(
                if met_refusal(start, answers) {
                    Err(first_refusal(start, answers))
                } else {
                    Ok(())
                },
            )
            &&& start.1 is Call && end.1 is Done && on_way_back(start.0) ==> end.1 == Step::Done(
                Err(carried_error(start.0)->0),
            )
            &&& start.1 is Call && end.1 is Done && start.0.task is Restore
                && !refused_on_way_back(start, answers) ==> slot_occupied(end.0.graph)
                && end.0.filter == start.0.filter
            &&& start.1 is Call && end.1 is Done && start.0.task is Clear && slot_kept(
                start.0.graph,
            ) && met_refusal(start, answers) && !refused_on_way_back(start, answers)
                ==> slot_occupied(end.0.graph) && end.0.filter == start.0.filter
            &&& start.1 is Call && end.1 == Step::Done(Ok(())) && start.0.task is Swap
                ==> slot_occupied(end.0.graph) && end.0.filter == Some(start.0.wanted)
                && end.0.graph.live(Unit::Filter) == end.0.graph.state
            &&& start.1 is Call && end.1 == Step::Done(Ok(())) && !(start.0.task is Swap)
                ==> slot_empty(end.0.graph) && end.0.filter is None && start.0.task is Clear
        }),
    decreases answers.len(),
{
    if start.1 is Done || answers.len() == 0 {
    } else {
        let next = start.0.advance(answers[0]);
        let rest = answers.drop_first();
        lemma_slot_step(start.0, answers[0]);
        lemma_slot_run(next, rest);
        let end = run(start, answers);
        assert(end == run(next, rest));
        if next.1 is Done {
            assert(run(next, rest) == next);
            assert(!gave_up_torn(next, rest));
            assert(!met_refusal(next, rest));
            assert(!refused_on_way_back(next, rest));
        }
        assert(same_outside_slot(start.0.graph, end.0.graph));
    }
}

/// Where the engine refuses nothing but the direct link, it refuses no
/// request of a way back: the way back from a refused direct link puts the
/// filter in line again and asks for no direct link.
pub proof fn lemma_direct_link_is_not_on_way_back(
    start: (ManagerView, Step),
    answers: Seq<bool>,
)
    requires
        start.0.wf(),
        start.1 is Call ==> in_slot_task(start.0) && start.0.next_request() == Some(
            start.1->Call_0,
        ),
        start.1 is Done ==> start.0.task is Idle,
        !(start.0.task is Repair),
        !refused_beside_direct_link(start, answers),
    ensures
        !refused_on_way_back(start, answers),
    decreases answers.len(),
{
    if start.1 is Done || answers.len() == 0 {
    } else {
        let next = start.0.advance(answers[0]);
        lemma_slot_step(start.0, answers[0]);
        lemma_direct_link_is_not_on_way_back(next, answers.drop_first());
    }
}

/// One command to the slot, run to its end on any answers. The manager stays
/// well formed and idle and the rest of the graph is left alone. A command
/// that asks anything of the engine succeeds if and only if the engine
/// refuses nothing, and else ends in the error of the first refusal. A
/// command that succeeds leaves the slot occupied by the named filter, or
/// empty for a clearing and for the sentinel name.
///
/// If the slot was settled before, it is settled after if and only if no
/// refusal ended the operation while the slot was torn. That happens only
/// where the engine refuses a request of a way back: it does not happen
/// where the engine refuses nothing but the direct link.
pub proof fn lemma_filter_call(m: ManagerView, call: FilterCall, answers: Seq<bool>)
    requires
        m.wf(),
        m.task is Idle,
        run(begin_call(m, call), answers).1 is Done,
    ensures
        ({
            let begun = begin_call(m, call);
            let end = run(begun, answers);
            &&& end.0.wf()
            &&& end.0.task is Idle
            &&& same_outside_slot(m.graph, end.0.graph)
            &&& slot_settled(m.graph) ==> (slot_settled(end.0.graph) <==> !gave_up_torn(
                begun,
                answers,
            ))
            &&& slot_settled(m.graph) && !refused_on_way_back(begun, answers) ==> slot_settled(
                end.0.graph,
            )
            &&& !refused_beside_direct_link(begun, answers) ==> !refused_on_way_back(
                begun,
                answers,
            )
            &&& begun.1 is Call ==> end.1 == Step::Done(
                if met_refusal(begun, answers) {
                    Err(first_refusal(begun, answers))
                } else {
                    Ok(())
                },
            )
            &&& end.1 == Step::Done(Ok(())) ==> match call {
                FilterCall::Install(name) => if name == sentinel() {
                    slot_empty(end.0.graph) && end.0.filter is None
                } else {
                    slot_occupied(end.0.graph) && end.0.filter == Some(name)
                },
                FilterCall::Clear => slot_empty(end.0.graph) && end.0.filter is None,
            }
        }),
{
    let begun = begin_call(m, call);
    let name = match call {
        FilterCall::Install(name) => name,
        FilterCall::Clear => Seq::empty(),
    };
    lemma_begin_keeps_wf(m, name, PlaybackState::Null);
    lemma_never_both(m.graph);
    lemma_slot_run(begun, answers);
    if !refused_beside_direct_link(begun, answers) {
        lemma_direct_link_is_not_on_way_back(begun, answers);
    }
    if begun.1 is Done {
        assert(run(begun, answers) == begun);
        assert(!gave_up_torn(begun, answers));
        assert(!refused_on_way_back(begun, answers));
        if begun.1 == Step::Done(Ok(())) {
            assert(slot_empty(m.graph));
        }
    }
}

/// A refused direct link does not tear the slot. From a settled slot, a
/// command during which the engine refuses nothing but the direct link ends
/// with the slot settled; it ends well where the engine refused nothing, and
/// in `LinkFailed` where it refused the direct link. A clearing that ends so
/// leaves the filter that was there in line.
pub proof fn lemma_refused_direct_link_keeps_slot(
    m: ManagerView,
    call: FilterCall,
    answers: Seq<bool>,
)
    requires
        m.wf(),
        m.task is Idle,
        slot_settled(m.graph),
        run(begin_call(m, call), answers).1 is Done,
        !refused_beside_direct_link(begin_call(m, call), answers),
    ensures
        ({
            let begun = begin_call(m, call);
            let end = run(begun, answers);
            &&& slot_settled(end.0.graph)
            &&& begun.1 is Call ==> end.1 == Step::Done(
                if met_refusal(begun, answers) {
                    Err(PipelineError::LinkFailed)
                } else {
                    Ok(())
                },
            )
            &&& call is Clear && met_refusal(begun, answers) ==> slot_occupied(end.0.graph)
                && end.0.filter == m.filter
        }),
{
    let begun = begin_call(m, call);
    let name = match call {
        FilterCall::Install(name) => name,
        FilterCall::Clear => Seq::empty(),
    };
    lemma_filter_call(m, call, answers);
    lemma_never_both(m.graph);
    lemma_begin_keeps_wf(m, name, PlaybackState::Null);
    lemma_slot_run(begun, answers);
    if met_refusal(begun, answers) {
        lemma_first_refusal_is_of_direct_link(begun, answers);
    }
}

/// Where the engine refuses nothing but the direct link, the first refusal
/// is `LinkFailed`.
proof fn lemma_first_refusal_is_of_direct_link(start: (ManagerView, Step), answers: Seq<bool>)
    requires
        !refused_beside_direct_link(start, answers),
        met_refusal(start, answers),
    ensures
        first_refusal(start, answers) == PipelineError::LinkFailed,
    decreases answers.len(),
{
    if start.1 is Done || answers.len() == 0 {
    } else if answers[0] {
        lemma_first_refusal_is_of_direct_link(start.0.advance(answers[0]), answers.drop_first());
    }
}

/// After any sequence of swaps and clearings the slot is settled: either the
/// filter is absent and converter and sink are linked directly, or the filter
/// is present and linked in line. This holds of every sequence in which each
/// command ran to its end and the engine did not, by a refusal, end an
/// operation while the slot was torn.
pub proof fn lemma_slot_settled_after_calls(
    m: ManagerView,
    calls: Seq<FilterCall>,
    answers: Seq<Seq<bool>>,
)
    requires
        m.wf(),
        m.task is Idle,
        slot_settled(m.graph),
        calls_end_untorn(m, calls, answers),
    ensures
        slot_settled(after_calls(m, calls, answers).graph),
        !(slot_empty(after_calls(m, calls, answers).graph) && slot_occupied(
            after_calls(m, calls, answers).graph,
        )),
        after_calls(m, calls, answers).wf(),
        after_calls(m, calls, answers).task is Idle,
    decreases calls.len(),
{
    if calls.len() == 0 || answers.len() == 0 {
    } else {
        lemma_filter_call(m, calls[0], answers[0]);
        let end = run(begin_call(m, calls[0]), answers[0]);
        lemma_slot_settled_after_calls(end.0, calls.drop_first(), answers.drop_first());
    }
    lemma_never_both(after_calls(m, calls, answers).graph);
}

/// An operation is given up with the slot torn only where the engine refuses
/// a request of a way back: a sequence of commands in which it refuses none
/// is one in which no command is given up with the slot torn, and after it
/// the slot is settled.
pub proof fn lemma_slot_settled_with_way_back(
    m: ManagerView,
    calls: Seq<FilterCall>,
    answers: Seq<Seq<bool>>,
)
    requires
        m.wf(),
        m.task is Idle,
        slot_settled(m.graph),
        calls_end_with_way_back(m, calls, answers),
    ensures
        calls_end_untorn(m, calls, answers),
        slot_settled(after_calls(m, calls, answers).graph),
    decreases calls.len(),
{
    if calls.len() == 0 || answers.len() == 0 {
    } else {
        lemma_filter_call(m, calls[0], answers[0]);
        let end = run(begin_call(m, calls[0]), answers[0]);
        lemma_slot_settled_with_way_back(end.0, calls.drop_first(), answers.drop_first());
    }
}

/// An engine that accepts every request can tear nothing: on answers that are
/// all acceptances, no operation is given up.
pub proof fn lemma_accepting_engine_never_tears(start: (ManagerView, Step), answers: Seq<bool>)
    requires
        forall|i: int| 0 <= i < answers.len() ==> answers[i],
    ensures
        !gave_up_torn(start, answers),
        !refused_on_way_back(start, answers),
        !refused_beside_direct_link(start, answers),
    decreases answers.len(),
{
    if start.1 is Done || answers.len() == 0 {
    } else {
        let rest = answers.drop_first();
        assert forall|i: int| 0 <= i < rest.len() implies rest[i] by {
            assert(rest[i] == answers[i + 1]);
        }
        lemma_accepting_engine_never_tears(start.0.advance(answers[0]), rest);
    }
}

/// Putting a filter into an empty slot and emptying the slot again gives back
/// the graph as it was before, link for link and unit for unit.
pub proof fn lemma_swap_round_trip(
    m: ManagerView,
    name: Seq<char>,
    first: Seq<bool>,
    second: Seq<bool>,
)
    requires
        m.wf(),
        m.task is Idle,
        slot_empty(m.graph),
        run(m.begin_swap(name), first).1 == Step::Done(Ok(())),
        run(run(m.begin_swap(name), first).0.begin_swap(sentinel()), second).1 == Step::Done(
            Ok(()),
        ),
    ensures
        run(run(m.begin_swap(name), first).0.begin_swap(sentinel()), second).0.graph == m.graph,
        run(run(m.begin_swap(name), first).0.begin_swap(sentinel()), second).0.filter is None,
{
    let middle = run(m.begin_swap(name), first).0;
    let end = run(middle.begin_swap(sentinel()), second).0;
    lemma_filter_call(m, FilterCall::Install(name), first);
    lemma_filter_call(middle, FilterCall::Install(sentinel()), second);
    assert(slot_empty(end.graph));
    assert(same_outside_slot(m.graph, middle.graph));
    assert(same_outside_slot(middle.graph, end.graph));
    assert forall|u: Unit| #[trigger] end.graph.units[u] == m.graph.units[u] by {
        if u != Unit::Filter {
            assert(middle.graph.units[u] == m.graph.units[u]);
            assert(end.graph.units[u] == middle.graph.units[u]);
        } else {
            assert(m.graph.standing(Unit::Filter) == Standing::Absent);
            assert(end.graph.standing(Unit::Filter) == Standing::Absent);
        }
    }
    assert forall|l: (Unit, Unit)| #[trigger]
        end.graph.links.contains(l) == m.graph.links.contains(l) by {
        let (a, b) = l;
        assert(l == (a, b));
        if !slot_link(a, b) {
            assert(middle.graph.links.contains((a, b)) == m.graph.links.contains((a, b)));
            assert(end.graph.links.contains((a, b)) == middle.graph.links.contains((a, b)));
        } else if a == Unit::Filter || b == Unit::Filter {
            assert(end.graph.links.contains((a, b)) ==> end.graph.attached(Unit::Filter));
            assert(m.graph.links.contains((a, b)) ==> m.graph.attached(Unit::Filter));
        }
    }
    assert(end.graph.units =~= m.graph.units);
    assert(end.graph.links =~= m.graph.links);
}

} // verus!
