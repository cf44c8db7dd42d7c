//! Every operation ends: a bound on the requests that an operation can still
//! make, which falls with every answer.

use vstd::prelude::*;
use crate::graph::GraphView;
use crate::machine::{
    filter_present, lemma_advance_keeps_wf, lemma_pending_admitted, run, to_add, to_create,
    to_quiesce, to_release,
    ManagerView, Task,
};
use crate::request::{Request, Step};
use crate::unit::{
    assembly_order, is_needed, is_unrolled, lemma_first_from, teardown_order, PlaybackState,
    SourceKind, Standing, Unit,
};

verus! {

/// 1 where the condition holds, else 0.
pub open spec fn one_if(condition: bool) -> nat {
    if condition {
        1
    } else {
        0
    }
}

/// The requests that a needed unit still takes on its way into the graph.
pub open spec fn assembly_left(g: GraphView, kind: SourceKind, unit: Unit) -> nat {
    if !is_needed(unit, kind) {
        0
    } else {
        match g.standing(unit) {
            Standing::Absent => 2,
            Standing::Created => 1,
            Standing::Attached => 0,
        }
    }
}

/// The requests that the needed units still take on their way into the
/// graph.
pub open spec fn units_left(g: GraphView, kind: SourceKind) -> nat {
    assembly_left(g, kind, Unit::Source) + assembly_left(g, kind, Unit::Demuxer) + assembly_left(
        g,
        kind,
        Unit::VideoConvert,
    ) + assembly_left(g, kind, Unit::VideoSink) + assembly_left(g, kind, Unit::AudioConvert)
        + assembly_left(g, kind, Unit::AudioSink) + assembly_left(g, kind, Unit::Volume)
}

/// The static links that are not made.
pub open spec fn links_left(g: GraphView) -> nat {
    one_if(!g.linked(Unit::Source, Unit::Demuxer)) + one_if(
        !g.linked(Unit::VideoConvert, Unit::VideoSink),
    ) + one_if(!g.linked(Unit::AudioConvert, Unit::Volume)) + one_if(
        !g.linked(Unit::Volume, Unit::AudioSink),
    )
}

/// The steps of the preroll that are not taken.
pub open spec fn preroll_left(state: PlaybackState) -> nat {
    if is_unrolled(state) {
        2
    } else {
        one_if(state == PlaybackState::Paused)
    }
}

/// The requests that a build can still make.
pub open spec fn build_left(g: GraphView, kind: SourceKind, located: bool) -> nat {
    units_left(g, kind) + one_if(!located) + links_left(g) + preroll_left(g.state)
}

/// The requests that it can still take to empty the slot.
pub open spec fn empty_left(g: GraphView) -> nat {
    one_if(filter_present(g) && g.live(Unit::Filter) != PlaybackState::Null) + one_if(
        g.linked(Unit::VideoConvert, Unit::Filter),
    ) + one_if(g.linked(Unit::Filter, Unit::VideoSink)) + one_if(
        !g.linked(Unit::VideoConvert, Unit::VideoSink),
    ) + one_if(filter_present(g))
}

/// The requests that it can still take to put a filter in line.
pub open spec fn inline_left(g: GraphView) -> nat {
    (match g.standing(Unit::Filter) {
        Standing::Absent => 6nat,
        Standing::Created => 1nat,
        Standing::Attached => 0nat,
    }) + one_if(g.live(Unit::Filter) != g.state) + one_if(
        g.linked(Unit::VideoConvert, Unit::VideoSink),
    ) + one_if(!g.linked(Unit::VideoConvert, Unit::Filter)) + one_if(
        !g.linked(Unit::Filter, Unit::VideoSink),
    )
}

/// The requests that it can still take to release a unit of the skeleton.
pub open spec fn release_weight(g: GraphView, unit: Unit) -> nat {
    if g.standing(unit) == Standing::Absent {
        0
    } else {
        1 + one_if(g.live(unit) != PlaybackState::Null)
    }
}

/// The requests that it can still take to release the skeleton.
pub open spec fn unbuild_left(g: GraphView) -> nat {
    release_weight(g, Unit::Source) + release_weight(g, Unit::Demuxer) + release_weight(
        g,
        Unit::VideoConvert,
    ) + release_weight(g, Unit::VideoSink) + release_weight(g, Unit::AudioConvert)
        + release_weight(g, Unit::AudioSink) + release_weight(g, Unit::Volume)
}

/// 1 where the unit exists and is not in `Null`.
pub open spec fn live_weight(g: GraphView, unit: Unit) -> nat {
    one_if(to_quiesce(g).contains(unit))
}

/// The requests that a teardown can still make.
pub open spec fn teardown_left(g: GraphView) -> nat {
    live_weight(g, Unit::Source) + live_weight(g, Unit::Demuxer) + live_weight(
        g,
        Unit::VideoConvert,
    ) + live_weight(g, Unit::VideoSink) + live_weight(g, Unit::AudioConvert) + live_weight(
        g,
        Unit::AudioSink,
    ) + live_weight(g, Unit::Volume) + live_weight(g, Unit::Filter) + one_if(
        g.state != PlaybackState::Null,
    )
}

/// A bound on the requests that the operation under way can still make.
pub open spec fn requests_left(m: ManagerView) -> nat {
    match m.task {
        Task::Idle => 0,
        Task::Build => build_left(m.graph, m.kind(), m.located) + if m.located {
            0nat
        } else {
            14nat
        },
        Task::Unbuild(_) => unbuild_left(m.graph),
        Task::Swap { fresh } => if fresh {
            6 + inline_left(m.graph)
        } else {
            12 + empty_left(m.graph)
        },
        Task::Clear => 6 + empty_left(m.graph),
        Task::Restore(_) => inline_left(m.graph),
        Task::Repair(_) => empty_left(m.graph),
        Task::Switch(target) => one_if(m.graph.state != target),
        Task::Teardown => teardown_left(m.graph),
    }
}

proof fn lemma_build_left_is_bounded(g: GraphView, kind: SourceKind, located: bool)
    ensures
        build_left(g, kind, located) <= 21,
{
    assert(units_left(g, kind) <= 14);
    assert(links_left(g) <= 4);
    assert(preroll_left(g.state) <= 2);
}

/// No operation can make more than 35 requests: at most 21 of a build, and
/// at most 14 more where what was built is released again.
pub proof fn lemma_requests_left_is_bounded(m: ManagerView)
    ensures
        requests_left(m) <= 35,
        m.task !is Build && m.task !is Unbuild ==> requests_left(m) <= 21,
{
    match m.task {
        Task::Build => {
            lemma_build_left_is_bounded(m.graph, m.kind(), m.located);
        },
        Task::Unbuild(_) => {
            assert(unbuild_left(m.graph) <= 14);
        },
        Task::Teardown => {
            assert(teardown_left(m.graph) <= 9);
        },
        Task::Swap { .. } | Task::Clear | Task::Restore(_) | Task::Repair(_) => {
            assert(empty_left(m.graph) <= 5);
            assert(inline_left(m.graph) <= 10);
        },
        _ => {},
    }
}

proof fn lemma_left_after_standing(g: GraphView, kind: SourceKind, request: Request, unit: Unit)
    requires
        is_needed(unit, kind),
        (request == Request::Create(unit) && g.standing(unit) == Standing::Absent) || (request
            == Request::Add(unit) && g.standing(unit) == Standing::Created),
    ensures
        units_left(g.apply(request), kind) + 1 == units_left(g, kind),
        g.apply(request).links == g.links,
        g.apply(request).state == g.state,
{
    let h = g.apply(request);
    assert(assembly_left(h, kind, unit) + 1 == assembly_left(g, kind, unit));
    assert forall|u: Unit| u != unit implies assembly_left(h, kind, u) == assembly_left(
        g,
        kind,
        u,
    ) by {}
}

proof fn lemma_left_after_link(g: GraphView, kind: SourceKind, from: Unit, to: Unit)
    requires
        !g.linked(from, to),
        (from == Unit::Source && to == Unit::Demuxer) || (from == Unit::VideoConvert && to
            == Unit::VideoSink) || (from == Unit::AudioConvert && to == Unit::Volume) || (from
            == Unit::Volume && to == Unit::AudioSink),
    ensures
        links_left(g.apply(Request::Link(from, to))) + 1 == links_left(g),
        units_left(g.apply(Request::Link(from, to)), kind) == units_left(g, kind),
        g.apply(Request::Link(from, to)).state == g.state,
{
    let h = g.apply(Request::Link(from, to));
    assert forall|u: Unit| assembly_left(h, kind, u) == assembly_left(g, kind, u) by {}
}

proof fn lemma_left_after_preroll(g: GraphView, kind: SourceKind, state: PlaybackState)
    requires
        !is_unrolled(state),
    ensures
        units_left(g.apply(Request::SetState(state)), kind) == units_left(g, kind),
        links_left(g.apply(Request::SetState(state))) == links_left(g),
        g.apply(Request::SetState(state)).state == state,
{
    let h = g.apply(Request::SetState(state));
    assert forall|u: Unit| assembly_left(h, kind, u) == assembly_left(g, kind, u) by {}
    assert(h.links == g.links);
}

proof fn lemma_left_after_release(g: GraphView, request: Request, unit: Unit)
    requires
        unit != Unit::Filter,
        g.standing(unit) != Standing::Absent,
        (request == Request::SetUnitState(unit, PlaybackState::Null) && g.live(unit)
            != PlaybackState::Null) || (request == Request::Remove(unit) && g.live(unit)
            == PlaybackState::Null),
    ensures
        unbuild_left(g.apply(request)) + 1 == unbuild_left(g),
{
    let h = g.apply(request);
    assert(release_weight(h, unit) + 1 == release_weight(g, unit));
    assert forall|u: Unit| u != unit implies release_weight(h, u) == release_weight(g, u) by {}
}

proof fn lemma_build_nears_end(m: ManagerView, accepted: bool)
    requires
        m.wf(),
        m.task is Build,
    ensures
        requests_left(m) >= 1,
        m.advance(accepted).1 is Call ==> requests_left(m.advance(accepted).0) < requests_left(m),
{
    let g = m.graph;
    let kind = m.kind();
    lemma_first_from(assembly_order(), to_create(g, kind), 0);
    lemma_first_from(assembly_order(), to_add(g, kind), 0);
    let request = m.next_request()->0;
    if accepted {
        match request {
            Request::Create(unit) => {
                lemma_left_after_standing(g, kind, request, unit);
            },
            Request::Add(unit) => {
                lemma_left_after_standing(g, kind, request, unit);
            },
            Request::Locate(unit) => {},
            Request::Link(from, to) => {
                lemma_left_after_link(g, kind, from, to);
            },
            Request::SetState(state) => {
                lemma_left_after_preroll(g, kind, state);
            },
            _ => {},
        }
    } else {
        assert(unbuild_left(g) <= 14);
    }
}

proof fn lemma_unbuild_nears_end(m: ManagerView, accepted: bool)
    requires
        m.wf(),
        m.task is Unbuild,
    ensures
        requests_left(m) >= 1,
        m.advance(accepted).1 is Call ==> requests_left(m.advance(accepted).0) < requests_left(m),
{
    let g = m.graph;
    lemma_first_from(teardown_order(), to_release(g), 0);
    let request = m.next_request()->0;
    match request {
        Request::SetUnitState(unit, state) => {
            lemma_left_after_release(g, request, unit);
        },
        Request::Remove(unit) => {
            lemma_left_after_release(g, request, unit);
        },
        _ => {},
    }
}

proof fn lemma_slot_task_nears_end(m: ManagerView, accepted: bool)
    requires
        m.wf(),
        m.task is Swap || m.task is Clear || m.task is Restore || m.task is Repair,
    ensures
        requests_left(m) >= 1,
        m.advance(accepted).1 is Call ==> requests_left(m.advance(accepted).0) < requests_left(m),
{
    lemma_pending_admitted(m);
}

proof fn lemma_teardown_nears_end(m: ManagerView, accepted: bool)
    requires
        m.wf(),
        m.task is Teardown,
    ensures
        requests_left(m) >= 1,
        m.advance(accepted).1 is Call ==> requests_left(m.advance(accepted).0) < requests_left(m),
{
    lemma_pending_admitted(m);
    let g = m.graph;
    lemma_first_from(teardown_order(), to_quiesce(g), 0);
    let request = m.next_request()->0;
    if accepted {
        let h = m.accept(request).graph;
        match request {
            Request::SetUnitState(unit, state) => {
                assert(live_weight(h, unit) + 1 == live_weight(g, unit));
                assert forall|u: Unit| u != unit implies live_weight(h, u) == live_weight(
                    g,
                    u,
                ) by {}
                assert(teardown_left(h) + 1 == teardown_left(g));
            },
            _ => {},
        }
    }
}

/// With every answer the bound falls: an operation that goes on has fewer
/// requests left than before, whether the engine accepted or refused.
pub proof fn lemma_every_answer_brings_the_end_nearer(m: ManagerView, accepted: bool)
    requires
        m.wf(),
        m.task !is Idle,
    ensures
        requests_left(m) >= 1,
        m.advance(accepted).1 is Call ==> requests_left(m.advance(accepted).0) < requests_left(m),
        m.advance(accepted).1 is Call ==> m.advance(accepted).0.task !is Idle,
        m.advance(accepted).1 is Done ==> m.advance(accepted).0.task is Idle,
{
    lemma_advance_keeps_wf(m, accepted);
    match m.task {
        Task::Build => {
            lemma_build_nears_end(m, accepted);
        },
        Task::Unbuild(_) => {
            lemma_unbuild_nears_end(m, accepted);
        },
        Task::Teardown => {
            lemma_teardown_nears_end(m, accepted);
        },
        Task::Switch(_) => {},
        _ => {
            lemma_slot_task_nears_end(m, accepted);
        },
    }
}

/// Every operation ends: on at least as many answers as the bound says, the
/// run ends, whatever the answers are.
pub proof fn lemma_every_operation_ends(start: (ManagerView, Step), answers: Seq<bool>)
    requires
        start.0.wf(),
        start.1 is Call ==> start.0.task !is Idle,
        start.1 is Done ==> start.0.task is Idle,
        answers.len() >= requests_left(start.0),
    ensures
        run(start, answers).1 is Done,
        run(start, answers).0.task is Idle,
        run(start, answers).0.wf(),
    decreases answers.len(),
{
    if start.1 is Call {
        lemma_every_answer_brings_the_end_nearer(start.0, true);
        let next = start.0.advance(answers[0]);
        lemma_every_answer_brings_the_end_nearer(start.0, answers[0]);
        lemma_advance_keeps_wf(start.0, answers[0]);
        lemma_every_operation_ends(next, answers.drop_first());
    }
}

} // verus!
