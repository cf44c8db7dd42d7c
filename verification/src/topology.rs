//! The topology builder: what a build achieves.

use vstd::prelude::*;
use crate::graph::GraphView;
use crate::machine::{
    carried_error, first_refusal, lemma_advance_keeps_wf, lemma_pending_admitted, met_refusal,
    refused_on_way_back, run, slot_empty, to_add, to_create, to_release, ManagerView, Task,
};
use crate::request::{refusal_of, Request, Step};
use crate::unit::{
    assembly_order, first_from, is_needed, lemma_assembly_order_places, lemma_first_from,
    lemma_teardown_order_places, teardown_order, PlaybackState, SourceKind, Standing, Unit,
};

verus! {

/// Every needed unit has its place in the assembly order.
pub proof fn lemma_needed_in_assembly_order(kind: SourceKind)
    ensures
        forall|u: Unit| is_needed(u, kind) ==> #[trigger] assembly_order().contains(u),
{
    lemma_assembly_order_places();
}

/// The static skeleton stands: every needed unit is part of the graph, the
/// source feeds the demuxer, the audio branch is linked through the volume
/// unit to its sink, and in the video branch the converter is linked to the
/// sink unless the filter holds one of their two pads. (What stands between
/// converter and sink is the filter slot's matter: see `slot_settled`.)
pub open spec fn assembled(g: GraphView, kind: SourceKind) -> bool {
    &&& forall|u: Unit| is_needed(u, kind) ==> #[trigger] g.attached(u)
    &&& kind == SourceKind::Local ==> g.linked(Unit::Source, Unit::Demuxer)
    &&& g.linked(Unit::AudioConvert, Unit::Volume)
    &&& g.linked(Unit::Volume, Unit::AudioSink)
    &&& g.linked(Unit::VideoConvert, Unit::VideoSink) || g.linked(
        Unit::VideoConvert,
        Unit::Filter,
    ) || g.linked(Unit::Filter, Unit::VideoSink)
}

/// Nothing of the skeleton exists.
pub open spec fn released(g: GraphView) -> bool {
    forall|u: Unit| u != Unit::Filter ==> #[trigger] g.standing(u) == Standing::Absent
}

/// One answer to a request of a build. Only units that the source needs are
/// created, so a refused creation names a mandatory unit. An accepted
/// request leaves the source as it is; the acceptance of `Locate` fixes it.
/// A refusal changes no part of the graph. Where the source is fixed, it
/// ends the build at once with the error that stands for the refused
/// request; where it is not, the build turns back to release what it has
/// created, and will end in that error. When the build ends well, the
/// skeleton stands, the source is fixed, and the pipeline plays; where no
/// filter exists, the filter slot is empty.
pub proof fn lemma_build_step(m: ManagerView, accepted: bool)
    requires
        m.wf(),
        m.task is Build,
    ensures
        ({
            let request = m.next_request()->0;
            let error = refusal_of(request, m.graph.state);
            let (n, step) = m.advance(accepted);
            &&& n.wf()
            &&& n.filter == m.filter
            &&& request matches Request::Create(unit) ==> is_needed(unit, m.kind()) && unit
                != Unit::Filter
            &&& step is Done ==> n.task is Idle
            &&& accepted ==> n.source == m.source && (step is Call ==> n.task is Build)
            &&& accepted ==> n.located == (m.located || request is Locate)
            &&& step is Done && accepted ==> step == Step::Done(Ok(())) && assembled(
                n.graph,
                m.kind(),
            ) && n.located && n.graph.state == PlaybackState::Playing
            &&& step is Done && accepted && m.filter is None ==> slot_empty(n.graph)
            &&& !accepted ==> n.graph == m.graph && n.located == m.located
            &&& !accepted && m.located ==> step == Step::Done(Err(error)) && n.source == m.source
            &&& !accepted && !m.located && step is Call ==> n.task == Task::Unbuild(error)
                && n.source == m.source
            &&& !accepted && !m.located && step is Done ==> step == Step::Done(Err(error))
                && n.source is None && released(n.graph)
        }),
{
    lemma_advance_keeps_wf(m, accepted);
    lemma_pending_admitted(m);
    let kind = m.kind();
    lemma_first_from(assembly_order(), to_create(m.graph, kind), 0);
    lemma_first_from(assembly_order(), to_add(m.graph, kind), 0);
    if accepted {
        let n = m.accept(m.next_request()->0);
        let g = n.graph;
        lemma_first_from(assembly_order(), to_create(g, kind), 0);
        lemma_first_from(assembly_order(), to_add(g, kind), 0);
        lemma_needed_in_assembly_order(kind);
        if n.next_request() is None {
            assert forall|u: Unit| is_needed(u, kind) implies #[trigger] g.attached(u) by {
                let j = assembly_order().index_of(u);
                assert(assembly_order().contains(u));
                assert(assembly_order()[j] == u);
                assert(!to_create(g, kind).contains(assembly_order()[j]));
                assert(!to_add(g, kind).contains(assembly_order()[j]));
            }
            assert(g.attached(Unit::AudioConvert));
            assert(g.attached(Unit::Volume));
            assert(g.attached(Unit::AudioSink));
            assert(g.attached(Unit::VideoConvert));
            assert(g.attached(Unit::VideoSink));
            assert(g.attached(Unit::Demuxer));
            lemma_free_pads(g, kind);
        }
    } else if !m.located {
        lemma_nothing_to_release(m.graph);
    }
}

/// Where no unit of the skeleton is left to release, none exists.
proof fn lemma_nothing_to_release(g: GraphView)
    ensures
        first_from(teardown_order(), to_release(g), 0) is None ==> released(g),
{
    lemma_first_from(teardown_order(), to_release(g), 0);
    lemma_teardown_order_places();
    if first_from(teardown_order(), to_release(g), 0) is None {
        assert forall|u: Unit| u != Unit::Filter implies #[trigger] g.standing(u)
            == Standing::Absent by {
            let j = teardown_order().index_of(u);
            assert(teardown_order().contains(u));
            assert(teardown_order()[j] == u);
            assert(!to_release(g).contains(teardown_order()[j]));
        }
    }
}

/// One answer to a request on the way back of a build. Each request brings
/// a unit of the skeleton to `Null` or releases it; the filter is left
/// alone. The way back ends in the error that turned the build back, with no
/// source left behind; where it ends on an accepted request, nothing of the
/// skeleton exists any more. A refusal ends it with the graph as it is.
pub proof fn lemma_unbuild_step(m: ManagerView, accepted: bool)
    requires
        m.wf(),
        m.task is Unbuild,
    ensures
        ({
            let request = m.next_request()->0;
            let (n, step) = m.advance(accepted);
            &&& n.wf()
            &&& n.filter == m.filter
            &&& !n.located
            &&& match request {
                Request::SetUnitState(unit, state) => unit != Unit::Filter && state
                    == PlaybackState::Null,
                Request::Remove(unit) => unit != Unit::Filter,
                _ => false,
            }
            &&& n.graph.units[Unit::Filter] == m.graph.units[Unit::Filter]
            &&& step is Call ==> accepted && n.task == m.task && n.source == m.source
            &&& step is Done ==> n.task is Idle && n.source is None && step == Step::Done(
                Err(carried_error(m)->0),
            )
            &&& step is Done && accepted ==> released(n.graph)
            &&& !accepted ==> step is Done && n.graph == m.graph
        }),
{
    lemma_advance_keeps_wf(m, accepted);
    lemma_pending_admitted(m);
    lemma_first_from(teardown_order(), to_release(m.graph), 0);
    if accepted {
        let n = m.accept(m.next_request()->0);
        lemma_nothing_to_release(n.graph);
    }
}

/// A build run to its end. It ends well if and only if the engine refused
/// nothing on the way, and else in the error of the first refusal. Where it
/// ends well, the skeleton stands, the source is fixed and the pipeline
/// plays. A source that is fixed stays as it is. Where the build ends before
/// its source is fixed, no source is left behind, and nothing of the
/// skeleton either, unless the engine refused a request of the way back.
pub proof fn lemma_build_run(start: (ManagerView, Step), answers: Seq<bool>)
    requires
        start.0.wf(),
        start.0.task is Build || start.0.task is Unbuild,
        start.1 is Call,
        run(start, answers).1 is Done,
    ensures
        ({
            let end = run(start, answers);
            &&& end.0.wf()
            &&& end.0.task is Idle
            &&& end.0.filter == start.0.filter
            &&& start.0.located ==> end.0.located
            &&& end.0.located ==> end.0.source == start.0.source
            &&& start.0.task is Build ==> end.1 == Step::Done(
                if met_refusal(start, answers) {
                    Err(first_refusal(start, answers))
                } else {
                    Ok(())
                },
            )
            &&& start.0.task is Unbuild ==> end.1 == Step::Done(Err(carried_error(start.0)->0))
            &&& end.1 == Step::Done(Ok(())) ==> assembled(end.0.graph, start.0.kind())
                && end.0.located && end.0.graph.state == PlaybackState::Playing
                && (start.0.filter is None ==> slot_empty(end.0.graph))
            &&& end.1 != Step::Done(Ok(())) && !end.0.located ==> end.0.source is None
            &&& end.1 != Step::Done(Ok(())) && !end.0.located && !refused_on_way_back(
                start,
                answers,
            ) ==> released(end.0.graph)
        }),
    decreases answers.len(),
{
    if answers.len() > 0 {
        let next = start.0.advance(answers[0]);
        let rest = answers.drop_first();
        if start.0.task is Build {
            lemma_build_step(start.0, answers[0]);
        } else {
            lemma_unbuild_step(start.0, answers[0]);
        }
        if next.1 is Call {
            lemma_build_run(next, rest);
        } else {
            assert(run(next, rest) == next);
            assert(!met_refusal(next, rest));
            assert(!refused_on_way_back(next, rest));
        }
    }
}

/// Where a static link is missing between attached units and cannot be made,
/// a pad is taken; only the video branch has a unit that can take one.
proof fn lemma_free_pads(g: GraphView, kind: SourceKind)
    requires
        g.wf(),
        forall|u: Unit| is_needed(u, kind) ==> #[trigger] g.attached(u),
    ensures
        !g.linked(Unit::AudioConvert, Unit::Volume) ==> g.admits(
            Request::Link(Unit::AudioConvert, Unit::Volume),
        ),
        !g.linked(Unit::Volume, Unit::AudioSink) ==> g.admits(
            Request::Link(Unit::Volume, Unit::AudioSink),
        ),
        kind == SourceKind::Local && !g.linked(Unit::Source, Unit::Demuxer) ==> g.admits(
            Request::Link(Unit::Source, Unit::Demuxer),
        ),
        !g.linked(Unit::VideoConvert, Unit::VideoSink) && !g.linked(
            Unit::VideoConvert,
            Unit::Filter,
        ) && !g.linked(Unit::Filter, Unit::VideoSink) ==> g.admits(
            Request::Link(Unit::VideoConvert, Unit::VideoSink),
        ),
{
    assert(g.attached(Unit::AudioConvert));
    assert(g.attached(Unit::Volume));
    assert(g.attached(Unit::AudioSink));
    assert(g.attached(Unit::VideoConvert));
    assert(g.attached(Unit::VideoSink));
    assert(g.attached(Unit::Demuxer));
}

} // verus!
