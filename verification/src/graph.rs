//! The pipeline graph: which units exist, how they are linked, and what an
//! accepted request does to them.

use vstd::prelude::*;
use crate::request::Request;
use crate::unit::{
    branch_of, connectable, depth, is_unrolled, Branch, PlaybackState, Standing, Unit,
};

verus! {

/// What the graph records of one unit.
#[derive(Clone, Copy, Debug, PartialEq, Eq, Structural)]
pub struct UnitRecord {
    pub standing: Standing,
    pub live: PlaybackState,
}

/// The record of a unit that does not exist.
pub open spec fn absent_record() -> UnitRecord {
    UnitRecord { standing: Standing::Absent, live: PlaybackState::Null }
}

/// The links of `links` that do not start at `unit`.
pub open spec fn without_outputs(links: Set<(Unit, Unit)>, unit: Unit) -> Set<(Unit, Unit)> {
    Set::new(|l: (Unit, Unit)| links.contains(l) && l.0 != unit)
}

/// The links of `links` that do not touch `unit`.
pub open spec fn without_unit(links: Set<(Unit, Unit)>, unit: Unit) -> Set<(Unit, Unit)> {
    Set::new(|l: (Unit, Unit)| links.contains(l) && l.0 != unit && l.1 != unit)
}

/// The mathematical model of a pipeline graph.
pub struct GraphView {
    /// The record of every unit.
    pub units: Map<Unit, UnitRecord>,
    /// The links, each from an output to an input.
    pub links: Set<(Unit, Unit)>,
    /// The state of the pipeline as a whole.
    pub state: PlaybackState,
}

impl GraphView {
    /// The graph that holds nothing.
    pub open spec fn empty() -> GraphView {
        GraphView {
            units: Map::new(|u: Unit| true, |u: Unit| absent_record()),
            links: Set::empty(),
            state: PlaybackState::Null,
        }
    }

    pub open spec fn standing(self, unit: Unit) -> Standing {
        self.units[unit].standing
    }

    pub open spec fn live(self, unit: Unit) -> PlaybackState {
        self.units[unit].live
    }

    pub open spec fn attached(self, unit: Unit) -> bool {
        self.units[unit].standing == Standing::Attached
    }

    pub open spec fn linked(self, from: Unit, to: Unit) -> bool {
        self.links.contains((from, to))
    }

    /// No link leaves `from` for a unit of the given branch.
    pub open spec fn output_free(self, from: Unit, branch: Option<Branch>) -> bool {
        forall|to: Unit| #[trigger] self.links.contains((from, to)) ==> branch_of(to) != branch
    }

    /// No link enters `to`.
    pub open spec fn input_free(self, to: Unit) -> bool {
        forall|from: Unit| !#[trigger] self.links.contains((from, to))
    }

    /// The invariant of the graph: links join attached units along the
    /// pipeline's fixed directions, no output capability feeds two units, no
    /// input is fed twice, and a unit that does not exist has no state.
    pub open spec fn wf(self) -> bool {
        &&& forall|u: Unit| #[trigger] self.units.dom().contains(u)
        &&& forall|a: Unit, b: Unit| #[trigger]
            self.links.contains((a, b)) ==> connectable(a, b) && self.attached(a)
                && self.attached(b)
        &&& forall|a: Unit, b: Unit, c: Unit|
            #![trigger self.links.contains((a, b)), self.links.contains((a, c))]
            self.links.contains((a, b)) && self.links.contains((a, c)) && branch_of(b)
                == branch_of(c) ==> b == c
        &&& forall|a: Unit, b: Unit, c: Unit|
            #![trigger self.links.contains((a, c)), self.links.contains((b, c))]
            self.links.contains((a, c)) && self.links.contains((b, c)) ==> a == b
        &&& forall|u: Unit| #[trigger]
            self.standing(u) == Standing::Absent ==> self.live(u) == PlaybackState::Null
    }

    /// Whether the request may be put to the engine in this graph.
    pub open spec fn admits(self, request: Request) -> bool {
        match request {
            Request::Create(unit) => self.standing(unit) == Standing::Absent,
            Request::Locate(unit) => self.standing(unit) != Standing::Absent,
            Request::Add(unit) => self.standing(unit) == Standing::Created,
            Request::Remove(unit) => self.standing(unit) != Standing::Absent && self.live(unit)
                == PlaybackState::Null,
            Request::Link(from, to) => connectable(from, to) && self.attached(from)
                && self.attached(to) && self.output_free(from, branch_of(to)) && self.input_free(
                to,
            ),
            Request::Unlink(from, to) => self.linked(from, to),
            Request::SetState(_) => true,
            Request::SetUnitState(unit, _) => self.standing(unit) != Standing::Absent,
            Request::SyncState(unit) => self.attached(unit),
        }
    }

    /// The graph with one unit brought to a state. A demuxer that falls below
    /// `Paused` retires its stream pads, and with them the links to the
    /// branches.
    pub open spec fn with_unit_state(self, unit: Unit, state: PlaybackState) -> GraphView {
        GraphView {
            units: self.units.insert(
                unit,
                UnitRecord { standing: self.standing(unit), live: state },
            ),
            links: if unit == Unit::Demuxer && is_unrolled(state) {
                without_outputs(self.links, Unit::Demuxer)
            } else {
                self.links
            },
            state: self.state,
        }
    }

    /// The graph after the engine has accepted the request.
    pub open spec fn apply(self, request: Request) -> GraphView {
        match request {
            Request::Create(unit) => GraphView {
                units: self.units.insert(
                    unit,
                    UnitRecord { standing: Standing::Created, live: PlaybackState::Null },
                ),
                ..self
            },
            Request::Locate(_) => self,
            Request::Add(unit) => GraphView {
                units: self.units.insert(
                    unit,
                    UnitRecord { standing: Standing::Attached, live: self.live(unit) },
                ),
                ..self
            },
            Request::Remove(unit) => GraphView {
                units: self.units.insert(unit, absent_record()),
                links: without_unit(self.links, unit),
                state: self.state,
            },
            Request::Link(from, to) => GraphView { links: self.links.insert((from, to)), ..self },
            Request::Unlink(from, to) => GraphView {
                links: self.links.remove((from, to)),
                ..self
            },
            Request::SetState(state) => GraphView {
                units: Map::new(
                    |u: Unit| true,
                    |u: Unit|
                        if self.attached(u) {
                            UnitRecord { standing: Standing::Attached, live: state }
                        } else {
                            self.units[u]
                        },
                ),
                links: if is_unrolled(state) {
                    without_outputs(self.links, Unit::Demuxer)
                } else {
                    self.links
                },
                state: state,
            },
            Request::SetUnitState(unit, state) => self.with_unit_state(unit, state),
            Request::SyncState(unit) => self.with_unit_state(unit, self.state),
        }
    }

    /// A chain of links that starts at `path[0]` and follows the graph.
    pub open spec fn is_path(self, path: Seq<Unit>) -> bool {
        &&& path.len() >= 1
        &&& forall|i: int|
            0 <= i < path.len() - 1 ==> #[trigger] self.links.contains((path[i], path[i + 1]))
    }
}

/// An accepted request that the graph admits leaves the graph well formed.
pub proof fn lemma_apply_keeps_wf(g: GraphView, request: Request)
    requires
        g.wf(),
        g.admits(request),
    ensures
        g.apply(request).wf(),
{
    let h = g.apply(request);
    assert forall|u: Unit| #[trigger] h.units.dom().contains(u) by {
        assert(g.units.dom().contains(u));
    }
    assert forall|a: Unit, b: Unit| #[trigger] h.links.contains((a, b)) implies connectable(a, b)
        && h.attached(a) && h.attached(b) by {
        if g.links.contains((a, b)) {
        }
    }
    assert forall|a: Unit, b: Unit, c: Unit|
        #![trigger h.links.contains((a, b)), h.links.contains((a, c))]
        h.links.contains((a, b)) && h.links.contains((a, c)) && branch_of(b) == branch_of(
            c,
        ) implies b == c by {
        if g.links.contains((a, b)) && g.links.contains((a, c)) {
        }
    }
    assert forall|a: Unit, b: Unit, c: Unit|
        #![trigger h.links.contains((a, c)), h.links.contains((b, c))]
        h.links.contains((a, c)) && h.links.contains((b, c)) implies a == b by {
        if g.links.contains((a, c)) && g.links.contains((b, c)) {
        }
    }
    assert forall|u: Unit| #[trigger] h.standing(u) == Standing::Absent implies h.live(u)
        == PlaybackState::Null by {
        assert(g.standing(u) == Standing::Absent ==> g.live(u) == PlaybackState::Null);
    }
}

/// Along a chain of links the depth grows with every step.
pub proof fn lemma_path_descends(g: GraphView, path: Seq<Unit>)
    requires
        g.wf(),
        g.is_path(path),
    ensures
        depth(path[0]) + path.len() - 1 <= depth(path.last()),
    decreases path.len(),
{
    if path.len() > 1 {
        let shorter = path.drop_last();
        assert forall|i: int| 0 <= i < shorter.len() - 1 implies #[trigger] g.links.contains(
            (shorter[i], shorter[i + 1]),
        ) by {
            assert(g.links.contains((path[i], path[i + 1])));
        }
        lemma_path_descends(g, shorter);
        let n = path.len() as int;
        assert(g.links.contains((path[n - 2], path[n - 2 + 1])));
        assert(shorter.last() == path[n - 2]);
        assert(shorter[0] == path[0]);
    }
}

/// A well-formed graph has no cycle: a chain of at least one link never ends
/// where it began.
pub proof fn lemma_no_cycles(g: GraphView, path: Seq<Unit>)
    requires
        g.wf(),
        g.is_path(path),
        path.len() >= 2,
    ensures
        path.last() != path[0],
{
    lemma_path_descends(g, path);
}

/// The pipeline graph: every unit's record, the links between the units and
/// the state of the whole.
#[derive(Clone, Copy, Debug, PartialEq, Eq)]
pub struct PipelineGraph {
    source: UnitRecord,
    demuxer: UnitRecord,
    video_convert: UnitRecord,
    video_sink: UnitRecord,
    audio_convert: UnitRecord,
    audio_sink: UnitRecord,
    volume: UnitRecord,
    filter: UnitRecord,
    source_demuxer: bool,
    demuxer_video: bool,
    demuxer_audio: bool,
    convert_sink: bool,
    convert_filter: bool,
    filter_sink: bool,
    audio_volume: bool,
    volume_sink: bool,
    state: PlaybackState,
}

impl View for PipelineGraph {
    type V = GraphView;

    closed spec fn view(&self) -> GraphView {
        GraphView {
            units: Map::new(|u: Unit| true, |u: Unit| self.record_of(u)),
            links: Set::new(|l: (Unit, Unit)| self.holds(l.0, l.1)),
            state: self.state,
        }
    }
}

impl PipelineGraph {
    spec fn record_of(&self, unit: Unit) -> UnitRecord {
        match unit {
            Unit::Source => self.source,
            Unit::Demuxer => self.demuxer,
            Unit::VideoConvert => self.video_convert,
            Unit::VideoSink => self.video_sink,
            Unit::AudioConvert => self.audio_convert,
            Unit::AudioSink => self.audio_sink,
            Unit::Volume => self.volume,
            Unit::Filter => self.filter,
        }
    }

    spec fn holds(&self, from: Unit, to: Unit) -> bool {
        match (from, to) {
            (Unit::Source, Unit::Demuxer) => self.source_demuxer,
            (Unit::Demuxer, Unit::VideoConvert) => self.demuxer_video,
            (Unit::Demuxer, Unit::AudioConvert) => self.demuxer_audio,
            (Unit::VideoConvert, Unit::VideoSink) => self.convert_sink,
            (Unit::VideoConvert, Unit::Filter) => self.convert_filter,
            (Unit::Filter, Unit::VideoSink) => self.filter_sink,
            (Unit::AudioConvert, Unit::Volume) => self.audio_volume,
            (Unit::Volume, Unit::AudioSink) => self.volume_sink,
            _ => false,
        }
    }

    /// The graph that holds nothing, in state `Null`.
    pub fn new() -> (g: PipelineGraph)
        ensures
            g@ == GraphView::empty(),
            g@.wf(),
    {
        let none = UnitRecord { standing: Standing::Absent, live: PlaybackState::Null };
        let g = PipelineGraph {
            source: none,
            demuxer: none,
            video_convert: none,
            video_sink: none,
            audio_convert: none,
            audio_sink: none,
            volume: none,
            filter: none,
            source_demuxer: false,
            demuxer_video: false,
            demuxer_audio: false,
            convert_sink: false,
            convert_filter: false,
            filter_sink: false,
            audio_volume: false,
            volume_sink: false,
            state: PlaybackState::Null,
        };
        assert(g@.units =~= GraphView::empty().units);
        assert(g@.links =~= GraphView::empty().links);
        g
    }

    /// The record of a unit.
    pub fn record(&self, unit: Unit) -> (r: UnitRecord)
        ensures
            r == self@.units[unit],
    {
        match unit {
            Unit::Source => self.source,
            Unit::Demuxer => self.demuxer,
            Unit::VideoConvert => self.video_convert,
            Unit::VideoSink => self.video_sink,
            Unit::AudioConvert => self.audio_convert,
            Unit::AudioSink => self.audio_sink,
            Unit::Volume => self.volume,
            Unit::Filter => self.filter,
        }
    }

    /// How far the unit has come on its way into the graph.
    pub fn standing(&self, unit: Unit) -> (r: Standing)
        ensures
            r == self@.standing(unit),
    {
        self.record(unit).standing
    }

    /// The live state of a unit.
    pub fn live(&self, unit: Unit) -> (r: PlaybackState)
        ensures
            r == self@.live(unit),
    {
        self.record(unit).live
    }

    /// Whether the unit is part of the graph.
    pub fn is_attached(&self, unit: Unit) -> (r: bool)
        ensures
            r == self@.attached(unit),
    {
        self.record(unit).standing == Standing::Attached
    }

    /// The state of the pipeline as a whole.
    pub fn state(&self) -> (r: PlaybackState)
        ensures
            r == self@.state,
    {
        self.state
    }

    /// Whether `from`'s output is linked to `to`'s input.
    pub fn is_linked(&self, from: Unit, to: Unit) -> (r: bool)
        ensures
            r == self@.linked(from, to),
    {
        match (from, to) {
            (Unit::Source, Unit::Demuxer) => self.source_demuxer,
            (Unit::Demuxer, Unit::VideoConvert) => self.demuxer_video,
            (Unit::Demuxer, Unit::AudioConvert) => self.demuxer_audio,
            (Unit::VideoConvert, Unit::VideoSink) => self.convert_sink,
            (Unit::VideoConvert, Unit::Filter) => self.convert_filter,
            (Unit::Filter, Unit::VideoSink) => self.filter_sink,
            (Unit::AudioConvert, Unit::Volume) => self.audio_volume,
            (Unit::Volume, Unit::AudioSink) => self.volume_sink,
            _ => false,
        }
    }

    fn feeds(&self, from: Unit, to: Unit, branch: Option<Branch>) -> (r: bool)
        ensures
            r == (self@.links.contains((from, to)) && branch_of(to) == branch),
    {
        self.is_linked(from, to) && to.branch() == branch
    }

    /// Whether no link leaves `from` for a unit of the given branch.
    pub fn output_free(&self, from: Unit, branch: Option<Branch>) -> (r: bool)
        ensures
            r == self@.output_free(from, branch),
    {
        let r = !self.feeds(from, Unit::Source, branch) && !self.feeds(from, Unit::Demuxer, branch)
            && !self.feeds(from, Unit::VideoConvert, branch) && !self.feeds(
            from,
            Unit::VideoSink,
            branch,
        ) && !self.feeds(from, Unit::AudioConvert, branch) && !self.feeds(
            from,
            Unit::AudioSink,
            branch,
        ) && !self.feeds(from, Unit::Volume, branch) && !self.feeds(from, Unit::Filter, branch);
        proof {
            if !r {
                let to = if self.feeds_spec(from, Unit::Source, branch) {
                    Unit::Source
                } else if self.feeds_spec(from, Unit::Demuxer, branch) {
                    Unit::Demuxer
                } else if self.feeds_spec(from, Unit::VideoConvert, branch) {
                    Unit::VideoConvert
                } else if self.feeds_spec(from, Unit::VideoSink, branch) {
                    Unit::VideoSink
                } else if self.feeds_spec(from, Unit::AudioConvert, branch) {
                    Unit::AudioConvert
                } else if self.feeds_spec(from, Unit::AudioSink, branch) {
                    Unit::AudioSink
                } else if self.feeds_spec(from, Unit::Volume, branch) {
                    Unit::Volume
                } else {
                    Unit::Filter
                };
                assert(self@.links.contains((from, to)) && branch_of(to) == branch);
            }
        }
        r
    }

    spec fn feeds_spec(&self, from: Unit, to: Unit, branch: Option<Branch>) -> bool {
        self@.links.contains((from, to)) && branch_of(to) == branch
    }

    /// Whether no link enters `to`.
    pub fn input_free(&self, to: Unit) -> (r: bool)
        ensures
            r == self@.input_free(to),
    {
        let r = !self.is_linked(Unit::Source, to) && !self.is_linked(Unit::Demuxer, to)
            && !self.is_linked(Unit::VideoConvert, to) && !self.is_linked(Unit::VideoSink, to)
            && !self.is_linked(Unit::AudioConvert, to) && !self.is_linked(Unit::AudioSink, to)
            && !self.is_linked(Unit::Volume, to) && !self.is_linked(Unit::Filter, to);
        proof {
            if !r {
                let from = if self@.links.contains((Unit::Source, to)) {
                    Unit::Source
                } else if self@.links.contains((Unit::Demuxer, to)) {
                    Unit::Demuxer
                } else if self@.links.contains((Unit::VideoConvert, to)) {
                    Unit::VideoConvert
                } else if self@.links.contains((Unit::VideoSink, to)) {
                    Unit::VideoSink
                } else if self@.links.contains((Unit::AudioConvert, to)) {
                    Unit::AudioConvert
                } else if self@.links.contains((Unit::AudioSink, to)) {
                    Unit::AudioSink
                } else if self@.links.contains((Unit::Volume, to)) {
                    Unit::Volume
                } else {
                    Unit::Filter
                };
                assert(self@.links.contains((from, to)));
            }
        }
        r
    }

    /// Whether the request may be put to the engine in this graph.
    pub fn admits(&self, request: Request) -> (r: bool)
        ensures
            r == self@.admits(request),
    {
        match request {
            Request::Create(unit) => self.standing(unit) == Standing::Absent,
            Request::Locate(unit) => self.standing(unit) != Standing::Absent,
            Request::Add(unit) => self.standing(unit) == Standing::Created,
            Request::Remove(unit) => self.standing(unit) != Standing::Absent && self.live(unit)
                == PlaybackState::Null,
            Request::Link(from, to) => from.connects_to(to) && self.is_attached(from)
                && self.is_attached(to) && self.output_free(from, to.branch())
                && self.input_free(to),
            Request::Unlink(from, to) => self.is_linked(from, to),
            Request::SetState(_) => true,
            Request::SetUnitState(unit, _) => self.standing(unit) != Standing::Absent,
            Request::SyncState(unit) => self.is_attached(unit),
        }
    }

    /// A graph whose fields answer as a model does has that model as its view.
    proof fn lemma_view_is(g: PipelineGraph, v: GraphView)
        requires
            forall|u: Unit| #[trigger] v.units.dom().contains(u),
            forall|u: Unit| g.record_of(u) == #[trigger] v.units[u],
            forall|a: Unit, b: Unit| g.holds(a, b) == #[trigger] v.links.contains((a, b)),
            g.state == v.state,
        ensures
            g@ == v,
    {
        assert(g@.units =~= v.units);
        assert(g@.links =~= v.links);
    }

    proof fn lemma_with_record(
        before: PipelineGraph,
        after: PipelineGraph,
        unit: Unit,
        record: UnitRecord,
    )
        requires
            forall|u: Unit| #[trigger]
                after.record_of(u) == if u == unit {
                    record
                } else {
                    before.record_of(u)
                },
            forall|a: Unit, b: Unit| #[trigger] after.holds(a, b) == before.holds(a, b),
            after.state == before.state,
        ensures
            after@ == (GraphView { units: before@.units.insert(unit, record), ..before@ }),
    {
        Self::lemma_view_is(
            after,
            GraphView { units: before@.units.insert(unit, record), ..before@ },
        );
    }

    proof fn lemma_with_links(before: PipelineGraph, after: PipelineGraph, links: Set<(Unit, Unit)>)
        requires
            forall|u: Unit| #[trigger] after.record_of(u) == before.record_of(u),
            forall|a: Unit, b: Unit| #[trigger] after.holds(a, b) == links.contains((a, b)),
            after.state == before.state,
        ensures
            after@ == (GraphView { links: links, ..before@ }),
    {
        Self::lemma_view_is(after, GraphView { links: links, ..before@ });
    }

    proof fn lemma_with_state(before: PipelineGraph, after: PipelineGraph, state: PlaybackState)
        requires
            forall|u: Unit| #[trigger]
                after.record_of(u) == if before.record_of(u).standing == Standing::Attached {
                    UnitRecord { standing: Standing::Attached, live: state }
                } else {
                    before.record_of(u)
                },
            forall|a: Unit, b: Unit| #[trigger]
                after.holds(a, b) == (before.holds(a, b) && !(is_unrolled(state) && a
                    == Unit::Demuxer)),
            after.state == state,
        ensures
            after@ == before@.apply(Request::SetState(state)),
    {
        Self::lemma_view_is(after, before@.apply(Request::SetState(state)));
    }

    fn with_record(self, unit: Unit, record: UnitRecord) -> (g: PipelineGraph)
        ensures
            g@ == (GraphView { units: self@.units.insert(unit, record), ..self@ }),
    {
        let g = PipelineGraph {
            source: if unit == Unit::Source { record } else { self.source },
            demuxer: if unit == Unit::Demuxer { record } else { self.demuxer },
            video_convert: if unit == Unit::VideoConvert { record } else { self.video_convert },
            video_sink: if unit == Unit::VideoSink { record } else { self.video_sink },
            audio_convert: if unit == Unit::AudioConvert { record } else { self.audio_convert },
            audio_sink: if unit == Unit::AudioSink { record } else { self.audio_sink },
            volume: if unit == Unit::Volume { record } else { self.volume },
            filter: if unit == Unit::Filter { record } else { self.filter },
            ..self
        };
        proof {
            Self::lemma_with_record(self, g, unit, record);
        }
        g
    }

    fn with_link(self, from: Unit, to: Unit, value: bool) -> (g: PipelineGraph)
        requires
            connectable(from, to) || !value,
        ensures
            g@ == (GraphView {
                links: if value {
                    self@.links.insert((from, to))
                } else {
                    self@.links.remove((from, to))
                },
                ..self@
            }),
    {
        let g = PipelineGraph {
            source_demuxer: if from == Unit::Source && to == Unit::Demuxer {
                value
            } else {
                self.source_demuxer
            },
            demuxer_video: if from == Unit::Demuxer && to == Unit::VideoConvert {
                value
            } else {
                self.demuxer_video
            },
            demuxer_audio: if from == Unit::Demuxer && to == Unit::AudioConvert {
                value
            } else {
                self.demuxer_audio
            },
            convert_sink: if from == Unit::VideoConvert && to == Unit::VideoSink {
                value
            } else {
                self.convert_sink
            },
            convert_filter: if from == Unit::VideoConvert && to == Unit::Filter {
                value
            } else {
                self.convert_filter
            },
            filter_sink: if from == Unit::Filter && to == Unit::VideoSink {
                value
            } else {
                self.filter_sink
            },
            audio_volume: if from == Unit::AudioConvert && to == Unit::Volume {
                value
            } else {
                self.audio_volume
            },
            volume_sink: if from == Unit::Volume && to == Unit::AudioSink {
                value
            } else {
                self.volume_sink
            },
            ..self
        };
        proof {
            Self::lemma_with_links(
                self,
                g,
                if value {
                    self@.links.insert((from, to))
                } else {
                    self@.links.remove((from, to))
                },
            );
        }
        g
    }

    fn without_links_of(self, unit: Unit) -> (g: PipelineGraph)
        ensures
            g@ == (GraphView { links: without_unit(self@.links, unit), ..self@ }),
    {
        let g = PipelineGraph {
            source_demuxer: self.source_demuxer && unit != Unit::Source && unit != Unit::Demuxer,
            demuxer_video: self.demuxer_video && unit != Unit::Demuxer && unit
                != Unit::VideoConvert,
            demuxer_audio: self.demuxer_audio && unit != Unit::Demuxer && unit
                != Unit::AudioConvert,
            convert_sink: self.convert_sink && unit != Unit::VideoConvert && unit
                != Unit::VideoSink,
            convert_filter: self.convert_filter && unit != Unit::VideoConvert && unit
                != Unit::Filter,
            filter_sink: self.filter_sink && unit != Unit::Filter && unit != Unit::VideoSink,
            audio_volume: self.audio_volume && unit != Unit::AudioConvert && unit != Unit::Volume,
            volume_sink: self.volume_sink && unit != Unit::Volume && unit != Unit::AudioSink,
            ..self
        };
        proof {
            Self::lemma_with_links(self, g, without_unit(self@.links, unit));
        }
        g
    }

    fn without_stream_pads(self) -> (g: PipelineGraph)
        ensures
            g@ == (GraphView { links: without_outputs(self@.links, Unit::Demuxer), ..self@ }),
    {
        let g = PipelineGraph { demuxer_video: false, demuxer_audio: false, ..self };
        proof {
            Self::lemma_with_links(self, g, without_outputs(self@.links, Unit::Demuxer));
        }
        g
    }

    fn with_unit_state(self, unit: Unit, state: PlaybackState) -> (g: PipelineGraph)
        ensures
            g@ == self@.with_unit_state(unit, state),
    {
        let standing = self.standing(unit);
        let g = self.with_record(unit, UnitRecord { standing, live: state });
        if unit == Unit::Demuxer && state.unrolled() {
            g.without_stream_pads()
        } else {
            g
        }
    }

    fn carry(record: UnitRecord, state: PlaybackState) -> (r: UnitRecord)
        ensures
            r == if record.standing == Standing::Attached {
                UnitRecord { standing: Standing::Attached, live: state }
            } else {
                record
            },
    {
        if record.standing == Standing::Attached {
            UnitRecord { standing: Standing::Attached, live: state }
        } else {
            record
        }
    }

    fn with_state(self, state: PlaybackState) -> (g: PipelineGraph)
        ensures
            g@ == self@.apply(Request::SetState(state)),
    {
        let keep = !state.unrolled();
        let g = PipelineGraph {
            source: Self::carry(self.source, state),
            demuxer: Self::carry(self.demuxer, state),
            video_convert: Self::carry(self.video_convert, state),
            video_sink: Self::carry(self.video_sink, state),
            audio_convert: Self::carry(self.audio_convert, state),
            audio_sink: Self::carry(self.audio_sink, state),
            volume: Self::carry(self.volume, state),
            filter: Self::carry(self.filter, state),
            demuxer_video: self.demuxer_video && keep,
            demuxer_audio: self.demuxer_audio && keep,
            state: state,
            ..self
        };
        proof {
            Self::lemma_with_state(self, g, state);
        }
        g
    }

    /// Records that the engine has accepted the request, where the graph
    /// admits it; a request that the graph does not admit changes nothing.
    pub fn apply(&mut self, request: Request) -> (admitted: bool)
        requires
            old(self)@.wf(),
        ensures
            admitted == old(self)@.admits(request),
            final(self)@ == if admitted {
                old(self)@.apply(request)
            } else {
                old(self)@
            },
            final(self)@.wf(),
    {
        if !self.admits(request) {
            return false;
        }
        proof {
            lemma_apply_keeps_wf(self@, request);
        }
        let next = match request {
            Request::Create(unit) => self.with_record(
                unit,
                UnitRecord { standing: Standing::Created, live: PlaybackState::Null },
            ),
            Request::Locate(_) => *self,
            Request::Add(unit) => self.with_record(
                unit,
                UnitRecord { standing: Standing::Attached, live: self.live(unit) },
            ),
            Request::Remove(unit) => self.with_record(
                unit,
                UnitRecord { standing: Standing::Absent, live: PlaybackState::Null },
            ).without_links_of(unit),
            Request::Link(from, to) => self.with_link(from, to, true),
            Request::Unlink(from, to) => self.with_link(from, to, false),
            Request::SetState(state) => self.with_state(state),
            Request::SetUnitState(unit, state) => self.with_unit_state(unit, state),
            Request::SyncState(unit) => self.with_unit_state(unit, self.state),
        };
        *self = next;
        true
    }
}

} // verus!
