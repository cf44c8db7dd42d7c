//! The control plane as a state machine: which request comes next, and what
//! the engine's answer does to the state.

use vstd::prelude::*;
use crate::error::PipelineError;
use crate::graph::{lemma_apply_keeps_wf, GraphView};
use crate::progress::sample_of;
use crate::request::{refusal_of, Request, Step};
use crate::router::{branch_of_type, route_of, PadRoute};
use crate::source::kind_of;
use crate::unit::{
    assembly_order, branch_input, branch_of, connectable, factory_name_of, first_from,
    is_needed, is_unrolled, lemma_assembly_order_places, lemma_first_from,
    lemma_teardown_order_places, locating_unit, teardown_order, Branch, PlaybackState,
    SourceKind, Standing, Unit,
};

verus! {

/// A command to the playback controller.
#[derive(Clone, Copy, Debug, PartialEq, Eq, Hash, Structural)]
pub enum Command {
    Play,
    Pause,
    Stop,
}

/// The operation that is under way.
#[derive(Clone, Copy, Debug, PartialEq, Eq, Hash, Structural)]
pub enum Task {
    /// Nothing is under way.
    Idle,
    /// The graph is being built and prerolled.
    Build,
    /// What a build has created is being released again, after a refusal
    /// before the source was fixed; the operation ends in this error.
    Unbuild(PipelineError),
    /// A filter is being put into the slot: first the slot is emptied, then,
    /// once the new unit exists and `fresh` is set, the unit is put in line.
    Swap { fresh: bool },
    /// The slot is being emptied on request.
    Clear,
    /// The filter is being put back in line after a request on the way to an
    /// empty slot was refused; the operation ends in this error.
    Restore(PipelineError),
    /// The new filter is being taken out again after a request on the way
    /// into the slot was refused; the operation ends in this error.
    Repair(PipelineError),
    /// The pipeline is being brought to a state.
    Switch(PlaybackState),
    /// Every unit is being brought to `Null` for good.
    Teardown,
}

/// The name that asks for an empty slot.
pub open spec fn sentinel() -> Seq<char> {
    "no-filter"@
}

/// Whether the video branch's two fixed ends are part of the graph.
pub open spec fn video_ready(g: GraphView) -> bool {
    g.attached(Unit::VideoConvert) && g.attached(Unit::VideoSink)
}

/// The slot is empty: no filter exists and the converter feeds the sink.
pub open spec fn slot_empty(g: GraphView) -> bool {
    g.standing(Unit::Filter) == Standing::Absent && g.linked(Unit::VideoConvert, Unit::VideoSink)
}

/// The slot is occupied: the filter stands in line between converter and sink.
pub open spec fn slot_occupied(g: GraphView) -> bool {
    g.attached(Unit::Filter) && g.linked(Unit::VideoConvert, Unit::Filter) && g.linked(
        Unit::Filter,
        Unit::VideoSink,
    )
}

/// The invariant of the filter slot between operations.
pub open spec fn slot_settled(g: GraphView) -> bool {
    slot_empty(g) || slot_occupied(g)
}

/// The needed units that do not exist yet.
pub open spec fn to_create(g: GraphView, kind: SourceKind) -> Set<Unit> {
    Set::new(|u: Unit| is_needed(u, kind) && g.standing(u) == Standing::Absent)
}

/// The needed units that exist outside the graph.
pub open spec fn to_add(g: GraphView, kind: SourceKind) -> Set<Unit> {
    Set::new(|u: Unit| is_needed(u, kind) && g.standing(u) == Standing::Created)
}

/// The units that exist and are not in `Null`.
pub open spec fn to_quiesce(g: GraphView) -> Set<Unit> {
    Set::new(|u: Unit| g.standing(u) != Standing::Absent && g.live(u) != PlaybackState::Null)
}

/// Whether the build is to make the link now.
pub open spec fn wants_link(g: GraphView, kind: SourceKind, from: Unit, to: Unit) -> bool {
    is_needed(from, kind) && is_needed(to, kind) && !g.linked(from, to) && g.admits(
        Request::Link(from, to),
    )
}

/// The next static link of the build.
pub open spec fn link_next(g: GraphView, kind: SourceKind) -> Option<Request> {
    if wants_link(g, kind, Unit::Source, Unit::Demuxer) {
        Some(Request::Link(Unit::Source, Unit::Demuxer))
    } else if wants_link(g, kind, Unit::VideoConvert, Unit::VideoSink) {
        Some(Request::Link(Unit::VideoConvert, Unit::VideoSink))
    } else if wants_link(g, kind, Unit::AudioConvert, Unit::Volume) {
        Some(Request::Link(Unit::AudioConvert, Unit::Volume))
    } else if wants_link(g, kind, Unit::Volume, Unit::AudioSink) {
        Some(Request::Link(Unit::Volume, Unit::AudioSink))
    } else {
        None
    }
}

/// The next step of the preroll: through `Paused` to `Playing`.
pub open spec fn preroll_next(g: GraphView) -> Option<Request> {
    if is_unrolled(g.state) {
        Some(Request::SetState(PlaybackState::Paused))
    } else if g.state == PlaybackState::Paused {
        Some(Request::SetState(PlaybackState::Playing))
    } else {
        None
    }
}

/// The next request of a build: create what is missing, tell the source
/// where the media lies, add the units, link them, preroll.
pub open spec fn build_next(g: GraphView, kind: SourceKind, located: bool) -> Option<Request> {
    match first_from(assembly_order(), to_create(g, kind), 0) {
        Some(unit) => Some(Request::Create(unit)),
        None => if !located {
            Some(Request::Locate(locating_unit(kind)))
        } else {
            match first_from(assembly_order(), to_add(g, kind), 0) {
                Some(unit) => Some(Request::Add(unit)),
                None => match link_next(g, kind) {
                    Some(request) => Some(request),
                    None => preroll_next(g),
                },
            }
        },
    }
}

/// The units of the skeleton that exist.
pub open spec fn to_release(g: GraphView) -> Set<Unit> {
    Set::new(|u: Unit| u != Unit::Filter && g.standing(u) != Standing::Absent)
}

/// The next request on the way back of a build: each unit of the skeleton
/// that exists is brought to `Null` and released, sinks first.
pub open spec fn unbuild_next(g: GraphView) -> Option<Request> {
    match first_from(teardown_order(), to_release(g), 0) {
        Some(unit) => if g.live(unit) != PlaybackState::Null {
            Some(Request::SetUnitState(unit, PlaybackState::Null))
        } else {
            Some(Request::Remove(unit))
        },
        None => None,
    }
}

/// Whether the filter unit exists.
pub open spec fn filter_present(g: GraphView) -> bool {
    g.standing(Unit::Filter) != Standing::Absent
}

/// The next request on the way to an empty slot: quiesce the filter, undo
/// its two links, link converter and sink, and only then remove the filter.
/// Until the direct link stands, the filter is there to be put back.
pub open spec fn empty_next(g: GraphView) -> Option<Request> {
    if filter_present(g) && g.live(Unit::Filter) != PlaybackState::Null {
        Some(Request::SetUnitState(Unit::Filter, PlaybackState::Null))
    } else if g.linked(Unit::VideoConvert, Unit::Filter) {
        Some(Request::Unlink(Unit::VideoConvert, Unit::Filter))
    } else if g.linked(Unit::Filter, Unit::VideoSink) {
        Some(Request::Unlink(Unit::Filter, Unit::VideoSink))
    } else if !g.linked(Unit::VideoConvert, Unit::VideoSink) {
        Some(Request::Link(Unit::VideoConvert, Unit::VideoSink))
    } else if filter_present(g) {
        Some(Request::Remove(Unit::Filter))
    } else {
        None
    }
}

/// The next request on the way of a filter into the slot: create it, add it,
/// bring it to the pipeline's state, undo the direct link, link the filter
/// in.
pub open spec fn inline_next(g: GraphView) -> Option<Request> {
    if g.standing(Unit::Filter) == Standing::Absent {
        Some(Request::Create(Unit::Filter))
    } else if g.standing(Unit::Filter) == Standing::Created {
        Some(Request::Add(Unit::Filter))
    } else if g.live(Unit::Filter) != g.state {
        Some(Request::SyncState(Unit::Filter))
    } else if g.linked(Unit::VideoConvert, Unit::VideoSink) {
        Some(Request::Unlink(Unit::VideoConvert, Unit::VideoSink))
    } else if !g.linked(Unit::VideoConvert, Unit::Filter) {
        Some(Request::Link(Unit::VideoConvert, Unit::Filter))
    } else if !g.linked(Unit::Filter, Unit::VideoSink) {
        Some(Request::Link(Unit::Filter, Unit::VideoSink))
    } else {
        None
    }
}

/// The next request of a swap. Before the new filter exists, the slot is
/// emptied and the new filter created; after, the new filter is put in line.
pub open spec fn swap_next(g: GraphView, fresh: bool) -> Option<Request> {
    if fresh {
        inline_next(g)
    } else {
        match empty_next(g) {
            Some(request) => Some(request),
            None => Some(Request::Create(Unit::Filter)),
        }
    }
}

/// The next request of a teardown: every unit to `Null`, each before the
/// units that feed it, then the pipeline itself.
pub open spec fn teardown_next(g: GraphView) -> Option<Request> {
    match first_from(teardown_order(), to_quiesce(g), 0) {
        Some(unit) => Some(Request::SetUnitState(unit, PlaybackState::Null)),
        None => if g.state != PlaybackState::Null {
            Some(Request::SetState(PlaybackState::Null))
        } else {
            None
        },
    }
}

/// The mathematical model of the pipeline manager.
pub struct ManagerView {
    /// The pipeline graph.
    pub graph: GraphView,
    /// The operation under way.
    pub task: Task,
    /// The media source of the build: its kind and where it lies.
    pub source: Option<(SourceKind, Seq<char>)>,
    /// Whether the engine has been told where the media lies. From then on
    /// the source is fixed.
    pub located: bool,
    /// The name of the filter unit that exists.
    pub filter: Option<Seq<char>>,
    /// The name of the filter that a swap is to install.
    pub wanted: Seq<char>,
    /// Whether the pipeline has been torn down for good.
    pub shut_down: bool,
    /// The duration of the media, once a progress sample has given it.
    pub duration: Option<u64>,
    /// The volume, in hundredths, that is heard when not muted.
    pub level: u8,
    /// Whether the sound is muted.
    pub muted: bool,
}

impl ManagerView {
    /// The manager of a pipeline of which nothing exists yet.
    pub open spec fn initial() -> ManagerView {
        ManagerView {
            graph: GraphView::empty(),
            task: Task::Idle,
            source: None,
            located: false,
            filter: None,
            wanted: Seq::empty(),
            shut_down: false,
            duration: None,
            level: 100,
            muted: false,
        }
    }

    /// The kind of the media source; local where there is none.
    pub open spec fn kind(self) -> SourceKind {
        match self.source {
            Some(source) => source.0,
            None => SourceKind::Local,
        }
    }

    /// The request that the engine is to be asked now, if any.
    pub open spec fn next_request(self) -> Option<Request> {
        match self.task {
            Task::Idle => None,
            Task::Build => build_next(self.graph, self.kind(), self.located),
            Task::Unbuild(_) => unbuild_next(self.graph),
            Task::Swap { fresh } => swap_next(self.graph, fresh),
            Task::Clear => empty_next(self.graph),
            Task::Restore(_) => inline_next(self.graph),
            Task::Repair(_) => empty_next(self.graph),
            Task::Switch(target) => if self.graph.state != target {
                Some(Request::SetState(target))
            } else {
                None
            },
            Task::Teardown => teardown_next(self.graph),
        }
    }

    /// The invariant of the manager.
    pub open spec fn wf(self) -> bool {
        &&& self.graph.wf()
        &&& (self.filter is Some) == (self.graph.standing(Unit::Filter) != Standing::Absent)
        &&& (self.task is Swap || self.task is Clear || self.task is Restore || self.task
            is Repair) ==> video_ready(self.graph)
        &&& self.task is Restore ==> filter_present(self.graph)
        &&& self.task == (Task::Swap { fresh: true }) ==> self.filter == Some(self.wanted)
        &&& self.task !is Idle ==> self.next_request() is Some
        &&& self.located ==> self.source is Some
        &&& self.task is Build ==> self.source is Some
        &&& self.task is Unbuild ==> !self.located
        &&& self.shut_down ==> self.task is Idle && self.graph.state == PlaybackState::Null
            && forall|u: Unit| #[trigger] self.graph.live(u) == PlaybackState::Null
        &&& self.level <= 100
    }

    /// The manager with the running operation dropped.
    pub open spec fn abandon(self) -> ManagerView {
        ManagerView { task: Task::Idle, ..self }
    }

    /// The manager with the running operation completed. A teardown that
    /// is completed leaves the pipeline torn down for good; a build that is
    /// taken back leaves no source behind.
    pub open spec fn finish(self) -> ManagerView {
        ManagerView {
            task: Task::Idle,
            shut_down: self.shut_down || self.task is Teardown,
            source: if self.task is Unbuild {
                None
            } else {
                self.source
            },
            ..self
        }
    }

    /// The result of the running operation when it completes.
    pub open spec fn verdict(self) -> Result<(), PipelineError> {
        match self.task {
            Task::Unbuild(error) => Err(error),
            Task::Restore(error) => Err(error),
            Task::Repair(error) => Err(error),
            _ => Ok(()),
        }
    }

    /// Either the next request, or the end of the operation.
    pub open spec fn settle(self) -> (ManagerView, Step) {
        match self.next_request() {
            Some(request) => (self, Step::Call(request)),
            None => (self.finish(), Step::Done(self.verdict())),
        }
    }

    /// The manager after the engine has accepted the request.
    pub open spec fn accept(self, request: Request) -> ManagerView {
        ManagerView {
            graph: self.graph.apply(request),
            located: self.located || request is Locate,
            filter: if request == Request::Create(Unit::Filter) {
                Some(self.wanted)
            } else if request == Request::Remove(Unit::Filter) {
                None
            } else {
                self.filter
            },
            task: if request == Request::Create(Unit::Filter) && self.task is Swap {
                Task::Swap { fresh: true }
            } else {
                self.task
            },
            ..self
        }
    }

    /// The manager after the engine has refused the request. A change of
    /// state and a teardown end at once, and so do a build whose source is
    /// fixed and a swap whose filter cannot be created. A build whose source
    /// is not fixed yet releases what it has created. A refusal on the way
    /// to an empty slot sends the filter back in line; a refusal on the way
    /// into the slot takes the new filter out again. A refusal on such a way
    /// back ends the operation. Whatever follows, the operation ends in the
    /// error of the first refusal.
    pub open spec fn refuse(self, request: Request) -> (ManagerView, Step) {
        let error = refusal_of(request, self.graph.state);
        match self.task {
            Task::Build => if self.located {
                (self.abandon(), Step::Done(Err(error)))
            } else {
                ManagerView { task: Task::Unbuild(error), ..self }.settle()
            },
            Task::Unbuild(cause) => (
                ManagerView { source: None, ..self.abandon() },
                Step::Done(Err(cause)),
            ),
            Task::Clear => self.turn_back(error),
            Task::Swap { fresh } => if fresh {
                ManagerView { task: Task::Repair(error), ..self }.settle()
            } else {
                self.turn_back(error)
            },
            Task::Restore(cause) => (self.abandon(), Step::Done(Err(cause))),
            Task::Repair(cause) => (self.abandon(), Step::Done(Err(cause))),
            _ => (self.abandon(), Step::Done(Err(error))),
        }
    }

    /// The manager after a refusal on the way to an empty slot: the filter
    /// that is still there goes back in line.
    pub open spec fn turn_back(self, error: PipelineError) -> (ManagerView, Step) {
        if filter_present(self.graph) {
            ManagerView { task: Task::Restore(error), ..self }.settle()
        } else {
            (self.abandon(), Step::Done(Err(error)))
        }
    }

    /// The manager and the next step after the engine's answer to the
    /// pending request. With nothing pending, nothing changes.
    pub open spec fn advance(self, accepted: bool) -> (ManagerView, Step) {
        match self.next_request() {
            None => (self.abandon(), Step::Done(Ok(()))),
            Some(request) => if accepted {
                self.accept(request).settle()
            } else {
                self.refuse(request)
            },
        }
    }

    /// Begins a build for the source that `text` names; an empty text names
    /// none. The source is fixed once the engine has been told where it
    /// lies: from then on a build goes on where the last one ended, and only
    /// for that source.
    pub open spec fn begin_build(self, text: Seq<char>) -> (ManagerView, Step) {
        if self.shut_down {
            (
                self,
                Step::Done(
                    Err(PipelineError::StateChangeFailed { requested: PlaybackState::Playing }),
                ),
            )
        } else if text.len() == 0 || (self.located && self.source != Some((kind_of(text), text))) {
            (self, Step::Done(Err(PipelineError::SourceNotFound)))
        } else {
            ManagerView { task: Task::Build, source: Some((kind_of(text), text)), ..self }.settle()
        }
    }

    /// Begins to empty the slot.
    pub open spec fn begin_clear(self) -> (ManagerView, Step) {
        if self.shut_down || !video_ready(self.graph) {
            (self, Step::Done(Err(PipelineError::LinkFailed)))
        } else {
            ManagerView { task: Task::Clear, ..self }.settle()
        }
    }

    /// Begins to put the named filter into the slot; the sentinel name
    /// empties the slot instead.
    pub open spec fn begin_swap(self, name: Seq<char>) -> (ManagerView, Step) {
        if name == sentinel() {
            self.begin_clear()
        } else if self.shut_down || !video_ready(self.graph) {
            (self, Step::Done(Err(PipelineError::LinkFailed)))
        } else {
            ManagerView { task: Task::Swap { fresh: false }, wanted: name, ..self }.settle()
        }
    }

    /// Begins to bring the pipeline to a state.
    pub open spec fn begin_switch(self, target: PlaybackState) -> (ManagerView, Step) {
        if self.shut_down {
            (self, Step::Done(Err(PipelineError::StateChangeFailed { requested: target })))
        } else {
            ManagerView { task: Task::Switch(target), ..self }.settle()
        }
    }

    /// Begins the teardown. A pipeline that is torn down stays so.
    pub open spec fn begin_teardown(self) -> (ManagerView, Step) {
        if self.shut_down {
            (self, Step::Done(Ok(())))
        } else {
            ManagerView { task: Task::Teardown, ..self }.settle()
        }
    }
}

/// The state that each command asks for.
pub open spec fn target_of(command: Command) -> PlaybackState {
    match command {
        Command::Play => PlaybackState::Playing,
        Command::Pause => PlaybackState::Paused,
        Command::Stop => PlaybackState::Ready,
    }
}

/// The units in the order in which they are listed.
pub open spec fn listing_order() -> Seq<Unit> {
    assembly_order().push(Unit::Filter)
}

/// The attached units among the first `upto` of the listing order.
pub open spec fn listed(g: GraphView, upto: int) -> Seq<Unit>
    decreases upto,
{
    if upto <= 0 {
        Seq::empty()
    } else if g.attached(listing_order()[upto - 1]) {
        listed(g, upto - 1).push(listing_order()[upto - 1])
    } else {
        listed(g, upto - 1)
    }
}

/// The listing order, place by place: it holds every unit once.
pub proof fn lemma_listing_order_places()
    ensures
        listing_order().len() == 8,
        listing_order()[0] == Unit::Source,
        listing_order()[1] == Unit::Demuxer,
        listing_order()[2] == Unit::VideoConvert,
        listing_order()[3] == Unit::VideoSink,
        listing_order()[4] == Unit::AudioConvert,
        listing_order()[5] == Unit::AudioSink,
        listing_order()[6] == Unit::Volume,
        listing_order()[7] == Unit::Filter,
{
    lemma_assembly_order_places();
}

/// The listing holds the attached units among the first `upto` of the listing
/// order, each once and in that order.
pub proof fn lemma_listed_members(g: GraphView, upto: int)
    requires
        0 <= upto <= listing_order().len(),
    ensures
        forall|u: Unit| #[trigger]
            listed(g, upto).contains(u) <==> g.attached(u) && exists|i: int|
                0 <= i < upto && #[trigger] listing_order()[i] == u,
        listed(g, upto).no_duplicates(),
        listed(g, upto).len() <= upto,
    decreases upto,
{
    let order = listing_order();
    lemma_listing_order_places();
    if upto > 0 {
        lemma_listed_members(g, upto - 1);
        let before = listed(g, upto - 1);
        let last = order[upto - 1];
        assert forall|u: Unit| #[trigger]
            listed(g, upto).contains(u) <==> g.attached(u) && exists|i: int|
                0 <= i < upto && #[trigger] order[i] == u by {
            if g.attached(last) {
                assert(listed(g, upto) == before.push(last));
                if listed(g, upto).contains(u) {
                    let k = choose|k: int|
                        0 <= k < listed(g, upto).len() && listed(g, upto)[k] == u;
                    if k < before.len() {
                        assert(before[k] == u);
                        assert(before.contains(u));
                        let i = choose|i: int| 0 <= i < upto - 1 && #[trigger] order[i] == u;
                        assert(0 <= i < upto && order[i] == u);
                    } else {
                        assert(u == last);
                        assert(0 <= upto - 1 < upto && order[upto - 1] == u);
                    }
                }
                if g.attached(u) && exists|i: int| 0 <= i < upto && #[trigger] order[i] == u {
                    let i = choose|i: int| 0 <= i < upto && #[trigger] order[i] == u;
                    if i < upto - 1 {
                        assert(before.contains(u));
                        let k = choose|k: int| 0 <= k < before.len() && before[k] == u;
                        assert(listed(g, upto)[k] == u);
                    } else {
                        assert(listed(g, upto)[before.len() as int] == u);
                    }
                }
            } else {
                assert(listed(g, upto) == before);
                if g.attached(u) && exists|i: int| 0 <= i < upto && #[trigger] order[i] == u {
                    let i = choose|i: int| 0 <= i < upto && #[trigger] order[i] == u;
                    assert(i < upto - 1);
                    assert(0 <= i < upto - 1 && order[i] == u);
                }
                if before.contains(u) {
                    let i = choose|i: int| 0 <= i < upto - 1 && #[trigger] order[i] == u;
                    assert(0 <= i < upto && order[i] == u);
                }
            }
        }
        if g.attached(last) {
            assert(!before.contains(last)) by {
                if before.contains(last) {
                    let i = choose|i: int| 0 <= i < upto - 1 && #[trigger] order[i] == last;
                    assert(order[i] == order[upto - 1]);
                }
            }
            assert forall|a: int, b: int|
                0 <= a < listed(g, upto).len() && 0 <= b < listed(g, upto).len() && a
                    != b implies listed(g, upto)[a] != listed(g, upto)[b] by {
                if a < before.len() && b < before.len() {
                } else if a < before.len() {
                    assert(before.contains(before[a]));
                } else if b < before.len() {
                    assert(before.contains(before[b]));
                }
            }
        }
    }
}

/// The full listing holds exactly the units that are part of the graph, each
/// once.
pub proof fn lemma_listing_is_complete(g: GraphView)
    ensures
        forall|u: Unit| #[trigger]
            listed(g, listing_order().len() as int).contains(u) <==> g.attached(u),
        listed(g, listing_order().len() as int).no_duplicates(),
{
    let order = listing_order();
    lemma_listed_members(g, order.len() as int);
    lemma_listing_order_places();
}

impl ManagerView {
    /// The route of a pad that has appeared on the demuxer, decided on the
    /// links that the graph records.
    pub open spec fn route(self, media_type: Option<Seq<char>>) -> PadRoute {
        route_of(
            media_type,
            self.graph.linked(Unit::Demuxer, Unit::VideoConvert),
            self.graph.linked(Unit::Demuxer, Unit::AudioConvert),
        )
    }

    /// The manager after the engine's answer to a pad link. An accepted link
    /// is recorded where the graph has room for it.
    pub open spec fn pad_link(self, branch: Branch, accepted: bool) -> ManagerView {
        let request = Request::Link(Unit::Demuxer, branch_input(branch));
        if accepted && self.graph.admits(request) {
            ManagerView { graph: self.graph.apply(request), ..self }
        } else {
            self
        }
    }

    /// The manager after a tick of the sampler: a sample makes the duration
    /// known.
    pub open spec fn with_sample(
        self,
        position: Option<u64>,
        duration: Option<u64>,
    ) -> ManagerView {
        match sample_of(position, duration) {
            Some(sample) => ManagerView { duration: Some(sample.duration), ..self },
            None => self,
        }
    }

    /// The volume that is heard, in hundredths.
    pub open spec fn audible(self) -> u8 {
        if self.muted {
            0
        } else {
            self.level
        }
    }

    /// The manager with the volume set, at most to 100 hundredths.
    pub open spec fn with_level(self, level: u8) -> ManagerView {
        ManagerView {
            level: if level > 100 {
                100
            } else {
                level
            },
            ..self
        }
    }

    /// The manager with the sound muted or not.
    pub open spec fn with_muted(self, muted: bool) -> ManagerView {
        ManagerView { muted: muted, ..self }
    }

    /// The registry name for a unit that is to be created: the wanted
    /// filter's name for the filter, else the unit's own.
    pub open spec fn factory_of(self, unit: Unit) -> Option<Seq<char>> {
        match unit {
            Unit::Filter => Some(self.wanted),
            _ => factory_name_of(unit, self.kind()),
        }
    }
}

/// Routing on the graph is idempotent for each branch. A pad whose branch
/// input is linked is left alone, which is no error. A pad whose branch input
/// is free is sent to its branch; where demuxer and converter are part of the
/// graph, the accepted link is recorded, and every later pad of that media
/// type is left alone. A refused link changes nothing.
pub proof fn lemma_pad_routing_is_idempotent(m: ManagerView, media_type: Seq<char>, branch: Branch)
    requires
        m.wf(),
        branch_of_type(media_type) == Some(branch),
    ensures
        m.graph.linked(Unit::Demuxer, branch_input(branch)) ==> m.route(Some(media_type))
            == PadRoute::AlreadyLinked(branch),
        !m.graph.linked(Unit::Demuxer, branch_input(branch)) ==> m.route(Some(media_type))
            == PadRoute::Link(branch),
        !m.graph.linked(Unit::Demuxer, branch_input(branch)) && m.graph.attached(Unit::Demuxer)
            && m.graph.attached(branch_input(branch)) ==> m.graph.admits(
            Request::Link(Unit::Demuxer, branch_input(branch)),
        ) && m.pad_link(branch, true).route(Some(media_type)) == PadRoute::AlreadyLinked(branch),
        m.pad_link(branch, false) == m,
{
    let input = branch_input(branch);
    if !m.graph.linked(Unit::Demuxer, input) && m.graph.attached(Unit::Demuxer)
        && m.graph.attached(input) {
        assert forall|to: Unit| #[trigger] m.graph.links.contains((Unit::Demuxer, to)) implies
            branch_of(to) != branch_of(input) by {
            assert(connectable(Unit::Demuxer, to));
        }
        assert forall|from: Unit| !#[trigger] m.graph.links.contains((from, input)) by {
            if m.graph.links.contains((from, input)) {
                assert(connectable(from, input));
            }
        }
    }
}

/// A link between two other pads does not change whether a link is admitted.
proof fn lemma_other_link_is_no_matter(g: GraphView, from: Unit, to: Unit, a: Unit, b: Unit)
    requires
        from != a,
        to != b,
    ensures
        g.apply(Request::Link(from, to)).admits(Request::Link(a, b)) == g.admits(
            Request::Link(a, b),
        ),
{
    let h = g.apply(Request::Link(from, to));
    let branch = branch_of(b);
    if g.output_free(a, branch) {
        assert forall|c: Unit| #[trigger] h.links.contains((a, c)) implies branch_of(c)
            != branch by {
            assert(g.links.contains((a, c)));
        }
    }
    if h.output_free(a, branch) {
        assert forall|c: Unit| #[trigger] g.links.contains((a, c)) implies branch_of(c)
            != branch by {
            assert(h.links.contains((a, c)));
        }
    }
    if g.input_free(b) {
        assert forall|c: Unit| !#[trigger] h.links.contains((c, b)) by {
            assert(!g.links.contains((c, b)));
        }
    }
    if h.input_free(b) {
        assert forall|c: Unit| !#[trigger] g.links.contains((c, b)) by {
            assert(!h.links.contains((c, b)));
        }
    }
}

/// A pad link that is recorded keeps the manager well formed and leaves the
/// pending request as it is: pads may be linked while an operation is under
/// way.
pub proof fn lemma_pad_link_keeps_wf(m: ManagerView, branch: Branch, accepted: bool)
    requires
        m.wf(),
    ensures
        m.pad_link(branch, accepted).wf(),
        m.pad_link(branch, accepted).next_request() == m.next_request(),
{
    let request = Request::Link(Unit::Demuxer, branch_input(branch));
    let n = m.pad_link(branch, accepted);
    if accepted && m.graph.admits(request) {
        lemma_apply_keeps_wf(m.graph, request);
        let g = m.graph;
        let h = n.graph;
        let kind = m.kind();
        assert(to_create(h, kind) =~= to_create(g, kind));
        assert(to_add(h, kind) =~= to_add(g, kind));
        assert(to_quiesce(h) =~= to_quiesce(g));
        assert(to_release(h) =~= to_release(g));
        assert(h.units == g.units);
        assert forall|u: Unit| h.live(u) == g.live(u) by {}
        let input = branch_input(branch);
        lemma_other_link_is_no_matter(g, Unit::Demuxer, input, Unit::Source, Unit::Demuxer);
        lemma_other_link_is_no_matter(g, Unit::Demuxer, input, Unit::VideoConvert, Unit::VideoSink);
        lemma_other_link_is_no_matter(g, Unit::Demuxer, input, Unit::AudioConvert, Unit::Volume);
        lemma_other_link_is_no_matter(g, Unit::Demuxer, input, Unit::Volume, Unit::AudioSink);
        assert(wants_link(h, kind, Unit::Source, Unit::Demuxer) == wants_link(
            g,
            kind,
            Unit::Source,
            Unit::Demuxer,
        ));
        assert(wants_link(h, kind, Unit::VideoConvert, Unit::VideoSink) == wants_link(
            g,
            kind,
            Unit::VideoConvert,
            Unit::VideoSink,
        ));
        assert(wants_link(h, kind, Unit::AudioConvert, Unit::Volume) == wants_link(
            g,
            kind,
            Unit::AudioConvert,
            Unit::Volume,
        ));
        assert(wants_link(h, kind, Unit::Volume, Unit::AudioSink) == wants_link(
            g,
            kind,
            Unit::Volume,
            Unit::AudioSink,
        ));
    }
}

/// The request that is pending in a well-formed manager is one that its graph
/// admits: the engine is never asked to create what exists, to remove a unit
/// that is live, or to link a pad that is taken.
pub proof fn lemma_pending_admitted(m: ManagerView)
    requires
        m.wf(),
        m.next_request() is Some,
    ensures
        m.graph.admits(m.next_request()->0),
{
    let g = m.graph;
    match m.task {
        Task::Build => {
            lemma_first_from(assembly_order(), to_create(g, m.kind()), 0);
            lemma_first_from(assembly_order(), to_add(g, m.kind()), 0);
            if first_from(assembly_order(), to_create(g, m.kind()), 0) is None && !m.located {
                let unit = locating_unit(m.kind());
                lemma_assembly_order_places();
                assert(!to_create(g, m.kind()).contains(unit));
            }
        },
        Task::Unbuild(_) => {
            lemma_first_from(teardown_order(), to_release(g), 0);
        },
        Task::Teardown => {
            lemma_first_from(teardown_order(), to_quiesce(g), 0);
        },
        _ => {},
    }
}

/// An accepted request keeps the manager well formed, apart from the promise
/// that an operation under way has a request pending.
proof fn lemma_accept_keeps_graph(m: ManagerView)
    requires
        m.wf(),
        m.next_request() is Some,
    ensures
        ({
            let n = m.accept(m.next_request()->0);
            &&& n.graph.wf()
            &&& (n.filter is Some) == (n.graph.standing(Unit::Filter) != Standing::Absent)
            &&& (n.task is Swap || n.task is Clear || n.task is Restore || n.task is Repair)
                ==> video_ready(n.graph)
            &&& n.task is Restore ==> filter_present(n.graph)
            &&& n.task == (Task::Swap { fresh: true }) ==> n.filter == Some(n.wanted)
            &&& n.located ==> n.source is Some
            &&& n.task is Build ==> n.source is Some
            &&& n.task is Unbuild ==> !n.located
            &&& !n.shut_down
            &&& n.task is Teardown && n.next_request() is None ==> n.graph.state
                == PlaybackState::Null && forall|u: Unit| #[trigger]
                n.graph.live(u) == PlaybackState::Null
            &&& n.level <= 100
        }),
{
    let request = m.next_request()->0;
    lemma_pending_admitted(m);
    crate::graph::lemma_apply_keeps_wf(m.graph, request);
    match m.task {
        Task::Build => {
            lemma_first_from(assembly_order(), to_create(m.graph, m.kind()), 0);
            lemma_first_from(assembly_order(), to_add(m.graph, m.kind()), 0);
        },
        Task::Teardown => {
            lemma_first_from(teardown_order(), to_quiesce(m.graph), 0);
            let n = m.accept(request);
            if n.next_request() is None {
                lemma_all_quiet(n.graph);
            }
        },
        _ => {},
    }
}

/// The manager and the last step after the engine's answers have been given
/// one by one, until the operation ends or the answers run out.
pub open spec fn run(start: (ManagerView, Step), answers: Seq<bool>) -> (ManagerView, Step)
    decreases answers.len(),
{
    if start.1 is Done || answers.len() == 0 {
        start
    } else {
        run(start.0.advance(answers[0]), answers.drop_first())
    }
}

/// Whether the engine refused a request on the way of a run.
pub open spec fn met_refusal(start: (ManagerView, Step), answers: Seq<bool>) -> bool
    decreases answers.len(),
{
    if start.1 is Done || answers.len() == 0 {
        false
    } else {
        !answers[0] || met_refusal(start.0.advance(answers[0]), answers.drop_first())
    }
}

/// Whether the operation under way is on its way back after a refusal.
pub open spec fn on_way_back(m: ManagerView) -> bool {
    m.task is Unbuild || m.task is Restore || m.task is Repair
}

/// The error that an operation on its way back ends in.
pub open spec fn carried_error(m: ManagerView) -> Option<PipelineError> {
    match m.task {
        Task::Unbuild(error) => Some(error),
        Task::Restore(error) => Some(error),
        Task::Repair(error) => Some(error),
        _ => None,
    }
}

/// Whether the engine refused a request of a way back.
pub open spec fn refused_on_way_back(start: (ManagerView, Step), answers: Seq<bool>) -> bool
    decreases answers.len(),
{
    if start.1 is Done || answers.len() == 0 {
        false
    } else {
        (!answers[0] && on_way_back(start.0)) || refused_on_way_back(
            start.0.advance(answers[0]),
            answers.drop_first(),
        )
    }
}

/// The error of the first request that the engine refused on the way.
pub open spec fn first_refusal(start: (ManagerView, Step), answers: Seq<bool>) -> PipelineError
    recommends
        met_refusal(start, answers),
    decreases answers.len(),
{
    if start.1 is Done || answers.len() == 0 {
        PipelineError::LinkFailed
    } else if !answers[0] {
        refusal_of(start.0.next_request()->0, start.0.graph.state)
    } else {
        first_refusal(start.0.advance(answers[0]), answers.drop_first())
    }
}

/// Whether a step agrees with the state it comes with: a request that is
/// handed out is the one that is pending, and an operation has ended exactly
/// when nothing is under way.
pub open spec fn in_step(state: (ManagerView, Step)) -> bool {
    match state.1 {
        Step::Call(request) => state.0.task !is Idle && state.0.next_request() == Some(request),
        Step::Done(_) => state.0.task is Idle,
    }
}

/// Whatever the engine answers, the manager stays well formed, and the step
/// that is handed out agrees with the manager's state.
pub proof fn lemma_advance_keeps_wf(m: ManagerView, accepted: bool)
    requires
        m.wf(),
    ensures
        m.advance(accepted).0.wf(),
        in_step(m.advance(accepted)),
{
    if m.next_request() is Some {
        if accepted {
            lemma_accept_keeps_graph(m);
        }
    }
}

/// Where no unit is left to quiesce, every unit is in `Null`.
proof fn lemma_all_quiet(g: GraphView)
    requires
        g.wf(),
        first_from(teardown_order(), to_quiesce(g), 0) is None,
    ensures
        forall|u: Unit| #[trigger] g.live(u) == PlaybackState::Null,
{
    lemma_first_from(teardown_order(), to_quiesce(g), 0);
    lemma_teardown_order_places();
    assert forall|u: Unit| #[trigger] g.live(u) == PlaybackState::Null by {
        let j = teardown_order().index_of(u);
        assert(teardown_order().contains(u));
        assert(teardown_order()[j] == u);
        assert(!to_quiesce(g).contains(teardown_order()[j]));
    }
}

/// No operation begins in a way that breaks the manager's invariant, and the
/// first step agrees with the manager's state.
pub proof fn lemma_begin_keeps_wf(m: ManagerView, text: Seq<char>, target: PlaybackState)
    requires
        m.wf(),
        m.task is Idle,
    ensures
        m.begin_build(text).0.wf(),
        m.begin_clear().0.wf(),
        m.begin_swap(text).0.wf(),
        m.begin_switch(target).0.wf(),
        m.begin_teardown().0.wf(),
        in_step(m.begin_build(text)),
        in_step(m.begin_clear()),
        in_step(m.begin_swap(text)),
        in_step(m.begin_switch(target)),
        in_step(m.begin_teardown()),
{
    if first_from(teardown_order(), to_quiesce(m.graph), 0) is None {
        lemma_all_quiet(m.graph);
    }
}

} // verus!
