//! The pipeline manager: the single owner of the pipeline's state, which
//! turns commands into requests to the streaming engine.

use vstd::prelude::*;
use crate::error::PipelineError;
use crate::filters::is_no_filter;
use crate::graph::PipelineGraph;
use crate::machine::{
    build_next, empty_next, in_step, inline_next, lemma_advance_keeps_wf, lemma_begin_keeps_wf,
    lemma_listing_is_complete, lemma_pad_link_keeps_wf, lemma_pending_admitted, link_next,
    listed, listing_order, preroll_next, swap_next, target_of, teardown_next, to_add, to_create,
    to_quiesce, to_release, unbuild_next, video_ready, wants_link, Command, ManagerView, Task,
};
use crate::progress::{sample_of, seek_of, seek_request, take_sample, ProgressSample, SeekRequest};
use crate::request::{Request, Step};
use crate::router::{link_result_of, route_pad, PadRoute};
use crate::source::classify_source;
use crate::unit::{
    assembly_order, assembly_units, first_from, teardown_order, teardown_units, Branch,
    PlaybackState, SourceKind, Standing, Unit,
};

verus! {

fn first_to_create(graph: &PipelineGraph, kind: SourceKind) -> (r: Option<Unit>)
    ensures
        r == first_from(assembly_order(), to_create(graph@, kind), 0),
{
    let order = assembly_units();
    let mut i: usize = 0;
    while i < order.len()
        invariant
            i <= order.len(),
            order@ == assembly_order(),
            first_from(assembly_order(), to_create(graph@, kind), 0) == first_from(
                assembly_order(),
                to_create(graph@, kind),
                i as int,
            ),
        decreases order.len() - i,
    {
        let unit = order[i];
        if unit.needed_for(kind) && graph.standing(unit) == Standing::Absent {
            return Some(unit);
        }
        i += 1;
    }
    None
}

fn first_to_add(graph: &PipelineGraph, kind: SourceKind) -> (r: Option<Unit>)
    ensures
        r == first_from(assembly_order(), to_add(graph@, kind), 0),
{
    let order = assembly_units();
    let mut i: usize = 0;
    while i < order.len()
        invariant
            i <= order.len(),
            order@ == assembly_order(),
            first_from(assembly_order(), to_add(graph@, kind), 0) == first_from(
                assembly_order(),
                to_add(graph@, kind),
                i as int,
            ),
        decreases order.len() - i,
    {
        let unit = order[i];
        if unit.needed_for(kind) && graph.standing(unit) == Standing::Created {
            return Some(unit);
        }
        i += 1;
    }
    None
}

fn first_to_quiesce(graph: &PipelineGraph) -> (r: Option<Unit>)
    ensures
        r == first_from(teardown_order(), to_quiesce(graph@), 0),
{
    let order = teardown_units();
    let mut i: usize = 0;
    while i < order.len()
        invariant
            i <= order.len(),
            order@ == teardown_order(),
            first_from(teardown_order(), to_quiesce(graph@), 0) == first_from(
                teardown_order(),
                to_quiesce(graph@),
                i as int,
            ),
        decreases order.len() - i,
    {
        let unit = order[i];
        if graph.standing(unit) != Standing::Absent && graph.live(unit) != PlaybackState::Null {
            return Some(unit);
        }
        i += 1;
    }
    None
}

fn link_wanted(graph: &PipelineGraph, kind: SourceKind, from: Unit, to: Unit) -> (r: bool)
    ensures
        r == wants_link(graph@, kind, from, to),
{
    from.needed_for(kind) && to.needed_for(kind) && !graph.is_linked(from, to) && graph.admits(
        Request::Link(from, to),
    )
}

fn next_link(graph: &PipelineGraph, kind: SourceKind) -> (r: Option<Request>)
    ensures
        r == link_next(graph@, kind),
{
    if link_wanted(graph, kind, Unit::Source, Unit::Demuxer) {
        Some(Request::Link(Unit::Source, Unit::Demuxer))
    } else if link_wanted(graph, kind, Unit::VideoConvert, Unit::VideoSink) {
        Some(Request::Link(Unit::VideoConvert, Unit::VideoSink))
    } else if link_wanted(graph, kind, Unit::AudioConvert, Unit::Volume) {
        Some(Request::Link(Unit::AudioConvert, Unit::Volume))
    } else if link_wanted(graph, kind, Unit::Volume, Unit::AudioSink) {
        Some(Request::Link(Unit::Volume, Unit::AudioSink))
    } else {
        None
    }
}

fn next_preroll(graph: &PipelineGraph) -> (r: Option<Request>)
    ensures
        r == preroll_next(graph@),
{
    let state = graph.state();
    if state.unrolled() {
        Some(Request::SetState(PlaybackState::Paused))
    } else if state == PlaybackState::Paused {
        Some(Request::SetState(PlaybackState::Playing))
    } else {
        None
    }
}

fn next_of_build(graph: &PipelineGraph, kind: SourceKind, located: bool) -> (r: Option<Request>)
    ensures
        r == build_next(graph@, kind, located),
{
    match first_to_create(graph, kind) {
        Some(unit) => Some(Request::Create(unit)),
        None => {
            if !located {
                Some(Request::Locate(kind.locating()))
            } else {
                match first_to_add(graph, kind) {
                    Some(unit) => Some(Request::Add(unit)),
                    None => match next_link(graph, kind) {
                        Some(request) => Some(request),
                        None => next_preroll(graph),
                    },
                }
            }
        },
    }
}

fn next_of_empty(graph: &PipelineGraph) -> (r: Option<Request>)
    ensures
        r == empty_next(graph@),
{
    let present = graph.standing(Unit::Filter) != Standing::Absent;
    if present && graph.live(Unit::Filter) != PlaybackState::Null {
        Some(Request::SetUnitState(Unit::Filter, PlaybackState::Null))
    } else if graph.is_linked(Unit::VideoConvert, Unit::Filter) {
        Some(Request::Unlink(Unit::VideoConvert, Unit::Filter))
    } else if graph.is_linked(Unit::Filter, Unit::VideoSink) {
        Some(Request::Unlink(Unit::Filter, Unit::VideoSink))
    } else if !graph.is_linked(Unit::VideoConvert, Unit::VideoSink) {
        Some(Request::Link(Unit::VideoConvert, Unit::VideoSink))
    } else if present {
        Some(Request::Remove(Unit::Filter))
    } else {
        None
    }
}

fn next_of_inline(graph: &PipelineGraph) -> (r: Option<Request>)
    ensures
        r == inline_next(graph@),
{
    if graph.standing(Unit::Filter) == Standing::Absent {
        Some(Request::Create(Unit::Filter))
    } else if graph.standing(Unit::Filter) == Standing::Created {
        Some(Request::Add(Unit::Filter))
    } else if graph.live(Unit::Filter) != graph.state() {
        Some(Request::SyncState(Unit::Filter))
    } else if graph.is_linked(Unit::VideoConvert, Unit::VideoSink) {
        Some(Request::Unlink(Unit::VideoConvert, Unit::VideoSink))
    } else if !graph.is_linked(Unit::VideoConvert, Unit::Filter) {
        Some(Request::Link(Unit::VideoConvert, Unit::Filter))
    } else if !graph.is_linked(Unit::Filter, Unit::VideoSink) {
        Some(Request::Link(Unit::Filter, Unit::VideoSink))
    } else {
        None
    }
}

fn next_of_swap(graph: &PipelineGraph, fresh: bool) -> (r: Option<Request>)
    ensures
        r == swap_next(graph@, fresh),
{
    if fresh {
        next_of_inline(graph)
    } else {
        match next_of_empty(graph) {
            Some(request) => Some(request),
            None => Some(Request::Create(Unit::Filter)),
        }
    }
}

fn first_to_release(graph: &PipelineGraph) -> (r: Option<Unit>)
    ensures
        r == first_from(teardown_order(), to_release(graph@), 0),
{
    let order = teardown_units();
    let mut i: usize = 0;
    while i < order.len()
        invariant
            i <= order.len(),
            order@ == teardown_order(),
            first_from(teardown_order(), to_release(graph@), 0) == first_from(
                teardown_order(),
                to_release(graph@),
                i as int,
            ),
        decreases order.len() - i,
    {
        let unit = order[i];
        if unit != Unit::Filter && graph.standing(unit) != Standing::Absent {
            return Some(unit);
        }
        i += 1;
    }
    None
}

fn next_of_unbuild(graph: &PipelineGraph) -> (r: Option<Request>)
    ensures
        r == unbuild_next(graph@),
{
    match first_to_release(graph) {
        Some(unit) => {
            if graph.live(unit) != PlaybackState::Null {
                Some(Request::SetUnitState(unit, PlaybackState::Null))
            } else {
                Some(Request::Remove(unit))
            }
        },
        None => None,
    }
}

/// Whether two texts are the same.
fn same_text(a: &str, b: &str) -> (r: bool)
    ensures
        r == (a@ == b@),
{
    let x = a.to_owned();
    let y = b.to_owned();
    x == y
}

/// A media source: its kind and where it lies.
struct MediaSource {
    kind: SourceKind,
    location: String,
}

fn next_of_teardown(graph: &PipelineGraph) -> (r: Option<Request>)
    ensures
        r == teardown_next(graph@),
{
    match first_to_quiesce(graph) {
        Some(unit) => Some(Request::SetUnitState(unit, PlaybackState::Null)),
        None => {
            if graph.state() != PlaybackState::Null {
                Some(Request::SetState(PlaybackState::Null))
            } else {
                None
            }
        },
    }
}

/// The pipeline manager. It holds the model of the graph and of the
/// operation under way; the engine's handles stay with the caller.
pub struct GstreamerManager {
    graph: PipelineGraph,
    task: Task,
    source: Option<MediaSource>,
    located: bool,
    filter: Option<String>,
    wanted: String,
    shut_down: bool,
    duration: Option<u64>,
    level: u8,
    muted: bool,
}

impl View for GstreamerManager {
    type V = ManagerView;

    closed spec fn view(&self) -> ManagerView {
        ManagerView {
            graph: self.graph@,
            task: self.task,
            source: match self.source {
                Some(source) => Some((source.kind, source.location@)),
                None => None,
            },
            located: self.located,
            filter: match self.filter {
                Some(name) => Some(name@),
                None => None,
            },
            wanted: self.wanted@,
            shut_down: self.shut_down,
            duration: self.duration,
            level: self.level,
            muted: self.muted,
        }
    }
}

impl GstreamerManager {
    /// The invariant of the manager.
    pub open spec fn wf(&self) -> bool {
        self@.wf()
    }

    /// The manager of a pipeline of which nothing exists yet.
    pub fn new() -> (m: GstreamerManager)
        ensures
            m@ == ManagerView::initial(),
            m.wf(),
    {
        GstreamerManager {
            graph: PipelineGraph::new(),
            task: Task::Idle,
            source: None,
            located: false,
            filter: None,
            wanted: String::new(),
            shut_down: false,
            duration: None,
            level: 100,
            muted: false,
        }
    }

    fn source_kind(&self) -> (kind: SourceKind)
        ensures
            kind == self@.kind(),
    {
        match &self.source {
            Some(source) => source.kind,
            None => SourceKind::Local,
        }
    }

    /// The request that the engine is to be asked now, if an operation is
    /// under way.
    pub fn pending(&self) -> (r: Option<Request>)
        ensures
            r == self@.next_request(),
    {
        match self.task {
            Task::Idle => None,
            Task::Build => next_of_build(&self.graph, self.source_kind(), self.located),
            Task::Unbuild(_) => next_of_unbuild(&self.graph),
            Task::Swap { fresh } => next_of_swap(&self.graph, fresh),
            Task::Clear => next_of_empty(&self.graph),
            Task::Restore(_) => next_of_inline(&self.graph),
            Task::Repair(_) => next_of_empty(&self.graph),
            Task::Switch(target) => {
                if self.graph.state() != target {
                    Some(Request::SetState(target))
                } else {
                    None
                }
            },
            Task::Teardown => next_of_teardown(&self.graph),
        }
    }

    fn settle(&mut self) -> (step: Step)
        ensures
            final(self)@ == old(self)@.settle().0,
            step == old(self)@.settle().1,
    {
        match self.pending() {
            Some(request) => Step::Call(request),
            None => {
                let verdict = match self.task {
                    Task::Unbuild(error) => Err(error),
                    Task::Restore(error) => Err(error),
                    Task::Repair(error) => Err(error),
                    _ => Ok(()),
                };
                let torn_down = match self.task {
                    Task::Teardown => true,
                    _ => false,
                };
                match self.task {
                    Task::Unbuild(_) => {
                        self.source = None;
                    },
                    _ => {},
                }
                self.shut_down = self.shut_down || torn_down;
                self.task = Task::Idle;
                Step::Done(verdict)
            },
        }
    }

    fn accept(&mut self, request: Request)
        requires
            old(self)@.graph.wf(),
            old(self)@.graph.admits(request),
        ensures
            final(self)@ == old(self)@.accept(request),
    {
        self.graph.apply(request);
        match request {
            Request::Locate(_) => {
                self.located = true;
            },
            Request::Create(Unit::Filter) => {
                self.filter = Some(self.wanted.clone());
                match self.task {
                    Task::Swap { .. } => {
                        self.task = Task::Swap { fresh: true };
                    },
                    _ => {},
                }
            },
            Request::Remove(Unit::Filter) => {
                self.filter = None;
            },
            _ => {},
        }
    }

    fn turn_back(&mut self, error: PipelineError) -> (step: Step)
        ensures
            final(self)@ == old(self)@.turn_back(error).0,
            step == old(self)@.turn_back(error).1,
    {
        if self.graph.standing(Unit::Filter) != Standing::Absent {
            self.task = Task::Restore(error);
            self.settle()
        } else {
            self.task = Task::Idle;
            Step::Done(Err(error))
        }
    }

    fn refuse(&mut self, request: Request) -> (step: Step)
        ensures
            final(self)@ == old(self)@.refuse(request).0,
            step == old(self)@.refuse(request).1,
    {
        let error = request.refusal(self.graph.state());
        match self.task {
            Task::Build => {
                if self.located {
                    self.task = Task::Idle;
                    Step::Done(Err(error))
                } else {
                    self.task = Task::Unbuild(error);
                    self.settle()
                }
            },
            Task::Unbuild(cause) => {
                self.source = None;
                self.task = Task::Idle;
                Step::Done(Err(cause))
            },
            Task::Clear => self.turn_back(error),
            Task::Swap { fresh } => {
                if fresh {
                    self.task = Task::Repair(error);
                    self.settle()
                } else {
                    self.turn_back(error)
                }
            },
            Task::Restore(cause) => {
                self.task = Task::Idle;
                Step::Done(Err(cause))
            },
            Task::Repair(cause) => {
                self.task = Task::Idle;
                Step::Done(Err(cause))
            },
            _ => {
                self.task = Task::Idle;
                Step::Done(Err(error))
            },
        }
    }

    /// Takes the engine's answer to the pending request and says what comes
    /// next. With no operation under way it changes nothing.
    pub fn advance(&mut self, accepted: bool) -> (step: Step)
        requires
            old(self).wf(),
        ensures
            final(self)@ == old(self)@.advance(accepted).0,
            step == old(self)@.advance(accepted).1,
            final(self).wf(),
            in_step((final(self)@, step)),
    {
        proof {
            lemma_advance_keeps_wf(self@, accepted);
        }
        match self.pending() {
            None => {
                self.task = Task::Idle;
                Step::Done(Ok(()))
            },
            Some(request) => {
                if accepted {
                    proof {
                        lemma_pending_admitted(self@);
                    }
                    self.accept(request);
                    self.settle()
                } else {
                    self.refuse(request)
                }
            },
        }
    }

    /// Opens a source: builds the graph for it and prerolls the pipeline
    /// through `Paused` to `Playing`. An empty path names no source. The
    /// source is fixed once the engine has been told where it lies: a build
    /// that is refused before that releases what it has created and leaves
    /// no source behind; after that, a call goes on where the last build
    /// ended, and a call for another source is answered with
    /// `SourceNotFound`.
    pub fn create_pipeline(&mut self, video_path: &str) -> (step: Step)
        requires
            old(self).wf(),
            old(self)@.task is Idle,
        ensures
            final(self)@ == old(self)@.begin_build(video_path@).0,
            step == old(self)@.begin_build(video_path@).1,
            final(self).wf(),
            in_step((final(self)@, step)),
    {
        proof {
            lemma_begin_keeps_wf(self@, video_path@, PlaybackState::Null);
        }
        if self.shut_down {
            return Step::Done(
                Err(PipelineError::StateChangeFailed { requested: PlaybackState::Playing }),
            );
        }
        if video_path.is_empty() {
            return Step::Done(Err(PipelineError::SourceNotFound));
        }
        let kind = classify_source(video_path);
        if self.located {
            let same = match &self.source {
                Some(source) => source.kind == kind && same_text(
                    source.location.as_str(),
                    video_path,
                ),
                None => false,
            };
            if !same {
                return Step::Done(Err(PipelineError::SourceNotFound));
            }
        } else {
            self.source = Some(MediaSource { kind, location: video_path.to_owned() });
        }
        self.task = Task::Build;
        self.settle()
    }

    fn video_branch_ready(&self) -> (r: bool)
        ensures
            r == video_ready(self@.graph),
    {
        self.graph.is_attached(Unit::VideoConvert) && self.graph.is_attached(Unit::VideoSink)
    }

    /// Empties the filter slot: the filter is quiesced and unlinked, the
    /// converter is linked to the sink again, and only then the filter is
    /// removed. Where the engine refuses a request on this way, the filter is
    /// put back in line and the operation ends in the error of that refusal.
    pub fn remove_filer_and_continue_pipeline(&mut self) -> (step: Step)
        requires
            old(self).wf(),
            old(self)@.task is Idle,
        ensures
            final(self)@ == old(self)@.begin_clear().0,
            step == old(self)@.begin_clear().1,
            final(self).wf(),
            in_step((final(self)@, step)),
    {
        proof {
            lemma_begin_keeps_wf(self@, Seq::empty(), PlaybackState::Null);
        }
        if self.shut_down || !self.video_branch_ready() {
            return Step::Done(Err(PipelineError::LinkFailed));
        }
        self.task = Task::Clear;
        self.settle()
    }

    /// Puts the named filter into the slot in place of what is there: the
    /// slot is emptied first, then the new filter is created, added, brought
    /// to the pipeline's state and linked in. Where the engine refuses to
    /// empty the slot, the old filter is put back in line; where it cannot
    /// create the filter, the slot stays empty; where it refuses a request
    /// after that, the new filter is taken out again and the direct link
    /// restored. The sentinel name empties the slot.
    pub fn set_filter_and_add_to_pipeline(&mut self, filter_name: &str) -> (step: Step)
        requires
            old(self).wf(),
            old(self)@.task is Idle,
        ensures
            final(self)@ == old(self)@.begin_swap(filter_name@).0,
            step == old(self)@.begin_swap(filter_name@).1,
            final(self).wf(),
            in_step((final(self)@, step)),
    {
        proof {
            lemma_begin_keeps_wf(self@, filter_name@, PlaybackState::Null);
        }
        if is_no_filter(filter_name) {
            return self.remove_filer_and_continue_pipeline();
        }
        if self.shut_down || !self.video_branch_ready() {
            return Step::Done(Err(PipelineError::LinkFailed));
        }
        self.wanted = filter_name.to_owned();
        self.task = Task::Swap { fresh: false };
        self.settle()
    }

    fn switch(&mut self, target: PlaybackState) -> (step: Step)
        requires
            old(self).wf(),
            old(self)@.task is Idle,
        ensures
            final(self)@ == old(self)@.begin_switch(target).0,
            step == old(self)@.begin_switch(target).1,
            final(self).wf(),
            in_step((final(self)@, step)),
    {
        proof {
            lemma_begin_keeps_wf(self@, Seq::empty(), target);
        }
        if self.shut_down {
            return Step::Done(Err(PipelineError::StateChangeFailed { requested: target }));
        }
        self.task = Task::Switch(target);
        self.settle()
    }

    /// Asks for playback: from any state to `Playing`. Where the pipeline
    /// plays already, nothing is asked of the engine.
    pub fn play(&mut self) -> (step: Step)
        requires
            old(self).wf(),
            old(self)@.task is Idle,
        ensures
            final(self)@ == old(self)@.begin_switch(PlaybackState::Playing).0,
            step == old(self)@.begin_switch(PlaybackState::Playing).1,
            final(self).wf(),
            in_step((final(self)@, step)),
    {
        self.switch(PlaybackState::Playing)
    }

    /// Asks for a pause: from any state to `Paused`.
    pub fn pause(&mut self) -> (step: Step)
        requires
            old(self).wf(),
            old(self)@.task is Idle,
        ensures
            final(self)@ == old(self)@.begin_switch(PlaybackState::Paused).0,
            step == old(self)@.begin_switch(PlaybackState::Paused).1,
            final(self).wf(),
            in_step((final(self)@, step)),
    {
        self.switch(PlaybackState::Paused)
    }

    /// Asks for a stop: from any state to `Ready`.
    pub fn stop(&mut self) -> (step: Step)
        requires
            old(self).wf(),
            old(self)@.task is Idle,
        ensures
            final(self)@ == old(self)@.begin_switch(PlaybackState::Ready).0,
            step == old(self)@.begin_switch(PlaybackState::Ready).1,
            final(self).wf(),
            in_step((final(self)@, step)),
    {
        self.switch(PlaybackState::Ready)
    }

    /// Tears the pipeline down for good: every unit is brought to `Null`,
    /// each before the units that feed it, and then the pipeline itself.
    pub fn shutdown(&mut self) -> (step: Step)
        requires
            old(self).wf(),
            old(self)@.task is Idle,
        ensures
            final(self)@ == old(self)@.begin_teardown().0,
            step == old(self)@.begin_teardown().1,
            final(self).wf(),
            in_step((final(self)@, step)),
    {
        proof {
            lemma_begin_keeps_wf(self@, Seq::empty(), PlaybackState::Null);
        }
        if self.shut_down {
            return Step::Done(Ok(()));
        }
        self.task = Task::Teardown;
        self.settle()
    }

    /// Gives a command to the playback controller.
    pub fn command(&mut self, command: Command) -> (step: Step)
        requires
            old(self).wf(),
            old(self)@.task is Idle,
        ensures
            final(self)@ == old(self)@.begin_switch(target_of(command)).0,
            step == old(self)@.begin_switch(target_of(command)).1,
            final(self).wf(),
            in_step((final(self)@, step)),
    {
        match command {
            Command::Play => self.play(),
            Command::Pause => self.pause(),
            Command::Stop => self.stop(),
        }
    }

    /// Decides what is to be done with a pad that has appeared on the
    /// demuxer, on the links that the graph records.
    pub fn route_pad(&self, media_type: Option<&str>) -> (route: PadRoute)
        ensures
            route == self@.route(
                match media_type {
                    Some(name) => Some(name@),
                    None => None,
                },
            ),
    {
        route_pad(
            media_type,
            self.graph.is_linked(Unit::Demuxer, Unit::VideoConvert),
            self.graph.is_linked(Unit::Demuxer, Unit::AudioConvert),
        )
    }

    /// Takes the engine's answer to a pad link. A refusal is reported for
    /// its branch; the pipeline goes on, and the other branch may still play.
    pub fn pad_linked(&mut self, branch: Branch, accepted: bool) -> (r: Result<(), PipelineError>)
        requires
            old(self).wf(),
        ensures
            final(self)@ == old(self)@.pad_link(branch, accepted),
            r == link_result_of(branch, accepted),
            final(self).wf(),
    {
        proof {
            lemma_pad_link_keeps_wf(self@, branch, accepted);
        }
        let request = Request::Link(Unit::Demuxer, branch.input());
        if accepted {
            self.graph.apply(request);
            Ok(())
        } else {
            Err(PipelineError::PadLinkFailed { branch })
        }
    }

    /// A tick of the sampler: puts the two queries together. A query that
    /// the pipeline cannot answer yet makes the tick pass without a sample;
    /// a sample makes the duration known, and with it the seek possible.
    pub fn sample(&mut self, position: Option<u64>, duration: Option<u64>) -> (r: Option<
        ProgressSample,
    >)
        requires
            old(self).wf(),
        ensures
            r == sample_of(position, duration),
            final(self)@ == old(self)@.with_sample(position, duration),
            final(self).wf(),
    {
        let sample = take_sample(position, duration);
        match sample {
            Some(sample) => {
                self.duration = Some(sample.duration);
            },
            None => {},
        }
        sample
    }

    /// The seek for a position, clamped to the range from 0 to the
    /// duration; none while no sample has made the duration known.
    pub fn seek(&self, position: i64) -> (r: Option<SeekRequest>)
        ensures
            r == seek_of(position, self@.duration),
    {
        seek_request(position, self.duration)
    }

    /// The volume that is heard, in hundredths: 0 while muted.
    pub fn audible_volume(&self) -> (r: u8)
        ensures
            r == self@.audible(),
    {
        if self.muted {
            0
        } else {
            self.level
        }
    }

    /// Sets the volume, in hundredths and at most 100, and gives the volume
    /// that is heard.
    pub fn set_volume(&mut self, level: u8) -> (r: u8)
        requires
            old(self).wf(),
        ensures
            final(self)@ == old(self)@.with_level(level),
            r == final(self)@.audible(),
            final(self).wf(),
    {
        self.level = if level > 100 {
            100
        } else {
            level
        };
        self.audible_volume()
    }

    /// Mutes the sound; the volume that is heard is 0.
    pub fn mute(&mut self) -> (r: u8)
        requires
            old(self).wf(),
        ensures
            final(self)@ == old(self)@.with_muted(true),
            r == 0,
            final(self).wf(),
    {
        self.muted = true;
        0
    }

    /// Lets the sound be heard again at the volume that was set.
    pub fn unmute(&mut self) -> (r: u8)
        requires
            old(self).wf(),
        ensures
            final(self)@ == old(self)@.with_muted(false),
            r == old(self)@.level,
            final(self).wf(),
    {
        self.muted = false;
        self.level
    }

    /// Mutes the sound if it is heard and lets it be heard if it is muted;
    /// gives the volume that is heard afterwards.
    pub fn toggle_mute(&mut self) -> (r: u8)
        requires
            old(self).wf(),
        ensures
            final(self)@ == old(self)@.with_muted(!old(self)@.muted),
            r == final(self)@.audible(),
            final(self).wf(),
    {
        if self.muted {
            self.unmute()
        } else {
            self.mute()
        }
    }

    /// The units that are part of the graph, each once, in listing order.
    pub fn list_elements(&self) -> (r: Vec<Unit>)
        ensures
            r@ == listed(self@.graph, listing_order().len() as int),
            forall|u: Unit| #[trigger] r@.contains(u) <==> self@.graph.attached(u),
            r@.no_duplicates(),
    {
        proof {
            lemma_listing_is_complete(self@.graph);
        }
        let mut order = assembly_units();
        order.push(Unit::Filter);
        let mut out: Vec<Unit> = Vec::new();
        let mut i: usize = 0;
        while i < order.len()
            invariant
                i <= order.len(),
                order@ == listing_order(),
                out@ == listed(self@.graph, i as int),
            decreases order.len() - i,
        {
            let unit = order[i];
            if self.graph.is_attached(unit) {
                out.push(unit);
            }
            i += 1;
        }
        out
    }

    /// The registry name for a unit that is to be created.
    pub fn factory_of(&self, unit: Unit) -> (r: Option<String>)
        ensures
            r is Some == self@.factory_of(unit) is Some,
            r is Some ==> r->0@ == self@.factory_of(unit)->0,
    {
        match unit {
            Unit::Filter => Some(self.wanted.clone()),
            _ => match unit.factory_name(self.source_kind()) {
                Some(name) => Some(name.to_owned()),
                None => None,
            },
        }
    }

    /// Whether no operation is under way.
    pub fn is_idle(&self) -> (r: bool)
        ensures
            r == (self@.task is Idle),
    {
        match self.task {
            Task::Idle => true,
            _ => false,
        }
    }

    /// The operation under way.
    pub fn task(&self) -> (r: Task)
        ensures
            r == self@.task,
    {
        self.task
    }

    /// Whether the pipeline has been torn down for good.
    pub fn is_shut_down(&self) -> (r: bool)
        ensures
            r == self@.shut_down,
    {
        self.shut_down
    }

    /// The state of the pipeline.
    pub fn state(&self) -> (r: PlaybackState)
        ensures
            r == self@.graph.state,
    {
        self.graph.state()
    }

    /// The pipeline graph.
    pub fn graph(&self) -> (r: &PipelineGraph)
        ensures
            r@ == self@.graph,
    {
        &self.graph
    }

    /// The name of the filter unit that exists, if any.
    pub fn filter(&self) -> (r: Option<String>)
        ensures
            r is Some == self@.filter is Some,
            r is Some ==> r->0@ == self@.filter->0,
    {
        match &self.filter {
            Some(name) => Some(name.clone()),
            None => None,
        }
    }

    /// The kind of the media source of the build.
    pub fn source(&self) -> (r: Option<SourceKind>)
        ensures
            match self@.source {
                Some(source) => r == Some(source.0),
                None => r is None,
            },
    {
        match &self.source {
            Some(source) => Some(source.kind),
            None => None,
        }
    }

    /// Where the media of the build lies.
    pub fn location(&self) -> (r: Option<&str>)
        ensures
            match self@.source {
                Some(source) => r is Some && r->0@ == source.1,
                None => r is None,
            },
    {
        match &self.source {
            Some(source) => Some(source.location.as_str()),
            None => None,
        }
    }

    /// Whether the source is fixed: the engine has been told where it lies.
    pub fn is_located(&self) -> (r: bool)
        ensures
            r == self@.located,
    {
        self.located
    }

    /// The duration of the media, once a sample has made it known.
    pub fn duration(&self) -> (r: Option<u64>)
        ensures
            r == self@.duration,
    {
        self.duration
    }

    /// Whether the sound is muted.
    pub fn is_muted(&self) -> (r: bool)
        ensures
            r == self@.muted,
    {
        self.muted
    }
}

} // verus!
