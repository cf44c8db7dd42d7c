//! The stages of the pipeline and the fixed ways in which they can be joined.

use vstd::prelude::*;

verus! {

/// The role a processing unit plays in the pipeline.
#[derive(Clone, Copy, Debug, PartialEq, Eq, Hash, Structural)]
pub enum Unit {
    Source,
    Demuxer,
    VideoConvert,
    VideoSink,
    AudioConvert,
    AudioSink,
    Volume,
    Filter,
}

/// One of the two sub-paths that lead from the demuxer to a sink.
#[derive(Clone, Copy, Debug, PartialEq, Eq, Hash, Structural)]
pub enum Branch {
    Video,
    Audio,
}

/// The live state of the pipeline or of one of its units.
#[derive(Clone, Copy, Debug, PartialEq, Eq, Hash, Structural)]
pub enum PlaybackState {
    Null,
    Ready,
    Paused,
    Playing,
}

/// How far a unit has come on its way into the graph.
#[derive(Clone, Copy, Debug, PartialEq, Eq, Hash, Structural)]
pub enum Standing {
    /// The unit does not exist.
    Absent,
    /// The unit exists but is not part of the graph.
    Created,
    /// The unit is part of the graph.
    Attached,
}

/// Where a media source is to be read from.
#[derive(Clone, Copy, Debug, PartialEq, Eq, Hash, Structural)]
pub enum SourceKind {
    /// A path on the local file system, read by a source unit of its own.
    Local,
    /// A URI whose retrieval is left to the demuxing unit.
    Network,
}

/// The links that the pipeline can hold: `from`'s output may feed `to`'s input.
pub open spec fn connectable(from: Unit, to: Unit) -> bool {
    match (from, to) {
        (Unit::Source, Unit::Demuxer) => true,
        (Unit::Demuxer, Unit::VideoConvert) => true,
        (Unit::Demuxer, Unit::AudioConvert) => true,
        (Unit::VideoConvert, Unit::VideoSink) => true,
        (Unit::VideoConvert, Unit::Filter) => true,
        (Unit::Filter, Unit::VideoSink) => true,
        (Unit::AudioConvert, Unit::Volume) => true,
        (Unit::Volume, Unit::AudioSink) => true,
        _ => false,
    }
}

/// The branch a unit belongs to; the source and the demuxer stand before the
/// fork and belong to neither.
pub open spec fn branch_of(unit: Unit) -> Option<Branch> {
    match unit {
        Unit::Source | Unit::Demuxer => None,
        Unit::VideoConvert | Unit::Filter | Unit::VideoSink => Some(Branch::Video),
        Unit::AudioConvert | Unit::Volume | Unit::AudioSink => Some(Branch::Audio),
    }
}

/// Distance of a unit from the head of the pipeline. Every link leads to a
/// unit of greater depth.
pub open spec fn depth(unit: Unit) -> nat {
    match unit {
        Unit::Source => 0,
        Unit::Demuxer => 1,
        Unit::VideoConvert | Unit::AudioConvert => 2,
        Unit::Filter | Unit::Volume => 3,
        Unit::VideoSink | Unit::AudioSink => 4,
    }
}

/// The converter that receives a branch's elementary stream from the demuxer.
pub open spec fn branch_input(branch: Branch) -> Unit {
    match branch {
        Branch::Video => Unit::VideoConvert,
        Branch::Audio => Unit::AudioConvert,
    }
}

/// Whether a state is below `Paused`, where a demuxer keeps no stream pads.
pub open spec fn is_unrolled(state: PlaybackState) -> bool {
    state == PlaybackState::Null || state == PlaybackState::Ready
}

/// Whether a source of the given kind needs the unit to be created.
pub open spec fn is_needed(unit: Unit, kind: SourceKind) -> bool {
    match unit {
        Unit::Filter => false,
        Unit::Source => kind == SourceKind::Local,
        _ => true,
    }
}

/// The unit that is told where the media lies.
pub open spec fn locating_unit(kind: SourceKind) -> Unit {
    match kind {
        SourceKind::Local => Unit::Source,
        SourceKind::Network => Unit::Demuxer,
    }
}

/// The name under which the engine's registry knows each mandatory unit. The
/// filter has none of its own: its name is chosen with each swap.
pub open spec fn factory_name_of(unit: Unit, kind: SourceKind) -> Option<Seq<char>> {
    match unit {
        Unit::Source => Some("filesrc"@),
        Unit::Demuxer => match kind {
            SourceKind::Local => Some("decodebin"@),
            SourceKind::Network => Some("uridecodebin"@),
        },
        Unit::VideoConvert => Some("videoconvert"@),
        Unit::VideoSink => Some("gtk4paintablesink"@),
        Unit::AudioConvert => Some("audioconvert"@),
        Unit::AudioSink => Some("autoaudiosink"@),
        Unit::Volume => Some("volume"@),
        Unit::Filter => None,
    }
}

/// The order in which the mandatory units are created and added.
pub open spec fn assembly_order() -> Seq<Unit> {
    seq![
        Unit::Source,
        Unit::Demuxer,
        Unit::VideoConvert,
        Unit::VideoSink,
        Unit::AudioConvert,
        Unit::AudioSink,
        Unit::Volume,
    ]
}

/// The order in which units are brought to `Null` on teardown: each unit
/// before every unit that feeds it.
pub open spec fn teardown_order() -> Seq<Unit> {
    seq![
        Unit::VideoSink,
        Unit::AudioSink,
        Unit::Filter,
        Unit::Volume,
        Unit::VideoConvert,
        Unit::AudioConvert,
        Unit::Demuxer,
        Unit::Source,
    ]
}

/// The first unit of `order`, from index `from` on, that lies in `wanted`.
pub open spec fn first_from(order: Seq<Unit>, wanted: Set<Unit>, from: int) -> Option<Unit>
    decreases order.len() - from,
{
    if from < 0 || from >= order.len() {
        None
    } else if wanted.contains(order[from]) {
        Some(order[from])
    } else {
        first_from(order, wanted, from + 1)
    }
}

impl Unit {
    /// Whether this unit's output may feed `to`'s input.
    pub fn connects_to(self, to: Unit) -> (r: bool)
        ensures
            r == connectable(self, to),
    {
        match (self, to) {
            (Unit::Source, Unit::Demuxer) => true,
            (Unit::Demuxer, Unit::VideoConvert) => true,
            (Unit::Demuxer, Unit::AudioConvert) => true,
            (Unit::VideoConvert, Unit::VideoSink) => true,
            (Unit::VideoConvert, Unit::Filter) => true,
            (Unit::Filter, Unit::VideoSink) => true,
            (Unit::AudioConvert, Unit::Volume) => true,
            (Unit::Volume, Unit::AudioSink) => true,
            _ => false,
        }
    }

    /// The branch this unit belongs to.
    pub fn branch(self) -> (r: Option<Branch>)
        ensures
            r == branch_of(self),
    {
        match self {
            Unit::Source | Unit::Demuxer => None,
            Unit::VideoConvert | Unit::Filter | Unit::VideoSink => Some(Branch::Video),
            Unit::AudioConvert | Unit::Volume | Unit::AudioSink => Some(Branch::Audio),
        }
    }

    /// Whether a source of the given kind needs this unit.
    pub fn needed_for(self, kind: SourceKind) -> (r: bool)
        ensures
            r == is_needed(self, kind),
    {
        match self {
            Unit::Filter => false,
            Unit::Source => kind == SourceKind::Local,
            _ => true,
        }
    }

    /// The registry name of this unit, `None` for the filter.
    pub fn factory_name(self, kind: SourceKind) -> (r: Option<&'static str>)
        ensures
            r is Some == factory_name_of(self, kind) is Some,
            r is Some ==> r->0@ == factory_name_of(self, kind)->0,
    {
        match self {
            Unit::Source => Some("filesrc"),
            Unit::Demuxer => match kind {
                SourceKind::Local => Some("decodebin"),
                SourceKind::Network => Some("uridecodebin"),
            },
            Unit::VideoConvert => Some("videoconvert"),
            Unit::VideoSink => Some("gtk4paintablesink"),
            Unit::AudioConvert => Some("audioconvert"),
            Unit::AudioSink => Some("autoaudiosink"),
            Unit::Volume => Some("volume"),
            Unit::Filter => None,
        }
    }
}

impl Branch {
    /// The converter that takes this branch's stream from the demuxer.
    pub fn input(self) -> (r: Unit)
        ensures
            r == branch_input(self),
    {
        match self {
            Branch::Video => Unit::VideoConvert,
            Branch::Audio => Unit::AudioConvert,
        }
    }
}

impl PlaybackState {
    /// Whether this state is below `Paused`.
    pub fn unrolled(self) -> (r: bool)
        ensures
            r == is_unrolled(self),
    {
        match self {
            PlaybackState::Null | PlaybackState::Ready => true,
            _ => false,
        }
    }
}

impl SourceKind {
    /// The unit that is told where the media lies.
    pub fn locating(self) -> (r: Unit)
        ensures
            r == locating_unit(self),
    {
        match self {
            SourceKind::Local => Unit::Source,
            SourceKind::Network => Unit::Demuxer,
        }
    }
}

/// The assembly order as a vector.
pub fn assembly_units() -> (r: Vec<Unit>)
    ensures
        r@ == assembly_order(),
{
    let r = vec![
        Unit::Source,
        Unit::Demuxer,
        Unit::VideoConvert,
        Unit::VideoSink,
        Unit::AudioConvert,
        Unit::AudioSink,
        Unit::Volume,
    ];
    assert(r@ =~= assembly_order());
    r
}

/// The teardown order as a vector.
pub fn teardown_units() -> (r: Vec<Unit>)
    ensures
        r@ == teardown_order(),
{
    let r = vec![
        Unit::VideoSink,
        Unit::AudioSink,
        Unit::Filter,
        Unit::Volume,
        Unit::VideoConvert,
        Unit::AudioConvert,
        Unit::Demuxer,
        Unit::Source,
    ];
    assert(r@ =~= teardown_order());
    r
}

/// What `first_from` finds lies in `wanted`, at or after `from`; where it finds
/// nothing, no unit of `order` from `from` on lies in `wanted`.
pub proof fn lemma_first_from(order: Seq<Unit>, wanted: Set<Unit>, from: int)
    requires
        0 <= from,
    ensures
        match first_from(order, wanted, from) {
            Some(unit) => wanted.contains(unit) && exists|i: int|
                from <= i < order.len() && order[i] == unit && forall|j: int|
                    from <= j < i ==> !wanted.contains(#[trigger] order[j]),
            None => forall|i: int|
                from <= i < order.len() ==> !wanted.contains(#[trigger] order[i]),
        },
    decreases order.len() - from,
{
    if from < order.len() && !wanted.contains(order[from]) {
        lemma_first_from(order, wanted, from + 1);
        match first_from(order, wanted, from + 1) {
            Some(unit) => {
                let i = choose|i: int|
                    from + 1 <= i < order.len() && order[i] == unit && forall|j: int|
                        from + 1 <= j < i ==> !wanted.contains(#[trigger] order[j]);
                assert(from <= i < order.len() && order[i] == unit && forall|j: int|
                    from <= j < i ==> !wanted.contains(#[trigger] order[j]));
            },
            None => {},
        }
    } else if from < order.len() {
        assert(from <= from < order.len() && order[from] == order[from] && forall|j: int|
            from <= j < from ==> !wanted.contains(#[trigger] order[j]));
    }
}

/// The assembly order, place by place.
pub proof fn lemma_assembly_order_places()
    ensures
        assembly_order().len() == 7,
        assembly_order()[0] == Unit::Source,
        assembly_order()[1] == Unit::Demuxer,
        assembly_order()[2] == Unit::VideoConvert,
        assembly_order()[3] == Unit::VideoSink,
        assembly_order()[4] == Unit::AudioConvert,
        assembly_order()[5] == Unit::AudioSink,
        assembly_order()[6] == Unit::Volume,
{
}

/// The teardown order, place by place: it holds every unit once.
pub proof fn lemma_teardown_order_places()
    ensures
        teardown_order().len() == 8,
        teardown_order()[0] == Unit::VideoSink,
        teardown_order()[1] == Unit::AudioSink,
        teardown_order()[2] == Unit::Filter,
        teardown_order()[3] == Unit::Volume,
        teardown_order()[4] == Unit::VideoConvert,
        teardown_order()[5] == Unit::AudioConvert,
        teardown_order()[6] == Unit::Demuxer,
        teardown_order()[7] == Unit::Source,
        teardown_order().no_duplicates(),
        forall|u: Unit| #[trigger] teardown_order().contains(u),
{
}

/// Every link leads downstream, to a unit of greater depth.
pub proof fn lemma_links_lead_downstream(from: Unit, to: Unit)
    requires
        connectable(from, to),
    ensures
        depth(from) < depth(to),
{
}

/// In the teardown order each unit comes before every unit that can feed it.
pub proof fn lemma_teardown_is_dependency_order(from: Unit, to: Unit)
    requires
        connectable(from, to),
    ensures
        teardown_order().index_of(to) < teardown_order().index_of(from),
        teardown_order().contains(from),
        teardown_order().contains(to),
        teardown_order().no_duplicates(),
{
    let order = teardown_order();
    lemma_teardown_order_places();
    order.index_of_first_ensures(from);
    order.index_of_first_ensures(to);
}

} // verus!
