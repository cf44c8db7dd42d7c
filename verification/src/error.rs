//! What can go wrong while the pipeline is driven.

use vstd::prelude::*;
use vstd::string::StringExecFns;
use crate::unit::{Branch, PlaybackState, Unit};

verus! {

/// A failure reported by the control plane. It never ends the process: the
/// graph stays well formed and can be driven further.
#[derive(Clone, Copy, Debug, PartialEq, Eq, Hash, Structural)]
pub enum PipelineError {
    /// The engine could not create the unit of the given kind.
    ElementCreationFailed { kind: Unit },
    /// A stream found by the demuxer could not be linked to its branch.
    PadLinkFailed { branch: Branch },
    /// The engine refused to change the graph's links or membership.
    LinkFailed,
    /// The engine rejected a change to the requested state.
    StateChangeFailed { requested: PlaybackState },
    /// The media source is missing or cannot be reached.
    SourceNotFound,
}

/// A short text for each kind of error.
pub open spec fn description_of(error: PipelineError) -> Seq<char> {
    match error {
        PipelineError::ElementCreationFailed { .. } => "could not create element"@,
        PipelineError::PadLinkFailed { .. } => "pad link failed"@,
        PipelineError::LinkFailed => "failed to relink pipeline"@,
        PipelineError::StateChangeFailed { .. } => "state change failed"@,
        PipelineError::SourceNotFound => "source not found"@,
    }
}

/// The name of a unit's role.
pub open spec fn role_of(unit: Unit) -> Seq<char> {
    match unit {
        Unit::Source => "source"@,
        Unit::Demuxer => "demuxer"@,
        Unit::VideoConvert => "video-convert"@,
        Unit::VideoSink => "video-sink"@,
        Unit::AudioConvert => "audio-convert"@,
        Unit::AudioSink => "audio-sink"@,
        Unit::Volume => "volume"@,
        Unit::Filter => "filter"@,
    }
}

/// The name of a branch.
pub open spec fn branch_name_of(branch: Branch) -> Seq<char> {
    match branch {
        Branch::Video => "video"@,
        Branch::Audio => "audio"@,
    }
}

/// The name of a state.
pub open spec fn state_name_of(state: PlaybackState) -> Seq<char> {
    match state {
        PlaybackState::Null => "null"@,
        PlaybackState::Ready => "ready"@,
        PlaybackState::Paused => "paused"@,
        PlaybackState::Playing => "playing"@,
    }
}

/// What an error names: the kind of unit, the branch or the state it is
/// about; nothing where the error carries no detail.
pub open spec fn detail_of(error: PipelineError) -> Seq<char> {
    match error {
        PipelineError::ElementCreationFailed { kind } => role_of(kind),
        PipelineError::PadLinkFailed { branch } => branch_name_of(branch),
        PipelineError::LinkFailed => Seq::empty(),
        PipelineError::StateChangeFailed { requested } => state_name_of(requested),
        PipelineError::SourceNotFound => Seq::empty(),
    }
}

/// The text of an error: its description, and its detail after a colon.
pub open spec fn message_of(error: PipelineError) -> Seq<char> {
    if detail_of(error).len() == 0 {
        description_of(error)
    } else {
        description_of(error) + seq![':', ' '] + detail_of(error)
    }
}

impl Unit {
    /// The name of this unit's role.
    pub fn role(self) -> (r: &'static str)
        ensures
            r@ == role_of(self),
    {
        match self {
            Unit::Source => "source",
            Unit::Demuxer => "demuxer",
            Unit::VideoConvert => "video-convert",
            Unit::VideoSink => "video-sink",
            Unit::AudioConvert => "audio-convert",
            Unit::AudioSink => "audio-sink",
            Unit::Volume => "volume",
            Unit::Filter => "filter",
        }
    }
}

impl PipelineError {
    /// A short text for the kind of this error.
    pub fn description(self) -> (r: &'static str)
        ensures
            r@ == description_of(self),
    {
        match self {
            PipelineError::ElementCreationFailed { .. } => "could not create element",
            PipelineError::PadLinkFailed { .. } => "pad link failed",
            PipelineError::LinkFailed => "failed to relink pipeline",
            PipelineError::StateChangeFailed { .. } => "state change failed",
            PipelineError::SourceNotFound => "source not found",
        }
    }

    /// What this error names, empty where it carries no detail.
    pub fn detail(self) -> (r: &'static str)
        ensures
            r@ == detail_of(self),
    {
        match self {
            PipelineError::ElementCreationFailed { kind } => kind.role(),
            PipelineError::PadLinkFailed { branch } => match branch {
                Branch::Video => "video",
                Branch::Audio => "audio",
            },
            PipelineError::LinkFailed => {
                proof {
                    reveal_strlit("");
                }
                ""
            },
            PipelineError::StateChangeFailed { requested } => match requested {
                PlaybackState::Null => "null",
                PlaybackState::Ready => "ready",
                PlaybackState::Paused => "paused",
                PlaybackState::Playing => "playing",
            },
            PipelineError::SourceNotFound => {
                proof {
                    reveal_strlit("");
                }
                ""
            },
        }
    }

    /// The text of this error, as it is shown to the user.
    pub fn message(self) -> (r: String)
        ensures
            r@ == message_of(self),
    {
        let detail = self.detail();
        let mut text = self.description().to_owned();
        if !detail.is_empty() {
            proof {
                reveal_strlit(": ");
            }
            text.append(": ");
            text.append(detail);
            assert(text@ =~= message_of(self));
        }
        text
    }

    /// Whether the pipeline cannot be built at all once this error has
    /// occurred at start-up: a mandatory unit is missing.
    pub fn is_fatal_at_startup(self) -> (r: bool)
        ensures
            r == (self matches PipelineError::ElementCreationFailed { kind } && kind
                != Unit::Filter),
    {
        match self {
            PipelineError::ElementCreationFailed { kind } => kind != Unit::Filter,
            _ => false,
        }
    }
}

} // verus!
