//! The requests that the control plane puts to the streaming engine.

use vstd::prelude::*;
use crate::error::PipelineError;
use crate::unit::{PlaybackState, Unit};

verus! {

/// One thing the engine is asked to do. The caller performs it and reports
/// whether the engine accepted it.
#[derive(Clone, Copy, Debug, PartialEq, Eq, Hash, Structural)]
pub enum Request {
    /// Create the unit from the engine's registry.
    Create(Unit),
    /// Tell the unit where the media lies.
    Locate(Unit),
    /// Make the unit part of the graph.
    Add(Unit),
    /// Take the unit out of the graph, with its links, and release it.
    Remove(Unit),
    /// Link the first unit's output to the second unit's input.
    Link(Unit, Unit),
    /// Undo the link between the two units.
    Unlink(Unit, Unit),
    /// Bring the whole pipeline to the state.
    SetState(PlaybackState),
    /// Bring one unit to the state.
    SetUnitState(Unit, PlaybackState),
    /// Bring one unit to the state the pipeline is in.
    SyncState(Unit),
}

/// What comes next in the operation that is under way.
#[derive(Clone, Copy, Debug, PartialEq, Eq)]
pub enum Step {
    /// The engine is to be asked this; the answer goes to `advance`.
    Call(Request),
    /// The operation has ended with this result.
    Done(Result<(), PipelineError>),
}

/// The error that stands for the engine's refusal of a request. `current` is
/// the state of the pipeline, which a unit is synchronised with.
pub open spec fn refusal_of(request: Request, current: PlaybackState) -> PipelineError {
    match request {
        Request::Create(unit) => PipelineError::ElementCreationFailed { kind: unit },
        Request::Locate(_) => PipelineError::SourceNotFound,
        Request::Add(_) | Request::Remove(_) | Request::Link(_, _) | Request::Unlink(_, _) =>
            PipelineError::LinkFailed,
        Request::SetState(state) => PipelineError::StateChangeFailed { requested: state },
        Request::SetUnitState(_, state) => PipelineError::StateChangeFailed { requested: state },
        Request::SyncState(_) => PipelineError::StateChangeFailed { requested: current },
    }
}

impl Request {
    /// The error that stands for the engine's refusal of this request.
    pub fn refusal(self, current: PlaybackState) -> (e: PipelineError)
        ensures
            e == refusal_of(self, current),
    {
        match self {
            Request::Create(unit) => PipelineError::ElementCreationFailed { kind: unit },
            Request::Locate(_) => PipelineError::SourceNotFound,
            Request::Add(_) | Request::Remove(_) | Request::Link(_, _) | Request::Unlink(_, _) =>
                PipelineError::LinkFailed,
            Request::SetState(state) => PipelineError::StateChangeFailed { requested: state },
            Request::SetUnitState(_, state) => PipelineError::StateChangeFailed {
                requested: state,
            },
            Request::SyncState(_) => PipelineError::StateChangeFailed { requested: current },
        }
    }
}

} // verus!
