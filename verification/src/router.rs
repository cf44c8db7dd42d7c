//! The dynamic pad router: where a stream that the demuxer has found is to go.

use vstd::prelude::*;
use vstd::string::StrSliceExecFns;
use crate::error::PipelineError;
use crate::unit::Branch;

verus! {

/// What is to be done with a stream pad that has appeared on the demuxer.
#[derive(Clone, Copy, Debug, PartialEq, Eq, Hash, Structural)]
pub enum PadRoute {
    /// The pad's media type cannot be read: the pad is left alone.
    Unreadable,
    /// The media type is neither video nor audio: the pad is left alone.
    Unrouted,
    /// The branch's input is linked already: nothing is to be done.
    AlreadyLinked(Branch),
    /// The pad is to be linked to the branch's input.
    Link(Branch),
}

/// The branch that a media type belongs to, by its prefix.
pub open spec fn branch_of_type(media_type: Seq<char>) -> Option<Branch> {
    if "video/"@.is_prefix_of(media_type) {
        Some(Branch::Video)
    } else if "audio/"@.is_prefix_of(media_type) {
        Some(Branch::Audio)
    } else {
        None
    }
}

/// Whether the input of a branch is linked, given the two inputs' states.
pub open spec fn input_linked(branch: Branch, video_linked: bool, audio_linked: bool) -> bool {
    match branch {
        Branch::Video => video_linked,
        Branch::Audio => audio_linked,
    }
}

/// The route of a pad with the given media type, `None` where it cannot be
/// read, while the branches' inputs are linked as given.
pub open spec fn route_of(
    media_type: Option<Seq<char>>,
    video_linked: bool,
    audio_linked: bool,
) -> PadRoute {
    match media_type {
        None => PadRoute::Unreadable,
        Some(name) => match branch_of_type(name) {
            None => PadRoute::Unrouted,
            Some(branch) => if input_linked(branch, video_linked, audio_linked) {
                PadRoute::AlreadyLinked(branch)
            } else {
                PadRoute::Link(branch)
            },
        },
    }
}

/// The inputs' states after a route has been carried out and the engine has
/// answered: only an accepted link changes them.
pub open spec fn inputs_after(
    route: PadRoute,
    accepted: bool,
    video_linked: bool,
    audio_linked: bool,
) -> (bool, bool) {
    match route {
        PadRoute::Link(Branch::Video) => (video_linked || accepted, audio_linked),
        PadRoute::Link(Branch::Audio) => (video_linked, audio_linked || accepted),
        _ => (video_linked, audio_linked),
    }
}

/// What the engine's answer to a pad link means: a refusal is reported for
/// its branch and ends nothing.
pub open spec fn link_result_of(branch: Branch, accepted: bool) -> Result<(), PipelineError> {
    if accepted {
        Ok(())
    } else {
        Err(PipelineError::PadLinkFailed { branch })
    }
}

/// Whether `text` begins with `prefix`.
pub fn starts_with(text: &str, prefix: &str) -> (r: bool)
    ensures
        r == prefix@.is_prefix_of(text@),
{
    let n = prefix.unicode_len();
    if text.unicode_len() < n {
        return false;
    }
    let mut i: usize = 0;
    while i < n
        invariant
            i <= n,
            n == prefix@.len(),
            n <= text@.len(),
            forall|j: int| 0 <= j < i ==> text@[j] == prefix@[j],
        decreases n - i,
    {
        if text.get_char(i) != prefix.get_char(i) {
            assert(text@.subrange(0, n as int)[i as int] != prefix@[i as int]);
            return false;
        }
        i += 1;
    }
    assert(prefix@ =~= text@.subrange(0, n as int));
    true
}

/// Classifies a media type as video or audio by its prefix.
pub fn classify(media_type: &str) -> (r: Option<Branch>)
    ensures
        r == branch_of_type(media_type@),
{
    if starts_with(media_type, "video/") {
        Some(Branch::Video)
    } else if starts_with(media_type, "audio/") {
        Some(Branch::Audio)
    } else {
        None
    }
}

/// Decides what is to be done with a pad that has appeared on the demuxer:
/// an unreadable or foreign media type is passed over, a branch whose input
/// is linked is left as it is, and otherwise the pad goes to its branch.
pub fn route_pad(media_type: Option<&str>, video_linked: bool, audio_linked: bool) -> (r:
    PadRoute)
    ensures
        r == route_of(
            match media_type {
                Some(name) => Some(name@),
                None => None,
            },
            video_linked,
            audio_linked,
        ),
{
    match media_type {
        None => PadRoute::Unreadable,
        Some(name) => match classify(name) {
            None => PadRoute::Unrouted,
            Some(Branch::Video) => if video_linked {
                PadRoute::AlreadyLinked(Branch::Video)
            } else {
                PadRoute::Link(Branch::Video)
            },
            Some(Branch::Audio) => if audio_linked {
                PadRoute::AlreadyLinked(Branch::Audio)
            } else {
                PadRoute::Link(Branch::Audio)
            },
        },
    }
}

/// Turns the engine's answer to a pad link into a result.
pub fn pad_link_result(branch: Branch, accepted: bool) -> (r: Result<(), PipelineError>)
    ensures
        r == link_result_of(branch, accepted),
{
    if accepted {
        Ok(())
    } else {
        Err(PipelineError::PadLinkFailed { branch })
    }
}

/// Routing is idempotent for each branch. A pad whose branch input is linked
/// is left alone, which is no error and changes nothing, however often it is
/// asked; and once a pad has been linked, a later pad of the same media type
/// is left alone.
pub proof fn lemma_routing_is_idempotent(
    media_type: Seq<char>,
    branch: Branch,
    video_linked: bool,
    audio_linked: bool,
    accepted: bool,
)
    requires
        branch_of_type(media_type) == Some(branch),
    ensures
        input_linked(branch, video_linked, audio_linked) ==> ({
            let route = route_of(Some(media_type), video_linked, audio_linked);
            let after = inputs_after(route, accepted, video_linked, audio_linked);
            &&& route == PadRoute::AlreadyLinked(branch)
            &&& after == (video_linked, audio_linked)
            &&& route_of(Some(media_type), after.0, after.1) == route
        }),
        !input_linked(branch, video_linked, audio_linked) ==> ({
            let route = route_of(Some(media_type), video_linked, audio_linked);
            let after = inputs_after(route, true, video_linked, audio_linked);
            &&& route == PadRoute::Link(branch)
            &&& input_linked(branch, after.0, after.1)
            &&& route_of(Some(media_type), after.0, after.1) == PadRoute::AlreadyLinked(branch)
        }),
{
}

/// The two branches are routed apart: what is decided for a media type of
/// one branch does not depend on the other branch's input, and carrying it
/// out leaves the other branch's input as it was.
pub proof fn lemma_branches_are_independent(
    media_type: Seq<char>,
    video_linked: bool,
    audio_linked: bool,
    accepted: bool,
)
    ensures
        branch_of_type(media_type) == Some(Branch::Audio) ==> route_of(
            Some(media_type),
            video_linked,
            audio_linked,
        ) == route_of(Some(media_type), !video_linked, audio_linked) && inputs_after(
            route_of(Some(media_type), video_linked, audio_linked),
            accepted,
            video_linked,
            audio_linked,
        ).0 == video_linked,
        branch_of_type(media_type) == Some(Branch::Video) ==> route_of(
            Some(media_type),
            video_linked,
            audio_linked,
        ) == route_of(Some(media_type), video_linked, !audio_linked) && inputs_after(
            route_of(Some(media_type), video_linked, audio_linked),
            accepted,
            video_linked,
            audio_linked,
        ).1 == audio_linked,
{
}

} // verus!
