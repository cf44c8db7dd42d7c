use media_pipeline::error::PipelineError;
use media_pipeline::gstreamer::GstreamerManager;
use media_pipeline::request::Step;
use media_pipeline::router::{classify, pad_link_result, route_pad, starts_with, PadRoute};
use media_pipeline::unit::{Branch, PlaybackState, Unit};

fn playing() -> GstreamerManager {
    let mut manager = GstreamerManager::new();
    let mut step = manager.create_pipeline("/videos/clip.mp4");
    while let Step::Call(_) = step {
        step = manager.advance(true);
    }
    assert_eq!(step, Step::Done(Ok(())));
    manager
}

#[test]
fn media_types_are_told_apart_by_their_prefix() {
    assert_eq!(classify("video/x-raw"), Some(Branch::Video));
    assert_eq!(classify("video/"), Some(Branch::Video));
    assert_eq!(classify("audio/x-raw"), Some(Branch::Audio));
    assert_eq!(classify("audio/mpeg"), Some(Branch::Audio));
    assert_eq!(classify("text/x-raw"), None);
    assert_eq!(classify("video"), None);
    assert_eq!(classify("audio"), None);
    assert_eq!(classify(""), None);
    assert_eq!(classify("Video/x-raw"), None);
    assert_eq!(classify(" video/x-raw"), None);
    assert_eq!(classify("application/x-subtitle"), None);
}

#[test]
fn a_prefix_is_matched_character_by_character() {
    assert!(starts_with("video/x-raw", "video/"));
    assert!(starts_with("video/", "video/"));
    assert!(starts_with("anything", ""));
    assert!(starts_with("", ""));
    assert!(!starts_with("vide", "video/"));
    assert!(!starts_with("", "a"));
    assert!(!starts_with("videox", "video/"));
    assert!(starts_with("übermaß/x", "überm"));
    assert!(!starts_with("ubermaß", "über"));
}

#[test]
fn a_pad_goes_to_the_branch_of_its_media_type() {
    assert_eq!(route_pad(Some("video/x-raw"), false, false), PadRoute::Link(Branch::Video));
    assert_eq!(route_pad(Some("audio/x-raw"), false, false), PadRoute::Link(Branch::Audio));
    assert_eq!(route_pad(Some("video/x-raw"), false, true), PadRoute::Link(Branch::Video));
    assert_eq!(route_pad(Some("audio/x-raw"), true, false), PadRoute::Link(Branch::Audio));
}

#[test]
fn an_unreadable_or_foreign_pad_is_passed_over() {
    for video in [false, true] {
        for audio in [false, true] {
            assert_eq!(route_pad(None, video, audio), PadRoute::Unreadable);
            assert_eq!(route_pad(Some("text/x-raw"), video, audio), PadRoute::Unrouted);
        }
    }
}

#[test]
fn a_linked_input_makes_routing_a_no_op() {
    for other in [false, true] {
        for _ in 0..2 {
            assert_eq!(
                route_pad(Some("video/x-raw"), true, other),
                PadRoute::AlreadyLinked(Branch::Video)
            );
            assert_eq!(
                route_pad(Some("audio/x-raw"), other, true),
                PadRoute::AlreadyLinked(Branch::Audio)
            );
        }
    }
}

#[test]
fn the_second_pad_of_a_branch_is_left_alone() {
    let mut manager = playing();
    let before_any = *manager.graph();
    assert_eq!(manager.route_pad(Some("video/x-h264")), PadRoute::Link(Branch::Video));
    assert_eq!(manager.pad_linked(Branch::Video, true), Ok(()));
    assert_ne!(*manager.graph(), before_any);
    let linked = *manager.graph();
    for _ in 0..2 {
        assert_eq!(
            manager.route_pad(Some("video/x-h264")),
            PadRoute::AlreadyLinked(Branch::Video)
        );
        assert_eq!(*manager.graph(), linked);
    }
    assert_eq!(manager.route_pad(Some("audio/mpeg")), PadRoute::Link(Branch::Audio));
}

#[test]
fn pads_may_come_in_either_order() {
    for order in [[Branch::Video, Branch::Audio], [Branch::Audio, Branch::Video]] {
        let mut manager = playing();
        for branch in order {
            let media_type = match branch {
                Branch::Video => "video/x-raw",
                Branch::Audio => "audio/x-raw",
            };
            assert_eq!(manager.route_pad(Some(media_type)), PadRoute::Link(branch));
            assert_eq!(manager.pad_linked(branch, true), Ok(()));
        }
        assert!(manager.graph().is_linked(Unit::Demuxer, Unit::VideoConvert));
        assert!(manager.graph().is_linked(Unit::Demuxer, Unit::AudioConvert));
    }
}

#[test]
fn a_source_with_audio_only_plays_with_the_video_branch_unlinked() {
    let mut manager = playing();
    assert_eq!(manager.route_pad(Some("audio/x-raw")), PadRoute::Link(Branch::Audio));
    assert_eq!(manager.pad_linked(Branch::Audio, true), Ok(()));
    assert!(manager.graph().is_linked(Unit::Demuxer, Unit::AudioConvert));
    assert!(!manager.graph().is_linked(Unit::Demuxer, Unit::VideoConvert));
    assert_eq!(manager.state(), PlaybackState::Playing);
    assert!(manager.is_idle());
    assert!(!manager.is_shut_down());
    assert_eq!(manager.route_pad(Some("video/x-raw")), PadRoute::Link(Branch::Video));
}

#[test]
fn a_refused_pad_link_is_reported_for_its_branch_and_ends_nothing() {
    let mut manager = playing();
    let before = *manager.graph();
    assert_eq!(
        manager.pad_linked(Branch::Video, false),
        Err(PipelineError::PadLinkFailed { branch: Branch::Video })
    );
    assert_eq!(*manager.graph(), before);
    assert_eq!(manager.state(), PlaybackState::Playing);
    assert_eq!(manager.route_pad(Some("audio/x-raw")), PadRoute::Link(Branch::Audio));
    assert_eq!(manager.pad_linked(Branch::Audio, true), Ok(()));
    assert!(manager.graph().is_linked(Unit::Demuxer, Unit::AudioConvert));
    assert_eq!(pad_link_result(Branch::Audio, true), Ok(()));
    assert_eq!(
        pad_link_result(Branch::Audio, false),
        Err(PipelineError::PadLinkFailed { branch: Branch::Audio })
    );
}

#[test]
fn a_pad_may_be_linked_while_a_swap_is_under_way() {
    let mut manager = playing();
    let first = manager.set_filter_and_add_to_pipeline("vertigotv");
    let pending = manager.pending();
    assert_eq!(Step::Call(pending.unwrap()), first);
    assert_eq!(manager.pad_linked(Branch::Video, true), Ok(()));
    assert_eq!(manager.pending(), pending);
    let mut step = manager.advance(true);
    while let Step::Call(_) = step {
        step = manager.advance(true);
    }
    assert_eq!(step, Step::Done(Ok(())));
    assert!(manager.graph().is_linked(Unit::Demuxer, Unit::VideoConvert));
    assert!(manager.graph().is_linked(Unit::VideoConvert, Unit::Filter));
}

#[test]
fn a_pad_link_that_the_graph_has_no_room_for_is_not_recorded() {
    let mut manager = GstreamerManager::new();
    assert_eq!(manager.pad_linked(Branch::Video, true), Ok(()));
    assert!(!manager.graph().is_linked(Unit::Demuxer, Unit::VideoConvert));
}
