use media_pipeline::error::PipelineError;
use media_pipeline::filters::{filter_names, is_no_filter, FILTER_NAMES, NO_FILTER};
use media_pipeline::graph::PipelineGraph;
use media_pipeline::gstreamer::GstreamerManager;
use media_pipeline::machine::Command;
use media_pipeline::progress::SeekRequest;
use media_pipeline::request::Request;
use media_pipeline::source::classify_source;
use media_pipeline::unit::{
    assembly_units, teardown_units, Branch, PlaybackState, SourceKind, Standing, Unit,
};
use media_pipeline::window::{InfoWindowAction, WindowManager};

fn window() -> WindowManager {
    WindowManager::new(
        String::from("Mini video player"),
        1280,
        720,
        String::from("/videos/clip.mp4"),
        String::from("assets/style.css"),
    )
}

#[test]
fn a_window_keeps_what_it_was_opened_with() {
    let window = window();
    assert_eq!(window.title(), "Mini video player");
    assert_eq!(window.default_width(), 1280);
    assert_eq!(window.default_height(), 720);
    assert_eq!(window.video_path(), "/videos/clip.mp4");
    assert_eq!(window.css_path(), "assets/style.css");
    assert!(!window.is_dragging());
    assert!(!window.pause_overlay());
}

#[test]
fn a_drag_of_the_slider_ends_in_a_seek() {
    let mut window = window();
    window.drag_begin();
    assert!(window.is_dragging());
    let seek = window.drag_end(42_000_000_000, Some(60_000_000_000));
    assert!(!window.is_dragging());
    assert_eq!(
        seek,
        Some(SeekRequest {
            position: 42_000_000_000,
            flush: true,
            key_unit: true,
            snap_before: true
        })
    );
    window.drag_begin();
    let late = window.drag_end(99_000_000_000, Some(60_000_000_000)).unwrap();
    assert_eq!(late.position, 60_000_000_000);
    window.drag_begin();
    assert_eq!(window.drag_end(1, None), None);
    assert!(!window.is_dragging());
}

#[test]
fn the_info_window_is_opened_once_and_presented_after() {
    let mut window = window();
    assert_eq!(window.video_info_clicked(), InfoWindowAction::Open);
    assert_eq!(window.video_info_clicked(), InfoWindowAction::Present);
    assert_eq!(window.video_info_clicked(), InfoWindowAction::Present);
}

#[test]
fn the_pause_image_follows_the_commands() {
    let mut window = window();
    assert!(!window.command_done(Command::Stop));
    assert!(window.command_done(Command::Pause));
    assert!(window.pause_overlay());
    assert!(window.command_done(Command::Stop));
    assert!(!window.command_done(Command::Play));
    assert!(!window.command_done(Command::Stop));
    assert!(!window.pause_overlay());
}

#[test]
fn the_mute_button_toggles_between_silence_and_the_set_volume() {
    let mut manager = GstreamerManager::new();
    assert_eq!(manager.audible_volume(), 100);
    assert!(!manager.is_muted());
    assert_eq!(manager.toggle_mute(), 0);
    assert!(manager.is_muted());
    assert_eq!(manager.audible_volume(), 0);
    assert_eq!(manager.toggle_mute(), 100);
    assert!(!manager.is_muted());
    assert_eq!(manager.set_volume(35), 35);
    assert_eq!(manager.mute(), 0);
    assert_eq!(manager.mute(), 0);
    assert_eq!(manager.set_volume(80), 0);
    assert_eq!(manager.unmute(), 80);
    assert_eq!(manager.unmute(), 80);
    assert_eq!(manager.audible_volume(), 80);
}

#[test]
fn the_volume_is_at_most_full() {
    let mut manager = GstreamerManager::new();
    assert_eq!(manager.set_volume(0), 0);
    assert_eq!(manager.set_volume(100), 100);
    assert_eq!(manager.set_volume(101), 100);
    assert_eq!(manager.set_volume(255), 100);
}

#[test]
fn the_catalogue_begins_with_the_sentinel() {
    let names = filter_names();
    assert_eq!(
        names,
        vec![
            "no-filter",
            "timeoverlay",
            "vertigotv",
            "edgetv",
            "agingtv",
            "shagadelictv",
            "revtv",
            "quarktv",
            "cartoon",
            "twirl",
            "kaleidoscope",
            "lenscorrection",
            "tunnel",
            "frei0r-scanline0r",
        ]
    );
    assert_eq!(names, FILTER_NAMES.to_vec());
    assert_eq!(FILTER_NAMES.len(), 14);
    assert_eq!(names[0], NO_FILTER);
    assert_eq!(NO_FILTER, "no-filter");
    assert!(is_no_filter("no-filter"));
    assert!(!is_no_filter("no-filte"));
    assert!(!is_no_filter("no-filter "));
    assert!(!is_no_filter("vertigotv"));
    assert!(!is_no_filter(""));
    assert_eq!(names.iter().filter(|name| is_no_filter(name)).count(), 1);
}

#[test]
fn a_source_is_a_uri_where_it_has_a_scheme() {
    assert_eq!(classify_source("a://"), SourceKind::Network);
    assert_eq!(classify_source("https://example.org/clip.webm"), SourceKind::Network);
    assert_eq!(classify_source("rtsp://camera/stream"), SourceKind::Network);
    assert_eq!(classify_source("file:///videos/clip.mp4"), SourceKind::Network);
    assert_eq!(classify_source("HTTP://EXAMPLE.ORG/"), SourceKind::Network);
    assert_eq!(classify_source("svn+ssh://host/clip"), SourceKind::Network);
    assert_eq!(classify_source("x-1.2://host"), SourceKind::Network);
    assert_eq!(classify_source("h264://a://b"), SourceKind::Network);
}

#[test]
fn a_path_is_local_whatever_it_holds() {
    assert_eq!(classify_source("/videos/clip.mp4"), SourceKind::Local);
    assert_eq!(classify_source("clip.mp4"), SourceKind::Local);
    assert_eq!(classify_source("C:/videos/clip.mp4"), SourceKind::Local);
    assert_eq!(classify_source(""), SourceKind::Local);
    assert_eq!(classify_source("://"), SourceKind::Local);
    assert_eq!(classify_source("://host/clip"), SourceKind::Local);
    assert_eq!(classify_source("a:/"), SourceKind::Local);
    assert_eq!(classify_source("a:/"), SourceKind::Local);
    assert_eq!(classify_source("http:/clip"), SourceKind::Local);
    assert_eq!(classify_source("http:"), SourceKind::Local);
    assert_eq!(classify_source("/tmp/a://b.mp4"), SourceKind::Local);
    assert_eq!(classify_source("/videos/odd://name.mp4"), SourceKind::Local);
    assert_eq!(classify_source("videos/odd://name.mp4"), SourceKind::Local);
    assert_eq!(classify_source("my clip://take 2"), SourceKind::Local);
    assert_eq!(classify_source("vidéo://hôte/clip"), SourceKind::Local);
    assert_eq!(classify_source("1http://example.org"), SourceKind::Local);
    assert_eq!(classify_source("+ssh://host"), SourceKind::Local);
    assert_eq!(classify_source("a_b://host"), SourceKind::Local);
    assert_eq!(classify_source("http//:x://y"), SourceKind::Local);
}

#[test]
fn the_units_know_their_place() {
    assert!(Unit::Source.connects_to(Unit::Demuxer));
    assert!(Unit::Demuxer.connects_to(Unit::VideoConvert));
    assert!(Unit::Demuxer.connects_to(Unit::AudioConvert));
    assert!(Unit::VideoConvert.connects_to(Unit::VideoSink));
    assert!(Unit::VideoConvert.connects_to(Unit::Filter));
    assert!(Unit::Filter.connects_to(Unit::VideoSink));
    assert!(Unit::AudioConvert.connects_to(Unit::Volume));
    assert!(Unit::Volume.connects_to(Unit::AudioSink));
    assert!(!Unit::VideoSink.connects_to(Unit::VideoConvert));
    assert!(!Unit::Filter.connects_to(Unit::Filter));
    assert!(!Unit::VideoConvert.connects_to(Unit::AudioSink));
    assert!(!Unit::Source.connects_to(Unit::VideoConvert));
    assert_eq!(Unit::Source.branch(), None);
    assert_eq!(Unit::Demuxer.branch(), None);
    assert_eq!(Unit::Filter.branch(), Some(Branch::Video));
    assert_eq!(Unit::Volume.branch(), Some(Branch::Audio));
    assert_eq!(Branch::Video.input(), Unit::VideoConvert);
    assert_eq!(Branch::Audio.input(), Unit::AudioConvert);
    assert!(PlaybackState::Null.unrolled());
    assert!(PlaybackState::Ready.unrolled());
    assert!(!PlaybackState::Paused.unrolled());
    assert!(!PlaybackState::Playing.unrolled());
    assert!(Unit::Source.needed_for(SourceKind::Local));
    assert!(!Unit::Source.needed_for(SourceKind::Network));
    assert!(!Unit::Filter.needed_for(SourceKind::Local));
    assert!(Unit::Demuxer.needed_for(SourceKind::Network));
    assert_eq!(SourceKind::Local.locating(), Unit::Source);
    assert_eq!(SourceKind::Network.locating(), Unit::Demuxer);
}

#[test]
fn in_the_teardown_order_every_unit_comes_before_its_feeders() {
    let order = teardown_units();
    assert_eq!(order.len(), 8);
    assert_eq!(assembly_units().len(), 7);
    let place = |unit: Unit| order.iter().position(|u| *u == unit).unwrap();
    for from in order.iter() {
        for to in order.iter() {
            if from.connects_to(*to) {
                assert!(place(*to) < place(*from));
            }
        }
    }
}

#[test]
fn the_graph_refuses_what_would_break_it() {
    let mut graph = PipelineGraph::new();
    assert!(graph.admits(Request::Create(Unit::VideoConvert)));
    assert!(!graph.admits(Request::Add(Unit::VideoConvert)));
    assert!(!graph.admits(Request::Remove(Unit::VideoConvert)));
    assert!(!graph.admits(Request::Locate(Unit::Source)));
    assert!(!graph.admits(Request::SyncState(Unit::Filter)));
    assert!(!graph.admits(Request::Link(Unit::VideoConvert, Unit::VideoSink)));
    let empty = graph;
    assert!(!graph.apply(Request::Add(Unit::VideoConvert)));
    assert!(!graph.apply(Request::Link(Unit::VideoConvert, Unit::VideoSink)));
    assert!(!graph.apply(Request::Remove(Unit::Filter)));
    assert_eq!(graph, empty);
    for unit in [Unit::VideoConvert, Unit::VideoSink, Unit::Filter] {
        assert!(graph.apply(Request::Create(unit)));
        assert_eq!(graph.standing(unit), Standing::Created);
        assert!(!graph.admits(Request::Create(unit)));
        graph.apply(Request::Add(unit));
        assert!(graph.is_attached(unit));
    }
    assert!(!graph.admits(Request::Link(Unit::VideoSink, Unit::VideoConvert)));
    assert!(!graph.admits(Request::Unlink(Unit::VideoConvert, Unit::VideoSink)));
    graph.apply(Request::Link(Unit::VideoConvert, Unit::VideoSink));
    assert!(graph.is_linked(Unit::VideoConvert, Unit::VideoSink));
    assert!(!graph.output_free(Unit::VideoConvert, Some(Branch::Video)));
    assert!(graph.output_free(Unit::VideoConvert, Some(Branch::Audio)));
    assert!(!graph.input_free(Unit::VideoSink));
    assert!(graph.input_free(Unit::Filter));
    assert!(!graph.admits(Request::Link(Unit::VideoConvert, Unit::VideoSink)));
    assert!(!graph.admits(Request::Link(Unit::VideoConvert, Unit::Filter)));
    assert!(!graph.admits(Request::Link(Unit::Filter, Unit::VideoSink)));
    graph.apply(Request::SetState(PlaybackState::Playing));
    assert_eq!(graph.state(), PlaybackState::Playing);
    assert_eq!(graph.live(Unit::Filter), PlaybackState::Playing);
    assert!(!graph.admits(Request::Remove(Unit::Filter)));
    graph.apply(Request::SetUnitState(Unit::Filter, PlaybackState::Null));
    assert!(graph.admits(Request::Remove(Unit::Filter)));
    graph.apply(Request::SyncState(Unit::Filter));
    assert_eq!(graph.live(Unit::Filter), PlaybackState::Playing);
    graph.apply(Request::Unlink(Unit::VideoConvert, Unit::VideoSink));
    graph.apply(Request::Link(Unit::VideoConvert, Unit::Filter));
    graph.apply(Request::Link(Unit::Filter, Unit::VideoSink));
    graph.apply(Request::SetUnitState(Unit::Filter, PlaybackState::Null));
    graph.apply(Request::Remove(Unit::Filter));
    assert_eq!(graph.standing(Unit::Filter), Standing::Absent);
    assert_eq!(graph.record(Unit::Filter).live, PlaybackState::Null);
    assert!(!graph.is_linked(Unit::VideoConvert, Unit::Filter));
    assert!(!graph.is_linked(Unit::Filter, Unit::VideoSink));
    assert!(graph.admits(Request::Link(Unit::VideoConvert, Unit::VideoSink)));
}

#[test]
fn every_error_has_its_text() {
    assert_eq!(
        PipelineError::ElementCreationFailed { kind: Unit::Filter }.message(),
        "could not create element: filter"
    );
    assert_eq!(
        PipelineError::ElementCreationFailed { kind: Unit::VideoSink }.message(),
        "could not create element: video-sink"
    );
    assert_eq!(
        PipelineError::PadLinkFailed { branch: Branch::Audio }.message(),
        "pad link failed: audio"
    );
    assert_eq!(
        PipelineError::PadLinkFailed { branch: Branch::Video }.message(),
        "pad link failed: video"
    );
    assert_eq!(PipelineError::LinkFailed.message(), "failed to relink pipeline");
    assert_eq!(
        PipelineError::StateChangeFailed { requested: PlaybackState::Paused }.message(),
        "state change failed: paused"
    );
    assert_eq!(PipelineError::SourceNotFound.message(), "source not found");
    assert_eq!(PipelineError::SourceNotFound.detail(), "");
    assert_eq!(PipelineError::LinkFailed.description(), "failed to relink pipeline");
    let roles: Vec<&str> = [
        Unit::Source,
        Unit::Demuxer,
        Unit::VideoConvert,
        Unit::VideoSink,
        Unit::AudioConvert,
        Unit::AudioSink,
        Unit::Volume,
        Unit::Filter,
    ]
    .iter()
    .map(|unit| unit.role())
    .collect();
    assert_eq!(
        roles,
        vec![
            "source",
            "demuxer",
            "video-convert",
            "video-sink",
            "audio-convert",
            "audio-sink",
            "volume",
            "filter",
        ]
    );
}
