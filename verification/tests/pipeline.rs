use media_pipeline::error::PipelineError;
use media_pipeline::gstreamer::GstreamerManager;
use media_pipeline::request::{Request, Step};
use media_pipeline::unit::{PlaybackState, SourceKind, Standing, Unit};

/// Runs the operation that `first` began, answering each request with
/// `answer`, and gives the requests in order and the result.
fn drive(
    manager: &mut GstreamerManager,
    first: Step,
    mut answer: impl FnMut(Request) -> bool,
) -> (Vec<Request>, Result<(), PipelineError>) {
    let mut asked = Vec::new();
    let mut step = first;
    loop {
        match step {
            Step::Done(result) => return (asked, result),
            Step::Call(request) => {
                assert_eq!(manager.pending(), Some(request));
                asked.push(request);
                assert!(asked.len() < 64, "the operation does not end");
                step = manager.advance(answer(request));
            }
        }
    }
}

fn local_build() -> Vec<Request> {
    vec![
        Request::Create(Unit::Source),
        Request::Create(Unit::Demuxer),
        Request::Create(Unit::VideoConvert),
        Request::Create(Unit::VideoSink),
        Request::Create(Unit::AudioConvert),
        Request::Create(Unit::AudioSink),
        Request::Create(Unit::Volume),
        Request::Locate(Unit::Source),
        Request::Add(Unit::Source),
        Request::Add(Unit::Demuxer),
        Request::Add(Unit::VideoConvert),
        Request::Add(Unit::VideoSink),
        Request::Add(Unit::AudioConvert),
        Request::Add(Unit::AudioSink),
        Request::Add(Unit::Volume),
        Request::Link(Unit::Source, Unit::Demuxer),
        Request::Link(Unit::VideoConvert, Unit::VideoSink),
        Request::Link(Unit::AudioConvert, Unit::Volume),
        Request::Link(Unit::Volume, Unit::AudioSink),
        Request::SetState(PlaybackState::Paused),
        Request::SetState(PlaybackState::Playing),
    ]
}

/// The releases of the units that a build has created, sinks first.
fn releases(created: &[Unit]) -> Vec<Request> {
    [
        Unit::VideoSink,
        Unit::AudioSink,
        Unit::Volume,
        Unit::VideoConvert,
        Unit::AudioConvert,
        Unit::Demuxer,
        Unit::Source,
    ]
    .iter()
    .filter(|unit| created.contains(unit))
    .map(|unit| Request::Remove(*unit))
    .collect()
}

const SKELETON: [Unit; 7] = [
    Unit::Source,
    Unit::Demuxer,
    Unit::VideoConvert,
    Unit::VideoSink,
    Unit::AudioConvert,
    Unit::AudioSink,
    Unit::Volume,
];

#[test]
fn a_new_manager_holds_nothing() {
    let manager = GstreamerManager::new();
    assert!(manager.is_idle());
    assert!(!manager.is_shut_down());
    assert_eq!(manager.pending(), None);
    assert_eq!(manager.state(), PlaybackState::Null);
    assert_eq!(manager.filter(), None);
    assert_eq!(manager.source(), None);
    assert_eq!(manager.location(), None);
    assert_eq!(manager.duration(), None);
    assert_eq!(manager.list_elements(), Vec::<Unit>::new());
    for unit in [Unit::Source, Unit::Demuxer, Unit::VideoSink, Unit::Filter] {
        assert_eq!(manager.graph().standing(unit), Standing::Absent);
    }
}

#[test]
fn a_local_source_is_built_in_order_and_prerolled() {
    let mut manager = GstreamerManager::new();
    let first = manager.create_pipeline("/videos/clip.mp4");
    let (asked, result) = drive(&mut manager, first, |_| true);
    assert_eq!(result, Ok(()));
    assert_eq!(asked, local_build());
    assert!(manager.is_idle());
    assert_eq!(manager.state(), PlaybackState::Playing);
    assert_eq!(manager.source(), Some(SourceKind::Local));
    assert_eq!(manager.location(), Some("/videos/clip.mp4"));
    assert!(manager.is_located());
    assert_eq!(manager.filter(), None);
    assert_eq!(
        manager.list_elements(),
        vec![
            Unit::Source,
            Unit::Demuxer,
            Unit::VideoConvert,
            Unit::VideoSink,
            Unit::AudioConvert,
            Unit::AudioSink,
            Unit::Volume,
        ]
    );
    let graph = manager.graph();
    assert!(graph.is_linked(Unit::Source, Unit::Demuxer));
    assert!(graph.is_linked(Unit::VideoConvert, Unit::VideoSink));
    assert!(graph.is_linked(Unit::AudioConvert, Unit::Volume));
    assert!(graph.is_linked(Unit::Volume, Unit::AudioSink));
    assert!(!graph.is_linked(Unit::Demuxer, Unit::VideoConvert));
    assert!(!graph.is_linked(Unit::Demuxer, Unit::AudioConvert));
    assert!(!graph.is_linked(Unit::VideoConvert, Unit::Filter));
    for unit in manager.list_elements() {
        assert_eq!(manager.graph().live(unit), PlaybackState::Playing);
    }
}

#[test]
fn a_network_source_is_left_to_the_demuxer() {
    let mut manager = GstreamerManager::new();
    let first = manager.create_pipeline("https://example.org/clip.webm");
    let (asked, result) = drive(&mut manager, first, |_| true);
    assert_eq!(result, Ok(()));
    assert_eq!(manager.source(), Some(SourceKind::Network));
    assert_eq!(asked.len(), 18);
    assert_eq!(asked[0], Request::Create(Unit::Demuxer));
    assert_eq!(asked[6], Request::Locate(Unit::Demuxer));
    assert!(!asked.contains(&Request::Create(Unit::Source)));
    assert!(!asked.contains(&Request::Link(Unit::Source, Unit::Demuxer)));
    assert_eq!(manager.graph().standing(Unit::Source), Standing::Absent);
    assert_eq!(
        manager.factory_of(Unit::Demuxer),
        Some(String::from("uridecodebin"))
    );
    assert_eq!(manager.state(), PlaybackState::Playing);
}

#[test]
fn the_registry_names_every_mandatory_unit() {
    let mut manager = GstreamerManager::new();
    let _ = manager.create_pipeline("/videos/clip.mp4");
    let names: Vec<Option<String>> = [
        Unit::Source,
        Unit::Demuxer,
        Unit::VideoConvert,
        Unit::VideoSink,
        Unit::AudioConvert,
        Unit::AudioSink,
        Unit::Volume,
    ]
    .iter()
    .map(|unit| manager.factory_of(*unit))
    .collect();
    let expected: Vec<Option<String>> = [
        "filesrc",
        "decodebin",
        "videoconvert",
        "gtk4paintablesink",
        "audioconvert",
        "autoaudiosink",
        "volume",
    ]
    .iter()
    .map(|name| Some(String::from(*name)))
    .collect();
    assert_eq!(names, expected);
    assert_eq!(Unit::Filter.factory_name(SourceKind::Local), None);
    assert_eq!(Unit::Source.factory_name(SourceKind::Local), Some("filesrc"));
}

#[test]
fn an_empty_source_is_not_found() {
    let mut manager = GstreamerManager::new();
    let first = manager.create_pipeline("");
    assert_eq!(first, Step::Done(Err(PipelineError::SourceNotFound)));
    assert!(manager.is_idle());
    assert_eq!(manager.source(), None);
    assert_eq!(manager.graph().standing(Unit::Source), Standing::Absent);
}

#[test]
fn a_local_path_that_holds_a_separator_is_built_as_a_file() {
    for path in ["/tmp/a://b.mp4", "/videos/odd://name.mp4", "clips/take 1://final.mkv"] {
        let mut manager = GstreamerManager::new();
        let first = manager.create_pipeline(path);
        assert_eq!(first, Step::Call(Request::Create(Unit::Source)));
        assert_eq!(manager.factory_of(Unit::Source), Some(String::from("filesrc")));
        assert_eq!(manager.factory_of(Unit::Demuxer), Some(String::from("decodebin")));
        let (asked, result) = drive(&mut manager, first, |_| true);
        assert_eq!(result, Ok(()));
        assert_eq!(asked, local_build());
        assert_eq!(manager.source(), Some(SourceKind::Local));
        assert_eq!(manager.location(), Some(path));
        assert_eq!(manager.list_elements(), SKELETON.to_vec());
        let graph = manager.graph();
        assert!(graph.is_linked(Unit::Source, Unit::Demuxer));
        assert!(graph.is_linked(Unit::VideoConvert, Unit::VideoSink));
        assert!(graph.is_linked(Unit::AudioConvert, Unit::Volume));
        assert!(graph.is_linked(Unit::Volume, Unit::AudioSink));
        assert!(!graph.is_linked(Unit::Demuxer, Unit::VideoConvert));
        assert!(!graph.is_linked(Unit::Demuxer, Unit::AudioConvert));
    }
}

#[test]
fn a_source_that_cannot_be_located_is_not_found_and_leaves_nothing_behind() {
    let mut manager = GstreamerManager::new();
    let first = manager.create_pipeline("/videos/missing.mp4");
    assert_eq!(manager.location(), Some("/videos/missing.mp4"));
    let (asked, result) = drive(&mut manager, first, |request| {
        request != Request::Locate(Unit::Source)
    });
    assert_eq!(result, Err(PipelineError::SourceNotFound));
    let mut expected = local_build()[..8].to_vec();
    expected.extend(releases(&SKELETON));
    assert_eq!(asked, expected);
    assert!(manager.is_idle());
    assert!(!manager.is_located());
    assert_eq!(manager.source(), None);
    assert_eq!(manager.location(), None);
    assert_eq!(manager.list_elements(), Vec::<Unit>::new());
    for unit in SKELETON {
        assert_eq!(manager.graph().standing(unit), Standing::Absent);
    }
}

#[test]
fn after_a_source_that_was_not_found_another_can_be_opened() {
    for other in ["/videos/clip.mp4", "https://example.org/clip.webm"] {
        let mut manager = GstreamerManager::new();
        let first = manager.create_pipeline("/videos/missing.mp4");
        let (_, result) = drive(&mut manager, first, |request| {
            request != Request::Locate(Unit::Source)
        });
        assert_eq!(result, Err(PipelineError::SourceNotFound));
        let second = manager.create_pipeline(other);
        let (asked, result) = drive(&mut manager, second, |_| true);
        assert_eq!(result, Ok(()));
        assert_eq!(manager.location(), Some(other));
        assert!(manager.is_located());
        if other.starts_with('/') {
            assert_eq!(asked, local_build());
            assert_eq!(manager.source(), Some(SourceKind::Local));
        } else {
            assert_eq!(asked.len(), 18);
            assert_eq!(manager.source(), Some(SourceKind::Network));
            assert_eq!(manager.graph().standing(Unit::Source), Standing::Absent);
            assert_eq!(
                manager.factory_of(Unit::Demuxer),
                Some(String::from("uridecodebin"))
            );
        }
        assert_eq!(manager.state(), PlaybackState::Playing);
    }
}

#[test]
fn a_missing_mandatory_unit_ends_the_build_and_releases_the_others() {
    for (at, unit) in SKELETON.iter().enumerate() {
        let mut manager = GstreamerManager::new();
        let first = manager.create_pipeline("/videos/clip.mp4");
        let (asked, result) = drive(&mut manager, first, |request| {
            request != Request::Create(*unit)
        });
        let error = PipelineError::ElementCreationFailed { kind: *unit };
        assert_eq!(result, Err(error));
        assert!(error.is_fatal_at_startup());
        let mut expected = local_build()[..at + 1].to_vec();
        expected.extend(releases(&SKELETON[..at]));
        assert_eq!(asked, expected);
        assert!(manager.is_idle());
        assert_eq!(manager.source(), None);
        assert_eq!(manager.list_elements(), Vec::<Unit>::new());
        for unit in SKELETON {
            assert_eq!(manager.graph().standing(unit), Standing::Absent);
        }
        assert_eq!(manager.state(), PlaybackState::Null);
    }
}

#[test]
fn a_refused_release_ends_the_way_back_in_the_first_error() {
    let mut manager = GstreamerManager::new();
    let first = manager.create_pipeline("/videos/missing.mp4");
    let (asked, result) = drive(&mut manager, first, |request| {
        request != Request::Locate(Unit::Source) && request != Request::Remove(Unit::Volume)
    });
    assert_eq!(result, Err(PipelineError::SourceNotFound));
    assert_eq!(asked.last(), Some(&Request::Remove(Unit::Volume)));
    assert!(manager.is_idle());
    assert_eq!(manager.source(), None);
    assert_eq!(manager.graph().standing(Unit::VideoSink), Standing::Absent);
    assert_eq!(manager.graph().standing(Unit::Volume), Standing::Created);
    let again = manager.create_pipeline("/videos/clip.mp4");
    let (_, result) = drive(&mut manager, again, |_| true);
    assert_eq!(result, Ok(()));
    assert_eq!(manager.location(), Some("/videos/clip.mp4"));
    assert_eq!(manager.list_elements(), SKELETON.to_vec());
}

#[test]
fn a_refused_static_link_ends_the_build() {
    let mut manager = GstreamerManager::new();
    let first = manager.create_pipeline("/videos/clip.mp4");
    let (asked, result) = drive(&mut manager, first, |request| {
        request != Request::Link(Unit::AudioConvert, Unit::Volume)
    });
    assert_eq!(result, Err(PipelineError::LinkFailed));
    assert!(!PipelineError::LinkFailed.is_fatal_at_startup());
    assert_eq!(asked.len(), 18);
    assert!(manager.graph().is_linked(Unit::VideoConvert, Unit::VideoSink));
    assert!(!manager.graph().is_linked(Unit::AudioConvert, Unit::Volume));
    assert_eq!(manager.state(), PlaybackState::Null);
}

#[test]
fn a_refused_preroll_is_a_failed_state_change() {
    let mut manager = GstreamerManager::new();
    let first = manager.create_pipeline("/videos/clip.mp4");
    let (_, result) = drive(&mut manager, first, |request| {
        request != Request::SetState(PlaybackState::Playing)
    });
    assert_eq!(
        result,
        Err(PipelineError::StateChangeFailed {
            requested: PlaybackState::Playing
        })
    );
    assert_eq!(manager.state(), PlaybackState::Paused);
}

#[test]
fn a_build_that_was_cut_short_is_taken_up_where_it_stopped() {
    let mut manager = GstreamerManager::new();
    let first = manager.create_pipeline("/videos/clip.mp4");
    let (_, result) = drive(&mut manager, first, |request| {
        request != Request::Add(Unit::VideoSink)
    });
    assert_eq!(result, Err(PipelineError::LinkFailed));
    assert!(manager.is_located());
    assert_eq!(manager.location(), Some("/videos/clip.mp4"));
    let again = manager.create_pipeline("/videos/clip.mp4");
    assert_eq!(again, Step::Call(Request::Add(Unit::VideoSink)));
    let (asked, result) = drive(&mut manager, again, |_| true);
    assert_eq!(result, Ok(()));
    assert_eq!(asked, local_build()[11..].to_vec());
    assert_eq!(manager.location(), Some("/videos/clip.mp4"));
}

#[test]
fn a_source_that_is_fixed_is_not_exchanged() {
    let mut manager = GstreamerManager::new();
    let first = manager.create_pipeline("/videos/clip.mp4");
    let (_, result) = drive(&mut manager, first, |request| {
        request != Request::Add(Unit::VideoSink)
    });
    assert_eq!(result, Err(PipelineError::LinkFailed));
    let before = *manager.graph();
    for other in ["/videos/other.mp4", "https://example.org/clip.webm", ""] {
        assert_eq!(
            manager.create_pipeline(other),
            Step::Done(Err(PipelineError::SourceNotFound))
        );
        assert!(manager.is_idle());
        assert_eq!(*manager.graph(), before);
        assert_eq!(manager.location(), Some("/videos/clip.mp4"));
    }
    let again = manager.create_pipeline("/videos/clip.mp4");
    assert_eq!(drive(&mut manager, again, |_| true).1, Ok(()));
    assert_eq!(
        manager.create_pipeline("/videos/other.mp4"),
        Step::Done(Err(PipelineError::SourceNotFound))
    );
    assert_eq!(manager.create_pipeline("/videos/clip.mp4"), Step::Done(Ok(())));
}

#[test]
fn a_second_build_of_a_playing_pipeline_asks_nothing() {
    let mut manager = GstreamerManager::new();
    let first = manager.create_pipeline("/videos/clip.mp4");
    drive(&mut manager, first, |_| true).1.unwrap();
    let before = *manager.graph();
    assert_eq!(manager.create_pipeline("/videos/clip.mp4"), Step::Done(Ok(())));
    assert_eq!(*manager.graph(), before);
}

#[test]
fn an_answer_with_nothing_pending_changes_nothing() {
    let mut manager = GstreamerManager::new();
    assert_eq!(manager.advance(true), Step::Done(Ok(())));
    assert_eq!(manager.advance(false), Step::Done(Ok(())));
    assert!(manager.is_idle());
    assert_eq!(manager.list_elements(), Vec::<Unit>::new());
}

#[test]
fn every_request_of_a_build_is_admitted_by_the_graph() {
    let mut manager = GstreamerManager::new();
    let mut step = manager.create_pipeline("/videos/clip.mp4");
    let mut count = 0;
    while let Step::Call(request) = step {
        assert!(manager.graph().admits(request));
        step = manager.advance(true);
        count += 1;
        assert!(count <= 21);
    }
    assert_eq!(count, 21);
}

#[test]
fn refusals_are_told_apart_by_the_request() {
    let current = PlaybackState::Paused;
    assert_eq!(
        Request::Create(Unit::Filter).refusal(current),
        PipelineError::ElementCreationFailed { kind: Unit::Filter }
    );
    assert!(!PipelineError::ElementCreationFailed { kind: Unit::Filter }.is_fatal_at_startup());
    assert_eq!(Request::Locate(Unit::Source).refusal(current), PipelineError::SourceNotFound);
    assert_eq!(Request::Add(Unit::Volume).refusal(current), PipelineError::LinkFailed);
    assert_eq!(Request::Remove(Unit::Filter).refusal(current), PipelineError::LinkFailed);
    assert_eq!(
        Request::Link(Unit::Volume, Unit::AudioSink).refusal(current),
        PipelineError::LinkFailed
    );
    assert_eq!(
        Request::Unlink(Unit::VideoConvert, Unit::VideoSink).refusal(current),
        PipelineError::LinkFailed
    );
    assert_eq!(
        Request::SetState(PlaybackState::Ready).refusal(current),
        PipelineError::StateChangeFailed { requested: PlaybackState::Ready }
    );
    assert_eq!(
        Request::SetUnitState(Unit::Filter, PlaybackState::Null).refusal(current),
        PipelineError::StateChangeFailed { requested: PlaybackState::Null }
    );
    assert_eq!(
        Request::SyncState(Unit::Filter).refusal(current),
        PipelineError::StateChangeFailed { requested: PlaybackState::Paused }
    );
}
