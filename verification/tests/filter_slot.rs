use media_pipeline::error::PipelineError;
use media_pipeline::gstreamer::GstreamerManager;
use media_pipeline::machine::Task;
use media_pipeline::request::{Request, Step};
use media_pipeline::unit::{PlaybackState, Standing, Unit};

fn run(
    manager: &mut GstreamerManager,
    first: Step,
    mut answer: impl FnMut(Request) -> bool,
) -> (Vec<Request>, Result<(), PipelineError>) {
    let mut asked = Vec::new();
    let mut step = first;
    loop {
        match step {
            Step::Done(result) => return (asked, result),
            Step::Call(request) => {
                assert!(manager.graph().admits(request));
                asked.push(request);
                assert!(asked.len() <= 21, "the operation does not end");
                step = manager.advance(answer(request));
            }
        }
    }
}

fn playing() -> GstreamerManager {
    let mut manager = GstreamerManager::new();
    let first = manager.create_pipeline("/videos/clip.mp4");
    assert_eq!(run(&mut manager, first, |_| true).1, Ok(()));
    manager
}

fn with_filter(name: &str) -> GstreamerManager {
    let mut manager = playing();
    let first = manager.set_filter_and_add_to_pipeline(name);
    assert_eq!(run(&mut manager, first, |_| true).1, Ok(()));
    manager
}

fn slot_is_empty(manager: &GstreamerManager) -> bool {
    let graph = manager.graph();
    graph.standing(Unit::Filter) == Standing::Absent
        && graph.is_linked(Unit::VideoConvert, Unit::VideoSink)
        && !graph.is_linked(Unit::VideoConvert, Unit::Filter)
        && !graph.is_linked(Unit::Filter, Unit::VideoSink)
}

fn slot_is_occupied(manager: &GstreamerManager) -> bool {
    let graph = manager.graph();
    graph.is_attached(Unit::Filter)
        && !graph.is_linked(Unit::VideoConvert, Unit::VideoSink)
        && graph.is_linked(Unit::VideoConvert, Unit::Filter)
        && graph.is_linked(Unit::Filter, Unit::VideoSink)
}

fn install() -> Vec<Request> {
    vec![
        Request::Create(Unit::Filter),
        Request::Add(Unit::Filter),
        Request::SyncState(Unit::Filter),
        Request::Unlink(Unit::VideoConvert, Unit::VideoSink),
        Request::Link(Unit::VideoConvert, Unit::Filter),
        Request::Link(Unit::Filter, Unit::VideoSink),
    ]
}

fn empty() -> Vec<Request> {
    vec![
        Request::SetUnitState(Unit::Filter, PlaybackState::Null),
        Request::Unlink(Unit::VideoConvert, Unit::Filter),
        Request::Unlink(Unit::Filter, Unit::VideoSink),
        Request::Link(Unit::VideoConvert, Unit::VideoSink),
        Request::Remove(Unit::Filter),
    ]
}

fn put_back() -> Vec<Request> {
    vec![
        Request::SyncState(Unit::Filter),
        Request::Link(Unit::VideoConvert, Unit::Filter),
        Request::Link(Unit::Filter, Unit::VideoSink),
    ]
}

const DIRECT: Request = Request::Link(Unit::VideoConvert, Unit::VideoSink);

#[test]
fn a_filter_is_put_in_line_while_the_pipeline_plays() {
    let mut manager = playing();
    assert!(slot_is_empty(&manager));
    let first = manager.set_filter_and_add_to_pipeline("vertigotv");
    assert_eq!(manager.task(), Task::Swap { fresh: false });
    assert_eq!(manager.factory_of(Unit::Filter), Some(String::from("vertigotv")));
    let (asked, result) = run(&mut manager, first, |_| true);
    assert_eq!(result, Ok(()));
    assert_eq!(asked, install());
    assert!(slot_is_occupied(&manager));
    assert_eq!(manager.filter(), Some(String::from("vertigotv")));
    assert_eq!(manager.graph().live(Unit::Filter), PlaybackState::Playing);
    assert_eq!(manager.state(), PlaybackState::Playing);
    assert!(manager.is_idle());
    assert!(manager.list_elements().contains(&Unit::Filter));
}

#[test]
fn a_swap_and_the_sentinel_give_back_the_graph_as_it_was() {
    let mut manager = playing();
    let before = *manager.graph();
    let first = manager.set_filter_and_add_to_pipeline("vertigotv");
    assert_eq!(run(&mut manager, first, |_| true).1, Ok(()));
    assert_ne!(*manager.graph(), before);
    let second = manager.set_filter_and_add_to_pipeline("no-filter");
    assert_eq!(manager.task(), Task::Clear);
    let (asked, result) = run(&mut manager, second, |_| true);
    assert_eq!(result, Ok(()));
    assert_eq!(asked, empty());
    assert_eq!(*manager.graph(), before);
    assert_eq!(manager.filter(), None);
    assert!(slot_is_empty(&manager));
}

#[test]
fn the_old_filter_is_quiesced_and_removed_before_the_new_one_is_made() {
    let mut manager = with_filter("edgetv");
    let first = manager.set_filter_and_add_to_pipeline("agingtv");
    let (asked, result) = run(&mut manager, first, |_| true);
    assert_eq!(result, Ok(()));
    let mut expected = empty();
    expected.extend(install());
    assert_eq!(asked, expected);
    assert_eq!(manager.filter(), Some(String::from("agingtv")));
    assert!(slot_is_occupied(&manager));
}

#[test]
fn clearing_an_empty_slot_asks_nothing() {
    let mut manager = playing();
    let before = *manager.graph();
    assert_eq!(manager.remove_filer_and_continue_pipeline(), Step::Done(Ok(())));
    assert_eq!(*manager.graph(), before);
    assert!(manager.is_idle());
}

#[test]
fn a_filter_that_cannot_be_created_leaves_the_slot_empty() {
    let mut manager = playing();
    let before = *manager.graph();
    let first = manager.set_filter_and_add_to_pipeline("no-such-effect");
    let (asked, result) = run(&mut manager, first, |_| false);
    assert_eq!(result, Err(PipelineError::ElementCreationFailed { kind: Unit::Filter }));
    assert_eq!(asked, vec![Request::Create(Unit::Filter)]);
    assert_eq!(*manager.graph(), before);
    assert_eq!(manager.filter(), None);
}

#[test]
fn a_failed_creation_after_the_old_filter_left_finds_the_direct_link_standing() {
    let mut manager = with_filter("edgetv");
    let first = manager.set_filter_and_add_to_pipeline("no-such-effect");
    let (asked, result) = run(&mut manager, first, |request| {
        request != Request::Create(Unit::Filter)
    });
    assert_eq!(result, Err(PipelineError::ElementCreationFailed { kind: Unit::Filter }));
    let mut expected = empty();
    expected.push(Request::Create(Unit::Filter));
    assert_eq!(asked, expected);
    assert!(slot_is_empty(&manager));
    assert_eq!(manager.filter(), None);
    assert!(manager.is_idle());
}

#[test]
fn a_refused_relink_takes_the_new_filter_out_again() {
    let quiesce = Request::SetUnitState(Unit::Filter, PlaybackState::Null);
    let first_link = Request::Link(Unit::VideoConvert, Unit::Filter);
    let second_link = Request::Link(Unit::Filter, Unit::VideoSink);
    let undo = Request::Unlink(Unit::VideoConvert, Unit::Filter);
    let remove = Request::Remove(Unit::Filter);
    for (refused, way_back) in [
        (first_link, vec![quiesce, DIRECT, remove]),
        (second_link, vec![quiesce, undo, DIRECT, remove]),
    ] {
        let mut manager = playing();
        let before = *manager.graph();
        let first = manager.set_filter_and_add_to_pipeline("vertigotv");
        let (asked, result) = run(&mut manager, first, |request| request != refused);
        assert_eq!(result, Err(PipelineError::LinkFailed));
        let at = asked.iter().position(|request| *request == refused).unwrap();
        assert_eq!(asked[..at + 1], install()[..at + 1]);
        assert_eq!(asked[at + 1..], way_back[..]);
        assert_eq!(*manager.graph(), before);
        assert!(slot_is_empty(&manager));
        assert_eq!(manager.filter(), None);
    }
}

#[test]
fn a_filter_that_cannot_follow_the_pipeline_is_taken_out_again() {
    let mut manager = playing();
    let first = manager.set_filter_and_add_to_pipeline("vertigotv");
    let (asked, result) = run(&mut manager, first, |request| {
        request != Request::SyncState(Unit::Filter)
    });
    assert_eq!(
        result,
        Err(PipelineError::StateChangeFailed { requested: PlaybackState::Playing })
    );
    assert_eq!(
        asked,
        vec![
            Request::Create(Unit::Filter),
            Request::Add(Unit::Filter),
            Request::SyncState(Unit::Filter),
            Request::Remove(Unit::Filter),
        ]
    );
    assert!(slot_is_empty(&manager));
}

#[test]
fn a_filter_that_will_not_quiesce_stays_in_line() {
    let mut manager = with_filter("edgetv");
    let before = *manager.graph();
    let first = manager.set_filter_and_add_to_pipeline("agingtv");
    let (asked, result) = run(&mut manager, first, |_| false);
    assert_eq!(
        result,
        Err(PipelineError::StateChangeFailed { requested: PlaybackState::Null })
    );
    assert_eq!(asked.len(), 1);
    assert_eq!(*manager.graph(), before);
    assert!(slot_is_occupied(&manager));
    assert_eq!(manager.filter(), Some(String::from("edgetv")));
}

#[test]
fn a_refused_direct_link_puts_the_filter_back_in_line() {
    let mut manager = with_filter("edgetv");
    let before = *manager.graph();
    let first = manager.remove_filer_and_continue_pipeline();
    let (asked, result) = run(&mut manager, first, |request| request != DIRECT);
    assert_eq!(result, Err(PipelineError::LinkFailed));
    let mut expected = empty()[..4].to_vec();
    expected.extend(put_back());
    assert_eq!(asked, expected);
    assert!(slot_is_occupied(&manager));
    assert!(!slot_is_empty(&manager));
    assert_eq!(*manager.graph(), before);
    assert_eq!(manager.filter(), Some(String::from("edgetv")));
    assert_eq!(manager.graph().live(Unit::Filter), PlaybackState::Playing);
    assert!(manager.is_idle());
}

#[test]
fn a_swap_whose_direct_link_is_refused_keeps_the_old_filter() {
    let mut manager = with_filter("edgetv");
    let before = *manager.graph();
    let first = manager.set_filter_and_add_to_pipeline("agingtv");
    let (asked, result) = run(&mut manager, first, |request| request != DIRECT);
    assert_eq!(result, Err(PipelineError::LinkFailed));
    let mut expected = empty()[..4].to_vec();
    expected.extend(put_back());
    assert_eq!(asked, expected);
    assert!(!asked.contains(&Request::Create(Unit::Filter)));
    assert!(slot_is_occupied(&manager));
    assert_eq!(*manager.graph(), before);
    assert_eq!(manager.filter(), Some(String::from("edgetv")));
}

#[test]
fn the_filter_is_removed_only_once_the_direct_link_stands() {
    let mut manager = with_filter("edgetv");
    let mut step = manager.remove_filer_and_continue_pipeline();
    while let Step::Call(request) = step {
        if request == Request::Remove(Unit::Filter) {
            assert!(manager.graph().is_linked(Unit::VideoConvert, Unit::VideoSink));
            assert_eq!(manager.graph().live(Unit::Filter), PlaybackState::Null);
        } else {
            assert!(manager.graph().is_attached(Unit::Filter));
        }
        step = manager.advance(true);
    }
    assert_eq!(step, Step::Done(Ok(())));
    assert!(slot_is_empty(&manager));
}

#[test]
fn any_single_refusal_of_a_clearing_leaves_the_slot_settled() {
    for refused in empty() {
        let mut manager = with_filter("edgetv");
        let first = manager.remove_filer_and_continue_pipeline();
        let (asked, result) = run(&mut manager, first, |request| request != refused);
        assert_eq!(result, Err(refused.refusal(PlaybackState::Playing)));
        assert!(asked.contains(&refused));
        assert!(slot_is_occupied(&manager), "after a refused {refused:?}");
        assert!(!manager.graph().is_linked(Unit::VideoConvert, Unit::VideoSink));
        assert_eq!(manager.filter(), Some(String::from("edgetv")));
        assert_eq!(manager.graph().live(Unit::Filter), PlaybackState::Playing);
    }
}

#[test]
fn any_single_refusal_of_a_swap_leaves_the_slot_settled() {
    let mut requests = empty();
    requests.extend(install());
    for refused in requests {
        for occupied in [false, true] {
            let mut manager = if occupied { with_filter("edgetv") } else { playing() };
            let mut refusals = 0;
            let first = manager.set_filter_and_add_to_pipeline("agingtv");
            let (_, result) = run(&mut manager, first, |request| {
                if request == refused && refusals == 0 {
                    refusals += 1;
                    false
                } else {
                    true
                }
            });
            assert_eq!(result.is_err(), refusals == 1);
            if let Err(error) = result {
                assert_eq!(error, refused.refusal(PlaybackState::Playing));
            }
            assert!(
                slot_is_empty(&manager) != slot_is_occupied(&manager),
                "after a refused {refused:?}"
            );
            assert_eq!(manager.filter().is_some(), slot_is_occupied(&manager));
        }
    }
}

#[test]
fn a_refusal_on_the_way_back_leaves_the_slot_torn_and_a_later_clearing_mends_it() {
    let mut manager = with_filter("edgetv");
    let back = Request::Link(Unit::VideoConvert, Unit::Filter);
    let first = manager.remove_filer_and_continue_pipeline();
    let (asked, result) = run(&mut manager, first, |request| {
        request != DIRECT && request != back
    });
    assert_eq!(result, Err(PipelineError::LinkFailed));
    assert_eq!(asked.last(), Some(&back));
    assert!(!slot_is_empty(&manager));
    assert!(!slot_is_occupied(&manager));
    assert!(manager.graph().is_attached(Unit::Filter));
    assert_eq!(manager.filter(), Some(String::from("edgetv")));
    assert!(manager.is_idle());
    let again = manager.remove_filer_and_continue_pipeline();
    let (asked, result) = run(&mut manager, again, |_| true);
    assert_eq!(result, Ok(()));
    assert_eq!(
        asked,
        vec![
            Request::SetUnitState(Unit::Filter, PlaybackState::Null),
            DIRECT,
            Request::Remove(Unit::Filter),
        ]
    );
    assert!(slot_is_empty(&manager));
    assert_eq!(manager.filter(), None);
}

#[test]
fn the_slot_is_settled_after_every_call_of_a_long_sequence() {
    let mut manager = playing();
    let names = [
        "vertigotv",
        "no-filter",
        "no-filter",
        "edgetv",
        "agingtv",
        "twirl",
        "no-filter",
        "cartoon",
    ];
    for (round, name) in names.iter().enumerate() {
        let was_occupied = slot_is_occupied(&manager);
        let first = manager.set_filter_and_add_to_pipeline(name);
        let refuse_creation = round % 3 == 2;
        let refuse_direct = round % 3 == 1;
        let (_, result) = run(&mut manager, first, |request| {
            !(refuse_creation && request == Request::Create(Unit::Filter))
                && !(refuse_direct && request == DIRECT)
        });
        let empty = slot_is_empty(&manager);
        let occupied = slot_is_occupied(&manager);
        assert!(empty != occupied, "after {name}");
        match result {
            Ok(()) => assert_eq!(occupied, *name != "no-filter"),
            Err(PipelineError::LinkFailed) => assert_eq!(occupied, was_occupied),
            Err(error) => {
                assert_eq!(error, PipelineError::ElementCreationFailed { kind: Unit::Filter });
                assert!(empty);
            }
        }
        assert_eq!(manager.filter().is_some(), occupied);
    }
}

#[test]
fn the_slot_of_a_pipeline_that_is_not_built_cannot_be_changed() {
    let mut manager = GstreamerManager::new();
    assert_eq!(
        manager.set_filter_and_add_to_pipeline("vertigotv"),
        Step::Done(Err(PipelineError::LinkFailed))
    );
    assert_eq!(
        manager.remove_filer_and_continue_pipeline(),
        Step::Done(Err(PipelineError::LinkFailed))
    );
    assert!(manager.is_idle());
    assert_eq!(manager.graph().standing(Unit::Filter), Standing::Absent);
}

#[test]
fn a_filter_put_into_a_stopped_pipeline_is_brought_to_ready() {
    let mut manager = playing();
    let stop = manager.stop();
    assert_eq!(run(&mut manager, stop, |_| true).1, Ok(()));
    let first = manager.set_filter_and_add_to_pipeline("revtv");
    let (asked, result) = run(&mut manager, first, |_| true);
    assert_eq!(result, Ok(()));
    assert_eq!(asked, install());
    assert_eq!(manager.graph().live(Unit::Filter), PlaybackState::Ready);
}

#[test]
fn a_filter_put_into_a_pipeline_in_null_needs_no_sync() {
    let mut manager = GstreamerManager::new();
    let first = manager.create_pipeline("/videos/clip.mp4");
    let (_, built) = run(&mut manager, first, |request| {
        request != Request::SetState(PlaybackState::Paused)
    });
    assert_eq!(
        built,
        Err(PipelineError::StateChangeFailed { requested: PlaybackState::Paused })
    );
    assert_eq!(manager.state(), PlaybackState::Null);
    let first = manager.set_filter_and_add_to_pipeline("revtv");
    let (asked, result) = run(&mut manager, first, |_| true);
    assert_eq!(result, Ok(()));
    assert_eq!(
        asked,
        vec![
            Request::Create(Unit::Filter),
            Request::Add(Unit::Filter),
            Request::Unlink(Unit::VideoConvert, Unit::VideoSink),
            Request::Link(Unit::VideoConvert, Unit::Filter),
            Request::Link(Unit::Filter, Unit::VideoSink),
        ]
    );
    assert!(slot_is_occupied(&manager));
    let clear = manager.remove_filer_and_continue_pipeline();
    let (asked, result) = run(&mut manager, clear, |_| true);
    assert_eq!(result, Ok(()));
    assert_eq!(asked, empty()[1..].to_vec());
}

#[test]
fn the_rest_of_the_graph_is_left_alone_by_a_swap() {
    let mut manager = playing();
    manager.pad_linked(media_pipeline::unit::Branch::Audio, true).unwrap();
    let first = manager.set_filter_and_add_to_pipeline("vertigotv");
    run(&mut manager, first, |_| true).1.unwrap();
    let graph = manager.graph();
    assert!(graph.is_linked(Unit::Source, Unit::Demuxer));
    assert!(graph.is_linked(Unit::Demuxer, Unit::AudioConvert));
    assert!(graph.is_linked(Unit::AudioConvert, Unit::Volume));
    assert!(graph.is_linked(Unit::Volume, Unit::AudioSink));
    assert_eq!(graph.state(), PlaybackState::Playing);
}
