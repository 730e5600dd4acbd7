use upload_bridge::bridge::{Action, Bridge, Event, Phase};
use upload_bridge::outcome::UploadError;

fn opened(path: &str) -> Bridge {
    let (mut bridge, _first) = Bridge::start(path);
    assert_eq!(bridge.step(Event::Opened), Some(Action::Pull));
    bridge
}

fn every_event() -> Vec<Event> {
    vec![
        Event::Opened,
        Event::OpenFailed("denied".to_string()),
        Event::Chunk(vec![1, 2, 3]),
        Event::EndOfStream,
        Event::StreamFailed("reset".to_string()),
        Event::Written,
        Event::WriteFailed("full".to_string()),
        Event::Delivered,
        Event::Undelivered(Ok(())),
    ]
}

#[test]
fn start_opens_the_destination_named_by_the_path() {
    let (bridge, action) = Bridge::start("/x/y/z/data.bin");
    assert_eq!(bridge.phase(), Phase::Opening);
    assert_eq!(action, Action::Open("data.bin".to_string()));
}

#[test]
fn start_without_a_name_reports_the_path() {
    let (bridge, action) = Bridge::start("/");
    assert_eq!(bridge.phase(), Phase::Reporting);
    assert_eq!(action, Action::Send(Err(UploadError::Path)));
}

#[test]
fn opened_destination_is_followed_by_a_pull() {
    let (mut bridge, _first) = Bridge::start("/a");
    assert_eq!(bridge.step(Event::Opened), Some(Action::Pull));
    assert_eq!(bridge.phase(), Phase::Pulling);
}

#[test]
fn failed_open_is_reported_as_a_storage_failure() {
    let (mut bridge, _first) = Bridge::start("/a");
    let action = bridge.step(Event::OpenFailed("permission denied".to_string()));
    assert_eq!(
        action,
        Some(Action::Send(Err(UploadError::Storage("permission denied".to_string()))))
    );
    assert_eq!(bridge.phase(), Phase::Reporting);
}

#[test]
fn chunk_is_written_as_it_came() {
    let mut bridge = opened("/a");
    let action = bridge.step(Event::Chunk(vec![0x61, 0x62]));
    assert_eq!(action, Some(Action::Write(vec![0x61, 0x62])));
    assert_eq!(bridge.phase(), Phase::Writing);
}

#[test]
fn empty_chunk_is_written_too() {
    let mut bridge = opened("/a");
    assert_eq!(bridge.step(Event::Chunk(Vec::new())), Some(Action::Write(Vec::new())));
    assert_eq!(bridge.phase(), Phase::Writing);
}

#[test]
fn written_chunk_is_followed_by_a_pull() {
    let mut bridge = opened("/a");
    bridge.step(Event::Chunk(vec![1]));
    assert_eq!(bridge.step(Event::Written), Some(Action::Pull));
    assert_eq!(bridge.phase(), Phase::Pulling);
}

#[test]
fn failed_write_is_reported_as_a_storage_failure() {
    let mut bridge = opened("/a");
    bridge.step(Event::Chunk(vec![1]));
    let action = bridge.step(Event::WriteFailed("disk full".to_string()));
    assert_eq!(action, Some(Action::Send(Err(UploadError::Storage("disk full".to_string())))));
    assert_eq!(bridge.phase(), Phase::Reporting);
}

#[test]
fn end_of_stream_is_reported_as_success() {
    let mut bridge = opened("/a");
    assert_eq!(bridge.step(Event::EndOfStream), Some(Action::Send(Ok(()))));
    assert_eq!(bridge.phase(), Phase::Reporting);
}

#[test]
fn failed_stream_is_reported_as_a_stream_failure() {
    let mut bridge = opened("/a");
    let action = bridge.step(Event::StreamFailed("connection reset".to_string()));
    assert_eq!(
        action,
        Some(Action::Send(Err(UploadError::Stream("connection reset".to_string()))))
    );
    assert_eq!(bridge.phase(), Phase::Reporting);
}

#[test]
fn delivered_outcome_finishes_the_task() {
    let mut bridge = opened("/a");
    bridge.step(Event::EndOfStream);
    assert!(!bridge.is_over());
    assert_eq!(bridge.step(Event::Delivered), Some(Action::Finish));
    assert_eq!(bridge.phase(), Phase::Finished);
    assert!(bridge.is_over());
}

#[test]
fn undelivered_outcome_aborts_the_task() {
    let mut bridge = opened("/a");
    bridge.step(Event::StreamFailed("reset".to_string()));
    let outcome = Err(UploadError::Stream("reset".to_string()));
    let action = bridge.step(Event::Undelivered(outcome));
    assert_eq!(action, Some(Action::Abort(Err(UploadError::Stream("reset".to_string())))));
    assert_eq!(bridge.phase(), Phase::Aborted);
    assert!(bridge.is_over());
}

#[test]
fn finished_task_takes_no_event() {
    for event in every_event() {
        let mut bridge = opened("/a");
        bridge.step(Event::EndOfStream);
        bridge.step(Event::Delivered);
        assert_eq!(bridge.step(event), None);
        assert_eq!(bridge.phase(), Phase::Finished);
    }
}

#[test]
fn aborted_task_takes_no_event() {
    for event in every_event() {
        let mut bridge = opened("/a");
        bridge.step(Event::EndOfStream);
        bridge.step(Event::Undelivered(Ok(())));
        assert_eq!(bridge.step(event), None);
        assert_eq!(bridge.phase(), Phase::Aborted);
    }
}

#[test]
fn reporting_task_neither_pulls_nor_writes() {
    for event in every_event() {
        let mut bridge = opened("/a");
        bridge.step(Event::StreamFailed("reset".to_string()));
        match bridge.step(event) {
            None => assert_eq!(bridge.phase(), Phase::Reporting),
            Some(Action::Finish) => assert_eq!(bridge.phase(), Phase::Finished),
            Some(Action::Abort(_)) => assert_eq!(bridge.phase(), Phase::Aborted),
            Some(other) => panic!("unexpected action: {:?}", other),
        }
    }
}

#[test]
fn unexpected_event_leaves_the_task_as_it_was() {
    let (mut bridge, _first) = Bridge::start("/a");
    assert_eq!(bridge.step(Event::Chunk(vec![1])), None);
    assert_eq!(bridge.step(Event::Written), None);
    assert_eq!(bridge.step(Event::EndOfStream), None);
    assert_eq!(bridge.step(Event::Delivered), None);
    assert_eq!(bridge.phase(), Phase::Opening);

    let mut bridge = opened("/a");
    assert_eq!(bridge.step(Event::Opened), None);
    assert_eq!(bridge.step(Event::Written), None);
    assert_eq!(bridge.step(Event::WriteFailed("full".to_string())), None);
    assert_eq!(bridge.phase(), Phase::Pulling);

    bridge.step(Event::Chunk(vec![1]));
    assert_eq!(bridge.step(Event::Chunk(vec![2])), None);
    assert_eq!(bridge.step(Event::EndOfStream), None);
    assert_eq!(bridge.step(Event::StreamFailed("reset".to_string())), None);
    assert_eq!(bridge.phase(), Phase::Writing);
}
