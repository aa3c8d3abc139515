use mock_agones::calls::{FailableSdkCall, InternalSdkCall, SdkCall};
use mock_agones::sdk::{Duration, KeyValue};
use mock_agones::server::{HealthRead, MockSdk};
use tonic::{Code, Status};

fn fresh() -> MockSdk<u32> {
    MockSdk::new(0)
}

#[test]
fn calls_are_reported_in_the_order_they_were_made() {
    let mut server = fresh();
    server.shutdown().unwrap();
    server.ready().unwrap();
    server
        .reserve(Duration { seconds: 30 })
        .unwrap();
    server.allocate().unwrap();
    assert_eq!(
        server.calls(),
        vec![
            SdkCall::Shutdown,
            SdkCall::Ready,
            SdkCall::Reserve(Duration { seconds: 30 }),
            SdkCall::Allocate
        ]
    );
}

#[test]
fn refused_call_carries_the_configured_status() {
    let mut server = fresh();
    server.fail(FailableSdkCall::Allocate, Status::new(Code::NotFound, "gone"));
    let err = server.allocate().unwrap_err();
    assert_eq!(err.code(), Code::NotFound);
    assert_eq!(err.message(), "gone");
}

#[test]
fn failure_refuses_only_its_kind() {
    let mut server = fresh();
    server.fail(FailableSdkCall::Shutdown, Status::internal("no"));
    assert!(server.ready().is_ok());
    assert!(server.allocate().is_ok());
    assert!(server.shutdown().is_err());
    assert!(server.get_game_server().is_ok());
    assert_eq!(
        server.calls(),
        vec![SdkCall::Ready, SdkCall::Allocate, SdkCall::Shutdown]
    );
}

#[test]
fn last_failure_wins() {
    let mut server = fresh();
    server.fail(FailableSdkCall::Reserve, Status::internal("first"));
    server.fail(FailableSdkCall::Reserve, Status::unavailable("second"));
    let err = server.reserve(Duration { seconds: 1 }).unwrap_err();
    assert_eq!(err.code(), Code::Unavailable);
    assert_eq!(err.message(), "second");
}

#[test]
fn refusal_repeats_on_every_call() {
    let mut server = fresh();
    server.fail(FailableSdkCall::SetLabel, Status::internal("again"));
    let pair = KeyValue {
        key: "a".to_string(),
        value: "b".to_string(),
    };
    assert_eq!(server.set_label(pair.clone()).unwrap_err().message(), "again");
    assert_eq!(server.set_label(pair.clone()).unwrap_err().message(), "again");
    assert_eq!(
        server.calls(),
        vec![SdkCall::SetLabel(pair.clone()), SdkCall::SetLabel(pair)]
    );
}

#[test]
fn refused_get_game_server_is_not_recorded() {
    let mut server = fresh();
    server.fail(FailableSdkCall::GetGameServer, Status::permission_denied("x"));
    let err = server.get_game_server().unwrap_err();
    assert_eq!(err.code(), Code::PermissionDenied);
    assert_eq!(server.calls(), vec![]);
}

#[test]
fn accepted_get_game_server_is_not_recorded() {
    let mut server = fresh();
    server.set_game_server(41);
    assert_eq!(server.get_game_server().unwrap(), &41);
    assert_eq!(*server.game_server(), 41);
    assert_eq!(server.calls(), vec![]);
}

#[test]
fn game_server_read_gives_back_last_write() {
    let mut server = fresh();
    server.set_game_server(3);
    server.set_game_server(8);
    assert_eq!(*server.game_server(), 8);
}

#[test]
fn refused_watch_is_recorded_and_gives_no_receiver() {
    let mut server = fresh();
    server.fail(FailableSdkCall::WatchGameServer, Status::aborted("w"));
    assert!(server.watch_game_server().is_err());
    assert_eq!(server.calls(), vec![SdkCall::WatchGameServer]);
}

#[test]
fn watchers_receive_updates_in_order() {
    let mut server = fresh();
    let updates = server.watch_game_server().unwrap().into_receiver();
    server.set_game_server(1);
    server.stream_watch_game_server_error(Status::internal("e"));
    server.set_game_server(2);
    assert_eq!(updates.try_recv().unwrap().unwrap(), 1);
    assert_eq!(updates.try_recv().unwrap().unwrap_err().message(), "e");
    assert_eq!(updates.try_recv().unwrap().unwrap(), 2);
    assert!(updates.try_recv().is_err());
}

#[test]
fn health_streams_count_their_own_pings() {
    let mut server = fresh();
    let first = server.health().unwrap();
    server.ready().unwrap();
    let second = server.health().unwrap();
    assert_eq!((first, second), (0, 1));
    assert!(server.health_message(second, HealthRead::Message));
    assert!(server.health_message(first, HealthRead::Message));
    assert!(server.health_message(second, HealthRead::Message));
    assert_eq!(server.health_pings(first), 1);
    assert_eq!(server.health_pings(second), 2);
    assert_eq!(
        server.calls(),
        vec![SdkCall::Health(1), SdkCall::Ready, SdkCall::Health(2)]
    );
}

#[test]
fn health_call_starts_at_zero_pings() {
    let mut server = fresh();
    server.health().unwrap();
    assert_eq!(server.calls(), vec![SdkCall::Health(0)]);
}

#[test]
fn failed_health_read_stops_counting() {
    let mut server = fresh();
    let stream = server.health().unwrap();
    assert!(server.health_message(stream, HealthRead::Message));
    assert!(!server.health_message(stream, HealthRead::Failed));
    assert_eq!(server.calls(), vec![SdkCall::Health(1)]);
}

#[test]
fn refused_health_call_is_recorded_at_zero() {
    let mut server = fresh();
    server.fail(FailableSdkCall::Health, Status::internal("h"));
    assert_eq!(server.health().unwrap_err().message(), "h");
    assert_eq!(server.calls(), vec![SdkCall::Health(0)]);
}

#[test]
fn each_recorded_call_maps_to_its_failable_kind() {
    let pair = KeyValue {
        key: "k".to_string(),
        value: "v".to_string(),
    };
    let cases = vec![
        (InternalSdkCall::Ready, FailableSdkCall::Ready),
        (InternalSdkCall::Allocate, FailableSdkCall::Allocate),
        (InternalSdkCall::Shutdown, FailableSdkCall::Shutdown),
        (InternalSdkCall::Health(4), FailableSdkCall::Health),
        (InternalSdkCall::WatchGameServer, FailableSdkCall::WatchGameServer),
        (InternalSdkCall::SetLabel(pair.clone()), FailableSdkCall::SetLabel),
        (InternalSdkCall::SetAnnotation(pair), FailableSdkCall::SetAnnotation),
        (InternalSdkCall::Reserve(Duration { seconds: 2 }), FailableSdkCall::Reserve),
    ];
    for (call, kind) in cases {
        assert_eq!(FailableSdkCall::from(&call), kind);
    }
}

#[test]
fn recorded_call_reports_its_stream_count() {
    let pings = vec![5, 9];
    assert_eq!(
        SdkCall::from_recorded(&InternalSdkCall::Health(1), &pings),
        SdkCall::Health(9)
    );
    let pair = KeyValue {
        key: "x".to_string(),
        value: "y".to_string(),
    };
    assert_eq!(
        SdkCall::from_recorded(&InternalSdkCall::SetAnnotation(pair.clone()), &pings),
        SdkCall::SetAnnotation(pair)
    );
}

#[test]
fn failure_slots_are_distinct() {
    let kinds = [
        FailableSdkCall::Ready,
        FailableSdkCall::Allocate,
        FailableSdkCall::Shutdown,
        FailableSdkCall::Health,
        FailableSdkCall::GetGameServer,
        FailableSdkCall::WatchGameServer,
        FailableSdkCall::SetLabel,
        FailableSdkCall::SetAnnotation,
        FailableSdkCall::Reserve,
    ];
    let slots: Vec<u8> = kinds.iter().map(|k| k.slot()).collect();
    assert_eq!(slots, vec![0, 1, 2, 3, 4, 5, 6, 7, 8]);
}

#[test]
fn duplicate_copies_both_fields() {
    let pair = KeyValue {
        key: "left".to_string(),
        value: "right".to_string(),
    };
    assert_eq!(pair.duplicate(), pair);
}

#[test]
fn closed_health_stream_stops_counting() {
    let mut server = fresh();
    let stream = server.health().unwrap();
    assert!(server.health_message(stream, HealthRead::Message));
    assert!(server.health_message(stream, HealthRead::Message));
    assert!(!server.health_message(stream, HealthRead::End));
    assert_eq!(server.calls(), vec![SdkCall::Health(2)]);
}

#[test]
fn every_watcher_gets_every_update() {
    let mut server = fresh();
    let first = server.watch_game_server().unwrap().into_receiver();
    let second = server.watch_game_server().unwrap().into_receiver();
    server.set_game_server(5);
    server.stream_watch_game_server_error(Status::internal("both"));
    assert_eq!(first.try_recv().unwrap().unwrap(), 5);
    assert_eq!(second.try_recv().unwrap().unwrap(), 5);
    assert_eq!(first.try_recv().unwrap().unwrap_err().message(), "both");
    assert_eq!(second.try_recv().unwrap().unwrap_err().message(), "both");
    assert!(first.try_recv().is_err());
    assert!(second.try_recv().is_err());
}

#[test]
fn update_sent_with_no_watcher_waits_for_the_next() {
    let mut server = fresh();
    server.set_game_server(6);
    server.stream_watch_game_server_error(Status::internal("early"));
    let updates = server.watch_game_server().unwrap().into_receiver();
    assert_eq!(updates.try_recv().unwrap().unwrap(), 6);
    assert_eq!(updates.try_recv().unwrap().unwrap_err().message(), "early");
    assert!(updates.try_recv().is_err());
    server.set_game_server(7);
    assert_eq!(updates.try_recv().unwrap().unwrap(), 7);
}

#[test]
fn update_taken_by_a_watcher_does_not_wait() {
    let mut server = fresh();
    let first = server.watch_game_server().unwrap().into_receiver();
    server.set_game_server(11);
    let second = server.watch_game_server().unwrap().into_receiver();
    assert_eq!(first.try_recv().unwrap().unwrap(), 11);
    assert!(second.try_recv().is_err());
}

#[test]
fn update_waits_when_every_watcher_has_gone() {
    let mut server = fresh();
    let gone = server.watch_game_server().unwrap();
    drop(gone);
    server.set_game_server(12);
    let next = server.watch_game_server().unwrap().into_receiver();
    assert_eq!(next.try_recv().unwrap().unwrap(), 12);
}

#[test]
fn consistent_state_holds_on_a_live_mock() {
    let mut server = fresh();
    server.health().unwrap();
    server.consistent_state();
    assert_eq!(server.calls(), vec![SdkCall::Health(0)]);
}

#[test]
fn gone_watcher_does_not_stop_the_others() {
    let mut server = fresh();
    let gone = server.watch_game_server().unwrap();
    let kept = server.watch_game_server().unwrap().into_receiver();
    drop(gone);
    server.set_game_server(9);
    server.set_game_server(10);
    assert_eq!(kept.try_recv().unwrap().unwrap(), 9);
    assert_eq!(kept.try_recv().unwrap().unwrap(), 10);
    assert_eq!(*server.game_server(), 10);
}

#[test]
fn answer_is_read_without_recording() {
    let mut server = fresh();
    assert!(server.fail_if_needed(FailableSdkCall::Ready).is_ok());
    server.fail(FailableSdkCall::Ready, Status::internal("r"));
    assert_eq!(
        server.fail_if_needed(FailableSdkCall::Ready).unwrap_err().message(),
        "r"
    );
    assert!(server.fail_if_needed(FailableSdkCall::Allocate).is_ok());
    assert_eq!(server.calls(), vec![]);
}
