use mock_agones::calls::{FailableSdkCall, SdkCall};
use mock_agones::sdk::{Duration, KeyValue};
use mock_agones::server::{HealthRead, MockSdk};
use tonic::Status;

#[derive(Clone, Debug, PartialEq, Default)]
struct ObjectMeta {
    name: String,
}

#[derive(Clone, Debug, PartialEq, Default)]
struct GameServer {
    object_meta: Option<ObjectMeta>,
}

fn named_game_server(name: &str) -> GameServer {
    GameServer {
        object_meta: Some(ObjectMeta {
            name: name.to_string(),
        }),
    }
}

fn fresh() -> MockSdk<GameServer> {
    MockSdk::new(GameServer::default())
}

#[test]
fn fresh_server_has_no_calls() {
    let server = fresh();
    assert_eq!(server.calls(), vec![]);
}

#[test]
fn call_to_ready_is_recorded() {
    let mut server = fresh();
    server.ready().unwrap();
    assert_eq!(server.calls(), vec![SdkCall::Ready]);
}

#[test]
fn call_to_ready_fails() {
    let mut server = fresh();
    server.fail(FailableSdkCall::Ready, Status::internal("qwert"));
    let result = server.ready();
    assert!(result.is_err());
}

#[test]
fn failed_call_to_ready_is_recorded() {
    let mut server = fresh();
    server.fail(FailableSdkCall::Ready, Status::internal("qwert"));
    server.ready().unwrap_err();
    assert_eq!(server.calls(), vec![SdkCall::Ready]);
}

#[test]
fn call_to_allocate_is_recorded() {
    let mut server = fresh();
    server.allocate().unwrap();
    assert_eq!(server.calls(), vec![SdkCall::Allocate]);
}

#[test]
fn call_to_shutdown_is_recorded() {
    let mut server = fresh();
    server.shutdown().unwrap();
    assert_eq!(server.calls(), vec![SdkCall::Shutdown]);
}

#[test]
fn call_to_health_is_recorded() {
    let mut server = fresh();
    let stream = server.health().unwrap();
    assert!(server.health_message(stream, HealthRead::Message));
    assert_eq!(server.calls(), vec![SdkCall::Health(1)]);
}

#[test]
fn call_to_get_game_server_returns_default() {
    let server = fresh();
    let game_server = server.get_game_server().unwrap();
    assert_eq!(*game_server, GameServer::default());
}

#[test]
fn call_to_get_game_server_can_be_overridden() {
    let mut server = fresh();
    let game_server = named_game_server("abcde");
    assert_ne!(game_server, GameServer::default());
    server.set_game_server(game_server.clone());
    let retrieved_game_server = server.get_game_server().unwrap().clone();
    assert_eq!(
        retrieved_game_server.object_meta.unwrap().name,
        game_server.object_meta.unwrap().name
    );
}

#[test]
fn call_to_watch_game_server_is_recorded() {
    let mut server = fresh();
    server.watch_game_server().unwrap();
    assert_eq!(server.calls(), vec![SdkCall::WatchGameServer]);
}

#[test]
fn call_to_watch_game_server_returns_updated_game_server() {
    let mut server = fresh();
    let game_server = named_game_server("fghij");
    assert_ne!(game_server, GameServer::default());
    let stream = server.watch_game_server().unwrap().into_receiver();
    server.set_game_server(game_server.clone());
    let retrieved_game_server = stream.try_recv().unwrap().unwrap();
    assert_eq!(
        retrieved_game_server.object_meta.unwrap().name,
        game_server.object_meta.unwrap().name
    );
}

#[test]
fn call_to_watch_game_server_fails_on_stream_error_call() {
    let mut server = fresh();
    let stream = server.watch_game_server().unwrap().into_receiver();
    server.stream_watch_game_server_error(Status::internal("klmno"));
    let result = stream.try_recv().unwrap();
    assert!(result.is_err());
}

#[test]
fn call_to_set_label_is_recorded() {
    let mut server = fresh();
    let key = "pqrs".to_string();
    let value = "tuvw".to_string();
    server
        .set_label(KeyValue {
            key: key.clone(),
            value: value.clone(),
        })
        .unwrap();
    assert_eq!(
        server.calls(),
        vec![SdkCall::SetLabel(KeyValue { key, value })]
    );
}

#[test]
fn call_to_set_annotation_is_recorded() {
    let mut server = fresh();
    let key = "xyza".to_string();
    let value = "bcdef".to_string();
    server
        .set_annotation(KeyValue {
            key: key.clone(),
            value: value.clone(),
        })
        .unwrap();
    assert_eq!(
        server.calls(),
        vec![SdkCall::SetAnnotation(KeyValue { key, value })]
    );
}

#[test]
fn call_to_reserve_is_recorded() {
    let mut server = fresh();
    let seconds: u64 = 617;
    let duration = std::time::Duration::from_secs(seconds);
    server
        .reserve(Duration {
            seconds: duration.as_secs() as i64,
        })
        .unwrap();
    assert_eq!(
        server.calls(),
        vec![SdkCall::Reserve(Duration {
            seconds: seconds as i64
        })]
    );
}
