use async_app::address::Address;
use async_app::router::{
    decide_api_call, json_blob, route_message, server_setup, ws_update, ApiDecision, Route,
    WsMessageKind, BAD_REQUEST,
};
use async_app::state::{startup_state, AppState, ProcessState, State, Startup};

#[test]
fn routing() {
    let our = Address::from_parts("node1", "app", "pkg", "pub");
    let http = Address::from_parts("node1", "http_server", "distro", "sys");
    let other_local = Address::from_parts("node1", "terminal", "terminal", "sys");
    let remote = Address::from_parts("node2", "http_server", "distro", "sys");
    assert_eq!(route_message(&our, &http), Route::HttpApi);
    assert_eq!(route_message(&our, &other_local), Route::Ignore);
    assert_eq!(route_message(&our, &remote), Route::Remote);
    let tricky = Address::from_parts("node1", "http_server:distro", "sys", "");
    assert_eq!(route_message(&our, &tricky), Route::Ignore);
}

#[test]
fn api_calls() {
    assert_eq!(decide_api_call::<u32, ()>(None), ApiDecision::Reject { status: 400 });
    assert_eq!(decide_api_call::<u32, ()>(Some(Err(()))), ApiDecision::Reject { status: BAD_REQUEST });
    assert_eq!(decide_api_call::<u32, ()>(Some(Ok(7))), ApiDecision::Call(7));
}

#[test]
fn outgoing_payloads() {
    let b = json_blob(vec![1, 2, 3]);
    assert_eq!(b.mime.as_deref(), Some("application/json"));
    assert_eq!(b.bytes, vec![1, 2, 3]);
    let p = ws_update(b"{}".to_vec());
    assert_eq!(p.path, "/updates");
    assert_eq!(p.kind, WsMessageKind::Text);
    assert_eq!(p.blob.mime.as_deref(), Some("application/json"));
    assert_eq!(p.blob.bytes, b"{}".to_vec());
}

#[test]
fn setup_paths() {
    let s = server_setup();
    assert_eq!(s.timeout_secs, 5);
    assert_eq!(s.ui_directory, "ui");
    assert_eq!(s.ui_paths, vec!["/".to_string()]);
    assert_eq!(s.api_path, "/api");
    assert_eq!(s.ws_path, "/updates");
    assert_eq!(s.homepage_path, "/");
}

#[test]
fn startup_keeps_loaded_state_but_persists_fresh() {
    let our = Address::from_parts("n", "p", "k", "s");
    let r: Startup<ProcessState> = startup_state(our, Some(ProcessState { counter: 9 }));
    assert_eq!(r.state, ProcessState { counter: 9 });
    assert_eq!(r.persist, Some(ProcessState { counter: 0 }));
    let our = Address::from_parts("n", "p", "k", "s");
    let r: Startup<AppState> = startup_state(our, None);
    assert_eq!(r.state, AppState { counter: 0 });
    assert_eq!(r.persist, None);
    let our = Address::from_parts("n", "p", "k", "s");
    assert_eq!(AppState::new(our), AppState { counter: 0 });
}
