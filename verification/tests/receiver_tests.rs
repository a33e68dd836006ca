use async_app::address::{receiver_address_a, receiver_address_b, receiver_address_c, requester_address, Address};
use async_app::messages::{AsyncRequest, AsyncResponse, Variant};
use async_app::receiver::{kino_local_handler, kino_remote_handler};
use async_app::state::AppState;

#[test]
fn step_a_answers_byte_length() {
    let r = kino_local_handler(AsyncRequest::StepA("Mashed Potatoes".to_string()));
    assert_eq!(r, AsyncResponse::StepA(15));
}

#[test]
fn step_a_counts_bytes_not_characters() {
    let r = kino_local_handler(AsyncRequest::StepA("héllo".to_string()));
    assert_eq!(r, AsyncResponse::StepA(6));
    let r = kino_local_handler(AsyncRequest::StepA(String::new()));
    assert_eq!(r, AsyncResponse::StepA(0));
}

#[test]
fn step_b_doubles() {
    assert_eq!(kino_local_handler(AsyncRequest::StepB(21)), AsyncResponse::StepB(42));
    assert_eq!(kino_local_handler(AsyncRequest::StepB(0)), AsyncResponse::StepB(0));
    assert_eq!(
        kino_local_handler(AsyncRequest::StepB(i32::MAX)),
        AsyncResponse::StepB(4294967294)
    );
}

#[test]
fn step_c_greets_in_decimal() {
    assert_eq!(
        kino_local_handler(AsyncRequest::StepC(30)),
        AsyncResponse::StepC("Hello from the other side C: 30".to_string())
    );
    assert_eq!(
        kino_local_handler(AsyncRequest::StepC(0)),
        AsyncResponse::StepC("Hello from the other side C: 0".to_string())
    );
    assert_eq!(
        kino_local_handler(AsyncRequest::StepC(1000)),
        AsyncResponse::StepC("Hello from the other side C: 1000".to_string())
    );
    assert_eq!(
        kino_local_handler(AsyncRequest::StepC(u64::MAX)),
        AsyncResponse::StepC(format!("Hello from the other side C: {}", u64::MAX))
    );
}

#[test]
fn gather_answers_fixed_greeting() {
    assert_eq!(
        kino_local_handler(AsyncRequest::Gather(())),
        AsyncResponse::Gather(Ok("Hello from A".to_string()))
    );
}

#[test]
fn answers_carry_the_request_variant() {
    let requests = vec![
        AsyncRequest::StepA("x".to_string()),
        AsyncRequest::StepB(3),
        AsyncRequest::StepC(4),
        AsyncRequest::Gather(()),
    ];
    for r in requests {
        let v: Variant = r.variant();
        assert_eq!(kino_local_handler(r).variant(), v);
    }
}

#[test]
fn remote_handler_logs_and_keeps_state() {
    let mut state = AppState { counter: 7 };
    let line = kino_remote_handler(&mut state, "anything".to_string());
    assert_eq!(line, "Hi2");
    assert_eq!(state, AppState { counter: 7 });
}

fn parts(a: &Address) -> (&str, &str, &str, &str) {
    (&a.node, &a.process_name, &a.package_name, &a.publisher_node)
}

#[test]
fn addresses_of_the_package() {
    assert_eq!(parts(&receiver_address_a()), ("our", "async-receiver-a", "async-app", "uncentered.os"));
    assert_eq!(parts(&receiver_address_b()), ("our", "async-receiver-b", "async-app", "uncentered.os"));
    assert_eq!(parts(&receiver_address_c()), ("our", "async-receiver-c", "async-app", "uncentered.os"));
    assert_eq!(parts(&requester_address()), ("our", "async-requester", "async-app", "uncentered.os"));
    let a = Address::from_parts("n", "p", "k", "s");
    assert_eq!(parts(&a), ("n", "p", "k", "s"));
}
