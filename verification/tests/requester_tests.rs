use async_app::address::receiver_address_a;
use async_app::messages::{AsyncRequest, AsyncResponse, Variant};
use async_app::receiver::kino_local_handler;
use async_app::requester::{
    fanout_message, message_a, on_fanout_complete, on_step_a, on_step_b, on_step_c, on_timer,
    repeated_timer, run_callback, Callback, CallbackError, Continuation, FanOutProgress, Outgoing,
    SubResult, DEFAULT_TIMEOUT_SECS,
};
use async_app::state::ProcessState;

#[test]
fn message_a_starts_the_chain() {
    let out = message_a();
    assert_eq!(out.destination, receiver_address_a());
    assert_eq!(out.request, AsyncRequest::StepA("Mashed Potatoes".to_string()));
    assert_eq!(out.on_response, Callback::OnStepA);
    assert_eq!(out.timeout_secs, 30);
    assert_eq!(DEFAULT_TIMEOUT_SECS, 30);
}

#[test]
fn each_step_counts_once_and_sends_the_next() {
    let mut st = ProcessState { counter: 10 };
    let out = on_step_a(15, &mut st);
    assert_eq!(st.counter, 11);
    assert_eq!(out.request, AsyncRequest::StepB(15));
    assert_eq!(out.on_response, Callback::OnStepB);
    let out = on_step_b(30, &mut st);
    assert_eq!(st.counter, 12);
    assert_eq!(out.request, AsyncRequest::StepC(30));
    assert_eq!(out.on_response, Callback::OnStepC);
    on_step_c("done".to_string(), &mut st);
    assert_eq!(st.counter, 13);
}

#[test]
fn whole_chain_against_receiver_a() {
    let mut st = ProcessState { counter: 0 };
    let mut next: Option<Outgoing> = Some(message_a());
    let mut last = None;
    let mut rounds = 0;
    while let Some(out) = next {
        let answer = kino_local_handler(out.request);
        last = Some(answer.clone_for_test());
        next = run_callback(out.on_response, answer, &mut st).unwrap();
        rounds += 1;
    }
    assert_eq!(rounds, 3);
    assert_eq!(st.counter, 3);
    assert_eq!(
        last,
        Some(AsyncResponse::StepC("Hello from the other side C: 30".to_string()))
    );
}

trait CloneForTest {
    fn clone_for_test(&self) -> Self;
}

impl CloneForTest for AsyncResponse {
    fn clone_for_test(&self) -> Self {
        match self {
            AsyncResponse::StepA(v) => AsyncResponse::StepA(*v),
            AsyncResponse::StepB(v) => AsyncResponse::StepB(*v),
            AsyncResponse::StepC(s) => AsyncResponse::StepC(s.clone()),
            AsyncResponse::Gather(r) => AsyncResponse::Gather(r.clone()),
        }
    }
}

#[test]
fn wrong_variant_is_reported_and_state_kept() {
    let mut st = ProcessState { counter: 5 };
    let r = run_callback(Callback::OnStepA, AsyncResponse::StepB(1), &mut st);
    assert_eq!(
        r,
        Err(CallbackError::WrongVariant { expected: Variant::StepA, got: Variant::StepB })
    );
    assert_eq!(st.counter, 5);
    let r = run_callback(
        Callback::OnStepC,
        AsyncResponse::Gather(Ok("x".to_string())),
        &mut st,
    );
    assert_eq!(
        r,
        Err(CallbackError::WrongVariant { expected: Variant::StepC, got: Variant::Gather })
    );
    assert_eq!(st.counter, 5);
}

#[test]
fn last_callback_ends_the_chain() {
    let mut st = ProcessState { counter: 1 };
    let r = run_callback(Callback::OnStepC, AsyncResponse::StepC("hi".to_string()), &mut st);
    assert_eq!(r, Ok(None));
    assert_eq!(st.counter, 2);
}

#[test]
fn fanout_targets_five_processes() {
    let f = fanout_message();
    let names: Vec<&str> = f.destinations.iter().map(|a| a.process_name.as_str()).collect();
    assert_eq!(
        names,
        vec![
            "async-receiver-zzz",
            "async-receiver-a",
            "async-receiver-b",
            "async-receiver-c",
            "async-receiver-zzz123"
        ]
    );
    assert!(f.destinations.iter().all(|a| a.node == "our"
        && a.package_name == "async-app"
        && a.publisher_node == "uncentered.os"));
    assert_eq!(f.requests.len(), 5);
    assert!(f.requests.iter().all(|r| *r == AsyncRequest::Gather(())));
    assert_eq!(f.timeout_secs, 5);
    let mut st = ProcessState { counter: 2 };
    on_fanout_complete(&Vec::new(), &mut st);
    assert_eq!(st.counter, 3);
}

#[test]
fn timer_rearms_and_counts() {
    let mut st = ProcessState { counter: 4 };
    let t = repeated_timer(&mut st);
    assert_eq!(t.millis, 3000);
    assert_eq!(t.on_fire, Continuation::Timer);
    assert_eq!(st.counter, 4);
    for k in 1..=10u64 {
        let t = on_timer(&mut st);
        assert_eq!(t.millis, 3000);
        assert_eq!(t.on_fire, Continuation::Timer);
        assert_eq!(st.counter, 4 + k);
    }
}

#[test]
fn fanout_completes_once_whatever_came_back() {
    let mut st = ProcessState { counter: 7 };
    let mut p = FanOutProgress::new(5);
    let order = [3usize, 0, 3, 9, 1, 4, 0];
    for i in order {
        let r = if i == 1 { SubResult::Answered(AsyncResponse::Gather(Ok("Hello from A".to_string()))) } else { SubResult::Failed };
        assert!(!p.record(i, r, &mut st));
    }
    assert_eq!(st.counter, 7);
    assert!(p.record(2, SubResult::Failed, &mut st));
    assert_eq!(st.counter, 8);
    assert!(!p.record(2, SubResult::Failed, &mut st));
    assert!(!p.record(0, SubResult::Failed, &mut st));
    assert_eq!(st.counter, 8);
    let results = p.results();
    assert_eq!(results.len(), 5);
    assert_eq!(
        results[1],
        Some(SubResult::Answered(AsyncResponse::Gather(Ok("Hello from A".to_string()))))
    );
    assert!(results.iter().all(|r| r.is_some()));
}

#[test]
fn first_result_of_a_request_is_kept() {
    let mut st = ProcessState { counter: 0 };
    let mut p = FanOutProgress::new(2);
    p.record(0, SubResult::Failed, &mut st);
    p.record(0, SubResult::Answered(AsyncResponse::StepA(1)), &mut st);
    assert_eq!(p.results()[0], Some(SubResult::Failed));
    assert_eq!(p.results()[1], None);
    assert_eq!(st.counter, 0);
}
