use async_app::pending::PendingCallbacks;
use async_app::requester::{Callback, Continuation};

fn is_v4(id: &str) -> bool {
    let c: Vec<char> = id.chars().collect();
    c.len() == 36
        && c.iter().enumerate().all(|(i, ch)| {
            if i == 8 || i == 13 || i == 18 || i == 23 {
                *ch == '-'
            } else {
                ch.is_ascii_digit() || ('a'..='f').contains(ch)
            }
        })
        && c[14] == '4'
        && "89ab".contains(c[19])
}

#[test]
fn register_then_take() {
    let mut p = PendingCallbacks::new();
    p.register("a".to_string(), Continuation::Response(Callback::OnStepA));
    p.register("b".to_string(), Continuation::Response(Callback::OnStepB));
    assert_eq!(p.take(&"a".to_string()), Some(Continuation::Response(Callback::OnStepA)));
    assert_eq!(p.take(&"a".to_string()), None);
    assert_eq!(p.take(&"b".to_string()), Some(Continuation::Response(Callback::OnStepB)));
    assert_eq!(p.take(&"c".to_string()), None);
}

#[test]
fn register_replaces() {
    let mut p = PendingCallbacks::new();
    p.register("a".to_string(), Continuation::Response(Callback::OnStepA));
    p.register("a".to_string(), Continuation::Response(Callback::OnStepC));
    assert_eq!(p.take(&"a".to_string()), Some(Continuation::Response(Callback::OnStepC)));
    assert_eq!(p.take(&"a".to_string()), None);
}

#[test]
fn prepared_sends_get_fresh_v4_ids() {
    let mut p = PendingCallbacks::new();
    let a = p.prepare_send(Continuation::Response(Callback::OnStepA));
    let b = p.prepare_send(Continuation::Response(Callback::OnStepB));
    assert!(is_v4(&a), "{}", a);
    assert!(is_v4(&b), "{}", b);
    assert_ne!(a, b);
    assert_eq!(p.take(&b), Some(Continuation::Response(Callback::OnStepB)));
    assert_eq!(p.take(&a), Some(Continuation::Response(Callback::OnStepA)));
}

#[test]
fn timers_and_fanout_parts_wait_too() {
    let mut p = PendingCallbacks::new();
    let t = p.prepare_send(Continuation::Timer);
    let f = p.prepare_send(Continuation::FanOutPart(3));
    assert_eq!(p.take(&f), Some(Continuation::FanOutPart(3)));
    assert_eq!(p.take(&t), Some(Continuation::Timer));
    assert_eq!(p.take(&t), None);
}
