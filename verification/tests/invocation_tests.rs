use async_app::invocation::{
    build_response_path, classify_lookahead, extract_variant_name, next_tail_step, response_type_name, success_arm,
    CallPath, Lookahead, RequestExpr, ResponsePath, TailStep,
};

fn call(segs: &[&str]) -> RequestExpr {
    RequestExpr::CallOfPath(CallPath {
        leading_colon: false,
        segments: segs.iter().map(|s| s.to_string()).collect(),
    })
}

fn path(segs: &[&str]) -> ResponsePath {
    ResponsePath::Path(CallPath {
        leading_colon: false,
        segments: segs.iter().map(|s| s.to_string()).collect(),
    })
}

#[test]
fn variant_name_is_last_segment() {
    assert_eq!(extract_variant_name(&call(&["AsyncRequest", "StepA"])), Some("StepA".to_string()));
    assert_eq!(extract_variant_name(&call(&["f"])), Some("f".to_string()));
    assert_eq!(extract_variant_name(&call(&[])), None);
    assert_eq!(extract_variant_name(&RequestExpr::Other), None);
}

#[test]
fn response_names() {
    assert_eq!(response_type_name("AsyncRequest"), "AsyncResponse");
    assert_eq!(response_type_name("Foo"), "FooResponse");
    assert_eq!(response_type_name("Request"), "Response");
    assert_eq!(response_type_name("Req"), "ReqResponse");
    assert_eq!(response_type_name("RequestX"), "RequestXResponse");
}

#[test]
fn response_paths() {
    assert_eq!(build_response_path(&call(&["AsyncRequest", "StepA"])), path(&["AsyncResponse"]));
    assert_eq!(
        build_response_path(&call(&["shared", "FooRequest", "Bar"])),
        path(&["shared", "FooResponse"])
    );
    assert_eq!(build_response_path(&call(&["Foo", "Bar"])), path(&["FooResponse"]));
    assert_eq!(build_response_path(&call(&["step"])), ResponsePath::Unknown);
    assert_eq!(build_response_path(&RequestExpr::Other), ResponsePath::Unknown);
    let rooted = RequestExpr::CallOfPath(CallPath {
        leading_colon: true,
        segments: vec!["x".to_string(), "MyRequest".to_string(), "V".to_string()],
    });
    assert_eq!(
        build_response_path(&rooted),
        ResponsePath::Path(CallPath {
            leading_colon: true,
            segments: vec!["x".to_string(), "MyResponse".to_string()],
        })
    );
}

#[test]
fn success_arm_defaults() {
    let a = success_arm(&call(&["AsyncRequest", "StepB"]));
    assert_eq!(a.variant, "StepB");
    assert_eq!(a.response_path, path(&["AsyncResponse"]));
    let a = success_arm(&RequestExpr::Other);
    assert_eq!(a.variant, "UNKNOWN_VARIANT");
    assert_eq!(a.response_path, ResponsePath::Unknown);
}

fn la(paren: bool, lit: bool, ident: bool, on_timeout_form: bool) -> Option<Lookahead> {
    Some(Lookahead { paren, lit, ident, on_timeout_form })
}

#[test]
fn tail_grammar_steps() {
    assert_eq!(next_tail_step(false, None), TailStep::Finish);
    assert_eq!(next_tail_step(true, None), TailStep::Finish);
    assert_eq!(next_tail_step(false, la(true, false, false, false)), TailStep::Callback);
    assert_eq!(next_tail_step(true, la(true, false, false, false)), TailStep::Callback);
    assert_eq!(next_tail_step(false, la(false, true, false, false)), TailStep::Timeout);
    assert_eq!(next_tail_step(true, la(false, true, false, false)), TailStep::Stop);
    assert_eq!(next_tail_step(false, la(false, false, true, false)), TailStep::Timeout);
    assert_eq!(next_tail_step(true, la(false, false, true, false)), TailStep::Stop);
    assert_eq!(next_tail_step(false, la(false, false, true, true)), TailStep::OnTimeout);
    assert_eq!(next_tail_step(true, la(false, false, true, true)), TailStep::OnTimeout);
    assert_eq!(next_tail_step(false, la(false, false, false, false)), TailStep::Stop);
}

#[test]
fn lookahead_recognises_on_timeout_form() {
    let l = classify_lookahead(false, false, Some("on_timeout"), true);
    assert_eq!(l, Lookahead { paren: false, lit: false, ident: true, on_timeout_form: true });
    let l = classify_lookahead(false, false, Some("on_timeout"), false);
    assert!(!l.on_timeout_form && l.ident);
    let l = classify_lookahead(false, false, Some("timeout"), true);
    assert!(!l.on_timeout_form);
    let l = classify_lookahead(false, true, None, false);
    assert_eq!(l, Lookahead { paren: false, lit: true, ident: false, on_timeout_form: false });
}

/// `10, on_timeout => { f(); }` after the request: a timeout, then the
/// on-timeout block, and nothing left.
#[test]
fn timeout_then_on_timeout_block() {
    let mut timeout_seen = false;
    let steps = [
        (classify_lookahead(false, true, None, false), TailStep::Timeout),
        (classify_lookahead(false, false, Some("on_timeout"), true), TailStep::OnTimeout),
    ];
    for (l, expected) in steps {
        let s = next_tail_step(timeout_seen, Some(l));
        assert_eq!(s, expected);
        if s == TailStep::Timeout {
            timeout_seen = true;
        }
    }
    assert_eq!(next_tail_step(timeout_seen, None), TailStep::Finish);
}
