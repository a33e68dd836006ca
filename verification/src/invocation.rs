//! The `send_async!` invocation: the grammar of its optional tail and the
//! names its expansion derives from the request expression.
//!
//! An invocation reads `destination, Request::Variant(payload)` followed,
//! after a comma, by any of: a callback `(resp, st: StateType) { ... }`, a
//! timeout expression, and `on_timeout => { ... }`, each optionally
//! followed by a comma. The expansion answers `Variant` requests with the
//! `Variant` of the matching response enum, whose name replaces a trailing
//! `Request` of the request enum's name by `Response`.
use vstd::prelude::*;
use vstd::string::*;

verus! {

/// The path of the function that a request expression calls, when it is a
/// call of a path such as `AsyncRequest::StepA(..)`: each segment by its
/// identifier.
#[derive(Debug, PartialEq, Eq)]
pub struct CallPath {
    pub leading_colon: bool,
    pub segments: Vec<String>,
}

/// A request expression, as far as the expansion reads it.
#[derive(Debug, PartialEq, Eq)]
pub enum RequestExpr {
    /// A call whose function is a path.
    CallOfPath(CallPath),
    /// Any other expression.
    Other,
}

/// The segments of a call path, each by its identifier.
pub open spec fn segments_view(p: CallPath) -> Seq<Seq<char>> {
    p.segments@.map_values(|s: String| s@)
}

/// The last segment of the called path: the variant's name.
pub open spec fn variant_name(e: RequestExpr) -> Option<Seq<char>> {
    match e {
        RequestExpr::CallOfPath(p) => if segments_view(p).len() > 0 {
            Some(segments_view(p).last())
        } else {
            None
        },
        RequestExpr::Other => None,
    }
}

/// The name of the response type that answers requests of type `n`: a
/// trailing `Request` is replaced by `Response`, and `Response` is appended
/// to any other name.
pub open spec fn response_name(n: Seq<char>) -> Seq<char> {
    if n.len() >= 7 && n.subrange(n.len() - 7, n.len() as int) == "Request"@ {
        n.subrange(0, n.len() - 7) + "Response"@
    } else {
        n + "Response"@
    }
}

/// The path of the response type for a call path with at least two
/// segments: the segments before the enum's, then the response name of the
/// enum's segment (the variant's segment is dropped).
pub open spec fn response_segments(segs: Seq<Seq<char>>) -> Seq<Seq<char>> {
    segs.subrange(0, segs.len() - 2).push(response_name(segs[segs.len() - 2]))
}

/// The type whose variants answer a request expression.
#[derive(Debug, PartialEq, Eq)]
pub enum ResponsePath {
    /// The expression names no request enum (`UNKNOWN_RESPONSE`).
    Unknown,
    /// The path of the response enum.
    Path(CallPath),
}

/// The response path that the expansion derives from a request expression.
pub open spec fn response_path_of(e: RequestExpr) -> Option<(bool, Seq<Seq<char>>)> {
    match e {
        RequestExpr::CallOfPath(p) => if segments_view(p).len() >= 2 {
            Some((p.leading_colon, response_segments(segments_view(p))))
        } else {
            None
        },
        RequestExpr::Other => None,
    }
}

/// The view of a response path: `None` for an unknown one.
pub open spec fn response_path_view(r: ResponsePath) -> Option<(bool, Seq<Seq<char>>)> {
    match r {
        ResponsePath::Unknown => None,
        ResponsePath::Path(p) => Some((p.leading_colon, segments_view(p))),
    }
}

fn copy_string(s: &String) -> (r: String)
    ensures
        r@ == s@,
{
    String::from_str(s.as_str())
}

/// The name of the variant that a request expression builds, e.g. `StepA`
/// for `AsyncRequest::StepA(..)`; `None` when it is no call of a path.
pub fn extract_variant_name(expr: &RequestExpr) -> (r: Option<String>)
    ensures
        match r {
            Some(s) => variant_name(*expr) == Some(s@),
            None => variant_name(*expr) is None,
        },
        match *expr {
            RequestExpr::CallOfPath(p) => if p.segments@.len() > 0 {
                r matches Some(s) && s@ == p.segments@[p.segments@.len() - 1]@
            } else {
                r is None
            },
            RequestExpr::Other => r is None,
        },
{
    match expr {
        RequestExpr::CallOfPath(p) => {
            let n = p.segments.len();
            if n > 0 {
                Some(copy_string(&p.segments[n - 1]))
            } else {
                None
            }
        },
        RequestExpr::Other => None,
    }
}

/// Whether `name` ends with `Request`.
fn ends_with_request(name: &str) -> (r: bool)
    ensures
        r == (name@.len() >= 7 && name@.subrange(name@.len() - 7, name@.len() as int) == "Request"@),
{
    let n = name.unicode_len();
    if n < 7 {
        return false;
    }
    let tail = String::from_str(name.substring_char(n - 7, n));
    let suffix = String::from_str("Request");
    tail == suffix
}

/// The name of the response type answering requests of type `name`:
/// `FooRequest` gives `FooResponse`, and `Foo` gives `FooResponse`.
pub fn response_type_name(name: &str) -> (r: String)
    ensures
        r@ == response_name(name@),
{
    let n = name.unicode_len();
    if ends_with_request(name) {
        let base = String::from_str(name.substring_char(0, n - 7));
        base.concat("Response")
    } else {
        String::from_str(name).concat("Response")
    }
}

/// The path of the type whose variants answer the request expression:
/// `a::FooRequest::Bar(..)` gives `a::FooResponse`; an expression that is
/// no call of a path of at least two segments gives `Unknown`.
pub fn build_response_path(expr: &RequestExpr) -> (r: ResponsePath)
    ensures
        response_path_view(r) == response_path_of(*expr),
        match *expr {
            RequestExpr::CallOfPath(p) => if p.segments@.len() >= 2 {
                let n = p.segments@.len();
                &&& r matches ResponsePath::Path(q)
                &&& q.leading_colon == p.leading_colon
                &&& q.segments@.len() == n - 1
                &&& forall|j: int| 0 <= j < n - 2 ==> #[trigger] q.segments@[j]@ == p.segments@[j]@
                &&& q.segments@[n - 2]@ == response_name(p.segments@[n - 2]@)
            } else {
                r is Unknown
            },
            RequestExpr::Other => r is Unknown,
        },
{
    match expr {
        RequestExpr::CallOfPath(p) => {
            let n = p.segments.len();
            if n < 2 {
                return ResponsePath::Unknown;
            }
            let mut segments: Vec<String> = Vec::new();
            let mut i: usize = 0;
            while i < n - 2
                invariant
                    n == p.segments@.len(),
                    n >= 2,
                    i <= n - 2,
                    segments@.len() == i,
                    forall|j: int| 0 <= j < i ==> #[trigger] segments@[j]@ == p.segments@[j]@,
                decreases n - 2 - i,
            {
                segments.push(copy_string(&p.segments[i]));
                i = i + 1;
            }
            segments.push(response_type_name(p.segments[n - 2].as_str()));
            let r = CallPath { leading_colon: p.leading_colon, segments };
            assert(segments_view(r) =~= response_segments(segments_view(*p)));
            assert forall|j: int| 0 <= j < n - 2 implies #[trigger] r.segments@[j]@ == p.segments@[j]@ by {
                assert(segments_view(r)[j] == segments_view(*p)[j]);
            }
            ResponsePath::Path(r)
        },
        RequestExpr::Other => ResponsePath::Unknown,
    }
}

/// The variant named in the success arm when the request expression names
/// none.
pub open spec fn unknown_variant() -> Seq<char> {
    "UNKNOWN_VARIANT"@
}

/// The names the expansion uses in the arm that accepts the answer:
/// `ResponsePath::Variant(inner) => inner`.
#[derive(Debug, PartialEq, Eq)]
pub struct SuccessArm {
    pub response_path: ResponsePath,
    pub variant: String,
}

/// The success arm of the expansion: the response path and the variant
/// name, `UNKNOWN_VARIANT` when the request names none.
pub fn success_arm(expr: &RequestExpr) -> (a: SuccessArm)
    ensures
        response_path_view(a.response_path) == response_path_of(*expr),
        a.variant@ == (match variant_name(*expr) {
            Some(v) => v,
            None => unknown_variant(),
        }),
{
    let variant = match extract_variant_name(expr) {
        Some(v) => v,
        None => {
            proof {
                reveal_strlit("UNKNOWN_VARIANT");
            }
            String::from_str("UNKNOWN_VARIANT")
        },
    };
    SuccessArm { response_path: build_response_path(expr), variant }
}

/// What comes next in an invocation's tail, as the parser peeks it.
#[derive(Debug, Clone, Copy, PartialEq, Eq, Structural)]
pub struct Lookahead {
    /// A parenthesised group: the header of a callback.
    pub paren: bool,
    /// A literal.
    pub lit: bool,
    /// An identifier.
    pub ident: bool,
    /// The identifier `on_timeout` followed by `=>`.
    pub on_timeout_form: bool,
}

/// The lookahead of a tail from what the parser peeks: whether a
/// parenthesised group or a literal comes next, the text of the identifier
/// that comes next (if one does), and whether `=>` follows that identifier.
pub fn classify_lookahead(paren: bool, lit: bool, ident: Option<&str>, fat_arrow_follows: bool) -> (la: Lookahead)
    ensures
        la.paren == paren,
        la.lit == lit,
        la.ident == ident is Some,
        la.on_timeout_form == (ident matches Some(i) && i@ == "on_timeout"@ && fat_arrow_follows),
{
    let on_timeout_form = match ident {
        Some(i) => fat_arrow_follows && String::from_str(i) == String::from_str("on_timeout"),
        None => false,
    };
    Lookahead { paren, lit, ident: ident.is_some(), on_timeout_form }
}

/// What the parser does next in an invocation's tail.
#[derive(Clone, Copy, PartialEq, Eq, Structural, Debug)]
pub enum TailStep {
    /// The tail is consumed: the invocation is complete.
    Finish,
    /// Parse `(resp, st: StateType) { ... }`; it replaces an earlier callback.
    Callback,
    /// Parse an expression as the timeout.
    Timeout,
    /// Parse `on_timeout => { ... }`; it replaces an earlier block.
    OnTimeout,
    /// Stop parsing; any tokens left make the invocation invalid.
    Stop,
}

/// The grammar of an invocation's tail, one piece at a time: a callback
/// starts with a parenthesised group, the on-timeout block with
/// `on_timeout =>`, and the timeout is any other expression that starts
/// with a literal or an identifier, of which there is at most one. The
/// tail is complete when nothing is left; anything else ends the parse.
pub open spec fn tail_step(timeout_seen: bool, next: Option<Lookahead>) -> TailStep {
    match next {
        None => TailStep::Finish,
        Some(la) => {
            if la.paren {
                TailStep::Callback
            } else if la.on_timeout_form {
                TailStep::OnTimeout
            } else if (la.lit || la.ident) && !timeout_seen {
                TailStep::Timeout
            } else {
                TailStep::Stop
            }
        },
    }
}

/// Decides the next step of parsing an invocation's tail, given whether a
/// timeout was already parsed and what comes next (`None` when the tail is
/// consumed).
pub fn next_tail_step(timeout_seen: bool, next: Option<Lookahead>) -> (s: TailStep)
    ensures
        s == tail_step(timeout_seen, next),
{
    let la = match next {
        None => return TailStep::Finish,
        Some(la) => la,
    };
    if la.paren {
        return TailStep::Callback;
    }
    if la.on_timeout_form {
        return TailStep::OnTimeout;
    }
    if timeout_seen || !(la.lit || la.ident) {
        TailStep::Stop
    } else {
        TailStep::Timeout
    }
}

} // verus!
