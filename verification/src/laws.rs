//! Properties that span several functions of the library.
use vstd::prelude::*;
use vstd::string::*;
use crate::invocation::{CallPath, RequestExpr, response_name, response_path_of, variant_name};
use crate::receiver::{decimal, digit_char};
use crate::router::{Route, route};
use crate::address::AddressView;
use vstd::utf8::{encode_utf8, is_ascii_chars, is_ascii_chars_encode_utf8};
use crate::messages::{AsyncRequestView, AsyncResponseView, request_variant, response_variant};
use crate::receiver::{local_request_ok, local_response};
use crate::requester::{
    Callback, CallbackError, Continuation, Outgoing, TimerRequest, all_filled, callback_accepts,
    callback_outcome, completes, fill, is_repeating_timer, sends_to_a, timer_fired,
};
use crate::state::ProcessState;

verus! {

/// Receiver A answers every request it can answer with the variant of that
/// request, which is the variant the sender's callback waits for.
pub proof fn lemma_receiver_answers_in_kind(r: AsyncRequestView)
    requires
        local_request_ok(r),
    ensures
        response_variant(local_response(r)) == request_variant(r),
{
}

/// Whether `out` is one of the requests that the requester's chain sends:
/// `StepA` from `message_a`, `StepB` from `on_step_a`, `StepC` from
/// `on_step_b`, each to receiver A with the callback for the next step.
pub open spec fn chain_request(out: Outgoing) -> bool {
    ||| exists|s: Seq<char>| sends_to_a(out, AsyncRequestView::StepA(s), Callback::OnStepA)
    ||| exists|v: i32| sends_to_a(out, AsyncRequestView::StepB(v), Callback::OnStepB)
    ||| exists|v: u64| sends_to_a(out, AsyncRequestView::StepC(v), Callback::OnStepC)
}

/// The callback that the chain registers with each of its requests accepts
/// receiver A's answer to that request.
pub proof fn lemma_chain_answers_accepted(out: Outgoing)
    requires
        chain_request(out),
        local_request_ok(out.request@),
    ensures
        callback_accepts(out.on_response, local_response(out.request@)),
{
}

/// A callback registered under an id is the one taken back under that id,
/// and taking it leaves the other waiting callbacks as they were.
pub proof fn lemma_take_after_register(
    pending: Map<Seq<char>, Continuation>,
    id: Seq<char>,
    cb: Continuation,
)
    ensures
        pending.insert(id, cb).dom().contains(id),
        pending.insert(id, cb)[id] == cb,
        pending.insert(id, cb).remove(id) == pending.remove(id),
{
    assert(pending.insert(id, cb).remove(id) =~= pending.remove(id));
}

/// The response type of `FooRequest` is `FooResponse`.
pub proof fn lemma_response_name_of_request(base: Seq<char>)
    ensures
        response_name(base + "Request"@) == base + "Response"@,
{
    reveal_strlit("Request");
    let n = base + "Request"@;
    assert(n.subrange(n.len() - 7, n.len() as int) =~= "Request"@);
    assert(n.subrange(0, n.len() - 7) =~= base);
}

/// Every response type name ends with `Response`.
pub proof fn lemma_response_name_suffix(n: Seq<char>)
    ensures
        ({
            let r = response_name(n);
            r.len() >= 8 && r.subrange(r.len() - 8, r.len() as int) == "Response"@
        }),
{
    reveal_strlit("Response");
    let r = response_name(n);
    if n.len() >= 7 && n.subrange(n.len() - 7, n.len() as int) == "Request"@ {
        assert(r.subrange(r.len() - 8, r.len() as int) =~= "Response"@);
    } else {
        assert(r.subrange(r.len() - 8, r.len() as int) =~= "Response"@);
    }
}

/// The callback that `message_a` registers, run on an answer: on
/// `StepA(n)` it is `on_step_a(n, ..)`, counting once and sending `StepB(n)`
/// to receiver A for `on_step_b`; on any other answer it reports the
/// mismatch and leaves the state as it was.
pub proof fn lemma_message_a_callback(
    out: Outgoing,
    resp: AsyncResponseView,
    before: ProcessState,
    after: ProcessState,
    r: Result<Option<Outgoing>, CallbackError>,
)
    requires
        sends_to_a(out, AsyncRequestView::StepA("Mashed Potatoes"@), Callback::OnStepA),
        callback_outcome(out.on_response, resp, before, after, r),
    ensures
        resp matches AsyncResponseView::StepA(n) ==> {
            &&& after.counter == before.counter + 1
            &&& r matches Ok(Some(next)) && sends_to_a(next, AsyncRequestView::StepB(n), Callback::OnStepB)
        },
        !(resp is StepA) ==> after == before && r is Err,
{
}

/// Filling the slots `idxs` one after another, in order.
pub open spec fn fill_all(f: Seq<bool>, idxs: Seq<int>) -> Seq<bool>
    decreases idxs.len(),
{
    if idxs.len() == 0 {
        f
    } else {
        fill_all(fill(f, idxs[0]), idxs.drop_first())
    }
}

/// How many of the results for `idxs`, recorded in order, complete the
/// fan-out.
pub open spec fn completions(f: Seq<bool>, idxs: Seq<int>) -> nat
    decreases idxs.len(),
{
    if idxs.len() == 0 {
        0
    } else {
        (if completes(f, idxs[0]) { 1nat } else { 0nat }) + completions(fill(f, idxs[0]), idxs.drop_first())
    }
}

proof fn lemma_fill_all_slots(f: Seq<bool>, idxs: Seq<int>)
    ensures
        fill_all(f, idxs).len() == f.len(),
        forall|j: int| 0 <= j < f.len() ==> #[trigger] fill_all(f, idxs)[j] == (f[j] || idxs.contains(j)),
    decreases idxs.len(),
{
    if idxs.len() > 0 {
        let g = fill(f, idxs[0]);
        lemma_fill_all_slots(g, idxs.drop_first());
        assert forall|j: int| 0 <= j < f.len() implies #[trigger] fill_all(f, idxs)[j] == (f[j] || idxs.contains(j)) by {
            if idxs.drop_first().contains(j) {
                let k = choose|k: int| 0 <= k < idxs.drop_first().len() && idxs.drop_first()[k] == j;
                assert(idxs[k + 1] == j);
            }
            if idxs.contains(j) && idxs[0] != j {
                let k = choose|k: int| 0 <= k < idxs.len() && idxs[k] == j;
                assert(idxs.drop_first()[k - 1] == j);
            }
            if idxs[0] == j {
                assert(idxs.contains(j));
            }
        }
    }
}

proof fn lemma_completions(f: Seq<bool>, idxs: Seq<int>)
    ensures
        completions(f, idxs) == (if f.len() > 0 && !all_filled(f) && all_filled(fill_all(f, idxs)) {
            1nat
        } else {
            0nat
        }),
    decreases idxs.len(),
{
    if idxs.len() > 0 {
        let g = fill(f, idxs[0]);
        lemma_completions(g, idxs.drop_first());
        lemma_fill_all_slots(g, idxs.drop_first());
        assert(g.len() == f.len());
        if all_filled(g) {
            assert forall|j: int| 0 <= j < g.len() implies #[trigger] fill_all(g, idxs.drop_first())[j] by {
                assert(g[j]);
            }
        }
        if all_filled(f) {
            assert forall|j: int| 0 <= j < g.len() implies #[trigger] g[j] by {
                assert(f[j]);
            }
        }
    }
}

/// Recording the results of a fan-out of `n > 0` requests, in any order
/// and with repeats, until each request has one, completes it exactly once:
/// its completion runs once and counts once, whatever came back.
pub proof fn lemma_fanout_completes_once(n: nat, idxs: Seq<int>)
    requires
        n > 0,
        forall|j: int| 0 <= j < n ==> idxs.contains(j),
    ensures
        completions(Seq::new(n, |j: int| false), idxs) == 1,
        all_filled(fill_all(Seq::new(n, |j: int| false), idxs)),
{
    let f = Seq::new(n, |j: int| false);
    lemma_completions(f, idxs);
    lemma_fill_all_slots(f, idxs);
    assert(!f[0]);
    assert forall|j: int| 0 <= j < n implies #[trigger] fill_all(f, idxs)[j] by {
        assert(idxs.contains(j));
    }
}

/// Each firing of the repeating timer counts once and arms the timer again:
/// after `k` firings the counter has grown by `k`, and every firing left one
/// three-second timer armed.
pub proof fn lemma_timer_firings(states: Seq<ProcessState>, timers: Seq<TimerRequest>)
    requires
        states.len() == timers.len() + 1,
        forall|i: int| 0 <= i < timers.len() ==> timer_fired(#[trigger] states[i], states[i + 1], timers[i]),
    ensures
        states.last().counter == states[0].counter + timers.len(),
        forall|i: int| 0 <= i < timers.len() ==> is_repeating_timer(#[trigger] timers[i]),
    decreases timers.len(),
{
    if timers.len() > 0 {
        let k = timers.len() - 1;
        assert(timer_fired(states[k], states[k + 1], timers[k]));
        lemma_timer_firings(states.drop_last(), timers.drop_last());
        assert forall|i: int| 0 <= i < timers.len() implies is_repeating_timer(#[trigger] timers[i]) by {
            assert(timer_fired(states[i], states[i + 1], timers[i]));
        }
    }
}

/// The variant matched in the success arm is the last segment of the
/// called path: `shared::AsyncRequest::StepA(..)` gives `StepA`.
pub proof fn lemma_variant_name_is_last_segment(p: CallPath)
    requires
        p.segments@.len() > 0,
    ensures
        variant_name(RequestExpr::CallOfPath(p)) == Some(p.segments@[p.segments@.len() - 1]@),
{
}

/// The response path of a call path of `n >= 2` segments keeps the first
/// `n - 2` segments unchanged and in order, and ends with the response name
/// of the request enum's segment; the variant's segment is dropped.
pub proof fn lemma_response_path_keeps_prefix(p: CallPath)
    requires
        p.segments@.len() >= 2,
    ensures
        ({
            let n = p.segments@.len();
            &&& response_path_of(RequestExpr::CallOfPath(p)) matches Some((lc, segs))
            &&& lc == p.leading_colon
            &&& segs.len() == n - 1
            &&& forall|j: int| 0 <= j < n - 2 ==> #[trigger] segs[j] == p.segments@[j]@
            &&& segs[n - 2] == response_name(p.segments@[n - 2]@)
        }),
{
}

/// A name that does not end in `Request` gets `Response` appended.
pub proof fn lemma_response_name_appends(name: Seq<char>)
    requires
        !(name.len() >= 7 && name.subrange(name.len() - 7, name.len() as int) == "Request"@),
    ensures
        response_name(name) == name + "Response"@,
{
}

/// A message is local exactly when it comes from our own node: from
/// another node it always goes to the remote handler, and from our node it
/// goes to the API exactly when the HTTP server sent it.
pub proof fn lemma_route_by_node(our: AddressView, source: AddressView)
    ensures
        (route(our, source) == Route::Remote) <==> source.node != our.node,
        (route(our, source) == Route::HttpApi) <==> (source.node == our.node
            && source.process_name + ":"@ + source.package_name + ":"@ + source.publisher_node
            == "http_server:distro:sys"@),
{
}

/// Receiver A answers `StepA(s)` with the number of bytes of the UTF-8
/// encoding of `s` whenever that number fits an `i32`; for an ASCII string
/// that is its number of characters.
pub proof fn lemma_step_a_byte_length(s: Seq<char>)
    ensures
        local_response(AsyncRequestView::StepA(s)) matches AsyncResponseView::StepA(v)
            && (encode_utf8(s).len() < 0x8000_0000 ==> v as int == encode_utf8(s).len()),
        is_ascii_chars(s) && s.len() < 0x8000_0000 ==> (local_response(AsyncRequestView::StepA(s))
            matches AsyncResponseView::StepA(v) && v as int == s.len()),
{
    if is_ascii_chars(s) {
        is_ascii_chars_encode_utf8(s);
    }
}

/// Receiver A answers `StepB(x)`, for `x >= 0`, with twice `x`.
pub proof fn lemma_step_b_doubles(x: i32)
    requires
        x >= 0,
    ensures
        local_response(AsyncRequestView::StepB(x)) matches AsyncResponseView::StepB(w) && w as int == 2 * x,
{
}

/// The number that a string of decimal digits denotes.
pub open spec fn digits_value(s: Seq<char>) -> int
    decreases s.len(),
{
    if s.len() == 0 {
        0
    } else {
        10 * digits_value(s.drop_last()) + (s.last() as int - 48)
    }
}

/// The decimal notation of `n` is made of the digits `0` to `9`, has no
/// leading zero (unless it is `0` itself), and reads back as `n`.
pub proof fn lemma_decimal_reads_back(n: nat)
    ensures
        decimal(n).len() > 0,
        forall|i: int| 0 <= i < decimal(n).len() ==> '0' <= #[trigger] decimal(n)[i] <= '9',
        n >= 10 ==> decimal(n)[0] != '0',
        digits_value(decimal(n)) == n,
    decreases n,
{
    if n >= 10 {
        lemma_decimal_reads_back(n / 10);
        let d = decimal(n);
        assert(d.drop_last() == decimal(n / 10));
        assert(d.last() == digit_char(n % 10));
        assert(digit_char(n % 10) as int - 48 == n % 10);
        assert(digits_value(d) == 10 * digits_value(d.drop_last()) + (d.last() as int - 48));
        assert(n == 10 * (n / 10) + n % 10);
        assert forall|i: int| 0 <= i < d.len() implies '0' <= #[trigger] d[i] <= '9' by {
            if i < d.len() - 1 {
                assert(d[i] == decimal(n / 10)[i]);
            }
        }
        if n / 10 >= 10 {
            assert(d[0] == decimal(n / 10)[0]);
        } else {
            assert(d[0] == digit_char(n / 10));
        }
    } else {
        assert(decimal(n) == seq![digit_char(n)]);
        assert(seq![digit_char(n)].drop_last() =~= Seq::<char>::empty());
        assert(digit_char(n) as int - 48 == n);
        assert(digits_value(decimal(n)) == 10 * digits_value(Seq::<char>::empty()) + (digit_char(n) as int - 48));
    }
}

/// Two sends prepared one after the other get different ids, and each
/// keeps its own continuation: the second does not replace the first.
pub proof fn lemma_prepared_sends_keep_their_callbacks(
    m0: Map<Seq<char>, Continuation>,
    a: Seq<char>,
    ca: Continuation,
    b: Seq<char>,
    cb: Continuation,
)
    requires
        !m0.dom().contains(a),
        !m0.insert(a, ca).dom().contains(b),
    ensures
        a != b,
        m0.insert(a, ca).insert(b, cb)[a] == ca,
        m0.insert(a, ca).insert(b, cb)[b] == cb,
        m0.insert(a, ca).insert(b, cb).remove(a).remove(b) == m0,
{
    assert(m0.insert(a, ca).insert(b, cb).remove(a).remove(b) =~= m0);
}

} // verus!
