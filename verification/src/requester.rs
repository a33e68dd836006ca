//! The requester: a chain of requests to receiver A, each sent from the
//! callback of the previous answer, a fan-out to several receivers and a
//! timer that re-arms itself. Each function decides what to send next and
//! how the state changes; the process around it does the sending.
use vstd::prelude::*;
use vstd::string::*;
use crate::address::{Address, AddressView, package_address, receiver_a, receiver_address_a, receiver_address_b, receiver_address_c};
use crate::messages::{AsyncRequest, AsyncRequestView, AsyncResponse, AsyncResponseView, Variant, response_variant};
use crate::state::ProcessState;

verus! {

/// How long a sent request waits for its answer when the sender names no
/// timeout, in seconds.
pub const DEFAULT_TIMEOUT_SECS: u64 = 30;

/// The callback that runs when the answer to a request arrives.
#[derive(Clone, Copy, PartialEq, Eq, Structural, Debug)]
pub enum Callback {
    OnStepA,
    OnStepB,
    OnStepC,
}

/// The response variant that a callback accepts.
pub open spec fn expected_variant(cb: Callback) -> Variant {
    match cb {
        Callback::OnStepA => Variant::StepA,
        Callback::OnStepB => Variant::StepB,
        Callback::OnStepC => Variant::StepC,
    }
}

impl Callback {
    /// The response variant that this callback accepts.
    pub fn expected(&self) -> (v: Variant)
        ensures
            v == expected_variant(*self),
    {
        match self {
            Callback::OnStepA => Variant::StepA,
            Callback::OnStepB => Variant::StepB,
            Callback::OnStepC => Variant::StepC,
        }
    }
}

/// Whether callback `cb` accepts the response `resp`.
pub open spec fn callback_accepts(cb: Callback, resp: AsyncResponseView) -> bool {
    response_variant(resp) == expected_variant(cb)
}

/// A request to send, with the callback for its answer and how long to
/// wait for that answer.
#[derive(Debug, PartialEq, Eq)]
pub struct Outgoing {
    pub destination: Address,
    pub request: AsyncRequest,
    pub on_response: Callback,
    pub timeout_secs: u64,
}

/// Whether `out` sends `request` to receiver A with callback `cb` and the
/// default timeout.
pub open spec fn sends_to_a(out: Outgoing, request: AsyncRequestView, cb: Callback) -> bool {
    &&& out.destination@ == receiver_a()
    &&& out.request@ == request
    &&& out.on_response == cb
    &&& out.timeout_secs == DEFAULT_TIMEOUT_SECS
}

/// Why a callback did not run.
#[derive(Clone, Copy, PartialEq, Eq, Structural, Debug)]
pub enum CallbackError {
    /// The answer carried another variant than the callback expects.
    WrongVariant { expected: Variant, got: Variant },
}

fn send_to_a(request: AsyncRequest, cb: Callback) -> (out: Outgoing)
    ensures
        sends_to_a(out, request@, cb),
{
    Outgoing {
        destination: receiver_address_a(),
        request,
        on_response: cb,
        timeout_secs: DEFAULT_TIMEOUT_SECS,
    }
}

/// Starts the chain: asks receiver A for the byte length of
/// "Mashed Potatoes", to be handled by [`on_step_a`].
pub fn message_a() -> (out: Outgoing)
    ensures
        sends_to_a(out, AsyncRequestView::StepA("Mashed Potatoes"@), Callback::OnStepA),
{
    let text = String::from_str("Mashed Potatoes");
    send_to_a(AsyncRequest::StepA(text), Callback::OnStepA)
}

/// Handles the answer to `StepA`: counts it and asks receiver A to double
/// the length, to be handled by [`on_step_b`].
pub fn on_step_a(response: i32, state: &mut ProcessState) -> (out: Outgoing)
    requires
        old(state).counter < u64::MAX,
    ensures
        final(state).counter == old(state).counter + 1,
        sends_to_a(out, AsyncRequestView::StepB(response), Callback::OnStepB),
{
    state.counter = state.counter + 1;
    send_to_a(AsyncRequest::StepB(response), Callback::OnStepB)
}

/// Handles the answer to `StepB`: counts it and sends the doubled value
/// back to receiver A as `StepC`, to be handled by [`on_step_c`].
pub fn on_step_b(response: u64, state: &mut ProcessState) -> (out: Outgoing)
    requires
        old(state).counter < u64::MAX,
    ensures
        final(state).counter == old(state).counter + 1,
        sends_to_a(out, AsyncRequestView::StepC(response), Callback::OnStepC),
{
    state.counter = state.counter + 1;
    send_to_a(AsyncRequest::StepC(response), Callback::OnStepC)
}

/// Handles the answer to `StepC`, the end of the chain: counts it.
pub fn on_step_c(response: String, state: &mut ProcessState)
    requires
        old(state).counter < u64::MAX,
    ensures
        final(state).counter == old(state).counter + 1,
{
    state.counter = state.counter + 1;
}

/// What running callback `cb` on the answer `resp` does, taking the state
/// from `before` to `after` and giving `r`: when the answer carries the
/// variant that `cb` expects, the step counts once and the next request is
/// the one the step sends (none after `StepC`); otherwise the state stays
/// and the mismatch is reported.
pub open spec fn callback_outcome(
    cb: Callback,
    resp: AsyncResponseView,
    before: ProcessState,
    after: ProcessState,
    r: Result<Option<Outgoing>, CallbackError>,
) -> bool {
    if !callback_accepts(cb, resp) {
        &&& after == before
        &&& r == Err::<Option<Outgoing>, CallbackError>(CallbackError::WrongVariant {
            expected: expected_variant(cb),
            got: response_variant(resp),
        })
    } else {
        &&& after.counter == before.counter + 1
        &&& match (cb, resp) {
            (Callback::OnStepA, AsyncResponseView::StepA(v)) => r matches Ok(Some(out))
                && sends_to_a(out, AsyncRequestView::StepB(v), Callback::OnStepB),
            (Callback::OnStepB, AsyncResponseView::StepB(v)) => r matches Ok(Some(out))
                && sends_to_a(out, AsyncRequestView::StepC(v), Callback::OnStepC),
            _ => r matches Ok(None),
        }
    }
}

/// Runs callback `cb` on an answer: when the answer carries the variant
/// that `cb` expects, its payload goes to the callback, which may ask for
/// a next request; otherwise the state is left as it is and the mismatch
/// is reported.
pub fn run_callback(cb: Callback, response: AsyncResponse, state: &mut ProcessState) -> (r: Result<Option<Outgoing>, CallbackError>)
    requires
        callback_accepts(cb, response@) ==> old(state).counter < u64::MAX,
    ensures
        callback_outcome(cb, response@, *old(state), *final(state), r),
{
    match (cb, response) {
        (Callback::OnStepA, AsyncResponse::StepA(v)) => Ok(Some(on_step_a(v, state))),
        (Callback::OnStepB, AsyncResponse::StepB(v)) => Ok(Some(on_step_b(v, state))),
        (Callback::OnStepC, AsyncResponse::StepC(s)) => {
            on_step_c(s, state);
            Ok(None)
        },
        (cb, other) => {
            Err(CallbackError::WrongVariant { expected: cb.expected(), got: other.variant() })
        },
    }
}

/// What an answer (or a timer) that comes back under a correlation id
/// continues.
#[derive(Clone, Copy, PartialEq, Eq, Structural, Debug)]
pub enum Continuation {
    /// The answer to a request of the chain, for this callback.
    Response(Callback),
    /// The answer to the fan-out's request at this index.
    FanOutPart(usize),
    /// The repeating timer.
    Timer,
}

/// The same `Gather` request sent to several processes at once, answered
/// within a timeout; the answer to request `i` continues with
/// `Continuation::FanOutPart(i)` and is recorded in a [`FanOutProgress`].
#[derive(Debug, PartialEq, Eq)]
pub struct FanOut {
    pub destinations: Vec<Address>,
    pub requests: Vec<AsyncRequest>,
    pub timeout_secs: u64,
}

/// The destinations of the fan-out: a process that does not exist,
/// receivers A, B and C, and another process that does not exist.
pub open spec fn fanout_destinations() -> Seq<AddressView> {
    seq![
        package_address("async-receiver-zzz"@),
        receiver_a(),
        package_address("async-receiver-b"@),
        package_address("async-receiver-c"@),
        package_address("async-receiver-zzz123"@),
    ]
}

/// Sends `Gather` to five processes, two of which do not exist, waiting
/// five seconds for the answers; [`FanOutProgress`] collects them and runs
/// [`on_fanout_complete`] once all five are in.
pub fn fanout_message() -> (f: FanOut)
    ensures
        f.destinations@.map_values(|a: Address| a@) == fanout_destinations(),
        f.requests@.len() == 5,
        forall|i: int| 0 <= i < 5 ==> #[trigger] f.requests@[i]@ == AsyncRequestView::Gather,
        f.timeout_secs == 5,
{
    let mut destinations: Vec<Address> = Vec::new();
    destinations.push(Address::from_parts("our", "async-receiver-zzz", "async-app", "uncentered.os"));
    destinations.push(receiver_address_a());
    destinations.push(receiver_address_b());
    destinations.push(receiver_address_c());
    destinations.push(Address::from_parts("our", "async-receiver-zzz123", "async-app", "uncentered.os"));
    let mut requests: Vec<AsyncRequest> = Vec::new();
    let mut i: usize = 0;
    while i < 5
        invariant
            i <= 5,
            requests@.len() == i,
            forall|j: int| 0 <= j < i ==> #[trigger] requests@[j]@ == AsyncRequestView::Gather,
        decreases 5 - i,
    {
        requests.push(AsyncRequest::Gather(()));
        i = i + 1;
    }
    assert(destinations@.map_values(|a: Address| a@) =~= fanout_destinations());
    FanOut { destinations, requests, timeout_secs: 5 }
}

/// What came back for one request of a fan-out.
#[derive(Debug, PartialEq, Eq)]
pub enum SubResult {
    /// The receiver answered.
    Answered(AsyncResponse),
    /// The request could not be delivered or timed out.
    Failed,
}

/// Which requests of a fan-out have a result.
pub open spec fn filled(results: Seq<Option<SubResult>>) -> Seq<bool> {
    results.map_values(|r: Option<SubResult>| r is Some)
}

/// Whether every request of a fan-out has a result.
pub open spec fn all_filled(f: Seq<bool>) -> bool {
    forall|j: int| 0 <= j < f.len() ==> #[trigger] f[j]
}

/// The results after one for request `i` comes in: slot `i` is filled
/// (an index out of range changes nothing).
pub open spec fn fill(f: Seq<bool>, i: int) -> Seq<bool> {
    if 0 <= i < f.len() {
        f.update(i, true)
    } else {
        f
    }
}

/// Whether the result for request `i` completes the fan-out: there are
/// requests, they were not all in before, and they are all in after.
pub open spec fn completes(f: Seq<bool>, i: int) -> bool {
    f.len() > 0 && !all_filled(f) && all_filled(fill(f, i))
}

/// The results collected so far for a fan-out.
pub struct FanOutProgress {
    results: Vec<Option<SubResult>>,
}

impl View for FanOutProgress {
    type V = Seq<Option<SubResult>>;

    /// The result of each request, `None` while none came back.
    closed spec fn view(&self) -> Seq<Option<SubResult>> {
        self.results@
    }
}

impl FanOutProgress {
    /// A fan-out of `n` requests, none answered yet.
    pub fn new(n: usize) -> (p: FanOutProgress)
        ensures
            p@.len() == n,
            forall|j: int| 0 <= j < n ==> #[trigger] p@[j] is None,
    {
        let mut results: Vec<Option<SubResult>> = Vec::new();
        let mut i: usize = 0;
        while i < n
            invariant
                i <= n,
                results@.len() == i,
                forall|j: int| 0 <= j < i ==> #[trigger] results@[j] is None,
            decreases n - i,
        {
            results.push(None);
            i = i + 1;
        }
        FanOutProgress { results }
    }

    /// The results collected so far.
    pub fn results(&self) -> (r: &Vec<Option<SubResult>>)
        ensures
            r@ == self@,
    {
        &self.results
    }

    fn all_in(&self) -> (b: bool)
        ensures
            b == all_filled(filled(self@)),
    {
        let mut j: usize = 0;
        while j < self.results.len()
            invariant
                j <= self.results@.len(),
                forall|k: int| 0 <= k < j ==> #[trigger] self.results@[k] is Some,
            decreases self.results@.len() - j,
        {
            if self.results[j].is_none() {
                assert(!filled(self@)[j as int]);
                return false;
            }
            j = j + 1;
        }
        assert(all_filled(filled(self@)));
        true
    }

    /// Records the result for request `i`; the first result for a request
    /// is kept and later ones are ignored. When this result completes the
    /// fan-out, [`on_fanout_complete`] runs, once, and `true` is returned.
    pub fn record(&mut self, i: usize, result: SubResult, state: &mut ProcessState) -> (completed: bool)
        requires
            completes(filled(old(self)@), i as int) ==> old(state).counter < u64::MAX,
        ensures
            final(self)@ == (if i < old(self)@.len() && old(self)@[i as int] is None {
                old(self)@.update(i as int, Some(result))
            } else {
                old(self)@
            }),
            filled(final(self)@) == fill(filled(old(self)@), i as int),
            completed == completes(filled(old(self)@), i as int),
            final(state).counter == old(state).counter + if completed { 1int } else { 0int },
    {
        let ghost before = filled(self@);
        let was_complete = self.all_in();
        if i < self.results.len() && self.results[i].is_none() {
            self.results.set(i, Some(result));
        }
        assert(filled(self@) =~= fill(before, i as int));
        let now_complete = self.all_in();
        let completed = self.results.len() > 0 && !was_complete && now_complete;
        if completed {
            on_fanout_complete(&self.results, state);
        }
        completed
    }
}

/// Handles the completion of the fan-out: counts it once, whatever came
/// back for each request.
pub fn on_fanout_complete(results: &Vec<Option<SubResult>>, state: &mut ProcessState)
    requires
        old(state).counter < u64::MAX,
    ensures
        final(state).counter == old(state).counter + 1,
{
    state.counter = state.counter + 1;
}

/// A timer to set, and what its firing continues.
#[derive(Debug, PartialEq, Eq)]
pub struct TimerRequest {
    pub millis: u64,
    pub on_fire: Continuation,
}

/// Whether `t` is the repeating timer: three seconds, firing into
/// [`on_timer`].
pub open spec fn is_repeating_timer(t: TimerRequest) -> bool {
    t.millis == 3000 && t.on_fire == Continuation::Timer
}

/// Arms the repeating timer: three seconds, leaving the state as it is.
pub fn repeated_timer(state: &mut ProcessState) -> (t: TimerRequest)
    ensures
        *final(state) == *old(state),
        is_repeating_timer(t),
{
    TimerRequest { millis: 3000, on_fire: Continuation::Timer }
}

/// What one firing of the repeating timer does, taking the state from
/// `before` to `after` and arming `t`: it counts once and arms the timer
/// again.
pub open spec fn timer_fired(before: ProcessState, after: ProcessState, t: TimerRequest) -> bool {
    after.counter == before.counter + 1 && is_repeating_timer(t)
}

/// Handles the timer firing: counts it and arms the timer again.
pub fn on_timer(state: &mut ProcessState) -> (t: TimerRequest)
    requires
        old(state).counter < u64::MAX,
    ensures
        timer_fired(*old(state), *final(state), t),
{
    state.counter = state.counter + 1;
    repeated_timer(state)
}

} // verus!
