//! What the receivers answer.
use vstd::prelude::*;
use vstd::string::*;
use vstd::utf8::encode_utf8;
use crate::messages::{AsyncRequest, AsyncRequestView, AsyncResponse, AsyncResponseView};
use crate::state::AppState;

verus! {

/// The character of a decimal digit `d < 10`.
pub open spec fn digit_char(d: nat) -> char {
    ((48 + d) as u32) as char
}

/// The decimal notation of `n`, most significant digit first, with no
/// leading zeros (the notation of `0` is `"0"`).
pub open spec fn decimal(n: nat) -> Seq<char>
    decreases n,
{
    if n < 10 {
        seq![digit_char(n)]
    } else {
        decimal(n / 10).push(digit_char(n % 10))
    }
}

/// Appends the decimal notation of `n` to `out`.
fn push_decimal(out: &mut String, n: u64)
    ensures
        final(out)@ == old(out)@ + decimal(n as nat),
    decreases n,
{
    if n >= 10 {
        push_decimal(out, n / 10);
    }
    let d: usize = (n % 10) as usize;
    let digits = "0123456789";
    proof {
        reveal_strlit("0123456789");
    }
    let s = digits.substring_char(d, d + 1);
    assert(s@ =~= seq![digit_char(d as nat)]);
    out.append(s);
}

/// The number of bytes of the UTF-8 encoding of `s`.
pub open spec fn utf8_len(s: Seq<char>) -> nat {
    encode_utf8(s).len()
}

/// The text with which receiver A answers `StepC`.
pub open spec fn step_c_text(v: u64) -> Seq<char> {
    "Hello from the other side C: "@ + decimal(v as nat)
}

/// What receiver A answers to each request.
pub open spec fn local_response(r: AsyncRequestView) -> AsyncResponseView {
    match r {
        AsyncRequestView::StepA(s) => AsyncResponseView::StepA(((utf8_len(s) as usize) as i32)),
        AsyncRequestView::StepB(v) => AsyncResponseView::StepB((2 * v) as u64),
        AsyncRequestView::StepC(v) => AsyncResponseView::StepC(step_c_text(v)),
        AsyncRequestView::Gather => AsyncResponseView::Gather(Ok("Hello from A"@)),
    }
}

/// Whether receiver A can answer `r`: a negative `StepB` value would
/// overflow when doubled as a `u64`.
pub open spec fn local_request_ok(r: AsyncRequestView) -> bool {
    r matches AsyncRequestView::StepB(v) ==> v >= 0
}

/// Computes receiver A's answer to a request from its terminal: the byte
/// length of a `StepA` string, twice a `StepB` value, a greeting carrying
/// the `StepC` value in decimal, and a fixed greeting for `Gather`.
pub fn kino_local_handler(request: AsyncRequest) -> (response: AsyncResponse)
    requires
        local_request_ok(request@),
    ensures
        response@ == local_response(request@),
        request@ matches AsyncRequestView::StepA(s) ==> (response matches AsyncResponse::StepA(v)
            && (encode_utf8(s).len() < 0x8000_0000 ==> v as int == encode_utf8(s).len())),
        request@ matches AsyncRequestView::StepB(x) ==> (response matches AsyncResponse::StepB(w)
            && w as int == 2 * x),
        request@ matches AsyncRequestView::StepC(x) ==> (response matches AsyncResponse::StepC(t)
            && t@ == "Hello from the other side C: "@ + decimal(x as nat)),
        request@ is Gather ==> (response matches AsyncResponse::Gather(Ok(t)) && t@ == "Hello from A"@),
{
    match request {
        AsyncRequest::StepA(my_string) => {
            let n: usize = my_string.as_str().len();
            AsyncResponse::StepA(n as i32)
        },
        AsyncRequest::StepB(i32_val) => {
            let v: u64 = i32_val as u64;
            AsyncResponse::StepB(v * 2)
        },
        AsyncRequest::StepC(u64_val) => {
            proof {
                reveal_strlit("Hello from the other side C: ");
            }
            let mut text = String::from_str("Hello from the other side C: ");
            push_decimal(&mut text, u64_val);
            AsyncResponse::StepC(text)
        },
        AsyncRequest::Gather(_) => {
            AsyncResponse::Gather(Ok(String::from_str("Hello from A")))
        },
    }
}

/// Receiver C's handler for remote requests: it leaves the state as it is
/// and returns the line that it logs.
pub fn kino_remote_handler(state: &mut AppState, request: String) -> (log_line: String)
    ensures
        *final(state) == *old(state),
        log_line@ == "Hi2"@,
{
    String::from_str("Hi2")
}

} // verus!
