//! The result of a completed run and the message that reports it.

use vstd::prelude::*;
use vstd::string::StringExecFns;

verus! {

/// The number of nanoseconds in a second.
pub const NANOS_PER_SEC: u32 = 1_000_000_000;

/// How `std` prints a `Duration` of `secs` seconds and `nanos` nanoseconds with
/// `{:?}`. The text is a function of the two numbers alone.
pub uninterp spec fn duration_text(secs: u64, nanos: u32) -> Seq<char>;

/// The character of the decimal digit `d`.
pub open spec fn digit_char(d: nat) -> char
    recommends
        d < 10,
{
    ((48 + d) as u8) as char
}

/// `n` in decimal, without leading zeros.
pub open spec fn decimal_text(n: nat) -> Seq<char>
    decreases n,
{
    if n < 10 {
        seq![digit_char(n)]
    } else {
        decimal_text(n / 10).push(digit_char(n % 10))
    }
}

/// The message for a run that took `elapsed` and counted `count` records.
pub open spec fn message_text(elapsed: Seq<char>, count: nat) -> Seq<char> {
    "elapsed="@ + elapsed + " num_log_events="@ + decimal_text(count)
}

/// Formats a `std::time::Duration` with `{:?}`. Trusted: the text is the one
/// that `duration_text` names.
#[verifier::external_body]
fn format_duration(secs: u64, nanos: u32) -> (text: String)
    requires
        nanos < NANOS_PER_SEC,
    ensures
        text@ == duration_text(secs, nanos),
{
    format!("{:?}", std::time::Duration::new(secs, nanos))
}

/// Formats a `u64` with `{}`. Trusted: the text is the number in decimal,
/// without leading zeros.
#[verifier::external_body]
fn format_count(n: u64) -> (text: String)
    ensures
        text@ == decimal_text(n as nat),
{
    format!("{}", n)
}

/// The message for a run that took `elapsed` and counted `count` records.
pub fn compose_message(elapsed: &str, count: u64) -> (msg: String)
    ensures
        msg@ == message_text(elapsed@, count as nat),
{
    let digits = format_count(count);
    let mut msg = String::new();
    msg.append("elapsed=");
    msg.append(elapsed);
    msg.append(" num_log_events=");
    msg.append(digits.as_str());
    proof {
        assert(msg@ =~= message_text(elapsed@, count as nat));
    }
    msg
}

/// The result of a completed run.
pub struct RunSummary {
    /// The identifier of the invocation.
    pub request_id: String,
    /// Whole seconds of the elapsed time.
    pub elapsed_secs: u64,
    /// The rest of the elapsed time, in nanoseconds.
    pub elapsed_nanos: u32,
    /// The number of records counted.
    pub record_count: u64,
}

/// What is handed back to the invoker.
pub struct Response {
    /// The identifier of the invocation.
    pub req_id: String,
    /// The elapsed time and the record count, for a human reader.
    pub msg: String,
}

impl RunSummary {
    /// The summary of a run that counted `record_count` records.
    pub fn new(request_id: String, elapsed_secs: u64, elapsed_nanos: u32, record_count: u64) -> (s:
        Self)
        ensures
            s.request_id == request_id,
            s.elapsed_secs == elapsed_secs,
            s.elapsed_nanos == elapsed_nanos,
            s.record_count == record_count,
    {
        RunSummary { request_id, elapsed_secs, elapsed_nanos, record_count }
    }

    /// The elapsed time and the record count, for a human reader.
    pub fn message(&self) -> (msg: String)
        requires
            self.elapsed_nanos < NANOS_PER_SEC,
        ensures
            msg@ == message_text(
                duration_text(self.elapsed_secs, self.elapsed_nanos),
                self.record_count as nat,
            ),
    {
        let elapsed = format_duration(self.elapsed_secs, self.elapsed_nanos);
        compose_message(elapsed.as_str(), self.record_count)
    }

    /// The response that reports this summary.
    pub fn into_response(self) -> (r: Response)
        requires
            self.elapsed_nanos < NANOS_PER_SEC,
        ensures
            r.req_id == self.request_id,
            r.msg@ == message_text(
                duration_text(self.elapsed_secs, self.elapsed_nanos),
                self.record_count as nat,
            ),
    {
        let msg = self.message();
        Response { req_id: self.request_id, msg }
    }
}

} // verus!
