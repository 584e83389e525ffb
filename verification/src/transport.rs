//! HTTP outcomes: which statuses are retried, how a failed call is
//! reported, how long to wait before the next attempt, and the decisions of
//! the retry loop that every call runs.

use vstd::prelude::*;
use vstd::arithmetic::power2::pow2;
use crate::error::{NotebookLmError, SError};
use crate::json::{opt_str_ref_view, opt_string_view};
use crate::rpc::RpcMethod;
use crate::text::{
    chars_of, decimal_nat, decimal_u64, parse_u64, push_str, string_of, u64_text_value,
};
use crate::types::RetryPolicy;

verus! {

// ---- Status classes ----

/// 401 and 403: the credentials were refused.
pub open spec fn spec_is_auth_status(status: u16) -> bool {
    status == 401 || status == 403
}

/// 429 and every 5xx status are worth another attempt.
pub open spec fn spec_is_retryable(status: u16) -> bool {
    status == 429 || (500 <= status <= 599)
}

/// 2xx statuses.
pub open spec fn spec_is_success(status: u16) -> bool {
    200 <= status <= 299
}

pub fn is_auth_status(status: u16) -> (r: bool)
    ensures
        r == spec_is_auth_status(status),
{
    status == 401 || status == 403
}

pub fn is_retryable_http_status(status: u16) -> (r: bool)
    ensures
        r == spec_is_retryable(status),
{
    status == 429 || (500 <= status && status <= 599)
}

pub fn is_success_status(status: u16) -> (r: bool)
    ensures
        r == spec_is_success(status),
{
    200 <= status && status <= 299
}

// ---- Reporting a failed call ----

/// The reason phrase that the `http` crate's table gives a status code
/// (`StatusCode::canonical_reason`), or `None` for a code it has no phrase
/// for or does not accept.
pub uninterp spec fn spec_reason_phrase(status: u16) -> Option<Seq<char>>;

/// `reqwest::StatusCode::from_u16(status)` then `canonical_reason`: the
/// phrase that `spec_reason_phrase` names for the code.
#[verifier::external_body]
fn reason_phrase(status: u16) -> (r: Option<String>)
    ensures
        opt_string_view(r) == spec_reason_phrase(status),
{
    match reqwest::StatusCode::from_u16(status) {
        Ok(code) => match code.canonical_reason() {
            Some(p) => Some(p.to_string()),
            None => None,
        },
        Err(_) => None,
    }
}

/// How a status code is written (`Display` of `StatusCode`): the number,
/// a space, and the reason phrase or `<unknown status code>`.
pub open spec fn spec_http_status_text(status: u16) -> Seq<char> {
    decimal_nat(status as nat) + " "@ + match spec_reason_phrase(status) {
        Some(p) => p,
        None => "<unknown status code>"@,
    }
}

pub fn status_text(status: u16) -> (r: String)
    ensures
        r@ == spec_http_status_text(status),
{
    let mut out = decimal_u64(status as u64);
    push_str(&mut out, " ");
    match reason_phrase(status) {
        Some(p) => push_str(&mut out, p.as_str()),
        None => push_str(&mut out, "<unknown status code>"),
    }
    string_of(out.as_slice())
}

/// The error for a failed HTTP status: `http status {status}: {body}`,
/// prefixed with the operation, classed by status.
pub open spec fn spec_http_status_error(
    op: Seq<char>,
    status: u16,
    body: Seq<char>,
    retry_after: Option<u64>,
) -> SError {
    let message = "http status "@ + spec_http_status_text(status) + ": "@ + body;
    let prefixed = op + ": "@ + message;
    if spec_is_auth_status(status) {
        SError::Auth(prefixed)
    } else if status == 429 {
        SError::RateLimit { message: prefixed, retry_after }
    } else if 400 <= status < 500 {
        SError::Client { status, message: prefixed }
    } else if status >= 500 {
        SError::Server { status, message: prefixed }
    } else {
        SError::Rpc { method_id: op, message, code: Some(status as i64) }
    }
}

/// Whether `m` starts with `op` and ends with `body`.
pub open spec fn framed(m: Seq<char>, op: Seq<char>, body: Seq<char>) -> bool {
    m.take(op.len() as int) == op && m.skip(m.len() - body.len()) == body
}

/// The message of a status error.
pub open spec fn error_message(e: SError) -> Seq<char> {
    match e {
        SError::Auth(m) => m,
        SError::RateLimit { message, .. } => message,
        SError::Client { message, .. } => message,
        SError::Server { message, .. } => message,
        SError::Rpc { method_id, message, .. } => method_id + ": "@ + message,
        _ => Seq::empty(),
    }
}

/// A failed status is reported by its class, with the status and the
/// server's hint kept: 401 and 403 as refused credentials, 429 as a rate
/// limit carrying the hint, other 4xx as a client error and 5xx as a server
/// error, each with the status, and any status below 400 as an RPC error
/// with the status as its code; every message starts with the operation
/// and ends with the answer's body.
pub proof fn law_http_error_classes(op: Seq<char>, status: u16, body: Seq<char>, retry_after: Option<u64>)
    ensures
        (status == 401 || status == 403) <==> spec_http_status_error(op, status, body, retry_after) is Auth,
        (status == 429) <==> spec_http_status_error(op, status, body, retry_after) is RateLimit,
        status == 429 ==> spec_http_status_error(op, status, body, retry_after)->RateLimit_retry_after
            == retry_after,
        (400 <= status < 500 && status != 401 && status != 403 && status != 429)
            <==> spec_http_status_error(op, status, body, retry_after) is Client,
        (500 <= status) <==> spec_http_status_error(op, status, body, retry_after) is Server,
        spec_http_status_error(op, status, body, retry_after) is Client ==> spec_http_status_error(
            op,
            status,
            body,
            retry_after,
        )->Client_status == status,
        spec_http_status_error(op, status, body, retry_after) is Server ==> spec_http_status_error(
            op,
            status,
            body,
            retry_after,
        )->Server_status == status,
        (status < 400) ==> (spec_http_status_error(op, status, body, retry_after) is Rpc),
        (status < 400) ==> (spec_http_status_error(op, status, body, retry_after)->Rpc_code == Some(
            status as i64,
        )),
        framed(error_message(spec_http_status_error(op, status, body, retry_after)), op, body),
{
    let message = "http status "@ + spec_http_status_text(status) + ": "@ + body;
    let prefixed = op + ": "@ + message;
    assert(prefixed.take(op.len() as int) =~= op);
    assert(prefixed.skip(prefixed.len() - body.len()) =~= body);
}

/// A request without answer is reported as a timeout exactly when it timed
/// out, else as a network failure, with the operation and the transport's
/// message.
pub proof fn law_transport_error_classes(op: Seq<char>, t: STransport)
    ensures
        t.timeout <==> (spec_transport_error(op, t) is Timeout),
        !t.timeout <==> (spec_transport_error(op, t) is Network),
        spec_transport_error(op, t) is Timeout ==> (spec_transport_error(op, t)->Timeout_operation == op
            && spec_transport_error(op, t)->Timeout_message == t.message),
        spec_transport_error(op, t) is Network ==> (spec_transport_error(op, t)->Network_operation == op
            && spec_transport_error(op, t)->Network_message == t.message),
{
}

fn concat3(a: &str, b: &str, c: &str) -> (r: String)
    ensures
        r@ == a@ + b@ + c@,
{
    let mut v = chars_of(a);
    push_str(&mut v, b);
    push_str(&mut v, c);
    string_of(v.as_slice())
}

/// The error for a failed HTTP status, with the retry-after hint already
/// read.
pub fn http_status_error(op: &str, status: u16, body: &str, retry_after: Option<u64>) -> (r: NotebookLmError)
    ensures
        r@ == spec_http_status_error(op@, status, body@, retry_after),
{
    let st = status_text(status);
    let mut m = chars_of("http status ");
    push_str(&mut m, st.as_str());
    push_str(&mut m, ": ");
    push_str(&mut m, body);
    let message = string_of(m.as_slice());
    let prefixed = concat3(op, ": ", message.as_str());
    if is_auth_status(status) {
        NotebookLmError::Auth(prefixed)
    } else if status == 429 {
        NotebookLmError::RateLimit { message: prefixed, retry_after }
    } else if 400 <= status && status < 500 {
        NotebookLmError::Client { status, message: prefixed }
    } else if status >= 500 {
        NotebookLmError::Server { status, message: prefixed }
    } else {
        NotebookLmError::Rpc {
            method_id: string_of(chars_of(op).as_slice()),
            message,
            code: Some(status as i64),
        }
    }
}

/// The retry-after hint of a header value: its number of seconds, where it
/// is one.
pub open spec fn spec_retry_after(header: Option<Seq<char>>) -> Option<u64> {
    match header {
        Some(h) => u64_text_value(h),
        None => None,
    }
}

pub fn parse_retry_after(header: Option<&str>) -> (r: Option<u64>)
    ensures
        r == spec_retry_after(opt_str_ref_view(header)),
{
    match header {
        Some(h) => parse_u64(chars_of(h).as_slice()),
        None => None,
    }
}

/// The error for a failed HTTP status, given the raw `retry-after` header.
pub fn map_http_error(method_id: &str, status: u16, text: &str, retry_after_header: Option<&str>) -> (r: NotebookLmError)
    ensures
        r@ == spec_http_status_error(
            method_id@,
            status,
            text@,
            spec_retry_after(opt_str_ref_view(retry_after_header)),
        ),
{
    let retry_after = parse_retry_after(retry_after_header);
    http_status_error(method_id, status, text, retry_after)
}

/// A request that did not get an answer, with what the transport said of
/// it.
pub struct TransportFailure {
    pub timeout: bool,
    pub connect: bool,
    pub request: bool,
    pub message: String,
}

/// The view of a transport failure.
pub struct STransport {
    pub timeout: bool,
    pub connect: bool,
    pub request: bool,
    pub message: Seq<char>,
}

pub open spec fn transport_view(t: TransportFailure) -> STransport {
    STransport { timeout: t.timeout, connect: t.connect, request: t.request, message: t.message@ }
}

/// Timeouts, failed connections and failed requests are worth another
/// attempt.
pub open spec fn spec_transport_retryable(t: STransport) -> bool {
    t.timeout || t.connect || t.request
}

pub fn should_retry_transport_error(t: &TransportFailure) -> (r: bool)
    ensures
        r == spec_transport_retryable(transport_view(*t)),
{
    t.timeout || t.connect || t.request
}

/// The error for a request without answer: a timeout or a network error.
pub open spec fn spec_transport_error(op: Seq<char>, t: STransport) -> SError {
    if t.timeout {
        SError::Timeout { operation: op, message: t.message }
    } else {
        SError::Network { operation: op, message: t.message }
    }
}

pub fn map_transport_error(operation: &str, t: &TransportFailure) -> (r: NotebookLmError)
    ensures
        r@ == spec_transport_error(operation@, transport_view(*t)),
{
    let op = string_of(chars_of(operation).as_slice());
    if t.timeout {
        NotebookLmError::Timeout { operation: op, message: t.message.clone() }
    } else {
        NotebookLmError::Network { operation: op, message: t.message.clone() }
    }
}

// ---- Waiting before the next attempt ----

/// `a * b`, or `u64::MAX` where it does not fit.
pub open spec fn sat_mul(a: u64, b: nat) -> u64 {
    if a * b > u64::MAX {
        u64::MAX
    } else {
        (a * b) as u64
    }
}

/// `a + b`, or `u64::MAX` where it does not fit.
pub open spec fn sat_add(a: u64, b: u64) -> u64 {
    if a + b > u64::MAX {
        u64::MAX
    } else {
        (a + b) as u64
    }
}

/// The wait before the attempt after `attempt`, in milliseconds: the base
/// delay doubled per attempt (at most 2^20 times), capped at the maximum,
/// plus a jitter of `nanos` modulo `jitter_ms + 1`; and never less than the
/// server's retry-after hint.
pub open spec fn spec_backoff_delay(
    policy: RetryPolicy,
    attempt: u32,
    retry_after_secs: Option<u64>,
    nanos: u32,
) -> u64 {
    let shift: nat = if attempt < 20 {
        attempt as nat
    } else {
        20
    };
    let grown = sat_mul(policy.base_delay_ms, pow2(shift));
    let capped = if grown > policy.max_delay_ms {
        policy.max_delay_ms
    } else {
        grown
    };
    let jitter: u64 = if policy.jitter_ms > 0 {
        ((nanos as int) % (policy.jitter_ms as int + 1)) as u64
    } else {
        0
    };
    let hinted = sat_mul(
        match retry_after_secs {
            Some(s) => s,
            None => 0,
        },
        1000,
    );
    let total = sat_add(capped, jitter);
    if total >= hinted {
        total
    } else {
        hinted
    }
}

fn saturating_mul_u64(a: u64, b: u64) -> (r: u64)
    ensures
        r == sat_mul(a, b as nat),
{
    match a.checked_mul(b) {
        Some(v) => v,
        None => u64::MAX,
    }
}

/// The wait before the attempt after `attempt`. The jitter comes from
/// `nanos`, the sub-second nanoseconds of the clock when the wait starts.
pub fn backoff_delay_ms(policy: &RetryPolicy, attempt: u32, retry_after_secs: Option<u64>, nanos: u32) -> (r: u64)
    requires
        policy.jitter_ms < u64::MAX,
    ensures
        r == spec_backoff_delay(*policy, attempt, retry_after_secs, nanos),
{
    let shift: u32 = if attempt < 20 { attempt } else { 20 };
    proof {
        vstd::arithmetic::power2::lemma2_to64();
        if shift < 20 {
            vstd::arithmetic::power2::lemma_pow2_strictly_increases(shift as nat, 20);
        }
        vstd::bits::lemma_u64_shl_is_mul(1, shift as u64);
    }
    let scale: u64 = 1u64 << (shift as u64);
    let grown = saturating_mul_u64(policy.base_delay_ms, scale);
    let capped = if grown > policy.max_delay_ms {
        policy.max_delay_ms
    } else {
        grown
    };
    let jitter: u64 = if policy.jitter_ms > 0 {
        (nanos as u64) % (policy.jitter_ms + 1)
    } else {
        0
    };
    let secs = match retry_after_secs {
        Some(s) => s,
        None => 0,
    };
    let hinted = saturating_mul_u64(secs, 1000);
    let total = capped.saturating_add(jitter);
    if total >= hinted {
        total
    } else {
        hinted
    }
}

/// The wait never falls short of the server's hint, and without a hint it
/// stays within the maximum delay plus the largest jitter.
pub proof fn law_backoff_bounds(policy: RetryPolicy, attempt: u32, retry_after_secs: Option<u64>, nanos: u32)
    requires
        policy.jitter_ms < u64::MAX,
    ensures
        spec_backoff_delay(policy, attempt, retry_after_secs, nanos) >= sat_mul(
            match retry_after_secs {
                Some(s) => s,
                None => 0,
            },
            1000,
        ),
        retry_after_secs is None ==> spec_backoff_delay(policy, attempt, retry_after_secs, nanos)
            <= sat_add(policy.max_delay_ms, policy.jitter_ms),
{
    let j = (nanos as int) % (policy.jitter_ms as int + 1);
    assert(policy.jitter_ms > 0 ==> 0 <= j <= policy.jitter_ms);
}

/// Without jitter or hint, a later attempt never waits less than an
/// earlier one: the delay doubles until it reaches the maximum.
pub proof fn law_backoff_grows(policy: RetryPolicy, a: u32, b: u32)
    requires
        a <= b,
        policy.jitter_ms == 0,
    ensures
        spec_backoff_delay(policy, a, None, 0) <= spec_backoff_delay(policy, b, None, 0),
{
    let sa: nat = if a < 20 { a as nat } else { 20 };
    let sb: nat = if b < 20 { b as nat } else { 20 };
    if sa < sb {
        vstd::arithmetic::power2::lemma_pow2_strictly_increases(sa, sb);
    }
    assert(pow2(sa) <= pow2(sb));
    let base = policy.base_delay_ms as int;
    assert(base * pow2(sa) <= base * pow2(sb)) by (nonlinear_arith)
        requires
            base >= 0,
            pow2(sa) <= pow2(sb),
    ;
}

// ---- The retry loop ----

/// The endpoint a call goes to.
#[derive(Debug, Clone, Copy, PartialEq, Eq, Structural)]
pub enum Endpoint {
    /// The batchexecute endpoint, with the method called.
    Rpc(RpcMethod),
    /// The streamed chat query endpoint.
    Query,
    /// A file download.
    Download,
}

/// The name under which a call's failures are reported.
pub open spec fn spec_operation(e: Endpoint) -> Seq<char> {
    match e {
        Endpoint::Rpc(m) => m.spec_id(),
        Endpoint::Query => "query"@,
        Endpoint::Download => "download"@,
    }
}

pub fn operation_name(e: Endpoint) -> (r: String)
    ensures
        r@ == spec_operation(e),
{
    match e {
        Endpoint::Rpc(m) => string_of(chars_of(m.id()).as_slice()),
        Endpoint::Query => string_of(chars_of("query").as_slice()),
        Endpoint::Download => string_of(chars_of("download").as_slice()),
    }
}

/// The message of a call refused again after its credentials were
/// reloaded.
pub open spec fn spec_stale_message(e: Endpoint) -> Seq<char> {
    match e {
        Endpoint::Rpc(m) => m.spec_id() + ": authentication failed after token refresh"@,
        Endpoint::Query => "query authentication failed after token refresh"@,
        Endpoint::Download => "download authentication failed after token refresh"@,
    }
}

fn stale_message(e: Endpoint) -> (r: String)
    ensures
        r@ == spec_stale_message(e),
{
    match e {
        Endpoint::Rpc(m) => {
            let mut v = chars_of(m.id());
            push_str(&mut v, ": authentication failed after token refresh");
            string_of(v.as_slice())
        },
        Endpoint::Query => string_of(
            chars_of("query authentication failed after token refresh").as_slice(),
        ),
        Endpoint::Download => string_of(
            chars_of("download authentication failed after token refresh").as_slice(),
        ),
    }
}

/// What one attempt of a call came to.
pub enum Attempt {
    /// No answer.
    Transport(TransportFailure),
    /// An answer: its status, its `retry-after` hint in seconds, its body.
    Answered { status: u16, retry_after: Option<u64>, body: String },
}

pub enum SAttempt {
    Transport(STransport),
    Answered { status: u16, retry_after: Option<u64>, body: Seq<char> },
}

pub open spec fn attempt_view(a: Attempt) -> SAttempt {
    match a {
        Attempt::Transport(t) => SAttempt::Transport(transport_view(t)),
        Attempt::Answered { status, retry_after, body } => SAttempt::Answered {
            status,
            retry_after,
            body: body@,
        },
    }
}

/// What the caller does after an attempt.
pub enum Next {
    /// The call succeeded with this body.
    Succeeded(String),
    /// Reload the credentials, then make the next attempt.
    RefreshAuth,
    /// Wait (see `backoff_delay_ms` for the failed attempt and the hint),
    /// then make the next attempt.
    Wait { attempt: u32, retry_after: Option<u64> },
    /// The call failed with this error.
    Failed(NotebookLmError),
}

pub enum SNext {
    Succeeded(Seq<char>),
    RefreshAuth,
    Wait { attempt: u32, retry_after: Option<u64> },
    Failed(SError),
}

pub open spec fn next_view(n: Next) -> SNext {
    match n {
        Next::Succeeded(b) => SNext::Succeeded(b@),
        Next::RefreshAuth => SNext::RefreshAuth,
        Next::Wait { attempt, retry_after } => SNext::Wait { attempt, retry_after },
        Next::Failed(e) => SNext::Failed(e@),
    }
}

/// The state of the loop: the number of the current attempt (from 0),
/// whether the credentials were reloaded, and the number of retries
/// allowed after the first attempt.
pub struct SRetry {
    pub attempt: nat,
    pub refreshed: bool,
    pub max_retries: u32,
}

/// The state before the first attempt.
pub open spec fn spec_start(max_retries: u32) -> SRetry {
    SRetry { attempt: 0, refreshed: false, max_retries }
}

/// The decision after an attempt, and the state for the next one:
/// a 2xx answer succeeds; a 401/403 reloads the credentials once, after
/// which the request is sent again, and fails as stale the second time; a
/// retryable failure waits and tries again while retries are left; anything
/// else fails. Every decision but a final one is followed by another
/// request.
pub open spec fn spec_step(st: SRetry, ep: Endpoint, o: SAttempt) -> (SRetry, SNext) {
    let op = spec_operation(ep);
    let later = SRetry { attempt: st.attempt + 1, ..st };
    match o {
        SAttempt::Transport(t) => if spec_transport_retryable(t) && st.attempt < st.max_retries {
            (later, SNext::Wait { attempt: st.attempt as u32, retry_after: None })
        } else {
            (st, SNext::Failed(spec_transport_error(op, t)))
        },
        SAttempt::Answered { status, retry_after, body } => if spec_is_success(status) {
            (st, SNext::Succeeded(body))
        } else if spec_is_auth_status(status) && !st.refreshed {
            (SRetry { attempt: st.attempt + 1, refreshed: true, ..st }, SNext::RefreshAuth)
        } else if spec_is_auth_status(status) {
            (st, SNext::Failed(SError::StaleAuth(spec_stale_message(ep))))
        } else if spec_is_retryable(status) && st.attempt < st.max_retries {
            (later, SNext::Wait { attempt: st.attempt as u32, retry_after })
        } else {
            (st, SNext::Failed(spec_http_status_error(op, status, body, retry_after)))
        },
    }
}

/// The retry loop of one call.
pub struct RetryLoop {
    attempt: u64,
    refreshed: bool,
    max_retries: u32,
}

impl View for RetryLoop {
    type V = SRetry;

    closed spec fn view(&self) -> SRetry {
        SRetry {
            attempt: self.attempt as nat,
            refreshed: self.refreshed,
            max_retries: self.max_retries,
        }
    }
}

impl RetryLoop {
    #[verifier::type_invariant]
    spec fn attempts_bounded(self) -> bool {
        self.attempt <= self.max_retries + if self.refreshed {
            1int
        } else {
            0int
        }
    }

    /// The loop before the first attempt of a call under `policy`.
    pub fn new(policy: &RetryPolicy) -> (r: Self)
        ensures
            r@ == spec_start(policy.max_retries),
    {
        RetryLoop { attempt: 0, refreshed: false, max_retries: policy.max_retries }
    }

    /// Decides what follows an attempt, and moves to the next attempt where
    /// the call goes on.
    pub fn step(&mut self, endpoint: Endpoint, outcome: Attempt) -> (r: Next)
        ensures
            (final(self)@, next_view(r)) == spec_step(old(self)@, endpoint, attempt_view(outcome)),
    {
        proof {
            use_type_invariant(&*self);
        }
        let ghost ov = attempt_view(outcome);
        match outcome {
            Attempt::Transport(t) => {
                if should_retry_transport_error(&t) && self.attempt < self.max_retries as u64 {
                    let a = self.attempt as u32;
                    self.attempt = self.attempt + 1;
                    Next::Wait { attempt: a, retry_after: None }
                } else {
                    let op = operation_name(endpoint);
                    Next::Failed(map_transport_error(op.as_str(), &t))
                }
            },
            Attempt::Answered { status, retry_after, body } => {
                if is_success_status(status) {
                    Next::Succeeded(body)
                } else if is_auth_status(status) && !self.refreshed {
                    self.refreshed = true;
                    self.attempt = self.attempt + 1;
                    Next::RefreshAuth
                } else if is_auth_status(status) {
                    Next::Failed(NotebookLmError::StaleAuth(stale_message(endpoint)))
                } else if is_retryable_http_status(status) && self.attempt
                    < self.max_retries as u64 {
                    let a = self.attempt as u32;
                    self.attempt = self.attempt + 1;
                    Next::Wait { attempt: a, retry_after }
                } else {
                    let op = operation_name(endpoint);
                    Next::Failed(http_status_error(op.as_str(), status, body.as_str(), retry_after))
                }
            },
        }
    }

}

// ---- Laws of the retry loop ----

/// The states a call can reach: the attempt count stays within the retries
/// allowed, plus one for the credential reload once it was made.
pub open spec fn spec_reachable(st: SRetry) -> bool {
    st.attempt <= st.max_retries + if st.refreshed {
        1int
    } else {
        0int
    }
}

/// Whether a decision ends the call.
pub open spec fn is_final(n: SNext) -> bool {
    n is Succeeded || n is Failed
}

/// The decisions of a call whose attempts come out as `outs`: one decision
/// per request sent, until a decision ends the call or no outcome is left.
pub open spec fn decisions(st: SRetry, ep: Endpoint, outs: Seq<SAttempt>) -> Seq<SNext>
    decreases outs.len(),
{
    if outs.len() == 0 {
        Seq::empty()
    } else {
        let (st2, nx) = spec_step(st, ep, outs[0]);
        if is_final(nx) {
            seq![nx]
        } else {
            seq![nx] + decisions(st2, ep, outs.drop_first())
        }
    }
}

/// The number of credential reloads among decisions.
pub open spec fn refreshes(ds: Seq<SNext>) -> nat
    decreases ds.len(),
{
    if ds.len() == 0 {
        0
    } else {
        (if ds[0] is RefreshAuth {
            1nat
        } else {
            0nat
        }) + refreshes(ds.drop_first())
    }
}

proof fn lemma_decisions_bounded(st: SRetry, ep: Endpoint, outs: Seq<SAttempt>)
    requires
        spec_reachable(st),
    ensures
        decisions(st, ep, outs).len() <= st.max_retries + 2 - st.attempt,
        refreshes(decisions(st, ep, outs)) <= if st.refreshed {
            0nat
        } else {
            1nat
        },
    decreases outs.len(),
{
    let ds = decisions(st, ep, outs);
    if outs.len() == 0 {
        assert(ds =~= Seq::<SNext>::empty());
    } else {
        let (st2, nx) = spec_step(st, ep, outs[0]);
        if is_final(nx) {
            assert(ds =~= seq![nx]);
            assert(ds.drop_first() =~= Seq::<SNext>::empty());
            assert(refreshes(ds.drop_first()) == 0);
            assert(ds[0] == nx);
        } else {
            lemma_decisions_bounded(st2, ep, outs.drop_first());
            assert(ds.drop_first() =~= decisions(st2, ep, outs.drop_first()));
            assert(ds[0] == nx);
            assert(nx is RefreshAuth ==> !st.refreshed && st2.refreshed);
            assert(!(nx is RefreshAuth) ==> st2.refreshed == st.refreshed);
        }
    }
}

/// Every step keeps the call among the reachable states, starting from the
/// first.
pub proof fn law_steps_stay_reachable(st: SRetry, ep: Endpoint, o: SAttempt)
    requires
        spec_reachable(st),
    ensures
        spec_reachable(spec_step(st, ep, o).0),
        spec_reachable(spec_start(st.max_retries)),
{
}

/// However the attempts come out, a call sends at most `max_retries + 2`
/// requests (the first, one per retry, and one after the credential
/// reload) and reloads its credentials at most once.
pub proof fn law_attempts_bounded(max_retries: u32, ep: Endpoint, outs: Seq<SAttempt>)
    ensures
        decisions(spec_start(max_retries), ep, outs).len() <= max_retries + 2,
        refreshes(decisions(spec_start(max_retries), ep, outs)) <= 1,
{
    lemma_decisions_bounded(spec_start(max_retries), ep, outs);
}

/// The one credential reload is always followed by a request with the new
/// credentials, whatever the retry count: a 401 or 403 before the reload
/// gives `RefreshAuth`, and the next attempt is decided on its own answer
/// (a 2xx answer to it succeeds with its body).
pub proof fn law_refresh_then_resend(
    st: SRetry,
    ep: Endpoint,
    status: u16,
    retry_after: Option<u64>,
    body: Seq<char>,
    next: SAttempt,
)
    requires
        !st.refreshed,
        status == 401 || status == 403,
    ensures
        ({
            let first = SAttempt::Answered { status, retry_after, body };
            let st2 = spec_step(st, ep, first).0;
            &&& decisions(st, ep, seq![first, next]) == seq![
                SNext::RefreshAuth,
                spec_step(st2, ep, next).1,
            ]
            &&& st2.refreshed
            &&& match next {
                SAttempt::Answered { status: s2, body: b2, .. } => spec_is_success(s2)
                    ==> spec_step(st2, ep, next).1 == SNext::Succeeded(b2),
                SAttempt::Transport(_) => true,
            }
        }),
{
    let first = SAttempt::Answered { status, retry_after, body };
    let outs = seq![first, next];
    let (st2, nx) = spec_step(st, ep, first);
    assert(outs.drop_first() =~= seq![next]);
    let rest = decisions(st2, ep, seq![next]);
    let (st3, nx2) = spec_step(st2, ep, next);
    if is_final(nx2) {
        assert(rest =~= seq![nx2]);
    } else {
        assert(seq![next].drop_first() =~= Seq::<SAttempt>::empty());
        assert(decisions(st3, ep, Seq::<SAttempt>::empty()) =~= Seq::<SNext>::empty());
        assert(rest =~= seq![nx2]);
    }
    assert(decisions(st, ep, outs) =~= seq![nx] + rest);
}

/// A request that got no answer is tried again while retries are left
/// when it timed out, failed to connect, or failed to be sent: the call
/// waits (without a hint) and moves to the next attempt. Any other
/// transport failure, or one with no retry left, ends the call with the
/// transport error.
pub proof fn law_transient_failures_retried(st: SRetry, ep: Endpoint, t: STransport)
    ensures
        (t.timeout || t.connect || t.request) && st.attempt < st.max_retries ==> spec_step(
            st,
            ep,
            SAttempt::Transport(t),
        ) == (
            SRetry { attempt: st.attempt + 1, refreshed: st.refreshed, max_retries: st.max_retries },
            SNext::Wait { attempt: st.attempt as u32, retry_after: None },
        ),
        !(t.timeout || t.connect || t.request) || st.attempt >= st.max_retries ==> spec_step(
            st,
            ep,
            SAttempt::Transport(t),
        ) == (st, SNext::Failed(spec_transport_error(spec_operation(ep), t))),
{
}

/// A 2xx answer always ends the call with its body, and an answer that is
/// not 2xx never succeeds.
pub proof fn law_success_iff_2xx(st: SRetry, ep: Endpoint, status: u16, retry_after: Option<u64>, body: Seq<char>)
    ensures
        spec_is_success(status) ==> spec_step(
            st,
            ep,
            SAttempt::Answered { status, retry_after, body },
        ).1 == SNext::Succeeded(body),
        !spec_is_success(status) ==> !(spec_step(
            st,
            ep,
            SAttempt::Answered { status, retry_after, body },
        ).1 is Succeeded),
{
}

} // verus!
