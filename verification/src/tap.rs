//! Event tap: the timeline of every translated request, handed to an
//! emitter. The translator only emits; subscribers decide what it means.

use vstd::prelude::*;

use crate::cif::StreamEvent;

verus! {

/// One observable event in the translator's timeline.
#[derive(Debug)]
pub enum TapEvent {
    /// A request arrived and was parsed.
    RequestStarted {
        request_id: String,
        model: String,
        adapter: String,
        message_count: usize,
        tool_count: usize,
        upstream_url: String,
    },
    /// One stream event flowed through the translator.
    StreamEvent { request_id: String, event: StreamEvent },
    /// The request completed.
    RequestCompleted {
        request_id: String,
        duration_ms: u64,
        text_chars: usize,
        tool_calls_count: usize,
    },
    /// The request failed; `stage` says where.
    RequestErrored { request_id: String, stage: String, message: String, duration_ms: u64 },
}

/// A sink for emitted events. A tap failure never fails a translation, so
/// `emit` reports nothing back.
pub trait EventEmitter {
    fn emit(&self, event: &TapEvent);
}

/// The emitter used when no event log is configured: it drops every event.
pub struct NoopEmitter;

impl EventEmitter for NoopEmitter {
    fn emit(&self, event: &TapEvent) {
    }
}

/// The lowercase hexadecimal digit for `d < 16`.
pub open spec fn hex_digit(d: nat) -> char {
    if d < 10 {
        ((48 + d) as u32) as char
    } else {
        ((87 + d) as u32) as char
    }
}

/// Lowercase hexadecimal notation of `n`, without leading zeros (`0` for 0).
pub open spec fn hex_text(n: nat) -> Seq<char>
    decreases n,
{
    if n < 16 {
        seq![hex_digit(n)]
    } else {
        hex_text(n / 16).push(hex_digit(n % 16))
    }
}

fn hex_digit_exec(d: u8) -> (c: char)
    requires
        d < 16,
    ensures
        c == hex_digit(d as nat),
{
    if d < 10 {
        (48 + d) as char
    } else {
        (87 + d) as char
    }
}

/// Lowercase hexadecimal notation of `n` (as `format!("{n:x}")` writes it).
pub fn hex_string(n: u128) -> (s: String)
    ensures
        s@ == hex_text(n as nat),
{
    let mut digits: Vec<char> = Vec::new();
    let mut m: u128 = n;
    // digits holds, in reverse, the low-order digits already taken off m.
    while m >= 16
        invariant
            hex_text(n as nat) == hex_text(m as nat) + digits@.reverse(),
        decreases m,
    {
        let d = (m % 16) as u8;
        let ghost old_digits = digits@;
        digits.push(hex_digit_exec(d));
        proof {
            assert(hex_text(m as nat) == hex_text((m / 16) as nat).push(hex_digit((m % 16) as nat)));
            assert(digits@.reverse() =~= seq![hex_digit((m % 16) as nat)] + old_digits.reverse());
        }
        m = m / 16;
    }
    let mut out: Vec<char> = Vec::new();
    out.push(hex_digit_exec(m as u8));
    let mut k: usize = digits.len();
    while k > 0
        invariant
            k <= digits.len(),
            hex_text(n as nat) == hex_text(m as nat) + digits@.reverse(),
            m < 16,
            out@ == seq![hex_digit(m as nat)] + digits@.subrange(k as int, digits@.len() as int).reverse(),
        decreases k,
    {
        k -= 1;
        out.push(digits[k]);
        assert(digits@.subrange(k as int, digits@.len() as int).reverse() =~= digits@.subrange(
            k + 1,
            digits@.len() as int,
        ).reverse().push(digits@[k as int]));
    }
    assert(digits@.subrange(0, digits@.len() as int) =~= digits@);
    crate::text::string_from_chars(out.as_slice())
}

proof fn lemma_hex_digit_injective(a: nat, b: nat)
    requires
        a < 16,
        b < 16,
        hex_digit(a) == hex_digit(b),
    ensures
        a == b,
{
    let ca = if a < 10 { 48 + a } else { 87 + a };
    let cb = if b < 10 { 48 + b } else { 87 + b };
    assert(hex_digit(a) as u32 == ca);
    assert(hex_digit(b) as u32 == cb);
}

proof fn lemma_hex_text_len(n: nat)
    ensures
        hex_text(n).len() >= 1,
        n >= 16 ==> hex_text(n).len() >= 2,
    decreases n,
{
    if n >= 16 {
        lemma_hex_text_len(n / 16);
    }
}

/// Different numbers have different hexadecimal notations.
pub proof fn lemma_hex_text_injective(a: nat, b: nat)
    requires
        hex_text(a) == hex_text(b),
    ensures
        a == b,
    decreases a + b,
{
    lemma_hex_text_len(a);
    lemma_hex_text_len(b);
    if a < 16 && b < 16 {
        assert(hex_text(a)[0] == hex_digit(a));
        assert(hex_text(b)[0] == hex_digit(b));
        lemma_hex_digit_injective(a, b);
    } else if a < 16 {
        lemma_hex_text_len(b / 16);
    } else if b < 16 {
        lemma_hex_text_len(a / 16);
    } else {
        let ha = hex_text(a / 16);
        let hb = hex_text(b / 16);
        assert(hex_text(a) == ha.push(hex_digit(a % 16)));
        assert(hex_text(b) == hb.push(hex_digit(b % 16)));
        assert(ha == hex_text(a).drop_last());
        assert(hb == hex_text(b).drop_last());
        assert(hex_text(a).last() == hex_digit(a % 16));
        assert(hex_text(b).last() == hex_digit(b % 16));
        lemma_hex_digit_injective(a % 16, b % 16);
        lemma_hex_text_injective(a / 16, b / 16);
    }
}

/// Law: two clock readings that differ give different request ids.
pub proof fn lemma_request_ids_distinct(a: u128, b: u128)
    requires
        a != b,
    ensures
        "req_"@ + hex_text(a as nat) != "req_"@ + hex_text(b as nat),
{
    if "req_"@ + hex_text(a as nat) == "req_"@ + hex_text(b as nat) {
        let p = "req_"@;
        assert(hex_text(a as nat) =~= (p + hex_text(a as nat)).subrange(p.len() as int, (p + hex_text(a as nat)).len() as int));
        assert(hex_text(b as nat) =~= (p + hex_text(b as nat)).subrange(p.len() as int, (p + hex_text(b as nat)).len() as int));
        lemma_hex_text_injective(a as nat, b as nat);
    }
}

/// The request id made from a clock reading: `req_` and the nanosecond
/// count in lowercase hexadecimal.
pub fn request_id_from_nanos(nanos: u128) -> (id: String)
    ensures
        id@ == "req_"@ + hex_text(nanos as nat),
{
    let h = hex_string(nanos);
    proof {
        reveal_strlit("req_");
    }
    crate::text::concat_str("req_", h.as_str())
}

/// Nanoseconds since the Unix epoch by the system clock, or 0 when the
/// clock reads before the epoch. Nothing is promised of the value: it
/// depends on the clock.
#[verifier::external_body]
fn nanos_since_epoch() -> u128 {
    std::time::SystemTime::now()
        .duration_since(std::time::UNIX_EPOCH)
        .map(|d| d.as_nanos())
        .unwrap_or(0)
}

/// A per-request id read from the system clock: `req_` followed by the
/// current nanosecond count in lowercase hexadecimal.
pub fn new_request_id() -> (id: String)
    ensures
        exists|n: u128| id@ == "req_"@ + hex_text(n as nat),
{
    let n = nanos_since_epoch();
    request_id_from_nanos(n)
}

/// The event for a request that arrived and was parsed: its id, model,
/// the adapter serving it, how many messages and tools it has, and the
/// provider endpoint it goes to.
pub fn build_request_started(request_id: &str, req: &crate::cif::Request, adapter: &str, upstream_url: &str) -> (e: TapEvent)
    ensures
        e matches TapEvent::RequestStarted { request_id: rid, model, adapter: a, message_count, tool_count, upstream_url: u }
            && rid@ == request_id@ && model@ == req.model@ && a@ == adapter@ && message_count == req.messages@.len()
            && tool_count == req.tools@.len() && u@ == upstream_url@,
{
    TapEvent::RequestStarted {
        request_id: request_id.to_string(),
        model: req.model.clone(),
        adapter: adapter.to_string(),
        message_count: req.messages.len(),
        tool_count: req.tools.len(),
        upstream_url: upstream_url.to_string(),
    }
}

} // verus!
