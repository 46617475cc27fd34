//! The decisions of the translator's HTTP loop, apart from the I/O: which
//! requests it serves, the health probe's reply, the routing refusal, the
//! provider's authentication, the chunked framing of the reply, and the
//! per-line relay of a provider's SSE stream into Responses API frames.

use vstd::prelude::*;

use crate::anthropic::{anthropic_event, events_view, ChunkStateV};
use crate::chat::{chat_chunk, chat_done, is_done_marker, ChatStateV};
use crate::cif::{StreamEvent, StreamEventV};
use crate::json::{array, jget_str, jv, pairs2, pairs3, push_item, str_json, items_view, Json, JsonV};
use crate::json_serde::json_parsed;
use crate::responses::{buffers_view, encode_events, encode_spec, frames_bytes, EncoderState, EncoderStateV, FrameV};
use crate::server::{sse_payload, UpstreamProtocol};
use crate::text::{chars_of, concat_str, str_eq, string_from_chars, trim};
use crate::upstreams::{Upstream, UpstreamRouter};

verus! {

/// What the server does with an incoming request.
#[derive(Debug, Clone, Copy, PartialEq, Eq, Structural)]
pub enum RequestKind {
    /// `GET /healthz`: the liveness probe.
    Healthz,
    /// `POST /v1/responses` or `POST /responses`: a request to translate.
    Translate,
    /// Anything else: 404.
    NotFound,
}

/// The kind of a request with `method` and `url`.
pub open spec fn request_kind(method: Seq<char>, url: Seq<char>) -> RequestKind {
    if method == "GET"@ && url == "/healthz"@ {
        RequestKind::Healthz
    } else if method == "POST"@ && (url == "/v1/responses"@ || url == "/responses"@) {
        RequestKind::Translate
    } else {
        RequestKind::NotFound
    }
}

/// Classify an incoming request.
pub fn classify_request(method: &str, url: &str) -> (r: RequestKind)
    ensures
        r == request_kind(method@, url@),
{
    if str_eq(method, "GET") && str_eq(url, "/healthz") {
        RequestKind::Healthz
    } else if str_eq(method, "POST") && (str_eq(url, "/v1/responses") || str_eq(url, "/responses")) {
        RequestKind::Translate
    } else {
        RequestKind::NotFound
    }
}

/// The lowercase name of a protocol, as the health probe shows it.
pub open spec fn protocol_label(p: UpstreamProtocol) -> Seq<char> {
    match p {
        UpstreamProtocol::Chat => "chat"@,
        UpstreamProtocol::Anthropic => "anthropic"@,
    }
}

/// What the health probe shows of one upstream.
pub open spec fn upstream_health(u: Upstream) -> JsonV {
    JsonV::Object(
        seq![
            ("name"@, JsonV::Str(u.name@)),
            ("model_match"@, JsonV::Str(u.model_match@)),
            ("protocol"@, JsonV::Str(protocol_label(u.protocol))),
        ],
    )
}

/// The health probe's reply: status `ok` and the configured upstreams.
pub open spec fn healthz_value(upstreams: Seq<Upstream>) -> JsonV {
    JsonV::Object(
        seq![
            ("status"@, JsonV::Str("ok"@)),
            ("upstreams"@, JsonV::Array(upstreams.map_values(|u: Upstream| upstream_health(u)))),
        ],
    )
}

/// The body of the reply to `GET /healthz`.
pub fn healthz_body(router: &UpstreamRouter) -> (j: Json)
    ensures
        jv(j) == healthz_value(router@),
{
    let ups = router.upstreams();
    let ghost all = router@.map_values(|u: Upstream| upstream_health(u));
    let mut out: Vec<Json> = Vec::new();
    let mut i: usize = 0;
    while i < ups.len()
        invariant
            i <= ups.len(),
            ups@ == router@,
            all == router@.map_values(|u: Upstream| upstream_health(u)),
            items_view(out@) == all.take(i as int),
        decreases ups.len() - i,
    {
        let u = &ups[i];
        let label = match u.protocol {
            UpstreamProtocol::Chat => "chat",
            UpstreamProtocol::Anthropic => "anthropic",
        };
        let item = pairs3(
            "name",
            str_json(u.name.as_str()),
            "model_match",
            str_json(u.model_match.as_str()),
            "protocol",
            str_json(label),
        );
        push_item(&mut out, item);
        assert(all.take(i + 1) =~= all.take(i as int).push(upstream_health(ups@[i as int])));
        i += 1;
    }
    assert(all.take(ups.len() as int) =~= all);
    pairs2("status", str_json("ok"), "upstreams", array(out))
}

/// The model a Responses request asks for: its string `model` member, or
/// the empty string.
pub open spec fn requested_model(body: JsonV) -> Seq<char> {
    match jget_str(body, "model"@) {
        Some(m) => m,
        None => Seq::empty(),
    }
}

/// The model a Responses request body asks for.
pub fn request_model(body: &Json) -> (r: String)
    ensures
        r@ == requested_model(jv(*body)),
{
    match crate::json::get_str(body, "model") {
        Some(m) => m.clone(),
        None => String::new(),
    }
}

/// What `format!("{:?}", names)` writes for a list of names (a bracketed,
/// comma-separated list of quoted, escaped strings).
pub uninterp spec fn debug_names_text(names: Seq<Seq<char>>) -> Seq<char>;

/// `format!("{:?}", names)`. The contract names the text; it does not say
/// how strings are escaped.
#[verifier::external_body]
fn debug_names(names: &[String]) -> (r: String)
    ensures
        r@ == debug_names_text(names@.map_values(|s: String| s@)),
{
    format!("{names:?}")
}

/// The refusal of a request whose model no upstream accepts.
pub open spec fn unmatched_model_text(model: Seq<char>, upstreams: Seq<Upstream>) -> Seq<char> {
    "no upstream matches model `"@ + model + "` — configured upstreams: "@ + debug_names_text(
        upstreams.map_values(|u: Upstream| u.name@),
    )
}

/// The refusal (status 400) of a request for `model`, which no upstream
/// of `router` accepts.
pub fn unmatched_model_message(model: &str, router: &UpstreamRouter) -> (r: String)
    ensures
        r@ == unmatched_model_text(model@, router@),
{
    let ups = router.upstreams();
    let mut names: Vec<String> = Vec::new();
    let mut i: usize = 0;
    while i < ups.len()
        invariant
            i <= ups.len(),
            ups@ == router@,
            names@.map_values(|s: String| s@) == router@.map_values(|u: Upstream| u.name@).take(i as int),
        decreases ups.len() - i,
    {
        let ghost before = names@;
        names.push(ups[i].name.clone());
        assert(names@.map_values(|s: String| s@) =~= before.map_values(|s: String| s@).push(ups@[i as int].name@));
        assert(router@.map_values(|u: Upstream| u.name@).take(i + 1) =~= router@.map_values(|u: Upstream| u.name@).take(
            i as int,
        ).push(ups@[i as int].name@));
        i += 1;
    }
    assert(router@.map_values(|u: Upstream| u.name@).take(ups.len() as int) =~= router@.map_values(|u: Upstream| u.name@));
    let listed = debug_names(names.as_slice());
    let head = concat_str("no upstream matches model `", model);
    let head2 = concat_str(head.as_str(), "` — configured upstreams: ");
    concat_str(head2.as_str(), listed.as_str())
}

/// How a request to the provider authenticates.
#[derive(Debug, Clone, PartialEq, Eq)]
pub enum UpstreamAuth {
    /// `Authorization: Bearer <token>` (Chat).
    Bearer(String),
    /// `x-api-key: <key>` with `anthropic-version: <version>` (Anthropic).
    ApiKey { key: String, version: String },
}

/// The authentication of a provider request: none without a key; a bearer
/// token for Chat; an API key and the pinned API version for Anthropic.
pub fn upstream_auth(protocol: UpstreamProtocol, api_key: &Option<String>) -> (r: Option<UpstreamAuth>)
    ensures
        match api_key {
            None => r is None,
            Some(k) => match protocol {
                UpstreamProtocol::Chat => r == Some(UpstreamAuth::Bearer(*k)),
                UpstreamProtocol::Anthropic => r matches Some(UpstreamAuth::ApiKey { key, version }) && key == *k
                    && version@ == "2023-06-01"@,
            },
        },
{
    match api_key {
        None => None,
        Some(k) => match protocol {
            UpstreamProtocol::Chat => Some(UpstreamAuth::Bearer(k.clone())),
            UpstreamProtocol::Anthropic => Some(UpstreamAuth::ApiKey { key: k.clone(), version: "2023-06-01".to_string() }),
        },
    }
}

// ───────────────────────────── chunked framing ─────────────────────────────

/// The ASCII byte of an uppercase hexadecimal digit `d < 16`.
pub open spec fn hex_upper_byte(d: nat) -> u8 {
    if d < 10 {
        (48 + d) as u8
    } else {
        (55 + d) as u8
    }
}

/// Uppercase hexadecimal notation of `n` in ASCII bytes, without leading
/// zeros (`0` for 0), as `format!("{n:X}")` writes it.
pub open spec fn hex_upper(n: nat) -> Seq<u8>
    decreases n,
{
    if n < 16 {
        seq![hex_upper_byte(n)]
    } else {
        hex_upper(n / 16).push(hex_upper_byte(n % 16))
    }
}

/// One chunk of an HTTP/1.1 chunked body: the size in hexadecimal, CRLF,
/// the bytes, CRLF.
pub open spec fn chunk_of(data: Seq<u8>) -> Seq<u8> {
    hex_upper(data.len() as nat) + seq![13u8, 10u8] + data + seq![13u8, 10u8]
}

fn hex_upper_digit(d: u8) -> (b: u8)
    requires
        d < 16,
    ensures
        b == hex_upper_byte(d as nat),
{
    if d < 10 {
        48 + d
    } else {
        55 + d
    }
}

/// Frame `data` as one chunk of a chunked body.
pub fn chunk_frame(data: &[u8]) -> (r: Vec<u8>)
    ensures
        r@ == chunk_of(data@),
{
    let n = data.len();
    let mut digits: Vec<u8> = Vec::new();
    let mut m: usize = n;
    while m >= 16
        invariant
            hex_upper(n as nat) == hex_upper(m as nat) + digits@.reverse(),
        decreases m,
    {
        let d = (m % 16) as u8;
        let ghost old_digits = digits@;
        digits.push(hex_upper_digit(d));
        proof {
            assert(hex_upper(m as nat) == hex_upper((m / 16) as nat).push(hex_upper_byte((m % 16) as nat)));
            assert(digits@.reverse() =~= seq![hex_upper_byte((m % 16) as nat)] + old_digits.reverse());
        }
        m = m / 16;
    }
    let mut out: Vec<u8> = Vec::new();
    out.push(hex_upper_digit(m as u8));
    let mut k: usize = digits.len();
    while k > 0
        invariant
            k <= digits.len(),
            hex_upper(n as nat) == hex_upper(m as nat) + digits@.reverse(),
            m < 16,
            out@ == seq![hex_upper_byte(m as nat)] + digits@.subrange(k as int, digits@.len() as int).reverse(),
        decreases k,
    {
        k -= 1;
        let ghost before = out@;
        out.push(digits[k]);
        assert(digits@.subrange(k as int, digits@.len() as int).reverse() =~= digits@.subrange(
            (k + 1) as int,
            digits@.len() as int,
        ).reverse().push(digits@[k as int]));
    }
    assert(digits@.subrange(0, digits@.len() as int) =~= digits@);
    assert(out@ =~= hex_upper(n as nat));
    out.push(13u8);
    out.push(10u8);
    let mut i: usize = 0;
    let ghost head = out@;
    while i < data.len()
        invariant
            i <= data.len(),
            out@ == head + data@.take(i as int),
        decreases data.len() - i,
    {
        out.push(data[i]);
        assert(data@.take(i + 1) =~= data@.take(i as int).push(data@[i as int]));
        i += 1;
    }
    assert(data@.take(data.len() as int) =~= data@);
    out.push(13u8);
    out.push(10u8);
    assert(out@ =~= chunk_of(data@));
    out
}

/// The chunk that ends a chunked body.
pub fn last_chunk() -> (r: Vec<u8>)
    ensures
        r@ == seq![48u8, 13u8, 10u8, 13u8, 10u8],
{
    let mut v: Vec<u8> = Vec::new();
    v.push(48u8);
    v.push(13u8);
    v.push(10u8);
    v.push(13u8);
    v.push(10u8);
    assert(v@ =~= seq![48u8, 13u8, 10u8, 13u8, 10u8]);
    v
}

// ───────────────────────────── the stream relay ─────────────────────────────

/// The frames a list of events produces from encoder state `st`, and the
/// encoder state after them.
pub open spec fn encode_all(evs: Seq<StreamEventV>, st: EncoderStateV) -> (Seq<FrameV>, EncoderStateV)
    decreases evs.len(),
{
    if evs.len() == 0 {
        (Seq::empty(), st)
    } else {
        let (fs, s1) = encode_all(evs.drop_last(), st);
        let (f2, s2) = encode_spec(evs.last(), s1);
        (fs + f2, s2)
    }
}

/// Encoding `evs` never needs a message item past the last number a
/// stream can give (`u32::MAX`): every event that opens an item finds a
/// number left.
pub open spec fn items_fit(evs: Seq<StreamEventV>, st: EncoderStateV) -> bool {
    forall|k: int|
        0 <= k < evs.len() ==> crate::responses::opens_item(evs[k], #[trigger] encode_all(evs.take(k), st).1)
            ==> encode_all(evs.take(k), st).1.seq < u32::MAX
}

/// `a + b`, capped at `usize::MAX`.
pub open spec fn capped_sum(a: nat, b: nat) -> nat {
    if a + b > usize::MAX {
        usize::MAX as nat
    } else {
        a + b
    }
}

/// The stream's metrics after one event: the characters of text streamed
/// (capped at `usize::MAX`) and the number of tool calls of the last
/// completion.
pub open spec fn metrics_step(m: (nat, nat), e: StreamEventV) -> (nat, nat) {
    match e {
        StreamEventV::TextDelta { text } => (capped_sum(m.0, text.len()), m.1),
        StreamEventV::Completed { tool_calls, .. } => (m.0, tool_calls.len()),
        _ => m,
    }
}

/// The stream's metrics after a list of events.
pub open spec fn metrics_all(evs: Seq<StreamEventV>, m: (nat, nat)) -> (nat, nat)
    decreases evs.len(),
{
    if evs.len() == 0 {
        m
    } else {
        metrics_step(metrics_all(evs.drop_last(), m), evs.last())
    }
}

/// The events a provider payload gives and the parser states after it:
/// Chat payloads go through the Chat chunk parser (an end marker closes
/// the stream), Anthropic payloads through the Anthropic event parser.
/// `None` when the parser refuses the payload.
pub open spec fn line_events(
    protocol: UpstreamProtocol,
    payload: Seq<char>,
    chat: ChatStateV,
    anth: ChunkStateV,
) -> Option<(Seq<StreamEventV>, ChatStateV, ChunkStateV)> {
    match protocol {
        UpstreamProtocol::Chat => if is_done_marker(trim(payload)) {
            Some((chat_done(chat).0, chat_done(chat).1, anth))
        } else {
            match json_parsed(trim(payload)) {
                None => None,
                Some(v) => Some((chat_chunk(v, chat).0, chat_chunk(v, chat).1, anth)),
            }
        },
        UpstreamProtocol::Anthropic => match json_parsed(payload) {
            None => None,
            Some(v) => match jget_str(v, "type"@) {
                None => None,
                Some(ty) => Some((anthropic_event(v, ty, anth).0, chat, anthropic_event(v, ty, anth).1)),
            },
        },
    }
}

/// Why a line of the provider's stream could not be relayed.
#[derive(Debug)]
pub enum RelayError {
    /// The Chat chunk parser refused the payload.
    Chat(crate::chat::ChunkError),
    /// The Anthropic event parser refused the payload.
    Anthropic(crate::anthropic::ChunkError),
    /// The stream would need more message items than can be numbered.
    ItemLimit,
}

/// What one line of the provider's stream gives: the events it carried
/// (for the tap) and the Responses API frames to send on.
pub struct RelayOutput {
    pub events: Vec<StreamEvent>,
    pub frames: Vec<Vec<u8>>,
}

/// The value of a relay session.
pub struct RelaySessionV {
    pub protocol: UpstreamProtocol,
    pub chat: ChatStateV,
    pub anthropic: ChunkStateV,
    pub encoder: EncoderStateV,
    pub text_chars: nat,
    pub tool_calls: nat,
}

/// The state of relaying one provider stream.
pub struct RelaySession {
    protocol: UpstreamProtocol,
    chat: crate::chat::ChunkState,
    anthropic: crate::anthropic::ChunkState,
    encoder: EncoderState,
    text_chars: usize,
    tool_calls_count: usize,
}

impl View for RelaySession {
    type V = RelaySessionV;

    closed spec fn view(&self) -> RelaySessionV {
        RelaySessionV {
            protocol: self.protocol,
            chat: self.chat@,
            anthropic: self.anthropic@,
            encoder: self.encoder@,
            text_chars: self.text_chars as nat,
            tool_calls: self.tool_calls_count as nat,
        }
    }
}

/// The session after relaying a line whose payload gave `evs` and parser
/// states `chat`, `anth`.
pub open spec fn relayed(s: RelaySessionV, evs: Seq<StreamEventV>, chat: ChatStateV, anth: ChunkStateV) -> RelaySessionV {
    RelaySessionV {
        protocol: s.protocol,
        chat,
        anthropic: anth,
        encoder: encode_all(evs, s.encoder).1,
        text_chars: metrics_all(evs, (s.text_chars, s.tool_calls)).0,
        tool_calls: metrics_all(evs, (s.text_chars, s.tool_calls)).1,
    }
}

impl RelaySession {
    /// A session at the start of a stream from a provider speaking
    /// `protocol`.
    pub fn new(protocol: UpstreamProtocol) -> (r: RelaySession)
        ensures
            r@ == (RelaySessionV {
                protocol,
                chat: crate::chat::fresh_chat_state(),
                anthropic: crate::anthropic::fresh_chunk_state(),
                encoder: crate::responses::fresh_state(),
                text_chars: 0,
                tool_calls: 0,
            }),
    {
        RelaySession {
            protocol,
            chat: crate::chat::ChunkState::default(),
            anthropic: crate::anthropic::ChunkState::default(),
            encoder: EncoderState::default(),
            text_chars: 0,
            tool_calls_count: 0,
        }
    }

    /// The characters of text streamed so far (capped at `usize::MAX`).
    pub fn text_chars(&self) -> (n: usize)
        ensures
            n == self@.text_chars,
    {
        self.text_chars
    }

    /// The number of tool calls of the last completion.
    pub fn tool_calls_count(&self) -> (n: usize)
        ensures
            n == self@.tool_calls,
    {
        self.tool_calls_count
    }

    /// Relay one line of the provider's SSE stream. Lines that are not
    /// `data:` lines are skipped; a payload is parsed by the protocol's
    /// parser and each event it gives is encoded in turn.
    pub fn relay_line(&mut self, line: &str) -> (r: Result<RelayOutput, RelayError>)
        ensures
            final(self)@.protocol == old(self)@.protocol,
            match sse_payload(line@) {
                None => r matches Ok(o) && o.events@.len() == 0 && o.frames@.len() == 0 && final(self)@ == old(self)@,
                Some(p) => match line_events(old(self)@.protocol, p, old(self)@.chat, old(self)@.anthropic) {
                    Some((evs, c2, a2)) => if items_fit(evs, old(self)@.encoder) {
                        r matches Ok(o) && events_view(o.events@) == evs && buffers_view(o.frames@) == frames_bytes(
                            encode_all(evs, old(self)@.encoder).0,
                        ) && final(self)@ == relayed(old(self)@, evs, c2, a2)
                    } else {
                        r matches Err(RelayError::ItemLimit)
                    },
                    None => match old(self)@.protocol {
                        UpstreamProtocol::Chat => r matches Err(RelayError::Chat(crate::chat::ChunkError::Malformed(x)))
                            && x@ == trim(p),
                        UpstreamProtocol::Anthropic => match json_parsed(p) {
                            None => r matches Err(RelayError::Anthropic(crate::anthropic::ChunkError::Malformed(x)))
                                && x@ == p,
                            Some(_) => r matches Err(RelayError::Anthropic(crate::anthropic::ChunkError::MissingType)),
                        },
                    },
                },
            },
    {
        let payload = match crate::server::sse_data(line) {
            None => {
                return Ok(RelayOutput { events: Vec::new(), frames: Vec::new() });
            },
            Some(p) => p,
        };
        let ghost s0 = self@;
        let events = match self.protocol {
            UpstreamProtocol::Chat => match crate::chat::parse_chunk(payload.as_str(), &mut self.chat) {
                Ok(e) => e,
                Err(e) => {
                    return Err(RelayError::Chat(e));
                },
            },
            UpstreamProtocol::Anthropic => match crate::anthropic::parse_chunk(payload.as_str(), &mut self.anthropic) {
                Ok(e) => e,
                Err(e) => {
                    return Err(RelayError::Anthropic(e));
                },
            },
        };
        let ghost evs = events_view(events@);
        let ghost c2 = self@.chat;
        let ghost a2 = self@.anthropic;
        assert(line_events(s0.protocol, payload@, s0.chat, s0.anthropic) == Some((evs, c2, a2)));
        let ghost e0 = s0.encoder;
        let ghost m0 = (s0.text_chars, s0.tool_calls);
        let mut frames: Vec<Vec<u8>> = Vec::new();
        let mut i: usize = 0;
        assert(evs.take(0) =~= Seq::<StreamEventV>::empty());
        while i < events.len()
            invariant
                i <= events.len(),
                evs == events_view(events@),
                s0 == old(self)@,
                sse_payload(line@) == Some(payload@),
                line_events(s0.protocol, payload@, s0.chat, s0.anthropic) == Some((evs, c2, a2)),
                self@.protocol == s0.protocol,
                self@.chat == c2,
                self@.anthropic == a2,
                e0 == s0.encoder,
                m0 == (s0.text_chars, s0.tool_calls),
                self@.encoder == encode_all(evs.take(i as int), e0).1,
                buffers_view(frames@) == frames_bytes(encode_all(evs.take(i as int), e0).0),
                (self@.text_chars, self@.tool_calls) == metrics_all(evs.take(i as int), m0),
                forall|k: int|
                    0 <= k < i ==> crate::responses::opens_item(evs[k], #[trigger] encode_all(evs.take(k), e0).1)
                        ==> encode_all(evs.take(k), e0).1.seq < u32::MAX,
            decreases events.len() - i,
        {
            let ghost t = evs.take(i as int);
            let ghost t1 = evs.take(i + 1);
            assert(t1.drop_last() =~= t);
            assert(t1.last() == events@[i as int]@);
            let opens = match &events[i] {
                StreamEvent::TextDelta { text } => !text.as_str().is_empty(),
                _ => false,
            } && self.encoder.open_item_id().is_none();
            assert(opens == crate::responses::opens_item(evs[i as int], encode_all(t, e0).1));
            if opens && self.encoder.message_seq() == u32::MAX {
                assert(!items_fit(evs, e0));
                return Err(RelayError::ItemLimit);
            }
            let ghost fr_before = buffers_view(frames@);
            let mut fs = encode_events(&events[i], &mut self.encoder);
            let ghost fs_view = buffers_view(fs@);
            frames.append(&mut fs);
            assert(buffers_view(frames@) =~= fr_before + fs_view);
            assert(frames_bytes(encode_all(t1, e0).0) =~= frames_bytes(encode_all(t, e0).0) + frames_bytes(
                encode_spec(evs[i as int], encode_all(t, e0).1).0,
            ));
            match &events[i] {
                StreamEvent::TextDelta { text } => {
                    let n = crate::text::chars_of(text.as_str()).len();
                    self.text_chars = self.text_chars.saturating_add(n);
                },
                StreamEvent::Completed { tool_calls, .. } => {
                    self.tool_calls_count = tool_calls.len();
                    assert(events@[i as int]@ matches StreamEventV::Completed { tool_calls: tcs, .. } && tcs.len() == tool_calls@.len());
                },
                _ => {},
            }
            i += 1;
        }
        assert(evs.take(events.len() as int) =~= evs);
        Ok(RelayOutput { events, frames })
    }
}

} // verus!
