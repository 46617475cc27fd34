//! Translator configuration: the upstream wire protocol, the server
//! configuration, and the per-request decisions the HTTP loop makes (which
//! endpoint to call, which SSE lines carry data).

use vstd::prelude::*;

use crate::text::{ascii_lower, concat3, chars_of, lower_chars, str_eq, string_from_chars};

verus! {

/// Wire format spoken to the upstream provider. The client side is always
/// the Responses API; only the provider side changes.
#[derive(Clone, Copy, Debug, PartialEq, Eq, Structural)]
pub enum UpstreamProtocol {
    /// OpenAI Chat Completions: POST `<base>/chat/completions`, bearer auth.
    Chat,
    /// Anthropic Messages API: POST `<base>/messages`, `x-api-key` auth.
    Anthropic,
}

/// Why a protocol name was refused.
#[derive(Clone, Debug, PartialEq, Eq)]
pub enum ProtocolError {
    /// The name, lowercased, is none of the accepted spellings.
    Unknown(String),
}

impl ProtocolError {
    /// The human-readable message.
    pub fn message(&self) -> (r: String)
        ensures
            r@ == match *self {
                ProtocolError::Unknown(other) => "unknown upstream protocol `"@ + other@
                    + "` \u{2014} expected `chat` or `anthropic`"@,
            },
    {
        match self {
            ProtocolError::Unknown(other) => {
                concat3("unknown upstream protocol `", other.as_str(), "` — expected `chat` or `anthropic`")
            },
        }
    }
}

/// The protocol an (ASCII-lowercased) protocol name stands for.
pub open spec fn protocol_named(lower: Seq<char>) -> Option<UpstreamProtocol> {
    if lower == "chat"@ || lower == "openai"@ || lower == "chat-completions"@ {
        Some(UpstreamProtocol::Chat)
    } else if lower == "anthropic"@ || lower == "messages"@ {
        Some(UpstreamProtocol::Anthropic)
    } else {
        None
    }
}

impl UpstreamProtocol {
    /// Parse a protocol name, ignoring ASCII case: `chat`, `openai` and
    /// `chat-completions` name Chat; `anthropic` and `messages` name
    /// Anthropic. Any other name is refused with the lowercased name.
    pub fn parse(s: &str) -> (r: Result<UpstreamProtocol, ProtocolError>)
        ensures
            match protocol_named(ascii_lower(s@)) {
                Some(p) => r == Ok::<UpstreamProtocol, ProtocolError>(p),
                None => r matches Err(ProtocolError::Unknown(other)) && other@ == ascii_lower(s@),
            },
    {
        let lower_v = lower_chars(chars_of(s).as_slice());
        let lower = string_from_chars(lower_v.as_slice());
        proof {
            reveal_strlit("chat");
            reveal_strlit("openai");
            reveal_strlit("chat-completions");
            reveal_strlit("anthropic");
            reveal_strlit("messages");
        }
        let l = lower.as_str();
        if str_eq(l, "chat") || str_eq(l, "openai") || str_eq(l, "chat-completions") {
            Ok(UpstreamProtocol::Chat)
        } else if str_eq(l, "anthropic") || str_eq(l, "messages") {
            Ok(UpstreamProtocol::Anthropic)
        } else {
            Err(ProtocolError::Unknown(lower))
        }
    }
}

} // verus!

use std::sync::Arc;

use crate::cif::StreamEvent;
use crate::tap::NoopEmitter;
use crate::text::{chars_of as text_chars_of, concat_str, seq_starts_with};
use crate::upstreams::{Upstream, UpstreamRouter};

verus! {

/// Configuration of the translator server, generic over its event sink.
pub struct ServerConfig<E> {
    /// Per-request upstream router.
    pub router: UpstreamRouter,
    /// Address to bind on.
    pub bind_addr: String,
    /// Event tap.
    pub emitter: Arc<E>,
}

impl ServerConfig<NoopEmitter> {
    /// A single-upstream configuration with the no-op emitter: one upstream
    /// named `default` that accepts every model (`*`) and speaks Chat.
    pub fn new(upstream_base_url: String, upstream_api_key: Option<String>, bind_addr: String) -> (r: Self)
        ensures
            r.router@.len() == 1,
            r.router@[0].name@ == "default"@,
            r.router@[0].model_match@ == "*"@,
            r.router@[0].base_url == upstream_base_url,
            r.router@[0].protocol == UpstreamProtocol::Chat,
            r.router@[0].api_key == upstream_api_key,
            r.bind_addr == bind_addr,
    {
        let upstream = Upstream {
            name: "default".to_string(),
            model_match: "*".to_string(),
            base_url: upstream_base_url,
            protocol: UpstreamProtocol::Chat,
            api_key: upstream_api_key,
        };
        let mut v: Vec<Upstream> = Vec::new();
        v.push(upstream);
        ServerConfig { router: UpstreamRouter::new(v), bind_addr, emitter: Arc::new(NoopEmitter) }
    }
}

} // verus!

verus! {

/// The provider endpoint of an upstream and the protocol label: the base
/// URL without trailing slashes followed by `/chat/completions` (Chat) or
/// `/messages` (Anthropic).
pub open spec fn endpoint_of(u: Upstream) -> (Seq<char>, Seq<char>) {
    match u.protocol {
        UpstreamProtocol::Chat => (crate::ntfy::trim_slashes(u.base_url@) + "/chat/completions"@, "chat"@),
        UpstreamProtocol::Anthropic => (crate::ntfy::trim_slashes(u.base_url@) + "/messages"@, "anthropic"@),
    }
}

pub(crate) fn trim_trailing_slashes_str(s: &str) -> (r: String)
    ensures
        r@ == crate::ntfy::trim_slashes(s@),
{
    let v = text_chars_of(s);
    let mut n = v.len();
    assert(v@.take(n as int) =~= v@);
    while n > 0 && v[n - 1] == '/'
        invariant
            n <= v.len(),
            crate::ntfy::trim_slashes(v@) == crate::ntfy::trim_slashes(v@.take(n as int)),
        decreases n,
    {
        assert(v@.take(n as int).drop_last() =~= v@.take(n - 1));
        n -= 1;
    }
    let head = v.as_slice().split_at(n).0;
    assert(head@ =~= v@.take(n as int));
    crate::text::string_from_chars(head)
}

/// The provider endpoint and protocol label of `upstream`.
pub fn upstream_endpoint(upstream: &Upstream) -> (r: (String, &'static str))
    ensures
        (r.0@, r.1@) == endpoint_of(*upstream),
{
    let base = trim_trailing_slashes_str(upstream.base_url.as_str());
    match upstream.protocol {
        UpstreamProtocol::Chat => (concat_str(base.as_str(), "/chat/completions"), "chat"),
        UpstreamProtocol::Anthropic => (concat_str(base.as_str(), "/messages"), "anthropic"),
    }
}

/// The payload of an SSE line: what follows `data:`, without one leading
/// space if there is one; `None` for any other line.
pub open spec fn sse_payload(line: Seq<char>) -> Option<Seq<char>> {
    if seq_starts_with(line, "data:"@) {
        let rest = line.subrange(5, line.len() as int);
        if rest.len() > 0 && rest[0] == ' ' {
            Some(rest.subrange(1, rest.len() as int))
        } else {
            Some(rest)
        }
    } else {
        None
    }
}

/// The payload of an upstream SSE line, if it is a `data:` line. The space
/// after the colon is optional (some providers send `data:{...}`).
pub fn sse_data(line: &str) -> (r: Option<String>)
    ensures
        opt_view(r) == sse_payload(line@),
{
    proof {
        reveal_strlit("data:");
    }
    let v = text_chars_of(line);
    let p = text_chars_of("data:");
    if !crate::text::starts_with_chars(v.as_slice(), p.as_slice()) {
        return None;
    }
    let start: usize = if v.len() > 5 && v[5] == ' ' { 6 } else { 5 };
    let tail = v.as_slice().split_at(start).1;
    let ghost rest = line@.subrange(5, line@.len() as int);
    assert(tail@ =~= if rest.len() > 0 && rest[0] == ' ' { rest.subrange(1, rest.len() as int) } else { rest });
    Some(crate::text::string_from_chars(tail))
}

/// The view of an optional string.
pub open spec fn opt_view(o: Option<String>) -> Option<Seq<char>> {
    match o {
        Some(s) => Some(s@),
        None => None,
    }
}

/// The request body sent to an upstream speaking `protocol`.
pub open spec fn upstream_body(protocol: UpstreamProtocol, req: crate::cif::Request) -> crate::json::JsonV {
    match protocol {
        UpstreamProtocol::Chat => crate::chat::chat_body(req),
        UpstreamProtocol::Anthropic => crate::anthropic::anthropic_body(req),
    }
}

/// Encode `req` for an upstream speaking `protocol`.
pub fn encode_upstream_request(protocol: UpstreamProtocol, req: &crate::cif::Request) -> (j: crate::json::Json)
    ensures
        crate::json::jv(j) == upstream_body(protocol, *req),
{
    match protocol {
        UpstreamProtocol::Chat => crate::chat::encode_request(req),
        UpstreamProtocol::Anthropic => crate::anthropic::encode_request(req),
    }
}

} // verus!
