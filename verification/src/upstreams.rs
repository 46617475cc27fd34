//! Model-name routing across the configured upstream providers.
//!
//! Routing is first-match-wins: the router walks its upstreams in order and
//! picks the first whose `model_match` glob accepts the request's model.

use vstd::prelude::*;

use crate::server::UpstreamProtocol;
use crate::text::{chars_eq, chars_of, seq_starts_with, starts_with_chars};

verus! {

/// Glob semantics for `model_match`: `*` matches anything, a trailing `*`
/// is a prefix match, anything else is an exact match.
pub open spec fn glob_matches(pattern: Seq<char>, value: Seq<char>) -> bool {
    if pattern == seq!['*'] {
        true
    } else if pattern.len() > 0 && pattern.last() == '*' {
        seq_starts_with(value, pattern.drop_last())
    } else {
        pattern == value
    }
}

/// Whether `value` matches the glob `pattern`.
pub fn glob_match(pattern: &str, value: &str) -> (b: bool)
    ensures
        b == glob_matches(pattern@, value@),
{
    let p = chars_of(pattern);
    let v = chars_of(value);
    let n = p.len();
    if n == 1 && p[0] == '*' {
        assert(p@ =~= seq!['*']);
        return true;
    }
    if n > 0 && p[n - 1] == '*' {
        let prefix = p.as_slice().split_at(n - 1).0;
        assert(prefix@ =~= p@.drop_last());
        return starts_with_chars(v.as_slice(), prefix);
    }
    chars_eq(p.as_slice(), v.as_slice())
}

/// One configured upstream: `model_match` selects it, the other fields say
/// how to talk to it. `api_key` was resolved from the environment when the
/// configuration was loaded.
#[derive(Clone, Debug)]
pub struct Upstream {
    pub name: String,
    pub model_match: String,
    pub base_url: String,
    pub protocol: UpstreamProtocol,
    pub api_key: Option<String>,
}

/// Whether upstream `u` accepts `model`.
pub open spec fn accepts(u: Upstream, model: Seq<char>) -> bool {
    glob_matches(u.model_match@, model)
}

/// The index of the upstream that a first-match-wins walk over `us`
/// selects for `model`, if any.
pub open spec fn routed_index(us: Seq<Upstream>, model: Seq<char>) -> Option<int>
    decreases us.len(),
{
    if us.len() == 0 {
        None
    } else {
        match routed_index(us.drop_last(), model) {
            Some(i) => Some(i),
            None => if accepts(us.last(), model) {
                Some(us.len() - 1)
            } else {
                None
            },
        }
    }
}

/// First-match-wins: the routed index is the least index whose upstream
/// accepts the model, and there is none exactly when no upstream accepts it.
pub proof fn lemma_routed_index_is_first_match(us: Seq<Upstream>, model: Seq<char>)
    ensures
        match routed_index(us, model) {
            Some(i) => 0 <= i < us.len() && accepts(us[i], model) && forall|j: int|
                0 <= j < i ==> !accepts(#[trigger] us[j], model),
            None => forall|j: int| 0 <= j < us.len() ==> !accepts(#[trigger] us[j], model),
        },
    decreases us.len(),
{
    if us.len() > 0 {
        let init = us.drop_last();
        lemma_routed_index_is_first_match(init, model);
        assert forall|j: int| 0 <= j < init.len() implies init[j] == us[j] by {}
    }
}

/// Ordered list of upstreams, routed per request by first match on the
/// incoming model name.
#[derive(Clone, Debug)]
pub struct UpstreamRouter {
    upstreams: Vec<Upstream>,
}

impl View for UpstreamRouter {
    type V = Seq<Upstream>;

    closed spec fn view(&self) -> Seq<Upstream> {
        self.upstreams@
    }
}

impl UpstreamRouter {
    /// A router over `upstreams`, in the given order.
    pub fn new(upstreams: Vec<Upstream>) -> (r: Self)
        ensures
            r@ == upstreams@,
    {
        UpstreamRouter { upstreams }
    }

    /// First-match-wins glob routing on the request's `model`; `None` when
    /// no upstream accepts it.
    pub fn route(&self, model: &str) -> (r: Option<&Upstream>)
        ensures
            match routed_index(self@, model@) {
                Some(i) => r == Some(&self@[i]),
                None => r is None,
            },
    {
        let mut i: usize = 0;
        while i < self.upstreams.len()
            invariant
                i <= self.upstreams.len(),
                self@ == self.upstreams@,
                routed_index(self@.subrange(0, i as int), model@) is None,
            decreases self.upstreams.len() - i,
        {
            let ghost pre = self@.subrange(0, i as int);
            let ghost next = self@.subrange(0, i as int + 1);
            assert(next.drop_last() =~= pre);
            if glob_match(self.upstreams[i].model_match.as_str(), model) {
                proof {
                    lemma_routed_prefix_stable(self@, model@, i as int + 1);
                }
                return Some(&self.upstreams[i]);
            }
            i += 1;
        }
        assert(self@.subrange(0, i as int) =~= self@);
        None
    }

    /// All registered upstreams, in routing order.
    pub fn upstreams(&self) -> (r: &[Upstream])
        ensures
            r@ == self@,
    {
        self.upstreams.as_slice()
    }
}

/// Once a prefix of the list routes a model, the whole list routes it to the
/// same index.
pub proof fn lemma_routed_prefix_stable(us: Seq<Upstream>, model: Seq<char>, n: int)
    requires
        0 <= n <= us.len(),
        routed_index(us.subrange(0, n), model) is Some,
    ensures
        routed_index(us, model) == routed_index(us.subrange(0, n), model),
    decreases us.len() - n,
{
    if n < us.len() {
        lemma_routed_prefix_stable_step(us, model, n);
        lemma_routed_prefix_stable(us, model, n + 1);
    } else {
        assert(us.subrange(0, n) =~= us);
    }
}

proof fn lemma_routed_prefix_stable_step(us: Seq<Upstream>, model: Seq<char>, n: int)
    requires
        0 <= n < us.len(),
        routed_index(us.subrange(0, n), model) is Some,
    ensures
        routed_index(us.subrange(0, n + 1), model) == routed_index(us.subrange(0, n), model),
{
    assert(us.subrange(0, n + 1).drop_last() =~= us.subrange(0, n));
}

/// Law: routing is first-match-wins. Whatever the router picks accepts the
/// model and no earlier upstream does; when it picks nothing, no upstream
/// accepts the model.
pub proof fn lemma_route_first_match_wins(router: UpstreamRouter, model: Seq<char>)
    ensures
        match routed_index(router@, model) {
            Some(i) => 0 <= i < router@.len() && accepts(router@[i], model) && forall|j: int|
                0 <= j < i ==> !accepts(#[trigger] router@[j], model),
            None => forall|j: int| 0 <= j < router@.len() ==> !accepts(#[trigger] router@[j], model),
        },
{
    lemma_routed_index_is_first_match(router@, model);
}

/// Law: a router holding a catch-all (`*`) upstream routes every model.
pub proof fn lemma_catchall_routes_everything(router: UpstreamRouter, k: int, model: Seq<char>)
    requires
        0 <= k < router@.len(),
        router@[k].model_match@ == seq!['*'],
    ensures
        routed_index(router@, model) is Some,
{
    lemma_routed_index_is_first_match(router@, model);
    assert(accepts(router@[k], model));
}

/// An upstream as the configuration file declares it, before the protocol
/// name and the API-key variable are resolved.
#[derive(Debug, Clone, PartialEq, Eq)]
pub struct RawUpstream {
    pub name: String,
    pub model_match: String,
    pub base_url: String,
    pub protocol: String,
    pub api_key_env: Option<String>,
}

/// Why a declared upstream could not be resolved.
#[derive(Debug, Clone, PartialEq, Eq)]
pub enum UpstreamConfigError {
    /// The protocol name is unknown.
    Protocol { name: String, error: crate::server::ProtocolError },
    /// The API-key variable is not set.
    MissingKey { name: String, var: String },
    /// The configuration declares no upstream.
    Empty,
}

impl UpstreamConfigError {
    /// The human-readable message.
    pub fn message(&self) -> (r: String)
        ensures
            r@ == match *self {
                UpstreamConfigError::Protocol { name, error } => "upstream `"@ + name@ + "` protocol"@,
                UpstreamConfigError::MissingKey { name, var } => "upstream `"@ + name@ + "` api_key_env `"@ + var@
                    + "` is unset"@,
                UpstreamConfigError::Empty => "upstreams config has no [[upstream]] entries"@,
            },
    {
        match self {
            UpstreamConfigError::Protocol { name, .. } => crate::text::concat3("upstream `", name.as_str(), "` protocol"),
            UpstreamConfigError::MissingKey { name, var } => {
                let a = crate::text::concat3("upstream `", name.as_str(), "` api_key_env `");
                crate::text::concat3(a.as_str(), var.as_str(), "` is unset")
            },
            UpstreamConfigError::Empty => "upstreams config has no [[upstream]] entries".to_string(),
        }
    }
}

/// What resolving `raw` with `key` (the value of its API-key variable)
/// gives: an unknown protocol name is refused; a named API-key variable
/// that is unset is refused; otherwise the upstream with the protocol and
/// the key.
pub open spec fn resolves_to(raw: RawUpstream, key: Option<String>, r: Result<Upstream, UpstreamConfigError>) -> bool {
        match crate::server::protocol_named(crate::text::ascii_lower(raw.protocol@)) {
            None => r matches Err(UpstreamConfigError::Protocol { name, .. }) && name == raw.name,
            Some(p) => match raw.api_key_env {
                Some(var) => match key {
                    None => r == Err::<Upstream, UpstreamConfigError>(
                        UpstreamConfigError::MissingKey { name: raw.name, var },
                    ),
                    Some(k) => r == Ok::<Upstream, UpstreamConfigError>(
                        Upstream {
                            name: raw.name,
                            model_match: raw.model_match,
                            base_url: raw.base_url,
                            protocol: p,
                            api_key: Some(k),
                        },
                    ),
                },
                None => r == Ok::<Upstream, UpstreamConfigError>(
                    Upstream {
                        name: raw.name,
                        model_match: raw.model_match,
                        base_url: raw.base_url,
                        protocol: p,
                        api_key: None,
                    },
                ),
            },
        }
}

/// Whether `raw` resolves with `key`.
pub open spec fn resolvable(raw: RawUpstream, key: Option<String>) -> bool {
    &&& crate::server::protocol_named(crate::text::ascii_lower(raw.protocol@)) is Some
    &&& (raw.api_key_env is Some ==> key is Some)
}

impl RawUpstream {
    /// Resolve the declaration: its protocol name must be known, and its
    /// API-key variable (if it names one) must be set; `key_value` is that
    /// variable's value in the environment.
    pub fn resolve(self, key_value: Option<String>) -> (r: Result<Upstream, UpstreamConfigError>)
        ensures
            resolves_to(self, key_value, r),
    {
        let protocol = match UpstreamProtocol::parse(self.protocol.as_str()) {
            Ok(p) => p,
            Err(error) => {
                return Err(UpstreamConfigError::Protocol { name: self.name, error });
            },
        };
        let api_key = match self.api_key_env {
            Some(var) => match key_value {
                Some(k) => Some(k),
                None => {
                    return Err(UpstreamConfigError::MissingKey { name: self.name, var });
                },
            },
            None => None,
        };
        Ok(Upstream { name: self.name, model_match: self.model_match, base_url: self.base_url, protocol, api_key })
    }
}

/// Resolve every declared upstream, in order, into a router; `keys[i]` is
/// the value of the API-key variable `raws[i]` names. A configuration
/// without upstreams is refused; otherwise the first declaration that
/// does not resolve gives the error.
pub fn resolve_all(raws: Vec<RawUpstream>, keys: Vec<Option<String>>) -> (r: Result<UpstreamRouter, UpstreamConfigError>)
    requires
        raws@.len() == keys@.len(),
    ensures
        raws@.len() == 0 ==> r == Err::<UpstreamRouter, UpstreamConfigError>(UpstreamConfigError::Empty),
        r is Ok <==> (raws@.len() > 0 && forall|i: int| 0 <= i < raws@.len() ==> #[trigger] resolvable(raws@[i], keys@[i])),
        match r {
            Ok(router) => router@.len() == raws@.len() && forall|i: int|
                0 <= i < raws@.len() ==> resolves_to(raws@[i], keys@[i], Ok(#[trigger] router@[i])),
            Err(e) => raws@.len() == 0 || exists|i: int|
                0 <= i < raws@.len() && (forall|j: int| 0 <= j < i ==> #[trigger] resolvable(raws@[j], keys@[j]))
                    && !resolvable(raws@[i], keys@[i]) && resolves_to(raws@[i], keys@[i], Err(e)),
        },
{
    if raws.len() == 0 {
        return Err(UpstreamConfigError::Empty);
    }
    let n = raws.len();
    let ghost rs = raws@;
    let ghost ks = keys@;
    let mut rest_raws = raws;
    let mut rest_keys = keys;
    let mut out: Vec<Upstream> = Vec::new();
    let mut i: usize = 0;
    while rest_raws.len() > 0
        invariant
            rs == raws@,
            ks == keys@,
            n == rs.len(),
            rs.len() == ks.len(),
            rs.len() > 0,
            i <= rs.len(),
            rest_raws@ == rs.skip(i as int),
            rest_keys@ == ks.skip(i as int),
            out@.len() == i,
            forall|j: int| 0 <= j < i ==> resolves_to(rs[j], ks[j], Ok(#[trigger] out@[j])),
            forall|j: int| 0 <= j < i ==> #[trigger] resolvable(rs[j], ks[j]),
        decreases rest_raws.len(),
    {
        let raw = rest_raws.remove(0);
        let key = rest_keys.remove(0);
        assert(raw == rs[i as int]);
        assert(key == ks[i as int]);
        assert(rest_raws@ =~= rs.skip(i + 1));
        assert(rest_keys@ =~= ks.skip(i + 1));
        match raw.resolve(key) {
            Ok(u) => {
                out.push(u);
            },
            Err(e) => {
                assert(!resolvable(rs[i as int], ks[i as int]));
                return Err(e);
            },
        }
        i += 1;
    }
    assert(i == rs.len());
    Ok(UpstreamRouter::new(out))
}

} // verus!
