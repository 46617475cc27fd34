//! Pinned-skill budgeting and the record of host skill prompts already
//! injected in a turn.

use vstd::prelude::*;

use crate::text::{chars_of, seq_starts_with, starts_with_chars, string_from_chars};

verus! {

/// A skill whose body is injected into the conversation.
#[derive(Debug, Clone, PartialEq, Eq)]
pub struct SkillInjection {
    pub name: String,
    pub path: String,
    pub contents: String,
}

impl SkillInjection {
    /// A copy of this injection.
    pub fn duplicate(&self) -> (r: SkillInjection)
        ensures
            r == *self,
    {
        SkillInjection { name: self.name.clone(), path: self.path.clone(), contents: self.contents.clone() }
    }
}

/// The skill bodies loaded for a turn, and the warnings raised loading them.
#[derive(Debug, Default)]
pub struct SkillInjections {
    pub items: Vec<SkillInjection>,
    pub warnings: Vec<String>,
}

/// Share (percent) of the context window that pinned skill bodies may use.
pub const PINNED_SKILL_CONTEXT_WINDOW_PERCENT: usize = 25;

/// Budget, in characters, when the context window is unknown.
pub const DEFAULT_PINNED_SKILL_CHAR_BUDGET: usize = 40_000;

/// How pinned skill bodies are measured, and how much of them fits.
#[derive(Debug, Clone, Copy, PartialEq, Eq, Structural)]
pub enum PinnedSkillBudget {
    /// At most this many (approximate) tokens.
    Tokens(usize),
    /// At most this many characters.
    Characters(usize),
}

/// `a + b`, saturating at `usize::MAX`.
pub open spec fn sat_add(a: int, b: int) -> int {
    if a + b > usize::MAX {
        usize::MAX as int
    } else {
        a + b
    }
}

/// The approximate token count of a text of `bytes` UTF-8 bytes: one token
/// per four bytes, rounded up (the addition saturating).
pub open spec fn approx_tokens(bytes: int) -> int {
    sat_add(bytes, 3) / 4
}

/// The approximate token count of `text`.
pub fn approx_token_count(text: &str) -> (n: usize)
    ensures
        n == approx_tokens(byte_len(text@)),
{
    text.len().saturating_add(3) / 4
}

/// The length in bytes of the UTF-8 encoding of `s` (as `str::len`
/// reports it).
pub open spec fn byte_len(s: Seq<char>) -> int {
    (vstd::utf8::encode_utf8(s).len() as usize) as int
}

/// The limit of a budget.
pub open spec fn budget_limit(b: PinnedSkillBudget) -> int {
    match b {
        PinnedSkillBudget::Tokens(l) => l as int,
        PinnedSkillBudget::Characters(l) => l as int,
    }
}

/// What a skill body costs against a budget: its approximate tokens, or
/// its characters.
pub open spec fn budget_cost(b: PinnedSkillBudget, contents: Seq<char>) -> int {
    match b {
        PinnedSkillBudget::Tokens(_) => approx_tokens(byte_len(contents)),
        PinnedSkillBudget::Characters(_) => contents.len() as int,
    }
}

impl PinnedSkillBudget {
    fn limit(self) -> (l: usize)
        ensures
            l == budget_limit(self),
    {
        match self {
            PinnedSkillBudget::Tokens(limit) => limit,
            PinnedSkillBudget::Characters(limit) => limit,
        }
    }

    fn cost(self, text: &str) -> (c: usize)
        ensures
            c == budget_cost(self, text@),
    {
        match self {
            PinnedSkillBudget::Tokens(_) => approx_token_count(text),
            PinnedSkillBudget::Characters(_) => chars_of(text).len(),
        }
    }
}

/// The default budget for a context window: 25% of a known, positive
/// window, in tokens (the product saturating, at least one token), and
/// otherwise 40,000 characters. A window that does not fit a `usize` counts
/// as unknown.
pub open spec fn default_budget(context_window: Option<i64>) -> PinnedSkillBudget {
    match context_window {
        Some(w) => if 0 < w && w <= usize::MAX {
            let share = (if w * 25 > usize::MAX { usize::MAX as int } else { w * 25 }) / 100;
            PinnedSkillBudget::Tokens((if share < 1 { 1 } else { share }) as usize)
        } else {
            PinnedSkillBudget::Characters(40_000)
        },
        None => PinnedSkillBudget::Characters(40_000),
    }
}

/// Default pinned-skill budget for a session: a share of the model's
/// context window when known, otherwise a fixed character budget.
pub fn default_pinned_skill_budget(context_window: Option<i64>) -> (b: PinnedSkillBudget)
    ensures
        b == default_budget(context_window),
{
    match context_window {
        Some(w) => {
            if w > 0 && (w as u64) <= (usize::MAX as u64) {
                let window = w as usize;
                let product = match window.checked_mul(PINNED_SKILL_CONTEXT_WINDOW_PERCENT) {
                    Some(p) => p,
                    None => usize::MAX,
                };
                let share = product / 100;
                let tokens = if share < 1 { 1 } else { share };
                PinnedSkillBudget::Tokens(tokens)
            } else {
                PinnedSkillBudget::Characters(DEFAULT_PINNED_SKILL_CHAR_BUDGET)
            }
        },
        None => PinnedSkillBudget::Characters(DEFAULT_PINNED_SKILL_CHAR_BUDGET),
    }
}

/// How many skills a budgeting pass kept, how many it dropped, and which.
#[derive(Debug, Clone, Default, PartialEq, Eq)]
pub struct PinnedSkillBudgetReport {
    pub included_count: usize,
    pub omitted_count: usize,
    pub omitted_names: Vec<String>,
}

/// The costs of the skill bodies against `b`.
pub open spec fn costs_of(items: Seq<SkillInjection>, b: PinnedSkillBudget) -> Seq<int> {
    items.map_values(|it: SkillInjection| budget_cost(b, it.contents@))
}

/// Whether the item at position `i`, costing `c`, is kept when the kept
/// items before it used `used`: the first item always is; a later one when
/// it still fits.
pub open spec fn keeps(i: int, used: int, c: int, limit: int) -> bool {
    i == 0 || sat_add(used, c) <= limit
}

/// What the kept items among `costs` use of the budget (the running total
/// saturating).
pub open spec fn used_by(costs: Seq<int>, limit: int) -> int
    decreases costs.len(),
{
    if costs.len() == 0 {
        0
    } else {
        let init = costs.drop_last();
        let u = used_by(init, limit);
        if keeps(init.len() as int, u, costs.last(), limit) {
            sat_add(u, costs.last())
        } else {
            u
        }
    }
}

/// Whether the item at position `i` is kept.
pub open spec fn kept_at(costs: Seq<int>, limit: int, i: int) -> bool {
    keeps(i, used_by(costs.take(i), limit), costs[i], limit)
}

/// The items kept, in their order.
pub open spec fn kept_items(items: Seq<SkillInjection>, costs: Seq<int>, limit: int) -> Seq<SkillInjection>
    decreases items.len(),
{
    if items.len() == 0 {
        Seq::empty()
    } else {
        let init = kept_items(items.drop_last(), costs, limit);
        if kept_at(costs, limit, items.len() - 1) {
            init.push(items.last())
        } else {
            init
        }
    }
}

/// The names of the items dropped, in their order.
pub open spec fn omitted_names(items: Seq<SkillInjection>, costs: Seq<int>, limit: int) -> Seq<Seq<char>>
    decreases items.len(),
{
    if items.len() == 0 {
        Seq::empty()
    } else {
        let init = omitted_names(items.drop_last(), costs, limit);
        if kept_at(costs, limit, items.len() - 1) {
            init
        } else {
            init.push(items.last().name@)
        }
    }
}

proof fn lemma_used_by_take(costs: Seq<int>, limit: int, i: int)
    requires
        0 <= i < costs.len(),
    ensures
        used_by(costs.take(i + 1), limit) == if kept_at(costs, limit, i) {
            sat_add(used_by(costs.take(i), limit), costs[i])
        } else {
            used_by(costs.take(i), limit)
        },
{
    assert(costs.take(i + 1).drop_last() =~= costs.take(i));
}

/// Trim loaded pinned-skill injections to fit `budget`, keeping whole
/// bodies in their order: an item is dropped when it would push the running
/// total over the limit, except the first, which is always kept.
pub fn budget_skill_injections(items: Vec<SkillInjection>, budget: PinnedSkillBudget) -> (r: (
    Vec<SkillInjection>,
    PinnedSkillBudgetReport,
))
    ensures
        r.0@ == kept_items(items@, costs_of(items@, budget), budget_limit(budget)),
        r.1.included_count == r.0@.len(),
        r.1.omitted_count + r.1.included_count == items@.len(),
        r.1.omitted_names@.map_values(|n: String| n@) == omitted_names(
            items@,
            costs_of(items@, budget),
            budget_limit(budget),
        ),
{
    let limit = budget.limit();
    let ghost costs = costs_of(items@, budget);
    let ghost all = items@;
    let mut kept: Vec<SkillInjection> = Vec::new();
    let mut names: Vec<String> = Vec::new();
    let mut omitted: usize = 0;
    let mut used: usize = 0;
    let mut i: usize = 0;
    while i < items.len()
        invariant
            i <= items.len(),
            all == items@,
            costs == costs_of(all, budget),
            limit == budget_limit(budget),
            used == used_by(costs.take(i as int), limit as int),
            kept@ == kept_items(all.take(i as int), costs, limit as int),
            names@.map_values(|n: String| n@) == omitted_names(all.take(i as int), costs, limit as int),
            omitted + kept@.len() == i,
            (i > 0) == (kept@.len() > 0),
        decreases items.len() - i,
    {
        let item = &items[i];
        let cost = budget.cost(item.contents.as_str());
        proof {
            assert(costs[i as int] == cost);
            lemma_used_by_take(costs, limit as int, i as int);
            assert(all.take(i + 1).drop_last() =~= all.take(i as int));
            assert(all.take(i + 1).last() == all[i as int]);
        }
        if kept.len() > 0 && used.saturating_add(cost) > limit {
            proof {
                assert(i > 0);
            }
            let ghost before = names@.map_values(|n: String| n@);
            names.push(item.name.clone());
            assert(names@.map_values(|n: String| n@) =~= before.push(item.name@));
            omitted = omitted + 1;
        } else {
            proof {
                if kept.len() == 0 {
                    assert(i == 0 || kept_items(all.take(i as int), costs, limit as int).len() == 0);
                }
            }
            used = used.saturating_add(cost);
            kept.push(item.duplicate());
        }
        i += 1;
    }
    proof {
        assert(all.take(items.len() as int) =~= all);
    }
    let included = kept.len();
    (kept, PinnedSkillBudgetReport { included_count: included, omitted_count: omitted, omitted_names: names })
}

/// Law: the first skill is always kept, so a non-empty list never budgets
/// down to nothing.
pub proof fn lemma_budget_keeps_first(items: Seq<SkillInjection>, costs: Seq<int>, limit: int)
    requires
        items.len() > 0,
    ensures
        kept_items(items, costs, limit).len() > 0,
        kept_items(items, costs, limit)[0] == items[0],
    decreases items.len(),
{
    let init = items.drop_last();
    if items.len() == 1 {
        assert(init =~= Seq::<SkillInjection>::empty());
        assert(kept_items(init, costs, limit) =~= Seq::<SkillInjection>::empty());
        assert(kept_at(costs, limit, 0));
    } else {
        lemma_budget_keeps_first(init, costs, limit);
        assert(init[0] == items[0]);
    }
}

/// The plain sum of `costs`.
pub open spec fn total_cost(costs: Seq<int>) -> int
    decreases costs.len(),
{
    if costs.len() == 0 {
        0
    } else {
        total_cost(costs.drop_last()) + costs.last()
    }
}

proof fn lemma_total_prefix(costs: Seq<int>, j: int)
    requires
        0 <= j <= costs.len(),
        forall|i: int| 0 <= i < costs.len() ==> costs[i] >= 0,
    ensures
        total_cost(costs.take(j)) <= total_cost(costs),
    decreases costs.len(),
{
    if j == costs.len() {
        assert(costs.take(j) =~= costs);
    } else {
        let init = costs.drop_last();
        assert(costs.take(j) =~= init.take(j));
        lemma_total_prefix(init, j);
    }
}

proof fn lemma_all_fit_kept(costs: Seq<int>, limit: int, i: int)
    requires
        0 <= i <= costs.len(),
        forall|k: int| 0 <= k < costs.len() ==> costs[k] >= 0,
        total_cost(costs) <= limit,
        limit <= usize::MAX,
    ensures
        used_by(costs.take(i), limit) == total_cost(costs.take(i)),
        forall|j: int| 0 <= j < i ==> kept_at(costs, limit, j),
    decreases i,
{
    if i == 0 {
        assert(costs.take(0) =~= Seq::<int>::empty());
    } else {
        lemma_all_fit_kept(costs, limit, i - 1);
        let p = costs.take(i - 1);
        assert(costs.take(i).drop_last() =~= p);
        assert(costs.take(i).last() == costs[i - 1]);
        lemma_total_prefix(costs, i);
        assert(total_cost(costs.take(i)) == total_cost(p) + costs[i - 1]);
        assert(kept_at(costs, limit, i - 1));
        lemma_used_by_take(costs, limit, i - 1);
    }
}

proof fn lemma_all_kept_items(items: Seq<SkillInjection>, costs: Seq<int>, limit: int)
    requires
        items.len() <= costs.len(),
        forall|j: int| 0 <= j < items.len() ==> kept_at(costs, limit, j),
    ensures
        kept_items(items, costs, limit) == items,
        omitted_names(items, costs, limit) == Seq::<Seq<char>>::empty(),
    decreases items.len(),
{
    if items.len() > 0 {
        lemma_all_kept_items(items.drop_last(), costs, limit);
        assert(items.drop_last().push(items.last()) =~= items);
    }
}

/// Law: when the skills' costs together fit the budget, every skill is
/// kept, in order, and none is reported omitted.
pub proof fn lemma_budget_keeps_all_that_fit(items: Seq<SkillInjection>, b: PinnedSkillBudget)
    requires
        total_cost(costs_of(items, b)) <= budget_limit(b),
    ensures
        kept_items(items, costs_of(items, b), budget_limit(b)) == items,
        omitted_names(items, costs_of(items, b), budget_limit(b)) == Seq::<Seq<char>>::empty(),
{
    let costs = costs_of(items, b);
    let limit = budget_limit(b);
    assert forall|k: int| 0 <= k < costs.len() implies costs[k] >= 0 by {
        assert(costs[k] == budget_cost(b, items[k].contents@));
    }
    lemma_all_fit_kept(costs, limit, costs.len() as int);
    lemma_all_kept_items(items, costs, limit);
}

/// Law: a skill after the first is dropped only when the skills kept
/// before it, plus its own cost, would go over the limit.
pub proof fn lemma_budget_drops_only_overflow(costs: Seq<int>, limit: int, i: int)
    requires
        0 <= i < costs.len(),
        !kept_at(costs, limit, i),
    ensures
        i > 0,
        used_by(costs.take(i), limit) + costs[i] > limit,
{
}

/// Law: the kept skills fit the budget, unless the first skill alone
/// exceeds it, in which case it is the only one kept.
pub proof fn lemma_budget_fits_or_only_first(costs: Seq<int>, limit: int)
    requires
        forall|i: int| 0 <= i < costs.len() ==> costs[i] >= 0,
    ensures
        used_by(costs, limit) <= limit || forall|i: int| 1 <= i < costs.len() ==> !kept_at(costs, limit, i),
    decreases costs.len(),
{
    if costs.len() > 0 {
        let init = costs.drop_last();
        lemma_budget_fits_or_only_first(init, limit);
        let n = costs.len() - 1;
        assert(costs.take(n) =~= init);
        assert forall|i: int| 1 <= i < n implies kept_at(costs, limit, i) == kept_at(init, limit, i) by {
            assert(costs.take(i) =~= init.take(i));
        }
    }
}

} // verus!

verus! {

/// The prefix of a skill link path.
pub open spec fn skill_link_prefix() -> Seq<char> {
    "skill://"@
}

/// A host skill path as recorded: without a leading `skill://`, and with
/// every backslash turned into a slash.
pub open spec fn normalized_host_path(path: Seq<char>) -> Seq<char> {
    let stripped = if seq_starts_with(path, skill_link_prefix()) {
        path.subrange(skill_link_prefix().len() as int, path.len() as int)
    } else {
        path
    };
    stripped.map_values(|c: char| if c == '\\' { '/' } else { c })
}

/// Normalize a host skill path.
pub fn normalize_host_skill_path(path: &str) -> (r: String)
    ensures
        r@ == normalized_host_path(path@),
{
    proof {
        reveal_strlit("skill://");
    }
    let v = chars_of(path);
    let p = chars_of("skill://");
    let start: usize = if starts_with_chars(v.as_slice(), p.as_slice()) { p.len() } else { 0 };
    let ghost stripped = v@.subrange(start as int, v@.len() as int);
    assert(stripped =~= (if seq_starts_with(path@, skill_link_prefix()) {
        path@.subrange(skill_link_prefix().len() as int, path@.len() as int)
    } else {
        path@
    }));
    let mut out: Vec<char> = Vec::new();
    let mut i: usize = start;
    while i < v.len()
        invariant
            start <= i <= v.len(),
            stripped == v@.subrange(start as int, v@.len() as int),
            out@ == stripped.take(i - start).map_values(|c: char| if c == '\\' { '/' } else { c }),
        decreases v.len() - i,
    {
        let c = v[i];
        out.push(if c == '\\' { '/' } else { c });
        assert(stripped.take(i + 1 - start) =~= stripped.take(i - start).push(c));
        assert(out@ =~= stripped.take(i + 1 - start).map_values(|c: char| if c == '\\' { '/' } else { c }));
        i += 1;
    }
    assert(stripped.take(v.len() - start) =~= stripped);
    string_from_chars(out.as_slice())
}

/// Host skill prompts that an extension has already injected in this turn,
/// recorded both as given and normalized.
#[derive(Debug, Clone)]
pub struct InjectedHostSkillPrompts {
    paths: Vec<String>,
}

impl View for InjectedHostSkillPrompts {
    type V = Set<Seq<char>>;

    closed spec fn view(&self) -> Set<Seq<char>> {
        self.paths@.map_values(|p: String| p@).to_set()
    }
}

/// Marks a turn whose skills extension projects the host skill catalog
/// through the world state.
#[derive(Debug, Clone, Copy, Default, PartialEq, Eq)]
pub struct HostSkillsCatalogInWorldState;

impl Default for InjectedHostSkillPrompts {
    fn default() -> (r: Self)
        ensures
            r@ == Set::<Seq<char>>::empty(),
    {
        let r = InjectedHostSkillPrompts { paths: Vec::new() };
        assert(r@ =~= Set::<Seq<char>>::empty());
        r
    }
}

impl InjectedHostSkillPrompts {
    fn record(&mut self, p: String)
        ensures
            final(self)@ == old(self)@.insert(p@),
    {
        let ghost pv = p@;
        self.paths.push(p);
        assert(self.paths@.map_values(|q: String| q@) =~= old(self).paths@.map_values(|q: String| q@).push(pv));
        assert(self@ =~= old(self)@.insert(pv)) by {
            old(self).paths@.map_values(|q: String| q@).lemma_push_to_set_commute(pv);
        }
    }

    /// Record `path` as injected, both as given and normalized.
    pub fn insert_path(&mut self, path: &str)
        ensures
            final(self)@ == old(self)@.insert(path@).insert(normalized_host_path(path@)),
    {
        let n = normalize_host_skill_path(path);
        self.record(n);
        self.record(path.to_string());
        assert(self@ =~= old(self)@.insert(path@).insert(normalized_host_path(path@)));
    }

    /// Whether nothing has been recorded.
    pub fn is_empty(&self) -> (b: bool)
        ensures
            b == (self@ == Set::<Seq<char>>::empty()),
    {
        let b = self.paths.len() == 0;
        proof {
            if !b {
                let vs = self.paths@.map_values(|q: String| q@);
                assert(vs[0] == self.paths@[0]@);
                assert(vs.contains(vs[0]));
                assert(self@.contains(self.paths@[0]@));
            } else {
                assert(self@ =~= Set::<Seq<char>>::empty());
            }
        }
        b
    }

    fn holds(&self, p: &str) -> (b: bool)
        ensures
            b == self@.contains(p@),
    {
        let mut i: usize = 0;
        while i < self.paths.len()
            invariant
                i <= self.paths.len(),
                forall|k: int| 0 <= k < i ==> self.paths@[k]@ != p@,
            decreases self.paths.len() - i,
        {
            if crate::text::str_eq(self.paths[i].as_str(), p) {
                proof {
                    assert(self.paths@.map_values(|q: String| q@)[i as int] == p@);
                }
                return true;
            }
            i += 1;
        }
        proof {
            let vs = self.paths@.map_values(|q: String| q@);
            if self@.contains(p@) {
                assert(vs.contains(p@));
                let k = choose|k: int| 0 <= k < vs.len() && #[trigger] vs[k] == p@;
                assert(self.paths@[k]@ == p@);
            }
        }
        false
    }

    /// Whether `path`, as given or normalized, has been recorded.
    pub fn contains_path(&self, path: &str) -> (b: bool)
        ensures
            b == (self@.contains(path@) || self@.contains(normalized_host_path(path@))),
    {
        if self.holds(path) {
            return true;
        }
        let n = normalize_host_skill_path(path);
        self.holds(n.as_str())
    }
}

/// `q`, as given or normalized, is among the recorded paths `s`.
pub open spec fn path_recorded(s: Set<Seq<char>>, q: Seq<char>) -> bool {
    s.contains(q) || s.contains(normalized_host_path(q))
}

/// Law: recording a path is remembered and forgets nothing. After
/// `insert_path(p)` (which records `p` and its normal form), a path equal
/// to `p` or with the same normal form is found, the record is not empty,
/// and every path found before is still found; an empty record finds
/// nothing.
pub proof fn lemma_insert_path_remembers(s: Set<Seq<char>>, p: Seq<char>, q: Seq<char>, r: Seq<char>)
    ensures
        (q == p || normalized_host_path(q) == normalized_host_path(p)) ==> path_recorded(
            s.insert(p).insert(normalized_host_path(p)),
            q,
        ),
        s.insert(p).insert(normalized_host_path(p)) != Set::<Seq<char>>::empty(),
        path_recorded(s, r) ==> path_recorded(s.insert(p).insert(normalized_host_path(p)), r),
        !path_recorded(Set::<Seq<char>>::empty(), r),
{
    let t = s.insert(p).insert(normalized_host_path(p));
    assert(t.contains(p));
    if t == Set::<Seq<char>>::empty() {
        assert(Set::<Seq<char>>::empty().contains(p));
    }
}

/// The length in bytes of the UTF-8 encoding of `s`.
pub open spec fn utf8_len(s: Seq<char>) -> nat {
    vstd::utf8::encode_utf8(s).len()
}

proof fn lemma_utf8_len_push(s: Seq<char>, c: char)
    ensures
        utf8_len(s.push(c)) == utf8_len(s) + vstd::utf8::encode_scalar(c as u32).len(),
    decreases s.len(),
{
    if s.len() == 0 {
        assert(s.push(c).drop_first() =~= Seq::<char>::empty());
        assert(vstd::utf8::encode_utf8(Seq::<char>::empty()) =~= Seq::<u8>::empty());
        assert(vstd::utf8::encode_utf8(s) =~= Seq::<u8>::empty());
    } else {
        assert(s.push(c).drop_first() =~= s.drop_first().push(c));
        lemma_utf8_len_push(s.drop_first(), c);
    }
}

fn utf8_width(c: char) -> (w: usize)
    ensures
        w == vstd::utf8::encode_scalar(c as u32).len(),
        1 <= w <= 4,
{
    let u = c as u32;
    proof {
        vstd::utf8::char_is_scalar(c);
    }
    if u <= 0x7f {
        1
    } else if u <= 0x7ff {
        2
    } else if u <= 0xffff {
        3
    } else {
        4
    }
}

/// The longest prefix of a skill body that fits `max_bytes` bytes of
/// UTF-8 without splitting a character, and whether anything was cut.
pub fn bounded_skill_prompt_contents(contents: &str, max_bytes: usize) -> (r: (String, bool))
    ensures
        r.0@ == contents@.take(r.0@.len() as int),
        utf8_len(r.0@) <= max_bytes,
        r.0@.len() < contents@.len() ==> utf8_len(contents@.take(r.0@.len() + 1int)) > max_bytes,
        r.1 == (r.0@.len() < contents@.len()),
{
    let v = chars_of(contents);
    let mut used: usize = 0;
    let mut k: usize = 0;
    let mut full = false;
    assert(v@.take(0) =~= Seq::<char>::empty());
    assert(vstd::utf8::encode_utf8(Seq::<char>::empty()) =~= Seq::<u8>::empty());
    while k < v.len() && !full
        invariant
            k <= v.len(),
            v@ == contents@,
            used == utf8_len(v@.take(k as int)),
            used <= max_bytes,
            full ==> k < v.len() && utf8_len(v@.take(k + 1)) > max_bytes,
        decreases v.len() - k, (if full { 0int } else { 1int }),
    {
        let w = utf8_width(v[k]);
        proof {
            assert(v@.take(k + 1) =~= v@.take(k as int).push(v@[k as int]));
            lemma_utf8_len_push(v@.take(k as int), v@[k as int]);
        }
        if w > max_bytes - used {
            full = true;
        } else {
            used = used + w;
            k = k + 1;
        }
    }
    let prefix = string_from_chars(v.as_slice().split_at(k).0);
    assert(prefix@ =~= contents@.take(k as int));
    (prefix, k < v.len())
}

/// The warning given when skill `name`'s body was cut to fit.
pub fn truncation_warning(name: &str) -> (r: String)
    ensures
        r@ == "Skill `"@ + name@ + "` exceeded the main prompt context limit and was truncated."@,
{
    crate::text::concat3("Skill `", name, "` exceeded the main prompt context limit and was truncated.")
}

} // verus!
