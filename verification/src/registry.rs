//! The resolved model registry: curated entries keyed by slug, in slug
//! order, where a later entry for a slug replaces an earlier one. The
//! registry in effect is the bundled seed overlaid by the user's entries;
//! `models refresh` grows the user's entries from what providers list.

use vstd::prelude::*;

use crate::curated_seed::{
    bundled_seed, bundled_seed_rows, curated_rows, discovery_keeps, discovery_keeps_spec, entries_view, table_lookup, CuratedEntry,
    CuratedEntryV,
};
use crate::model_lines::{
    chars_lt, chars_lt_exec, collapse_to_latest_per_line, kept_for_line, lemma_chars_lt_asymmetric,
    lemma_chars_lt_irreflexive, lemma_chars_lt_total, lemma_chars_lt_transitive, strings_view,
};
use crate::models_cmd::{synthesize_entry, synthesized};
use crate::text::{chars_of, str_eq};

verus! {

/// The entries' slugs are strictly increasing.
pub open spec fn slug_sorted(es: Seq<CuratedEntryV>) -> bool {
    forall|i: int, j: int| 0 <= i < j < es.len() ==> chars_lt(#[trigger] es[i].slug, #[trigger] es[j].slug)
}

/// In a table sorted by slug, the entry for a slug is the one entry
/// holding it.
pub proof fn lemma_sorted_lookup(t: Seq<CuratedEntryV>, s: Seq<char>)
    requires
        slug_sorted(t),
    ensures
        forall|k: int| 0 <= k < t.len() && t[k].slug == s ==> table_lookup(t, s) == Some(t[k]),
        (forall|k: int| 0 <= k < t.len() ==> t[k].slug != s) ==> table_lookup(t, s) is None,
    decreases t.len(),
{
    if t.len() > 0 {
        let d = t.drop_last();
        assert(slug_sorted(d)) by {
            assert forall|i: int, j: int| 0 <= i < j < d.len() implies chars_lt(#[trigger] d[i].slug, #[trigger] d[j].slug) by {
                assert(d[i] == t[i] && d[j] == t[j]);
            }
        }
        lemma_sorted_lookup(d, s);
        assert forall|k: int| 0 <= k < t.len() && t[k].slug == s implies table_lookup(t, s) == Some(t[k]) by {
            if k < t.len() - 1 {
                if t.last().slug == s {
                    assert(chars_lt(t[k].slug, t[t.len() - 1].slug));
                    lemma_chars_lt_irreflexive(s);
                } else {
                    assert(d[k] == t[k]);
                }
            }
        }
        if forall|k: int| 0 <= k < t.len() ==> t[k].slug != s {
            assert(t[t.len() - 1].slug != s);
            assert forall|k: int| 0 <= k < d.len() implies d[k].slug != s by {
                assert(d[k] == t[k]);
            }
        }
    }
}

/// Curated entries keyed by slug, kept in slug order.
pub struct SlugTable {
    entries: Vec<CuratedEntry>,
}

impl View for SlugTable {
    type V = Seq<CuratedEntryV>;

    closed spec fn view(&self) -> Seq<CuratedEntryV> {
        entries_view(self.entries@)
    }
}

impl SlugTable {
    #[verifier::type_invariant]
    closed spec fn sorted(&self) -> bool {
        slug_sorted(entries_view(self.entries@))
    }

    /// An empty table.
    pub fn new() -> (r: SlugTable)
        ensures
            r@.len() == 0,
    {
        let r = SlugTable { entries: Vec::new() };
        assert(entries_view(r.entries@) =~= Seq::<CuratedEntryV>::empty());
        r
    }

    /// The number of slugs in the table.
    pub fn len(&self) -> (n: usize)
        ensures
            n == self@.len(),
    {
        self.entries.len()
    }

    /// Whether the table has an entry for `slug`.
    pub fn contains(&self, slug: &str) -> (b: bool)
        ensures
            b == (table_lookup(self@, slug@) is Some),
    {
        proof {
            use_type_invariant(self);
            lemma_sorted_lookup(self@, slug@);
        }
        let mut i: usize = 0;
        while i < self.entries.len()
            invariant
                i <= self.entries.len(),
                slug_sorted(entries_view(self.entries@)),
                forall|k: int| 0 <= k < i ==> (#[trigger] entries_view(self.entries@)[k]).slug != slug@,
            decreases self.entries.len() - i,
        {
            if crate::text::str_eq(self.entries[i].slug.as_str(), slug) {
                assert(entries_view(self.entries@)[i as int].slug == slug@);
                proof {
                    lemma_sorted_lookup(self@, slug@);
                }
                return true;
            }
            i += 1;
        }
        proof {
            lemma_sorted_lookup(self@, slug@);
        }
        false
    }

    /// Put `e` in the table, replacing the entry for its slug if there is
    /// one.
    pub fn insert(&mut self, e: CuratedEntry)
        ensures
            forall|s: Seq<char>| #[trigger] table_lookup(final(self)@, s) == if s == e@.slug {
                Some(e@)
            } else {
                table_lookup(old(self)@, s)
            },
            final(self)@.len() == old(self)@.len() + (if table_lookup(old(self)@, e@.slug) is Some { 0int } else { 1int }),
    {
        proof {
            use_type_invariant(&*self);
        }
        let ghost t0 = entries_view(self.entries@);
        let ghost ev = e@;
        let key = chars_of(e.slug.as_str());
        let mut i: usize = 0;
        while i < self.entries.len()
            invariant
                i <= self.entries.len(),
                entries_view(self.entries@) == t0,
                slug_sorted(t0),
                key@ == ev.slug,
                forall|k: int| 0 <= k < i ==> chars_lt(#[trigger] t0[k].slug, ev.slug),
            ensures
                i <= self.entries.len(),
                entries_view(self.entries@) == t0,
                forall|k: int| 0 <= k < i ==> chars_lt(#[trigger] t0[k].slug, ev.slug),
                i < self.entries.len() ==> !chars_lt(t0[i as int].slug, ev.slug),
            decreases self.entries.len() - i,
        {
            let here = chars_of(self.entries[i].slug.as_str());
            if !chars_lt_exec(here.as_slice(), key.as_slice()) {
                assert(t0[i as int].slug == here@);
                break;
            }
            assert(t0[i as int].slug == here@);
            i += 1;
        }
        proof {
            lemma_sorted_lookup(t0, ev.slug);
            assert forall|k: int| 0 <= k < i implies t0[k].slug != ev.slug by {
                lemma_chars_lt_irreflexive(ev.slug);
            }
        }
        let mut entries: Vec<CuratedEntry> = Vec::new();
        std::mem::swap(&mut entries, &mut self.entries);
        let same = i < entries.len() && crate::text::str_eq(entries[i].slug.as_str(), e.slug.as_str());
        let ghost t1: Seq<CuratedEntryV>;
        if same {
            proof {
                assert forall|k: int| i < k < t0.len() implies t0[k].slug != ev.slug by {
                    assert(chars_lt(t0[i as int].slug, t0[k].slug));
                    lemma_chars_lt_irreflexive(ev.slug);
                }
            }
            entries.set(i, e);
            proof {
                t1 = entries_view(entries@);
                assert(t1 =~= t0.update(i as int, ev));
                assert(slug_sorted(t1)) by {
                    assert forall|a: int, b: int| 0 <= a < b < t1.len() implies chars_lt(#[trigger] t1[a].slug, #[trigger] t1[b].slug) by {
                        assert(t0[a].slug == t1[a].slug || a == i);
                        assert(t0[b].slug == t1[b].slug || b == i);
                    }
                }
            }
        } else {
            proof {
                if i < t0.len() {
                    assert(t0[i as int].slug != ev.slug);
                    lemma_chars_lt_total(t0[i as int].slug, ev.slug);
                    assert forall|k: int| i <= k < t0.len() implies chars_lt(ev.slug, #[trigger] t0[k].slug) by {
                        if k > i {
                            assert(chars_lt(t0[i as int].slug, t0[k].slug));
                            lemma_chars_lt_transitive(ev.slug, t0[i as int].slug, t0[k].slug);
                        }
                    }
                }
                assert forall|k: int| 0 <= k < t0.len() implies t0[k].slug != ev.slug by {
                    if k >= i {
                        lemma_chars_lt_irreflexive(ev.slug);
                    }
                }
            }
            entries.insert(i, e);
            proof {
                t1 = entries_view(entries@);
                assert(t1 =~= t0.insert(i as int, ev));
                assert(slug_sorted(t1)) by {
                    assert forall|a: int, b: int| 0 <= a < b < t1.len() implies chars_lt(#[trigger] t1[a].slug, #[trigger] t1[b].slug) by {
                        if a < i && b < i {
                        } else if a < i && b == i {
                        } else if a < i && b > i {
                            assert(t1[b] == t0[b - 1]);
                            if b - 1 >= i {
                                lemma_chars_lt_transitive(t0[a].slug, ev.slug, t0[b - 1].slug);
                            }
                        } else if a == i {
                            assert(t1[b] == t0[b - 1]);
                        } else {
                            assert(t1[a] == t0[a - 1]);
                            assert(t1[b] == t0[b - 1]);
                        }
                    }
                }
            }
        }
        self.entries = entries;
        proof {
            assert forall|s: Seq<char>| #[trigger] table_lookup(t1, s) == if s == ev.slug {
                Some(ev)
            } else {
                table_lookup(t0, s)
            } by {
                lemma_sorted_lookup(t1, s);
                lemma_sorted_lookup(t0, s);
                if s == ev.slug {
                    assert(t1[i as int] == ev);
                } else {
                    if exists|k: int| 0 <= k < t0.len() && t0[k].slug == s {
                        let k = choose|k: int| 0 <= k < t0.len() && t0[k].slug == s;
                        if same {
                            assert(k != i);
                            assert(t1[k] == t0[k]);
                        } else if k < i {
                            assert(t1[k] == t0[k]);
                        } else {
                            assert(t1[k + 1] == t0[k]);
                        }
                    } else {
                        assert forall|k: int| 0 <= k < t1.len() implies t1[k].slug != s by {
                            if same {
                                if k != i {
                                    assert(t1[k] == t0[k]);
                                }
                            } else if k < i {
                                assert(t1[k] == t0[k]);
                            } else if k > i {
                                assert(t1[k] == t0[k - 1]);
                            }
                        }
                    }
                }
            }
        }
    }

    /// The entries, in slug order.
    pub fn into_entries(self) -> (v: Vec<CuratedEntry>)
        ensures
            entries_view(v@) == self@,
            slug_sorted(entries_view(v@)),
    {
        proof {
            use_type_invariant(&self);
        }
        self.entries
    }
}

/// Put every entry of `es` in `t`, in order: for each slug, the last
/// entry of `es` with it wins over what `t` had.
pub fn insert_all(t: &mut SlugTable, es: &[CuratedEntry])
    ensures
        forall|s: Seq<char>| #[trigger] table_lookup(final(t)@, s) == match table_lookup(entries_view(es@), s) {
            Some(e) => Some(e),
            None => table_lookup(old(t)@, s),
        },
{
    let ghost ev = entries_view(es@);
    let mut i: usize = 0;
    assert(ev.take(0) =~= Seq::<CuratedEntryV>::empty());
    while i < es.len()
        invariant
            i <= es.len(),
            ev == entries_view(es@),
            forall|s: Seq<char>| #[trigger] table_lookup(t@, s) == match table_lookup(ev.take(i as int), s) {
                Some(e) => Some(e),
                None => table_lookup(old(t)@, s),
            },
        decreases es.len() - i,
    {
        let ghost before = t@;
        let e = es[i].duplicate();
        t.insert(e);
        assert(ev.take(i + 1).drop_last() =~= ev.take(i as int));
        assert(ev.take(i + 1).last() == ev[i as int]);
        i += 1;
    }
    assert(ev.take(es.len() as int) =~= ev);
}

/// The registry in effect, in slug order: for each slug, the user's last
/// entry for it if there is one, else the bundled seed's.
pub fn all_entries(user: &[CuratedEntry]) -> (v: Vec<CuratedEntry>)
    ensures
        slug_sorted(entries_view(v@)),
        forall|s: Seq<char>| #[trigger] table_lookup(entries_view(v@), s) == table_lookup(
            curated_rows(entries_view(user@)),
            s,
        ),
{
    let seed = bundled_seed();
    let mut t = SlugTable::new();
    insert_all(&mut t, seed.as_slice());
    insert_all(&mut t, user);
    proof {
        assert forall|s: Seq<char>| #[trigger] table_lookup(t@, s) == table_lookup(
            bundled_seed_rows() + entries_view(user@),
            s,
        ) by {
            crate::curated_seed::lemma_overlay_user_wins(bundled_seed_rows(), entries_view(user@), s);
            assert(table_lookup(Seq::<CuratedEntryV>::empty(), s) is None);
        }
    }
    t.into_entries()
}

/// A table of the given entries (the last for a slug wins).
pub fn table_of(es: &[CuratedEntry]) -> (t: SlugTable)
    ensures
        forall|s: Seq<char>| #[trigger] table_lookup(t@, s) == table_lookup(entries_view(es@), s),
{
    let mut t = SlugTable::new();
    insert_all(&mut t, es);
    t
}

/// A discovered slug is a candidate: not a bundled slug, not already in
/// the table, and (unless filtering is off) a recognized coding model.
pub open spec fn refresh_candidate(
    bundled: Seq<Seq<char>>,
    acc: Seq<CuratedEntryV>,
    no_filter: bool,
    table: Seq<CuratedEntryV>,
) -> spec_fn(Seq<char>) -> bool {
    |x: Seq<char>|
        !bundled.contains(x) && table_lookup(acc, x) is None && (no_filter || discovery_keeps_spec(table, x))
}

/// The slugs a refresh adds for one provider: the candidates among the
/// ids it lists, collapsed to the newest of each model line unless
/// filtering is off.
pub open spec fn refresh_adds(
    ids: Seq<Seq<char>>,
    bundled: Seq<Seq<char>>,
    acc: Seq<CuratedEntryV>,
    no_filter: bool,
    table: Seq<CuratedEntryV>,
    y: Seq<char>,
) -> bool {
    let p = ids.filter(refresh_candidate(bundled, acc, no_filter, table));
    if no_filter {
        p.contains(y)
    } else {
        exists|j: int| kept_for_line(p, j) && p[j] == y
    }
}

pub(crate) fn contains_string(v: &[String], x: &str) -> (b: bool)
    ensures
        b == strings_view(v@).contains(x@),
{
    let mut i: usize = 0;
    while i < v.len()
        invariant
            i <= v.len(),
            forall|k: int| 0 <= k < i ==> v@[k]@ != x@,
        decreases v.len() - i,
    {
        if str_eq(v[i].as_str(), x) {
            assert(strings_view(v@)[i as int] == x@);
            return true;
        }
        i += 1;
    }
    assert forall|k: int| 0 <= k < strings_view(v@).len() implies strings_view(v@)[k] != x@ by {
        assert(strings_view(v@)[k] == v@[k]@);
    }
    false
}

/// Add to `acc` an entry for each slug provider `provider_id` lists in
/// `ids` that the refresh keeps (see [`refresh_adds`]); returns how many
/// were added.
pub fn refresh_provider(
    acc: &mut SlugTable,
    bundled: &[String],
    user: &[CuratedEntry],
    ids: &[String],
    no_filter: bool,
    provider_id: &str,
) -> (kept: usize)
    ensures
        forall|s: Seq<char>| #[trigger] table_lookup(final(acc)@, s) == if refresh_adds(
            strings_view(ids@),
            strings_view(bundled@),
            old(acc)@,
            no_filter,
            curated_rows(entries_view(user@)),
            s,
        ) {
            Some(synthesized(s, provider_id@))
        } else {
            table_lookup(old(acc)@, s)
        },
        final(acc)@.len() == old(acc)@.len() + kept,
{
    let ghost iv = strings_view(ids@);
    let ghost bv = strings_view(bundled@);
    let ghost a0 = acc@;
    let ghost tbl = curated_rows(entries_view(user@));
    let ghost cand = refresh_candidate(bv, a0, no_filter, tbl);
    let mut ps: Vec<String> = Vec::new();
    let mut i: usize = 0;
    reveal_with_fuel(Seq::filter, 1);
    assert(iv.take(0) =~= Seq::<Seq<char>>::empty());
    while i < ids.len()
        invariant
            i <= ids.len(),
            iv == strings_view(ids@),
            bv == strings_view(bundled@),
            acc@ == a0,
            tbl == curated_rows(entries_view(user@)),
            cand == refresh_candidate(bv, a0, no_filter, tbl),
            strings_view(ps@) == iv.take(i as int).filter(cand),
        decreases ids.len() - i,
    {
        let id = ids[i].as_str();
        let keep = !contains_string(bundled, id) && !acc.contains(id) && (no_filter || discovery_keeps(id, user));
        assert(iv.take(i + 1).drop_last() =~= iv.take(i as int));
        assert(iv.take(i + 1).last() == id@);
        reveal_with_fuel(Seq::filter, 1);
        assert(keep == cand(id@));
        if keep {
            let ghost before = ps@;
            ps.push(ids[i].clone());
            assert(strings_view(ps@) =~= strings_view(before).push(id@));
        }
        i += 1;
    }
    assert(iv.take(ids.len() as int) =~= iv);
    let ghost p = iv.filter(cand);
    let collapsed = if no_filter {
        ps
    } else {
        collapse_to_latest_per_line(ps.as_slice())
    };
    let ghost cv = strings_view(collapsed@);
    proof {
        assert forall|y: Seq<char>| cv.contains(y) implies refresh_adds(iv, bv, a0, no_filter, tbl, y) && table_lookup(a0, y) is None by {
            if no_filter {
                let k = choose|k: int| 0 <= k < cv.len() && cv[k] == y;
                assert(cv == p);
                iv.lemma_filter_pred(cand, k);
            } else {
                let j = choose|j: int| kept_for_line(p, j) && p[j] == y;
                iv.lemma_filter_pred(cand, j);
            }
        }
        assert forall|y: Seq<char>| refresh_adds(iv, bv, a0, no_filter, tbl, y) implies cv.contains(y) by {
            if no_filter {
            } else {
            }
        }
    }
    let mut kept: usize = 0;
    let mut k: usize = 0;
    assert(cv.take(0) =~= Seq::<Seq<char>>::empty());
    while k < collapsed.len()
        invariant
            k <= collapsed.len(),
            kept <= k,
            cv == strings_view(collapsed@),
            forall|y: Seq<char>| cv.contains(y) ==> table_lookup(a0, y) is None,
            acc@.len() == a0.len() + kept,
            forall|s: Seq<char>| #[trigger] table_lookup(acc@, s) == if cv.take(k as int).contains(s) {
                Some(synthesized(s, provider_id@))
            } else {
                table_lookup(a0, s)
            },
        decreases collapsed.len() - k,
    {
        let slug = collapsed[k].as_str();
        assert(cv.take(k + 1) =~= cv.take(k as int).push(slug@));
        assert(cv.contains(slug@)) by {
            assert(cv[k as int] == slug@);
        }
        if !acc.contains(slug) {
            let ghost before = acc@;
            acc.insert(synthesize_entry(slug, provider_id));
            kept += 1;
            assert forall|s: Seq<char>| #[trigger] table_lookup(acc@, s) == if cv.take(k + 1).contains(s) {
                Some(synthesized(s, provider_id@))
            } else {
                table_lookup(a0, s)
            } by {
                assert(table_lookup(before, s) == if cv.take(k as int).contains(s) {
                    Some(synthesized(s, provider_id@))
                } else {
                    table_lookup(a0, s)
                });
                if s != slug@ {
                    if cv.take(k + 1).contains(s) {
                        let w = choose|w: int| 0 <= w < cv.take(k + 1).len() && #[trigger] cv.take(k + 1)[w] == s;
                        assert(cv.take(k as int)[w] == s);
                    }
                    if cv.take(k as int).contains(s) {
                        let w = choose|w: int| 0 <= w < cv.take(k as int).len() && #[trigger] cv.take(k as int)[w] == s;
                        assert(cv.take(k + 1)[w] == s);
                    }
                } else {
                    assert(cv.take(k + 1)[k as int] == slug@);
                }
            }
        } else {
            assert(cv.take(k as int).contains(slug@));
            assert forall|s: Seq<char>| #[trigger] table_lookup(acc@, s) == if cv.take(k + 1).contains(s) {
                Some(synthesized(s, provider_id@))
            } else {
                table_lookup(a0, s)
            } by {
                if s != slug@ && cv.take(k + 1).contains(s) {
                    let w = choose|w: int| 0 <= w < cv.take(k + 1).len() && #[trigger] cv.take(k + 1)[w] == s;
                    assert(cv.take(k as int)[w] == s);
                }
            }
        }
        k += 1;
    }
    assert(cv.take(collapsed.len() as int) =~= cv);
    kept
}

/// A refresh adds only new slugs: never one the table already has (so it
/// never rewrites an entry), and never a bundled slug.
pub proof fn lemma_refresh_adds_only_new(
    ids: Seq<Seq<char>>,
    bundled: Seq<Seq<char>>,
    acc: Seq<CuratedEntryV>,
    no_filter: bool,
    table: Seq<CuratedEntryV>,
    s: Seq<char>,
)
    requires
        table_lookup(acc, s) is Some || bundled.contains(s),
    ensures
        !refresh_adds(ids, bundled, acc, no_filter, table, s),
{
    let cand = refresh_candidate(bundled, acc, no_filter, table);
    let p = ids.filter(cand);
    if refresh_adds(ids, bundled, acc, no_filter, table, s) {
        if no_filter {
            let k = choose|k: int| 0 <= k < p.len() && p[k] == s;
            ids.lemma_filter_pred(cand, k);
        } else {
            let j = choose|j: int| kept_for_line(p, j) && p[j] == s;
            ids.lemma_filter_pred(cand, j);
        }
    }
}

/// With filtering on, a refresh adds only slugs that discovery keeps: a
/// recognised coding family, and not an unstable or derivative release.
pub proof fn lemma_refresh_adds_only_kept_slugs(
    ids: Seq<Seq<char>>,
    bundled: Seq<Seq<char>>,
    acc: Seq<CuratedEntryV>,
    table: Seq<CuratedEntryV>,
    s: Seq<char>,
)
    requires
        refresh_adds(ids, bundled, acc, false, table, s),
    ensures
        discovery_keeps_spec(table, s),
{
    let cand = refresh_candidate(bundled, acc, false, table);
    let p = ids.filter(cand);
    let j = choose|j: int| kept_for_line(p, j) && p[j] == s;
    ids.lemma_filter_pred(cand, j);
}

/// A slug some entry of a table holds is found in it.
proof fn lemma_lookup_finds(t: Seq<CuratedEntryV>, k: int)
    requires
        0 <= k < t.len(),
    ensures
        table_lookup(t, t[k].slug) is Some,
    decreases t.len(),
{
    if t.last().slug != t[k].slug {
        assert(k < t.len() - 1);
        assert(t.drop_last()[k] == t[k]);
        lemma_lookup_finds(t.drop_last(), k);
    }
}

/// Law: the registry listing is the curated table in effect: sorted by
/// slug with no slug twice, each entry the one `lookup` gives for its
/// slug, every slug `lookup` knows listed, and every slug of the bundled
/// seed and of the user's entries listed.
pub proof fn lemma_all_entries_is_the_table(v: Seq<CuratedEntryV>, user: Seq<CuratedEntryV>)
    requires
        slug_sorted(v),
        forall|s: Seq<char>| #[trigger] table_lookup(v, s) == table_lookup(curated_rows(user), s),
    ensures
        forall|i: int, j: int| 0 <= i < j < v.len() ==> v[i].slug != v[j].slug,
        forall|k: int| 0 <= k < v.len() ==> table_lookup(curated_rows(user), #[trigger] v[k].slug) == Some(v[k]),
        forall|s: Seq<char>|
            #[trigger] table_lookup(curated_rows(user), s) is Some ==> exists|k: int| 0 <= k < v.len() && v[k].slug == s,
        forall|b: int|
            0 <= b < curated_rows(user).len() ==> exists|k: int|
                0 <= k < v.len() && v[k].slug == #[trigger] curated_rows(user)[b].slug,
{
    assert forall|i: int, j: int| 0 <= i < j < v.len() implies v[i].slug != v[j].slug by {
        assert(chars_lt(v[i].slug, v[j].slug));
        lemma_chars_lt_irreflexive(v[i].slug);
    }
    assert forall|k: int| 0 <= k < v.len() implies table_lookup(curated_rows(user), #[trigger] v[k].slug) == Some(v[k]) by {
        lemma_sorted_lookup(v, v[k].slug);
    }
    assert forall|s: Seq<char>| #[trigger] table_lookup(curated_rows(user), s) is Some implies exists|k: int|
        0 <= k < v.len() && v[k].slug == s by {
        lemma_sorted_lookup(v, s);
        assert(table_lookup(v, s) is Some);
    }
    assert forall|b: int| 0 <= b < curated_rows(user).len() implies exists|k: int|
        0 <= k < v.len() && v[k].slug == #[trigger] curated_rows(user)[b].slug by {
        let t = curated_rows(user);
        lemma_lookup_finds(t, b);
        let s = t[b].slug;
        assert(table_lookup(v, s) is Some);
        lemma_sorted_lookup(v, s);
    }
}

} // verus!
