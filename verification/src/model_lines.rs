//! Model "lines" and their versions: collapsing a set of discovered slugs
//! to the latest version per line, so the picker shows one `minimax-m3`
//! rather than `m1`, `m2`, `m2.1`, `m2.5` and `m3`.
//!
//! A slug's version is its last version-shaped token (`m2.5`, `v3.2`,
//! `3.1`, `2512`); its line key is the rest of the slug, with the token's
//! leading letter kept as a `#` tag so that DeepSeek's `r1` (reasoning)
//! and `v3` (chat) stay separate lines.

use vstd::prelude::*;

use crate::text::{ascii_lower, chars_of, lower_chars, string_from_chars};

verus! {

// ───────────────────────────── splitting and joining ─────────────────────────

/// Separator classes for splitting.
#[derive(Debug, Clone, Copy, PartialEq, Eq)]
pub enum Sep {
    /// `-`, `:` or `/`
    Slug,
    /// `.`
    Dot,
}

/// Membership in a separator class.
pub open spec fn is_sep(k: Sep, c: char) -> bool {
    match k {
        Sep::Slug => c == '-' || c == ':' || c == '/',
        Sep::Dot => c == '.',
    }
}

fn is_sep_exec(k: Sep, c: char) -> (b: bool)
    ensures
        b == is_sep(k, c),
{
    match k {
        Sep::Slug => c == '-' || c == ':' || c == '/',
        Sep::Dot => c == '.',
    }
}

/// `str::split` on a separator class: `n` separators give `n + 1` tokens,
/// empty tokens included.
pub open spec fn split_by(s: Seq<char>, k: Sep) -> Seq<Seq<char>>
    decreases s.len(),
{
    if s.len() == 0 {
        seq![Seq::empty()]
    } else if is_sep(k, s.last()) {
        split_by(s.drop_last(), k).push(Seq::empty())
    } else {
        let t = split_by(s.drop_last(), k);
        t.update(t.len() - 1, t.last().push(s.last()))
    }
}

/// `split_by` never yields an empty list of tokens.
pub proof fn lemma_split_nonempty(s: Seq<char>, k: Sep)
    ensures
        split_by(s, k).len() >= 1,
    decreases s.len(),
{
    if s.len() > 0 {
        lemma_split_nonempty(s.drop_last(), k);
    }
}

/// The views of a list of character vectors.
pub open spec fn tokens_view(v: Seq<Vec<char>>) -> Seq<Seq<char>> {
    v.map_values(|t: Vec<char>| t@)
}

/// Split `s` on separator class `k`.
pub fn split_chars(s: &[char], k: Sep) -> (r: Vec<Vec<char>>)
    ensures
        tokens_view(r@) == split_by(s@, k),
{
    let mut done: Vec<Vec<char>> = Vec::new();
    let mut cur: Vec<char> = Vec::new();
    let mut i: usize = 0;
    while i < s.len()
        invariant
            i <= s.len(),
            tokens_view(done@).push(cur@) == split_by(s@.take(i as int), k),
        decreases s.len() - i,
    {
        let c = s[i];
        let ghost before = tokens_view(done@).push(cur@);
        assert(s@.take(i + 1).drop_last() =~= s@.take(i as int));
        assert(s@.take(i + 1).last() == c);
        if is_sep_exec(k, c) {
            let finished = cur;
            done.push(finished);
            cur = Vec::new();
            assert(tokens_view(done@).push(cur@) =~= before.push(Seq::empty()));
        } else {
            cur.push(c);
            assert(tokens_view(done@).push(cur@) =~= before.update(
                before.len() - 1,
                before.last().push(c),
            ));
        }
        i += 1;
    }
    assert(s@.take(s.len() as int) =~= s@);
    done.push(cur);
    done
}

/// Tokens joined with `-`.
pub open spec fn join_dash(ps: Seq<Seq<char>>) -> Seq<char>
    decreases ps.len(),
{
    if ps.len() == 0 {
        Seq::empty()
    } else if ps.len() == 1 {
        ps[0]
    } else {
        join_dash(ps.drop_last()) + seq!['-'] + ps.last()
    }
}

/// Join character vectors with `-`.
pub fn join_dash_exec(ps: &Vec<Vec<char>>) -> (r: Vec<char>)
    ensures
        r@ == join_dash(tokens_view(ps@)),
{
    let mut r: Vec<char> = Vec::new();
    let mut i: usize = 0;
    while i < ps.len()
        invariant
            i <= ps.len(),
            r@ == join_dash(tokens_view(ps@).take(i as int)),
        decreases ps.len() - i,
    {
        let ghost before = r@;
        if i > 0 {
            r.push('-');
        }
        let t = &ps[i];
        let mut j: usize = 0;
        while j < t.len()
            invariant
                j <= t.len(),
                r@ == (if i > 0 { before + seq!['-'] } else { before }) + t@.take(j as int),
            decreases t.len() - j,
        {
            r.push(t[j]);
            assert(t@.take(j + 1) =~= t@.take(j as int).push(t@[j as int]));
            assert(r@ =~= (if i > 0 { before + seq!['-'] } else { before }) + t@.take(j + 1));
            j += 1;
        }
        assert(t@.take(t.len() as int) =~= t@);
        let ghost tv = tokens_view(ps@);
        assert(tv.take(i + 1).drop_last() =~= tv.take(i as int));
        assert(tv.take(i + 1).last() == t@);
        if i == 0 {
            assert(before =~= Seq::<char>::empty());
            assert(r@ =~= t@);
        }
        i += 1;
    }
    assert(tokens_view(ps@).take(ps.len() as int) =~= tokens_view(ps@));
    r
}

// ───────────────────────────── numbers ─────────────────────────────────

/// An ASCII digit.
pub open spec fn is_digit(c: char) -> bool {
    '0' <= c && c <= '9'
}

/// An ASCII letter.
pub open spec fn is_alpha(c: char) -> bool {
    ('a' <= c && c <= 'z') || ('A' <= c && c <= 'Z')
}

/// The value of a string of decimal digits.
pub open spec fn digits_value(d: Seq<char>) -> int
    decreases d.len(),
{
    if d.len() == 0 {
        0
    } else {
        digits_value(d.drop_last()) * 10 + (d.last() as int - '0' as int)
    }
}

/// `u64::from_str`: an optional `+` followed by one or more ASCII digits,
/// whose value fits in a `u64`.
pub open spec fn parse_u64_spec(p: Seq<char>) -> Option<u64> {
    if unsigned_digits(p).len() > 0 && all_digits(unsigned_digits(p)) && digits_value(
        unsigned_digits(p),
    ) <= u64::MAX {
        Some(digits_value(unsigned_digits(p)) as u64)
    } else {
        None
    }
}

/// The digits of an unsigned number: the text without one leading `+`.
pub open spec fn unsigned_digits(p: Seq<char>) -> Seq<char> {
    if p.len() > 0 && p[0] == '+' {
        p.drop_first()
    } else {
        p
    }
}

/// Every character of `d` is an ASCII digit.
pub open spec fn all_digits(d: Seq<char>) -> bool {
    forall|i: int| 0 <= i < d.len() ==> is_digit(#[trigger] d[i])
}

/// `digits_value` grows with every digit.
proof fn lemma_digits_value_monotone(d: Seq<char>, i: int)
    requires
        0 <= i <= d.len(),
        forall|j: int| 0 <= j < d.len() ==> is_digit(#[trigger] d[j]),
    ensures
        0 <= digits_value(d.take(i)) <= digits_value(d),
    decreases d.len() - i,
{
    if i < d.len() {
        lemma_digits_value_monotone(d, i + 1);
        assert(d.take(i + 1).drop_last() =~= d.take(i));
        assert(is_digit(d[i]));
    } else {
        assert(d.take(i) =~= d);
        lemma_digits_value_nonneg(d);
    }
}

proof fn lemma_digits_value_nonneg(d: Seq<char>)
    requires
        forall|j: int| 0 <= j < d.len() ==> is_digit(#[trigger] d[j]),
    ensures
        digits_value(d) >= 0,
    decreases d.len(),
{
    if d.len() > 0 {
        assert forall|j: int| 0 <= j < d.drop_last().len() implies is_digit(#[trigger] d.drop_last()[j]) by {
            assert(d.drop_last()[j] == d[j]);
        }
        lemma_digits_value_nonneg(d.drop_last());
        assert(is_digit(d[d.len() - 1]));
    }
}

/// Parse a `u64` the way `str::parse::<u64>` does.
pub fn parse_u64(p: &[char]) -> (r: Option<u64>)
    ensures
        r == parse_u64_spec(p@),
{
    let start: usize = if p.len() > 0 && p[0] == '+' { 1 } else { 0 };
    let ghost d = unsigned_digits(p@);
    assert(d =~= p@.subrange(start as int, p@.len() as int));
    if start >= p.len() {
        return None;
    }
    let mut v: u64 = 0;
    let mut i = start;
    while i < p.len()
        invariant
            start <= i <= p.len(),
            d == p@.subrange(start as int, p@.len() as int),
            d == unsigned_digits(p@),
            d.len() > 0,
            forall|j: int| 0 <= j < i - start ==> is_digit(#[trigger] d[j]),
            v as int == digits_value(d.take(i - start)),
        decreases p.len() - i,
    {
        let c = p[i];
        assert(d[i - start] == c);
        if !('0' <= c && c <= '9') {
            assert(!is_digit(d[i - start]));
            assert(!all_digits(d));
            assert(parse_u64_spec(p@) is None);
            return None;
        }
        let digit = (c as u32 - '0' as u32) as u64;
        assert(digit as int == c as int - '0' as int);
        assert(d.take(i - start + 1).drop_last() =~= d.take(i - start));
        assert(d.take(i - start + 1).last() == c);
        if v > (u64::MAX - digit) / 10 {
            proof {
                assert(v * 10 + digit > u64::MAX) by (nonlinear_arith)
                    requires
                        v > (u64::MAX - digit) / 10,
                        digit <= 9,
                ;
                assert forall|j: int| 0 <= j < i - start + 1 implies is_digit(#[trigger] d[j]) by {}
                if all_digits(d) {
                    lemma_digits_value_monotone(d, i - start + 1);
                    assert(digits_value(d.take(i - start + 1)) == v * 10 + digit);
                    assert(digits_value(d) > u64::MAX);
                }
                assert(parse_u64_spec(p@) is None);
            }
            return None;
        }
        v = v * 10 + digit;
        i += 1;
    }
    assert(d.take(p.len() - start) =~= d);
    Some(v)
}

// ───────────────────────────── versions ─────────────────────────────────

/// The dotted-number part of a version token: the token without one
/// leading ASCII letter (`v3.2` → `3.2`).
pub open spec fn version_body(tok: Seq<char>) -> Seq<char> {
    if tok.len() > 0 && is_alpha(tok[0]) {
        tok.drop_first()
    } else {
        tok
    }
}

/// All members of `ps` parse as `u64`.
pub open spec fn all_parse(ps: Seq<Seq<char>>) -> bool {
    forall|i: int| 0 <= i < ps.len() ==> (#[trigger] parse_u64_spec(ps[i])) is Some
}

/// A version token (an optional single leading letter, then dotted
/// decimal numbers) and its numbers; `None` for plain words such as
/// `coder`, `max` or `instruct`.
pub open spec fn parse_version_spec(tok: Seq<char>) -> Option<Seq<u64>> {
    let body = version_body(tok);
    let parts = split_by(body, Sep::Dot);
    if body.len() == 0 || !is_digit(body[0]) || !all_parse(parts) {
        None
    } else {
        Some(parts.map_values(|p: Seq<char>| parse_u64_spec(p)->0))
    }
}

/// Parse a version token into its numbers.
pub fn parse_version(tok: &[char]) -> (r: Option<Vec<u64>>)
    ensures
        match r {
            Some(v) => parse_version_spec(tok@) == Some(v@),
            None => parse_version_spec(tok@) is None,
        },
{
    let skip: usize = if tok.len() > 0 && (('a' <= tok[0] && tok[0] <= 'z') || ('A' <= tok[0]
        && tok[0] <= 'Z')) {
        1
    } else {
        0
    };
    let body = tok.split_at(skip).1;
    assert(body@ == version_body(tok@));
    if body.len() == 0 || !('0' <= body[0] && body[0] <= '9') {
        return None;
    }
    let parts = split_chars(body, Sep::Dot);
    let ghost pv = split_by(body@, Sep::Dot);
    let mut nums: Vec<u64> = Vec::new();
    let mut i: usize = 0;
    while i < parts.len()
        invariant
            i <= parts.len(),
            tokens_view(parts@) == pv,
            pv == split_by(version_body(tok@), Sep::Dot),
            version_body(tok@).len() > 0,
            is_digit(version_body(tok@)[0]),
            forall|j: int| 0 <= j < i ==> (#[trigger] parse_u64_spec(pv[j])) is Some,
            nums@ == pv.take(i as int).map_values(|p: Seq<char>| parse_u64_spec(p)->0),
        decreases parts.len() - i,
    {
        assert(pv[i as int] == parts@[i as int]@);
        match parse_u64(parts[i].as_slice()) {
            Some(n) => {
                nums.push(n);
                assert(pv.take(i + 1).map_values(|p: Seq<char>| parse_u64_spec(p)->0)
                    =~= pv.take(i as int).map_values(|p: Seq<char>| parse_u64_spec(p)->0).push(n));
            },
            None => {
                assert(!all_parse(pv));
                return None;
            },
        }
        i += 1;
    }
    assert(pv.take(parts.len() as int) =~= pv);
    Some(nums)
}

// ───────────────────────────── line keys ─────────────────────────────────

/// The index of the last version-shaped token of `ps`, or `-1`.
pub open spec fn last_version_index(ps: Seq<Seq<char>>) -> int
    decreases ps.len(),
{
    if ps.len() == 0 {
        -1
    } else if parse_version_spec(ps.last()) is Some {
        ps.len() - 1
    } else {
        last_version_index(ps.drop_last())
    }
}

/// `ps` without its member at `i`.
pub open spec fn remove_at(ps: Seq<Seq<char>>, i: int) -> Seq<Seq<char>> {
    ps.take(i) + ps.skip(i + 1)
}

/// The leading letter of a version token, as a one-character sequence
/// (empty when the token starts with a digit).
pub open spec fn alpha_prefix(tok: Seq<char>) -> Seq<char> {
    if tok.len() > 0 && is_alpha(tok[0]) {
        seq![tok[0]]
    } else {
        Seq::empty()
    }
}

/// A slug's line key and version. The version is its last version-shaped
/// token (split on `-`, `:` and `/`, lower-cased); the key is the other
/// tokens joined with `-`, followed by `#` and the token's leading letter
/// when it has one. A slug with no version token is its own line, with
/// the empty version.
pub open spec fn line_key_version(slug: Seq<char>) -> (Seq<char>, Seq<u64>) {
    let lower = ascii_lower(slug);
    let parts = split_by(lower, Sep::Slug);
    let vi = last_version_index(parts);
    if vi >= 0 {
        let a = alpha_prefix(parts[vi]);
        let rest = remove_at(parts, vi);
        let key_parts = if a.len() > 0 {
            rest.push(seq!['#'] + a)
        } else {
            rest
        };
        (join_dash(key_parts), parse_version_spec(parts[vi])->0)
    } else {
        (lower, Seq::empty())
    }
}

proof fn lemma_last_version_index(ps: Seq<Seq<char>>)
    ensures
        -1 <= last_version_index(ps) < ps.len(),
        last_version_index(ps) >= 0 ==> parse_version_spec(ps[last_version_index(ps)]) is Some,
    decreases ps.len(),
{
    if ps.len() > 0 && !(parse_version_spec(ps.last()) is Some) {
        lemma_last_version_index(ps.drop_last());
        let i = last_version_index(ps.drop_last());
        if i >= 0 {
            assert(ps.drop_last()[i] == ps[i]);
        }
    }
}

/// Split a slug into its line key and version.
pub fn line_key_and_version(slug: &str) -> (r: (Vec<char>, Vec<u64>))
    ensures
        (r.0@, r.1@) == line_key_version(slug@),
{
    let chars = chars_of(slug);
    let lower = lower_chars(chars.as_slice());
    let parts = split_chars(lower.as_slice(), Sep::Slug);
    let ghost pv = split_by(ascii_lower(slug@), Sep::Slug);
    let mut found: Option<(usize, Vec<u64>)> = None;
    let mut i: usize = 0;
    while i < parts.len()
        invariant
            i <= parts.len(),
            tokens_view(parts@) == pv,
            match found {
                Some((k, v)) => k < i && last_version_index(pv.take(i as int)) == k
                    && parse_version_spec(pv[k as int]) == Some(v@),
                None => last_version_index(pv.take(i as int)) == -1,
            },
        decreases parts.len() - i,
    {
        assert(pv.take(i + 1).drop_last() =~= pv.take(i as int));
        assert(pv.take(i + 1).last() == parts@[i as int]@);
        match parse_version(parts[i].as_slice()) {
            Some(v) => {
                found = Some((i, v));
            },
            None => {
                match &found {
                    Some((k, _)) => {
                        assert(pv.take(i as int)[*k as int] == pv[*k as int]);
                    },
                    None => {},
                }
            },
        }
        i += 1;
    }
    assert(pv.take(parts.len() as int) =~= pv);
    match found {
        Some((k, v)) => {
            proof {
                lemma_last_version_index(pv);
            }
            let tok = &parts[k];
            let mut key_parts: Vec<Vec<char>> = Vec::new();
            let mut j: usize = 0;
            while j < parts.len()
                invariant
                    j <= parts.len(),
                    k < parts.len(),
                    tokens_view(parts@) == pv,
                    tokens_view(key_parts@) == (if j <= k {
                        pv.take(j as int)
                    } else {
                        pv.take(k as int) + pv.subrange(k + 1, j as int)
                    }),
                decreases parts.len() - j,
            {
                if j != k {
                    let mut copy: Vec<char> = Vec::new();
                    copy.extend_from_slice(parts[j].as_slice());
                    assert(copy@ =~= parts@[j as int]@);
                    let ghost before = tokens_view(key_parts@);
                    key_parts.push(copy);
                    assert(tokens_view(key_parts@) =~= before.push(pv[j as int]));
                    if j < k {
                        assert(pv.take(j + 1) =~= pv.take(j as int).push(pv[j as int]));
                    } else {
                        assert(pv.subrange(k + 1, j + 1) =~= pv.subrange(k + 1, j as int).push(
                            pv[j as int],
                        ));
                    }
                } else {
                    assert(pv.subrange(k + 1, k + 1) =~= Seq::<Seq<char>>::empty());
                    assert(pv.take(k as int) + pv.subrange(k + 1, k + 1) =~= pv.take(k as int));
                }
                j += 1;
            }
            assert(pv.subrange(k + 1, pv.len() as int) =~= pv.skip(k + 1));
            assert(tokens_view(key_parts@) == remove_at(pv, k as int));
            if tok.len() > 0 && (('a' <= tok[0] && tok[0] <= 'z') || ('A' <= tok[0] && tok[0]
                <= 'Z')) {
                let mut tag: Vec<char> = Vec::new();
                tag.push('#');
                tag.push(tok[0]);
                assert(tok@ == pv[k as int]);
                assert(tag@ =~= seq!['#'] + alpha_prefix(pv[k as int]));
                let ghost before = tokens_view(key_parts@);
                key_parts.push(tag);
                assert(tokens_view(key_parts@) =~= before.push(seq!['#'] + alpha_prefix(pv[k as int])));
            }
            (join_dash_exec(&key_parts), v)
        },
        None => (lower, Vec::new()),
    }
}

// ───────────────────────────── orders ─────────────────────────────────

/// Lexicographic order on character sequences (the order of `str`).
pub open spec fn chars_lt(a: Seq<char>, b: Seq<char>) -> bool
    decreases a.len(),
{
    if a.len() == 0 {
        b.len() > 0
    } else if b.len() == 0 {
        false
    } else if a[0] != b[0] {
        a[0] < b[0]
    } else {
        chars_lt(a.drop_first(), b.drop_first())
    }
}

/// Lexicographic order on version numbers (the order of `Vec<u64>`).
pub open spec fn ver_lt(a: Seq<u64>, b: Seq<u64>) -> bool
    decreases a.len(),
{
    if a.len() == 0 {
        b.len() > 0
    } else if b.len() == 0 {
        false
    } else if a[0] != b[0] {
        a[0] < b[0]
    } else {
        ver_lt(a.drop_first(), b.drop_first())
    }
}

proof fn lemma_chars_lt_skip(a: Seq<char>, b: Seq<char>, i: int)
    requires
        0 <= i <= a.len(),
        i <= b.len(),
        a.take(i) == b.take(i),
    ensures
        chars_lt(a, b) == chars_lt(a.skip(i), b.skip(i)),
    decreases i,
{
    if i > 0 {
        assert(a[0] == a.take(i)[0]);
        assert(b[0] == b.take(i)[0]);
        assert(a.drop_first().take(i - 1) =~= a.take(i).drop_first());
        assert(b.drop_first().take(i - 1) =~= b.take(i).drop_first());
        lemma_chars_lt_skip(a.drop_first(), b.drop_first(), i - 1);
        assert(a.drop_first().skip(i - 1) =~= a.skip(i));
        assert(b.drop_first().skip(i - 1) =~= b.skip(i));
    } else {
        assert(a.skip(0) =~= a);
        assert(b.skip(0) =~= b);
    }
}

proof fn lemma_ver_lt_skip(a: Seq<u64>, b: Seq<u64>, i: int)
    requires
        0 <= i <= a.len(),
        i <= b.len(),
        a.take(i) == b.take(i),
    ensures
        ver_lt(a, b) == ver_lt(a.skip(i), b.skip(i)),
    decreases i,
{
    if i > 0 {
        assert(a[0] == a.take(i)[0]);
        assert(b[0] == b.take(i)[0]);
        assert(a.drop_first().take(i - 1) =~= a.take(i).drop_first());
        assert(b.drop_first().take(i - 1) =~= b.take(i).drop_first());
        lemma_ver_lt_skip(a.drop_first(), b.drop_first(), i - 1);
        assert(a.drop_first().skip(i - 1) =~= a.skip(i));
        assert(b.drop_first().skip(i - 1) =~= b.skip(i));
    } else {
        assert(a.skip(0) =~= a);
        assert(b.skip(0) =~= b);
    }
}

/// Whether `a` sorts before `b`.
pub fn chars_lt_exec(a: &[char], b: &[char]) -> (r: bool)
    ensures
        r == chars_lt(a@, b@),
{
    let mut i: usize = 0;
    while i < a.len() && i < b.len()
        invariant
            i <= a.len(),
            i <= b.len(),
            a@.take(i as int) == b@.take(i as int),
        decreases a.len() - i,
    {
        if a[i] != b[i] {
            proof {
                lemma_chars_lt_skip(a@, b@, i as int);
                assert(a@.skip(i as int)[0] == a@[i as int]);
                assert(b@.skip(i as int)[0] == b@[i as int]);
            }
            return a[i] < b[i];
        }
        assert(a@.take(i + 1) =~= a@.take(i as int).push(a@[i as int]));
        assert(b@.take(i + 1) =~= b@.take(i as int).push(b@[i as int]));
        i += 1;
    }
    proof {
        lemma_chars_lt_skip(a@, b@, i as int);
    }
    i == a.len() && i < b.len()
}

/// Whether version `a` is older than `b`.
pub fn ver_lt_exec(a: &[u64], b: &[u64]) -> (r: bool)
    ensures
        r == ver_lt(a@, b@),
{
    let mut i: usize = 0;
    while i < a.len() && i < b.len()
        invariant
            i <= a.len(),
            i <= b.len(),
            a@.take(i as int) == b@.take(i as int),
        decreases a.len() - i,
    {
        if a[i] != b[i] {
            proof {
                lemma_ver_lt_skip(a@, b@, i as int);
                assert(a@.skip(i as int)[0] == a@[i as int]);
                assert(b@.skip(i as int)[0] == b@[i as int]);
            }
            return a[i] < b[i];
        }
        assert(a@.take(i + 1) =~= a@.take(i as int).push(a@[i as int]));
        assert(b@.take(i + 1) =~= b@.take(i as int).push(b@[i as int]));
        i += 1;
    }
    proof {
        lemma_ver_lt_skip(a@, b@, i as int);
    }
    i == a.len() && i < b.len()
}

/// Whether two versions are equal.
pub fn ver_eq(a: &[u64], b: &[u64]) -> (r: bool)
    ensures
        r == (a@ == b@),
{
    if a.len() != b.len() {
        return false;
    }
    let mut i: usize = 0;
    while i < a.len()
        invariant
            a.len() == b.len(),
            i <= a.len(),
            forall|j: int| 0 <= j < i ==> a@[j] == b@[j],
        decreases a.len() - i,
    {
        if a[i] != b[i] {
            return false;
        }
        i += 1;
    }
    assert(a@ =~= b@);
    true
}

/// `chars_lt` is irreflexive.
pub proof fn lemma_chars_lt_irreflexive(a: Seq<char>)
    ensures
        !chars_lt(a, a),
    decreases a.len(),
{
    if a.len() > 0 {
        lemma_chars_lt_irreflexive(a.drop_first());
    }
}

/// `chars_lt` is transitive.
pub proof fn lemma_chars_lt_transitive(a: Seq<char>, b: Seq<char>, c: Seq<char>)
    requires
        chars_lt(a, b),
        chars_lt(b, c),
    ensures
        chars_lt(a, c),
    decreases a.len(),
{
    if a.len() > 0 && b.len() > 0 && c.len() > 0 && a[0] == b[0] && b[0] == c[0] {
        lemma_chars_lt_transitive(a.drop_first(), b.drop_first(), c.drop_first());
    }
}

/// `chars_lt` is total on distinct sequences.
pub proof fn lemma_chars_lt_total(a: Seq<char>, b: Seq<char>)
    requires
        a != b,
    ensures
        chars_lt(a, b) || chars_lt(b, a),
    decreases a.len(),
{
    if a.len() > 0 && b.len() > 0 && a[0] == b[0] {
        if a.drop_first() == b.drop_first() {
            assert(a =~= seq![a[0]] + a.drop_first());
            assert(b =~= seq![b[0]] + b.drop_first());
        }
        lemma_chars_lt_total(a.drop_first(), b.drop_first());
    } else if a.len() == 0 && b.len() == 0 {
        assert(a =~= b);
    }
}

/// `chars_lt` is asymmetric.
pub proof fn lemma_chars_lt_asymmetric(a: Seq<char>, b: Seq<char>)
    requires
        chars_lt(a, b),
    ensures
        !chars_lt(b, a),
{
    if chars_lt(b, a) {
        lemma_chars_lt_transitive(a, b, a);
        lemma_chars_lt_irreflexive(a);
    }
}

// ───────────────────────────── collapsing ─────────────────────────────────

/// Entry `(ver_a, slug_a)` is newer than `(ver_b, slug_b)`: a higher
/// version, or the same version and a greater slug.
pub open spec fn newer(ver_a: Seq<u64>, slug_a: Seq<char>, ver_b: Seq<u64>, slug_b: Seq<char>) -> bool {
    ver_lt(ver_b, ver_a) || (ver_a == ver_b && chars_lt(slug_b, slug_a))
}

/// `slugs[i]` is the one kept for its line: no slug of the same line is
/// newer, and it is the first occurrence of that slug.
pub open spec fn kept_for_line(slugs: Seq<Seq<char>>, i: int) -> bool {
    &&& 0 <= i < slugs.len()
    &&& forall|j: int|
        0 <= j < slugs.len() && (#[trigger] line_key_version(slugs[j])).0 == line_key_version(slugs[i]).0
            ==> !newer(
            line_key_version(slugs[j]).1,
            slugs[j],
            line_key_version(slugs[i]).1,
            slugs[i],
        )
    &&& forall|j: int| 0 <= j < i ==> #[trigger] slugs[j] != slugs[i]
}

/// `s` is in strictly increasing order.
pub open spec fn sorted_strict(s: Seq<Seq<char>>) -> bool {
    forall|i: int, j: int| 0 <= i < j < s.len() ==> chars_lt(#[trigger] s[i], #[trigger] s[j])
}

/// The views of a list of strings.
pub open spec fn strings_view(v: Seq<String>) -> Seq<Seq<char>> {
    v.map_values(|s: String| s@)
}

/// Insert `x` into the strictly sorted `out`.
fn insert_sorted(out: &mut Vec<String>, x: String)
    requires
        sorted_strict(strings_view(old(out)@)),
        !strings_view(old(out)@).contains(x@),
    ensures
        sorted_strict(strings_view(final(out)@)),
        forall|y: Seq<char>| #[trigger] strings_view(final(out)@).contains(y) <==> (strings_view(
            old(out)@,
        ).contains(y) || y == x@),
{
    let xc = chars_of(x.as_str());
    let ghost sv = strings_view(out@);
    let mut p: usize = 0;
    while p < out.len()
        invariant
            p <= out.len(),
            sv == strings_view(out@),
            xc@ == x@,
            !sv.contains(x@),
            sorted_strict(sv),
            forall|k: int| 0 <= k < p ==> chars_lt(#[trigger] sv[k], x@),
        ensures
            p <= out.len(),
            forall|k: int| 0 <= k < p ==> chars_lt(#[trigger] sv[k], x@),
            p < out.len() ==> chars_lt(x@, sv[p as int]),
        decreases out.len() - p,
    {
        let oc = chars_of(out[p].as_str());
        if chars_lt_exec(xc.as_slice(), oc.as_slice()) {
            break;
        }
        proof {
            assert(sv[p as int] == out@[p as int]@);
            assert(sv.contains(sv[p as int]));
            lemma_chars_lt_total(x@, sv[p as int]);
        }
        p += 1;
    }
    proof {
        assert forall|k: int| p <= k < sv.len() implies chars_lt(x@, #[trigger] sv[k]) by {
            if k > p {
                assert(chars_lt(sv[p as int], sv[k]));
                lemma_chars_lt_transitive(x@, sv[p as int], sv[k]);
            }
        }
    }
    let ghost xv = x@;
    out.insert(p, x);
    proof {
        let nv = strings_view(out@);
        assert(nv =~= sv.insert(p as int, xv));
        assert forall|i: int, j: int| 0 <= i < j < nv.len() implies chars_lt(#[trigger] nv[i], #[trigger] nv[j]) by {
            if i < p && j < p {
            } else if i < p && j == p {
            } else if i < p && j > p {
                assert(nv[j] == sv[j - 1]);
            } else if i == p {
                assert(nv[j] == sv[j - 1]);
            } else {
                assert(nv[i] == sv[i - 1]);
                assert(nv[j] == sv[j - 1]);
            }
        }
        assert forall|y: Seq<char>| #[trigger] nv.contains(y) <==> (sv.contains(y) || y == xv) by {
            if nv.contains(y) {
                let i = choose|i: int| 0 <= i < nv.len() && nv[i] == y;
                if i < p {
                    assert(sv[i] == y);
                } else if i > p {
                    assert(sv[i - 1] == y);
                }
            }
            if sv.contains(y) {
                let i = choose|i: int| 0 <= i < sv.len() && sv[i] == y;
                if i < p {
                    assert(nv[i] == y);
                } else {
                    assert(nv[i + 1] == y);
                }
            }
            if y == xv {
                assert(nv[p as int] == y);
            }
        }
    }
}

/// Collapse discovered slugs to the latest version per model line. Within
/// a line the slug with the highest version is kept (ties go to the
/// greatest slug); a slug with no version token is a line of its own. The
/// result is sorted.
pub fn collapse_to_latest_per_line(slugs: &[String]) -> (out: Vec<String>)
    ensures
        sorted_strict(strings_view(out@)),
        forall|y: Seq<char>| #[trigger] strings_view(out@).contains(y) <==> exists|i: int|
            kept_for_line(strings_view(slugs@), i) && strings_view(slugs@)[i] == y,
        is_collapse_of(strings_view(slugs@), strings_view(out@)),
{
    let ghost sv = strings_view(slugs@);
    let n = slugs.len();
    let mut keys: Vec<Vec<char>> = Vec::new();
    let mut vers: Vec<Vec<u64>> = Vec::new();
    let mut cs: Vec<Vec<char>> = Vec::new();
    let mut i: usize = 0;
    while i < n
        invariant
            n == slugs.len(),
            sv == strings_view(slugs@),
            i <= n,
            keys.len() == i,
            vers.len() == i,
            cs.len() == i,
            forall|j: int| 0 <= j < i ==> (#[trigger] keys@[j])@ == line_key_version(sv[j]).0,
            forall|j: int| 0 <= j < i ==> (#[trigger] vers@[j])@ == line_key_version(sv[j]).1,
            forall|j: int| 0 <= j < i ==> (#[trigger] cs@[j])@ == sv[j],
        decreases n - i,
    {
        let (k, v) = line_key_and_version(slugs[i].as_str());
        keys.push(k);
        vers.push(v);
        cs.push(chars_of(slugs[i].as_str()));
        i += 1;
    }
    let mut out: Vec<String> = Vec::new();
    let mut i: usize = 0;
    while i < n
        invariant
            n == slugs.len(),
            sv == strings_view(slugs@),
            i <= n,
            keys.len() == n,
            vers.len() == n,
            cs.len() == n,
            forall|j: int| 0 <= j < n ==> (#[trigger] keys@[j])@ == line_key_version(sv[j]).0,
            forall|j: int| 0 <= j < n ==> (#[trigger] vers@[j])@ == line_key_version(sv[j]).1,
            forall|j: int| 0 <= j < n ==> (#[trigger] cs@[j])@ == sv[j],
            sorted_strict(strings_view(out@)),
            forall|y: Seq<char>| #[trigger] strings_view(out@).contains(y) <==> exists|k: int|
                0 <= k < i && kept_for_line(sv, k) && sv[k] == y,
        decreases n - i,
    {
        let mut kept = true;
        let mut j: usize = 0;
        while j < n
            invariant
                n == slugs.len(),
                sv == strings_view(slugs@),
                i < n,
                j <= n,
                keys.len() == n,
                vers.len() == n,
                cs.len() == n,
                forall|k: int| 0 <= k < n ==> (#[trigger] keys@[k])@ == line_key_version(sv[k]).0,
                forall|k: int| 0 <= k < n ==> (#[trigger] vers@[k])@ == line_key_version(sv[k]).1,
                forall|k: int| 0 <= k < n ==> (#[trigger] cs@[k])@ == sv[k],
                kept ==> forall|k: int|
                    0 <= k < j && (#[trigger] line_key_version(sv[k])).0 == line_key_version(sv[i as int]).0
                        ==> !newer(
                        line_key_version(sv[k]).1,
                        sv[k],
                        line_key_version(sv[i as int]).1,
                        sv[i as int],
                    ),
                kept ==> forall|k: int| 0 <= k < j && k < i ==> #[trigger] sv[k] != sv[i as int],
                !kept ==> !kept_for_line(sv, i as int),
            decreases n - j,
        {
            if kept {
                let same_line = crate::text::chars_eq(keys[j].as_slice(), keys[i].as_slice());
                let is_newer = ver_lt_exec(vers[i].as_slice(), vers[j].as_slice()) || (ver_eq(
                    vers[j].as_slice(),
                    vers[i].as_slice(),
                ) && chars_lt_exec(cs[i].as_slice(), cs[j].as_slice()));
                let dup = j < i && crate::text::chars_eq(cs[j].as_slice(), cs[i].as_slice());
                if (same_line && is_newer) || dup {
                    kept = false;
                }
            }
            j += 1;
        }
        if kept {
            proof {
                assert(kept_for_line(sv, i as int));
                assert(!strings_view(out@).contains(sv[i as int])) by {
                    if strings_view(out@).contains(sv[i as int]) {
                        let k = choose|k: int| 0 <= k < i && kept_for_line(sv, k) && sv[k] == sv[i as int];
                        assert(sv[k] != sv[i as int]);
                    }
                }
                assert(slugs@[i as int]@ == sv[i as int]);
            }
            let ghost before = strings_view(out@);
            insert_sorted(&mut out, slugs[i].clone());
            proof {
                assert forall|y: Seq<char>| #[trigger] strings_view(out@).contains(y) <==> exists|k: int|
                    0 <= k < i + 1 && kept_for_line(sv, k) && sv[k] == y by {
                    if y == sv[i as int] {
                        assert(kept_for_line(sv, i as int) && sv[i as int] == y);
                    }
                    if exists|k: int| 0 <= k < i + 1 && kept_for_line(sv, k) && sv[k] == y {
                        let k = choose|k: int| 0 <= k < i + 1 && kept_for_line(sv, k) && sv[k] == y;
                        if k < i {
                            assert(before.contains(y));
                        }
                    }
                }
            }
        } else {
            proof {
                assert forall|y: Seq<char>| #[trigger] strings_view(out@).contains(y) <==> exists|k: int|
                    0 <= k < i + 1 && kept_for_line(sv, k) && sv[k] == y by {
                    if exists|k: int| 0 <= k < i + 1 && kept_for_line(sv, k) && sv[k] == y {
                        let k = choose|k: int| 0 <= k < i + 1 && kept_for_line(sv, k) && sv[k] == y;
                        assert(k != i);
                    }
                }
            }
        }
        i += 1;
    }
    out
}

/// `y` is kept by collapsing `slugs`: it is listed, and no listed slug of
/// its line is newer.
pub open spec fn collapsed_member(slugs: Seq<Seq<char>>, y: Seq<char>) -> bool {
    &&& slugs.contains(y)
    &&& forall|x: Seq<char>|
        #![trigger slugs.contains(x)]
        slugs.contains(x) && line_key_version(x).0 == line_key_version(y).0 ==> !newer(
            line_key_version(x).1,
            x,
            line_key_version(y).1,
            y,
        )
}

/// What `collapse_to_latest_per_line` promises of `out` for input `slugs`.
pub open spec fn is_collapse_of(slugs: Seq<Seq<char>>, out: Seq<Seq<char>>) -> bool {
    &&& sorted_strict(out)
    &&& forall|y: Seq<char>| #[trigger] out.contains(y) <==> exists|i: int| kept_for_line(slugs, i) && slugs[i] == y
}

proof fn lemma_kept_is_collapsed_member(slugs: Seq<Seq<char>>, y: Seq<char>)
    ensures
        (exists|i: int| kept_for_line(slugs, i) && slugs[i] == y) <==> collapsed_member(slugs, y),
{
    if exists|i: int| kept_for_line(slugs, i) && slugs[i] == y {
        let i = choose|i: int| kept_for_line(slugs, i) && slugs[i] == y;
        assert(slugs.contains(y));
        assert forall|x: Seq<char>|
            #![trigger slugs.contains(x)]
            slugs.contains(x) && line_key_version(x).0 == line_key_version(y).0 implies !newer(
                line_key_version(x).1,
                x,
                line_key_version(y).1,
                y,
            ) by {
            let j = choose|j: int| 0 <= j < slugs.len() && slugs[j] == x;
            assert(line_key_version(slugs[j]).0 == line_key_version(slugs[i]).0);
        }
    }
    if collapsed_member(slugs, y) {
        slugs.index_of_first_ensures(y);
        let i = slugs.index_of_first(y)->0;
        assert forall|j: int|
            0 <= j < slugs.len() && (#[trigger] line_key_version(slugs[j])).0 == line_key_version(slugs[i]).0 implies !newer(
                line_key_version(slugs[j]).1,
                slugs[j],
                line_key_version(slugs[i]).1,
                slugs[i],
            ) by {
            assert(slugs.contains(slugs[j]));
        }
        assert(kept_for_line(slugs, i));
    }
}

proof fn lemma_sorted_first_is_least(a: Seq<Seq<char>>, k: int)
    requires
        sorted_strict(a),
        0 < k < a.len(),
    ensures
        chars_lt(a[0], a[k]),
{
}

/// Two strictly sorted lists with the same members are the same list.
proof fn lemma_sorted_same_members(a: Seq<Seq<char>>, b: Seq<Seq<char>>)
    requires
        sorted_strict(a),
        sorted_strict(b),
        forall|y: Seq<char>| a.contains(y) <==> b.contains(y),
    ensures
        a == b,
    decreases a.len(),
{
    if a.len() == 0 {
        if b.len() > 0 {
            assert(b.contains(b[0]));
        }
        assert(a =~= b);
    } else {
        assert(a.contains(a[0]));
        assert(b.contains(a[0]));
        let k = choose|k: int| 0 <= k < b.len() && b[k] == a[0];
        assert(b.contains(b[0]));
        let m = choose|m: int| 0 <= m < a.len() && a[m] == b[0];
        if k > 0 {
            assert(chars_lt(b[0], b[k]));
            if m > 0 {
                assert(chars_lt(a[0], a[m]));
                lemma_chars_lt_transitive(a[0], b[0], a[0]);
                lemma_chars_lt_irreflexive(a[0]);
            } else {
                lemma_chars_lt_irreflexive(a[0]);
            }
        }
        assert(a[0] == b[0]);
        let a1 = a.drop_first();
        let b1 = b.drop_first();
        assert forall|y: Seq<char>| a1.contains(y) <==> b1.contains(y) by {
            if a1.contains(y) {
                let i = choose|i: int| 0 <= i < a1.len() && a1[i] == y;
                assert(a[i + 1] == y);
                assert(chars_lt(a[0], a[i + 1]));
                assert(a.contains(y));
                let j = choose|j: int| 0 <= j < b.len() && b[j] == y;
                if j == 0 {
                    lemma_chars_lt_irreflexive(a[0]);
                }
                assert(b1[j - 1] == y);
            }
            if b1.contains(y) {
                let i = choose|i: int| 0 <= i < b1.len() && b1[i] == y;
                assert(b[i + 1] == y);
                assert(chars_lt(b[0], b[i + 1]));
                assert(b.contains(y));
                let j = choose|j: int| 0 <= j < a.len() && a[j] == y;
                if j == 0 {
                    lemma_chars_lt_irreflexive(a[0]);
                }
                assert(a1[j - 1] == y);
            }
        }
        assert(sorted_strict(a1)) by {
            assert forall|i: int, j: int| 0 <= i < j < a1.len() implies chars_lt(#[trigger] a1[i], #[trigger] a1[j]) by {
                assert(a1[i] == a[i + 1] && a1[j] == a[j + 1]);
            }
        }
        assert(sorted_strict(b1)) by {
            assert forall|i: int, j: int| 0 <= i < j < b1.len() implies chars_lt(#[trigger] b1[i], #[trigger] b1[j]) by {
                assert(b1[i] == b[i + 1] && b1[j] == b[j + 1]);
            }
        }
        lemma_sorted_same_members(a1, b1);
        assert(a =~= seq![a[0]] + a1);
        assert(b =~= seq![b[0]] + b1);
    }
}

/// Law: collapsing ignores the order (and repetition) of the slugs: two
/// inputs listing the same slugs collapse to the same list.
pub proof fn lemma_collapse_ignores_order(
    p: Seq<Seq<char>>,
    q: Seq<Seq<char>>,
    out_p: Seq<Seq<char>>,
    out_q: Seq<Seq<char>>,
)
    requires
        forall|y: Seq<char>| p.contains(y) <==> q.contains(y),
        is_collapse_of(p, out_p),
        is_collapse_of(q, out_q),
    ensures
        out_p == out_q,
{
    assert forall|y: Seq<char>| out_p.contains(y) <==> out_q.contains(y) by {
        lemma_kept_is_collapsed_member(p, y);
        lemma_kept_is_collapsed_member(q, y);
        if collapsed_member(p, y) {
            assert forall|x: Seq<char>|
                #![trigger q.contains(x)]
                q.contains(x) && line_key_version(x).0 == line_key_version(y).0 implies !newer(
                    line_key_version(x).1,
                    x,
                    line_key_version(y).1,
                    y,
                ) by {
                assert(p.contains(x));
            }
        }
        if collapsed_member(q, y) {
            assert forall|x: Seq<char>|
                #![trigger p.contains(x)]
                p.contains(x) && line_key_version(x).0 == line_key_version(y).0 implies !newer(
                    line_key_version(x).1,
                    x,
                    line_key_version(y).1,
                    y,
                ) by {
                assert(q.contains(x));
            }
        }
    }
    lemma_sorted_same_members(out_p, out_q);
}

/// Law: collapsing is idempotent: collapsing a collapsed list gives it
/// back.
pub proof fn lemma_collapse_idempotent(slugs: Seq<Seq<char>>, out: Seq<Seq<char>>, again: Seq<Seq<char>>)
    requires
        is_collapse_of(slugs, out),
        is_collapse_of(out, again),
    ensures
        again == out,
{
    assert forall|y: Seq<char>| again.contains(y) <==> out.contains(y) by {
        lemma_kept_is_collapsed_member(out, y);
        lemma_kept_is_collapsed_member(slugs, y);
        if out.contains(y) {
            assert(collapsed_member(slugs, y));
            assert forall|x: Seq<char>|
                #![trigger out.contains(x)]
                out.contains(x) && line_key_version(x).0 == line_key_version(y).0 implies !newer(
                    line_key_version(x).1,
                    x,
                    line_key_version(y).1,
                    y,
                ) by {
                lemma_kept_is_collapsed_member(slugs, x);
                assert(slugs.contains(x));
            }
        }
    }
    lemma_sorted_same_members(again, out);
}

} // verus!
