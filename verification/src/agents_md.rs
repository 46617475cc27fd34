//! The instruction block the plugin keeps in `AGENTS.md`: the bundled
//! system prompt between two marker comments, updated in place so that
//! whatever the user wrote around it survives.

use vstd::prelude::*;

use crate::text::{chars_of, occurs_at, occurs_at_exec, string_from_chars};

verus! {

/// The comment that opens the block.
pub open spec fn begin_marker() -> Seq<char> {
    "<!-- BEGIN EMPIRICA SYSTEM PROMPT v1 -->"@
}

/// The comment that closes the block.
pub open spec fn end_marker() -> Seq<char> {
    "<!-- END EMPIRICA SYSTEM PROMPT v1 -->"@
}

/// The comment that opens the block.
pub const BEGIN_MARKER: &'static str = "<!-- BEGIN EMPIRICA SYSTEM PROMPT v1 -->";

/// The comment that closes the block.
pub const END_MARKER: &'static str = "<!-- END EMPIRICA SYSTEM PROMPT v1 -->";

/// The first position at or after `i` where `p` occurs in `s`.
pub open spec fn find_from(s: Seq<char>, p: Seq<char>, i: int) -> Option<int>
    decreases s.len() + 1 - i,
{
    if i < 0 || i + p.len() > s.len() {
        None
    } else if occurs_at(s, p, i) {
        Some(i)
    } else {
        find_from(s, p, i + 1)
    }
}

/// `s` without its trailing newlines.
pub open spec fn trim_newlines(s: Seq<char>) -> Seq<char>
    decreases s.len(),
{
    if s.len() > 0 && s.last() == '\n' {
        trim_newlines(s.drop_last())
    } else {
        s
    }
}

/// The block: the opening marker, the prompt without trailing newlines,
/// the closing marker, each on its own line.
pub open spec fn block_of(prompt: Seq<char>) -> Seq<char> {
    begin_marker() + "\n"@ + trim_newlines(prompt) + "\n"@ + end_marker() + "\n"@
}

/// `existing` with the block appended after a blank line (a missing final
/// newline is added first).
pub open spec fn appended(existing: Seq<char>, block: Seq<char>) -> Seq<char> {
    let e1 = if existing.len() > 0 && existing.last() == '\n' { existing } else { existing + "\n"@ };
    let e2 = if e1.len() > 0 { e1 + "\n"@ } else { e1 };
    e2 + block
}

/// `existing` with the marked section (from the first opening marker to
/// the first closing marker after it) replaced by the block; when the
/// markers are not both there, the block is appended instead. The result
/// ends with a newline.
pub open spec fn replaced(existing: Seq<char>, block: Seq<char>) -> Seq<char> {
    match find_from(existing, begin_marker(), 0) {
        None => appended(existing, block),
        Some(b) => match find_from(existing, end_marker(), b + begin_marker().len()) {
            None => appended(existing, block),
            Some(e) => {
                let out = existing.subrange(0, b) + trim_newlines(block) + existing.subrange(
                    e + end_marker().len(),
                    existing.len() as int,
                );
                if out.len() > 0 && out.last() == '\n' {
                    out
                } else {
                    out + "\n"@
                }
            },
        },
    }
}

/// The content the file should have, given what it holds (if it exists):
/// the block alone for a missing file; the file as it is when it already
/// holds the current block (markers, prompt and all); the block appended
/// when the file has no opening marker; the marked section replaced
/// otherwise.
pub open spec fn updated_content(existing: Option<Seq<char>>, prompt: Seq<char>) -> Seq<char> {
    match existing {
        None => block_of(prompt),
        Some(c) => if find_from(c, marked(trim_newlines(prompt)), 0) is Some {
            c
        } else if find_from(c, begin_marker(), 0) is None {
            appended(c, block_of(prompt))
        } else {
            replaced(c, block_of(prompt))
        },
    }
}

fn find_from_exec(s: &[char], p: &[char], i: usize) -> (r: Option<usize>)
    ensures
        match r {
            Some(k) => find_from(s@, p@, i as int) == Some(k as int),
            None => find_from(s@, p@, i as int) is None,
        },
{
    if i > s.len() || p.len() > s.len() - i {
        return None;
    }
    let last = s.len() - p.len();
    let mut k = i;
    loop
        invariant
            i <= k <= last,
            last == s.len() - p.len(),
            find_from(s@, p@, i as int) == find_from(s@, p@, k as int),
        decreases last - k,
    {
        if occurs_at_exec(s, p, k) {
            return Some(k);
        }
        if k == last {
            assert(find_from(s@, p@, k + 1) is None);
            return None;
        }
        k += 1;
    }
}

/// What `find_from` finds is an occurrence at or after the start.
pub proof fn lemma_find_from_found(s: Seq<char>, p: Seq<char>, i: int)
    requires
        0 <= i,
    ensures
        match find_from(s, p, i) {
            Some(k) => i <= k && occurs_at(s, p, k) && forall|j: int| i <= j < k ==> !occurs_at(s, p, j),
            None => forall|j: int| i <= j ==> !occurs_at(s, p, j),
        },
    decreases s.len() + 1 - i,
{
    if i < 0 || i + p.len() > s.len() {
    } else if occurs_at(s, p, i) {
    } else {
        lemma_find_from_found(s, p, i + 1);
    }
}

fn trim_newlines_exec(v: &[char]) -> (r: Vec<char>)
    ensures
        r@ == trim_newlines(v@),
{
    let mut n = v.len();
    assert(v@.take(n as int) =~= v@);
    while n > 0 && v[n - 1] == '\n'
        invariant
            n <= v.len(),
            trim_newlines(v@) == trim_newlines(v@.take(n as int)),
        decreases n,
    {
        assert(v@.take(n as int).drop_last() =~= v@.take(n - 1));
        n -= 1;
    }
    let mut r: Vec<char> = Vec::new();
    let mut k: usize = 0;
    while k < n
        invariant
            k <= n,
            n <= v.len(),
            r@ == v@.take(k as int),
        decreases n - k,
    {
        r.push(v[k]);
        assert(v@.take(k + 1) =~= v@.take(k as int).push(v@[k as int]));
        k += 1;
    }
    r
}

fn push_all(out: &mut Vec<char>, s: &[char])
    ensures
        final(out)@ == old(out)@ + s@,
{
    let mut k: usize = 0;
    while k < s.len()
        invariant
            k <= s.len(),
            out@ == old(out)@ + s@.take(k as int),
        decreases s.len() - k,
    {
        out.push(s[k]);
        assert(s@.take(k + 1) =~= s@.take(k as int).push(s@[k as int]));
        k += 1;
    }
    assert(s@.take(s.len() as int) =~= s@);
}

/// The block for `prompt`.
pub fn wrapped_block(prompt: &str) -> (r: String)
    ensures
        r@ == block_of(prompt@),
{
    let body = trim_newlines_exec(chars_of(prompt).as_slice());
    let mut out = chars_of(BEGIN_MARKER);
    out.push('\n');
    push_all(&mut out, body.as_slice());
    out.push('\n');
    push_all(&mut out, chars_of(END_MARKER).as_slice());
    out.push('\n');
    proof {
        reveal_strlit("\n");
    }
    assert(out@ =~= block_of(prompt@));
    string_from_chars(out.as_slice())
}

/// `existing` with `block` appended after a blank line.
pub fn append_block(existing: &str, block: &str) -> (r: String)
    ensures
        r@ == appended(existing@, block@),
{
    proof {
        reveal_strlit("\n");
    }
    let mut out = chars_of(existing);
    if !(out.len() > 0 && out[out.len() - 1] == '\n') {
        out.push('\n');
    }
    if out.len() > 0 {
        out.push('\n');
    }
    push_all(&mut out, chars_of(block).as_slice());
    assert(out@ =~= appended(existing@, block@));
    string_from_chars(out.as_slice())
}

/// `existing` with its marked section replaced by `block` (or `block`
/// appended when the markers are not both there).
pub fn replace_block(existing: &str, block: &str) -> (r: String)
    ensures
        r@ == replaced(existing@, block@),
{
    proof {
        reveal_strlit("\n");
    }
    let e = chars_of(existing);
    let bm = chars_of(BEGIN_MARKER);
    let em = chars_of(END_MARKER);
    assert(bm@ == begin_marker());
    assert(em@ == end_marker());
    let b = match find_from_exec(e.as_slice(), bm.as_slice(), 0) {
        Some(b) => b,
        None => {
            return append_block(existing, block);
        },
    };
    proof {
        lemma_find_from_found(e@, bm@, 0);
    }
    assert(occurs_at(e@, bm@, b as int));
    assert(b + bm.len() <= e.len());
    let end = match find_from_exec(e.as_slice(), em.as_slice(), b + bm.len()) {
        Some(x) => x,
        None => {
            return append_block(existing, block);
        },
    };
    proof {
        lemma_find_from_found(e@, em@, b + bm@.len());
        assert(occurs_at(e@, em@, end as int));
    }
    assert(end + em.len() <= e.len());
    let end_idx = end + em.len();
    let mut out: Vec<char> = Vec::new();
    push_all(&mut out, e.as_slice().split_at(b).0);
    let trimmed = trim_newlines_exec(chars_of(block).as_slice());
    push_all(&mut out, trimmed.as_slice());
    push_all(&mut out, e.as_slice().split_at(end_idx).1);
    if !(out.len() > 0 && out[out.len() - 1] == '\n') {
        out.push('\n');
    }
    assert(out@ =~= replaced(existing@, block@));
    string_from_chars(out.as_slice())
}

/// The content the file should have, given what it holds (if anything).
pub fn compute_updated(existing: Option<&str>, prompt: &str) -> (r: String)
    ensures
        r@ == updated_content(
            match existing {
                Some(c) => Some(c@),
                None => None,
            },
            prompt@,
        ),
{
    let block = wrapped_block(prompt);
    match existing {
        None => block,
        Some(content) => {
            let current = trim_newlines_exec(chars_of(block.as_str()).as_slice());
            proof {
                lemma_trim_block(prompt@);
            }
            if find_from_exec(chars_of(content).as_slice(), current.as_slice(), 0).is_some() {
                return content.to_string();
            }
            let has_begin = find_from_exec(chars_of(content).as_slice(), chars_of(BEGIN_MARKER).as_slice(), 0).is_some();
            if !has_begin {
                append_block(content, block.as_str())
            } else {
                replace_block(content, block.as_str())
            }
        },
    }
}

/// The block without its final newline, around the trimmed prompt `t`.
pub open spec fn marked(t: Seq<char>) -> Seq<char> {
    begin_marker() + "\n"@ + t + "\n"@ + end_marker()
}

proof fn lemma_markers()
    ensures
        begin_marker().len() > 0,
        end_marker().len() > 0,
        end_marker().last() != '\n',
        "\n"@ == seq!['\n'],
{
    reveal_strlit("<!-- BEGIN EMPIRICA SYSTEM PROMPT v1 -->");
    reveal_strlit("<!-- END EMPIRICA SYSTEM PROMPT v1 -->");
    reveal_strlit("\n");
}

proof fn lemma_trim_block(p: Seq<char>)
    ensures
        block_of(p) == marked(trim_newlines(p)) + "\n"@,
        trim_newlines(block_of(p)) == marked(trim_newlines(p)),
{
    lemma_markers();
    let m = marked(trim_newlines(p));
    assert(block_of(p) =~= m + "\n"@);
    assert((m + "\n"@).drop_last() =~= m);
    assert(m.last() == end_marker().last());
    assert(trim_newlines(m) == m);
    assert(trim_newlines(m + "\n"@) == trim_newlines(m));
}

/// The updated content holds the current block.
proof fn lemma_update_holds_block(existing: Option<Seq<char>>, prompt: Seq<char>)
    ensures
        find_from(updated_content(existing, prompt), marked(trim_newlines(prompt)), 0) is Some,
{
    lemma_markers();
    lemma_trim_block(prompt);
    let m = marked(trim_newlines(prompt));
    let blk = block_of(prompt);
    let u = updated_content(existing, prompt);
    let k: int = match existing {
        None => 0,
        Some(c) => if find_from(c, m, 0) is Some {
            lemma_find_from_found(c, m, 0);
            find_from(c, m, 0)->0
        } else if find_from(c, begin_marker(), 0) is None {
            (u.len() - blk.len()) as int
        } else {
            let b = find_from(c, begin_marker(), 0)->0;
            match find_from(c, end_marker(), b + begin_marker().len()) {
                None => (u.len() - blk.len()) as int,
                Some(_) => b,
            }
        },
    };
    match existing {
        None => {
            assert(u.subrange(0, m.len() as int) =~= m);
        },
        Some(c) => {
            if find_from(c, m, 0) is Some {
            } else {
                lemma_find_from_found(c, begin_marker(), 0);
                if find_from(c, begin_marker(), 0) is None {
                    assert(u.subrange(k, k + m.len()) =~= m);
                } else {
                    let b = find_from(c, begin_marker(), 0)->0;
                    lemma_find_from_found(c, end_marker(), b + begin_marker().len());
                    match find_from(c, end_marker(), b + begin_marker().len()) {
                        None => {
                            assert(u.subrange(k, k + m.len()) =~= m);
                        },
                        Some(e) => {
                            assert(u.subrange(b, b + m.len()) =~= m);
                        },
                    }
                }
            }
        },
    }
    assert(occurs_at(u, m, k));
    lemma_find_from_found(u, m, 0);
}

/// Updating the instruction block is idempotent: once the content has
/// been brought up to date, a second update with the same prompt changes
/// nothing, whatever the file held before and whatever the prompt is.
pub proof fn lemma_update_idempotent(existing: Option<Seq<char>>, prompt: Seq<char>)
    ensures
        updated_content(Some(updated_content(existing, prompt)), prompt) == updated_content(
            existing,
            prompt,
        ),
{
    lemma_update_holds_block(existing, prompt);
}

/// An update keeps what the user wrote: a content without an opening
/// marker is kept whole at the front; otherwise everything before the
/// opening marker is kept at the front. Either way the up-to-date block
/// follows it.
pub proof fn lemma_update_keeps_user_text(c: Seq<char>, prompt: Seq<char>)
    ensures
        find_from(c, marked(trim_newlines(prompt)), 0) is Some ==> updated_content(Some(c), prompt) == c,
        find_from(c, marked(trim_newlines(prompt)), 0) is None ==> match find_from(c, begin_marker(), 0) {
            None => {
                &&& updated_content(Some(c), prompt).len() >= c.len()
                &&& updated_content(Some(c), prompt).subrange(0, c.len() as int) == c
                &&& updated_content(Some(c), prompt).subrange(
                    updated_content(Some(c), prompt).len() - block_of(prompt).len(),
                    updated_content(Some(c), prompt).len() as int,
                ) == block_of(prompt)
            },
            Some(b) => match find_from(c, end_marker(), b + begin_marker().len()) {
                None => {
                    &&& updated_content(Some(c), prompt).len() >= c.len()
                    &&& updated_content(Some(c), prompt).subrange(0, c.len() as int) == c
                    &&& updated_content(Some(c), prompt).subrange(
                        updated_content(Some(c), prompt).len() - block_of(prompt).len(),
                        updated_content(Some(c), prompt).len() as int,
                    ) == block_of(prompt)
                },
                Some(e) => {
                    &&& updated_content(Some(c), prompt).len() >= b + marked(trim_newlines(prompt)).len()
                    &&& updated_content(Some(c), prompt).subrange(0, b) == c.subrange(0, b)
                    &&& updated_content(Some(c), prompt).subrange(b, b + marked(trim_newlines(prompt)).len())
                        == marked(trim_newlines(prompt))
                    &&& updated_content(Some(c), prompt).subrange(
                        b + marked(trim_newlines(prompt)).len(),
                        b + marked(trim_newlines(prompt)).len() + (c.len() - (e + end_marker().len())),
                    ) == c.subrange(e + end_marker().len(), c.len() as int)
                },
            },
        },
{
    lemma_markers();
    lemma_trim_block(prompt);
    let bm = begin_marker();
    let em = end_marker();
    let m = marked(trim_newlines(prompt));
    let blk = block_of(prompt);
    let u = updated_content(Some(c), prompt);
    if find_from(c, m, 0) is None {
        lemma_find_from_found(c, bm, 0);
        match find_from(c, bm, 0) {
            None => {
                let e1 = if c.len() > 0 && c.last() == '\n' { c } else { c + "\n"@ };
                let e2 = if e1.len() > 0 { e1 + "\n"@ } else { e1 };
                assert(u == e2 + blk);
                assert(u.subrange(0, c.len() as int) =~= c);
                assert(u.subrange(u.len() - blk.len(), u.len() as int) =~= blk);
            },
            Some(b) => {
                lemma_find_from_found(c, em, b + bm.len());
                match find_from(c, em, b + bm.len()) {
                    None => {
                        let e1 = if c.len() > 0 && c.last() == '\n' { c } else { c + "\n"@ };
                        let e2 = if e1.len() > 0 { e1 + "\n"@ } else { e1 };
                            assert(u == e2 + blk);
                        assert(u.subrange(0, c.len() as int) =~= c);
                        assert(u.subrange(u.len() - blk.len(), u.len() as int) =~= blk);
                    },
                    Some(e) => {
                        let out = c.subrange(0, b) + m + c.subrange(e + em.len(), c.len() as int);
                        assert(u.subrange(0, b) =~= c.subrange(0, b));
                        assert(u.subrange(b, b + m.len()) =~= m);
                        assert(u.subrange(b + m.len(), b + m.len() + (c.len() - (e + em.len()))) =~= c.subrange(
                            e + em.len(),
                            c.len() as int,
                        ));
                    },
                }
            },
        }
    }
}

/// The directory codex keeps its files in: `$CODEX_HOME` when set,
/// otherwise `.codex` under the home directory; none without either.
pub open spec fn codex_home_of(codex_home: Option<Seq<char>>, home: Option<Seq<char>>) -> Option<Seq<char>> {
    match codex_home {
        Some(c) => Some(c),
        None => match home {
            Some(h) => Some(crate::empirica_cli::path_join(h, ".codex"@)),
            None => None,
        },
    }
}

/// Resolve codex's directory from the values of `CODEX_HOME` and `HOME`.
pub fn codex_home_dir(codex_home: Option<&str>, home: Option<&str>) -> (r: Option<String>)
    ensures
        crate::manifest::ostring(r) == codex_home_of(crate::manifest::ostr_ref(codex_home), crate::manifest::ostr_ref(home)),
{
    match codex_home {
        Some(c) => Some(c.to_string()),
        None => match home {
            Some(h) => {
                proof {
                    reveal_strlit(".codex");
                }
                Some(crate::empirica_cli::join_path(h, ".codex"))
            },
            None => None,
        },
    }
}

} // verus!
