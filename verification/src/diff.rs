//! Line splitting and single-hunk unified diffs.
use vstd::prelude::*;
use crate::text::{chars_of, decimal, decimal_string, push_str, str_eq};

verus! {

broadcast use vstd::std_specs::vec::group_vec_axioms;

// ------------------------------------------------------------------
// Lines
// ------------------------------------------------------------------
/// `line` without the carriage return that ended it, if any.
pub open spec fn strip_cr(line: Seq<char>) -> Seq<char> {
    if line.len() > 0 && line.last() == '\r' {
        line.drop_last()
    } else {
        line
    }
}

/// The lines of `s` read from the front with `cur` already collected: a
/// line ends at `\n` (and loses a `\r` before it); a last line without `\n`
/// is kept as it is unless it is empty.
pub open spec fn lines_from(s: Seq<char>, cur: Seq<char>) -> Seq<Seq<char>>
    decreases s.len(),
{
    if s.len() == 0 {
        if cur.len() == 0 {
            Seq::empty()
        } else {
            seq![cur]
        }
    } else if s[0] == '\n' {
        seq![strip_cr(cur)] + lines_from(s.drop_first(), Seq::empty())
    } else {
        lines_from(s.drop_first(), cur.push(s[0]))
    }
}

/// The lines of a text, as `str::lines` yields them.
pub open spec fn lines(s: Seq<char>) -> Seq<Seq<char>> {
    lines_from(s, Seq::empty())
}

fn strip_cr_string(cur: &Vec<char>) -> (r: String)
    ensures
        r@ == strip_cr(cur@),
{
    if cur.len() > 0 && cur[cur.len() - 1] == '\r' {
        crate::text::string_of_range(cur, 0, cur.len() - 1)
    } else {
        crate::text::string_of(cur)
    }
}

/// The lines of `s` (see `lines`).
pub fn split_lines(s: &str) -> (r: Vec<String>)
    ensures
        r@.map_values(|l: String| l@) == lines(s@),
{
    let cs = chars_of(s);
    let mut out: Vec<String> = Vec::new();
    let mut cur: Vec<char> = Vec::new();
    let mut i: usize = 0;
    proof {
        assert(cs@.skip(0) =~= cs@);
        assert(out@.map_values(|l: String| l@) =~= Seq::<Seq<char>>::empty());
        assert(Seq::<Seq<char>>::empty() + lines(s@) =~= lines(s@));
    }
    while i < cs.len()
        invariant
            cs@ == s@,
            i <= cs@.len(),
            out@.map_values(|l: String| l@) + lines_from(cs@.skip(i as int), cur@) == lines(s@),
        decreases cs.len() - i,
    {
        let ghost rest = cs@.skip(i as int);
        let ghost cur0 = cur@;
        let ghost before = out@.map_values(|l: String| l@);
        assert(rest.drop_first() =~= cs@.skip(i + 1));
        assert(rest[0] == cs@[i as int]);
        if cs[i] == '\n' {
            let line = strip_cr_string(&cur);
            out.push(line);
            assert(out@.map_values(|l: String| l@) =~= before.push(strip_cr(cur0)));
            cur = Vec::new();
            assert(before + lines_from(rest, cur0) =~= before.push(strip_cr(cur0)) + lines_from(
                cs@.skip(i + 1),
                cur@,
            ));
        } else {
            cur.push(cs[i]);
            assert(out@.map_values(|l: String| l@) =~= before);
        }
        i += 1;
    }
    proof {
        assert(cs@.skip(i as int) =~= Seq::<char>::empty());
    }
    if cur.len() > 0 {
        let ghost before = out@.map_values(|l: String| l@);
        out.push(crate::text::string_of(&cur));
        assert(out@.map_values(|l: String| l@) =~= before.push(cur@));
    } else {
        assert(out@.map_values(|l: String| l@) + Seq::<Seq<char>>::empty() =~= out@.map_values(|l: String| l@));
    }
    out
}


// ------------------------------------------------------------------
// Unified diff
// ------------------------------------------------------------------
/// Lines shown around a change.
pub const CONTEXT_LINES: usize = 3;

/// The models of a list of lines.
pub open spec fn line_views(v: Seq<String>) -> Seq<Seq<char>> {
    v.map_values(|l: String| l@)
}

/// Where `a` and `b` first differ, searching from `k`.
pub open spec fn prefix_from(a: Seq<Seq<char>>, b: Seq<Seq<char>>, k: int) -> int
    decreases a.len() - k,
{
    if 0 <= k && k < a.len() && k < b.len() && a[k] == b[k] {
        prefix_from(a, b, k + 1)
    } else {
        k
    }
}

/// How many lines `a` and `b` share at their ends (counting from `k`),
/// leaving the first `p` lines of each out.
pub open spec fn suffix_from(a: Seq<Seq<char>>, b: Seq<Seq<char>>, p: int, k: int) -> int
    decreases a.len() - p - k,
{
    if 0 <= k && k < a.len() - p && k < b.len() - p && a[a.len() - 1 - k] == b[b.len() - 1 - k] {
        suffix_from(a, b, p, k + 1)
    } else {
        k
    }
}

/// Each line of `ls` preceded by `p` and followed by a newline.
pub open spec fn prefixed(p: Seq<char>, ls: Seq<Seq<char>>) -> Seq<char>
    decreases ls.len(),
{
    if ls.len() == 0 {
        Seq::empty()
    } else {
        prefixed(p, ls.drop_last()) + p + ls.last() + "\n"@
    }
}

/// A hunk range: the start alone when the hunk has one line, else
/// `start,len`.
pub open spec fn hunk_range_text(start: int, len: int) -> Seq<char> {
    if len == 1 {
        decimal(start as nat)
    } else {
        decimal(start as nat) + ","@ + decimal(len as nat)
    }
}

/// The smaller of two integers.
pub open spec fn min_int(a: int, b: int) -> int {
    if a <= b {
        a
    } else {
        b
    }
}

/// The unified diff of two versions of the file at `path`: one hunk from
/// the first to the last changed line, with up to three lines of context on
/// each side.
pub open spec fn unified_diff(path: Seq<char>, old_text: Seq<char>, new_text: Seq<char>) -> Seq<char> {
    let o = lines(old_text);
    let n = lines(new_text);
    let prefix = prefix_from(o, n, 0);
    let suffix = suffix_from(o, n, prefix, 0);
    let old_end = o.len() - suffix;
    let new_end = n.len() - suffix;
    let start = if prefix >= 3 {
        prefix - 3
    } else {
        0
    };
    let old_ctx_end = min_int(old_end + 3, o.len() as int);
    let new_ctx_end = min_int(new_end + 3, n.len() as int);
    let old_len = old_ctx_end - start;
    let new_len = new_ctx_end - start;
    let old_start = if old_len == 0 {
        0
    } else {
        start + 1
    };
    let new_start = if new_len == 0 {
        0
    } else {
        start + 1
    };
    "diff --git a/"@ + path + " b/"@ + path + "\n"@ + "--- a/"@ + path + "\n"@ + "+++ b/"@ + path
        + "\n"@ + "@@ -"@ + hunk_range_text(old_start, old_len) + " +"@ + hunk_range_text(
        new_start,
        new_len,
    ) + " @@\n"@ + prefixed(" "@, o.subrange(start, prefix)) + prefixed(
        "-"@,
        o.subrange(prefix, old_end),
    ) + prefixed("+"@, n.subrange(prefix, new_end)) + prefixed(" "@, o.subrange(old_end, old_ctx_end))
}

proof fn lemma_prefix_from(a: Seq<Seq<char>>, b: Seq<Seq<char>>, k: int)
    requires
        0 <= k <= a.len(),
        k <= b.len(),
    ensures
        k <= prefix_from(a, b, k) <= a.len(),
        prefix_from(a, b, k) <= b.len(),
        forall|i: int| k <= i < prefix_from(a, b, k) ==> a[i] == b[i],
        prefix_from(a, b, k) < a.len() && prefix_from(a, b, k) < b.len() ==> a[prefix_from(a, b, k)]
            != b[prefix_from(a, b, k)],
    decreases a.len() - k,
{
    if k < a.len() && k < b.len() && a[k] == b[k] {
        lemma_prefix_from(a, b, k + 1);
    }
}

proof fn lemma_suffix_from(a: Seq<Seq<char>>, b: Seq<Seq<char>>, p: int, k: int)
    requires
        0 <= p <= a.len(),
        p <= b.len(),
        0 <= k <= a.len() - p,
        k <= b.len() - p,
    ensures
        k <= suffix_from(a, b, p, k) <= a.len() - p,
        suffix_from(a, b, p, k) <= b.len() - p,
        forall|i: int|
            a.len() - suffix_from(a, b, p, k) <= i < a.len() - k ==> #[trigger] a[i] == b[i + (b.len() - a.len())],
    decreases a.len() - p - k,
{
    if k < a.len() - p && k < b.len() - p && a[a.len() - 1 - k] == b[b.len() - 1 - k] {
        lemma_suffix_from(a, b, p, k + 1);
    }
}

/// The diff of `old_text` and `new_text` is one hunk at line `lead` that
/// shows `before` and `after` as context (` `), `removed` (`-`) and `added`
/// (`+`) lines: the old version has `before + removed + after` there and the
/// new one `before + added + after`; the hunk header counts exactly those
/// lines; at most three context lines stand on each side; and whenever the
/// two versions differ in any line, at least one line is removed or added.
pub open spec fn diff_hunk_is(
    path: Seq<char>,
    old_text: Seq<char>,
    new_text: Seq<char>,
    lead: int,
    before: Seq<Seq<char>>,
    removed: Seq<Seq<char>>,
    added: Seq<Seq<char>>,
    after: Seq<Seq<char>>,
) -> bool
{
    let o = lines(old_text);
    let n = lines(new_text);
    let old_len = (before.len() + removed.len() + after.len()) as int;
    let new_len = (before.len() + added.len() + after.len()) as int;
    &&& 0 <= lead
    &&& lead + old_len <= o.len()
    &&& lead + new_len <= n.len()
    &&& o.subrange(lead, lead + old_len) == before + removed + after
    &&& n.subrange(lead, lead + new_len) == before + added + after
    &&& before.len() <= 3
    &&& after.len() <= 3
    &&& (o != n ==> removed.len() + added.len() > 0)
    &&& unified_diff(path, old_text, new_text) == "diff --git a/"@ + path + " b/"@ + path + "\n"@
        + "--- a/"@ + path + "\n"@ + "+++ b/"@ + path + "\n"@ + "@@ -"@ + hunk_range_text(
        if old_len == 0 { 0 } else { lead + 1 },
        old_len,
    ) + " +"@ + hunk_range_text(if new_len == 0 { 0 } else { lead + 1 }, new_len) + " @@\n"@
        + prefixed(" "@, before) + prefixed("-"@, removed) + prefixed("+"@, added) + prefixed(
        " "@,
        after,
    )
}

/// The unified diff shows every change, and as context only lines that are
/// the same, character for character, in both versions (see
/// `diff_hunk_is`).
pub proof fn law_diff_shows_every_changed_line(path: Seq<char>, old_text: Seq<char>, new_text: Seq<char>)
    ensures
        exists|lead: int, before: Seq<Seq<char>>, removed: Seq<Seq<char>>, added: Seq<Seq<char>>, after: Seq<Seq<char>>|
            #[trigger] diff_hunk_is(path, old_text, new_text, lead, before, removed, added, after),
{
    let o = lines(old_text);
    let n = lines(new_text);
    lemma_prefix_from(o, n, 0);
    let prefix = prefix_from(o, n, 0);
    lemma_suffix_from(o, n, prefix, 0);
    let suffix = suffix_from(o, n, prefix, 0);
    let old_end = o.len() - suffix;
    let new_end = n.len() - suffix;
    let start = if prefix >= 3 {
        prefix - 3
    } else {
        0
    };
    let old_ctx_end = min_int(old_end + 3, o.len() as int);
    let new_ctx_end = min_int(new_end + 3, n.len() as int);
    let before = o.subrange(start, prefix);
    let removed = o.subrange(prefix, old_end);
    let added = n.subrange(prefix, new_end);
    let after = o.subrange(old_end, old_ctx_end);
    assert(n.subrange(start, prefix) =~= before);
    assert(n.subrange(new_end, new_ctx_end) =~= after) by {
        assert forall|j: int| 0 <= j < after.len() implies n.subrange(new_end, new_ctx_end)[j] == after[j] by {
            assert(o[old_end + j] == n[old_end + j + (n.len() - o.len())]);
        }
    }
    assert(o.subrange(start, old_ctx_end) =~= before + removed + after);
    assert(n.subrange(start, new_ctx_end) =~= before + added + after);
    if o != n && removed.len() + added.len() == 0 {
        assert(o =~= n) by {
            assert forall|i: int| 0 <= i < o.len() implies o[i] == n[i] by {
                if i >= prefix {
                    assert(o[i] == n[i + (n.len() - o.len())]);
                }
            }
        }
    }
    assert(diff_hunk_is(path, old_text, new_text, start, before, removed, added, after));
    assert(unified_diff(path, old_text, new_text) == "diff --git a/"@ + path + " b/"@ + path + "\n"@
        + "--- a/"@ + path + "\n"@ + "+++ b/"@ + path + "\n"@ + "@@ -"@ + hunk_range_text(
        if old_ctx_end - start == 0 { 0 } else { start + 1 },
        old_ctx_end - start,
    ) + " +"@ + hunk_range_text(if new_ctx_end - start == 0 { 0 } else { start + 1 }, new_ctx_end - start)
        + " @@\n"@ + prefixed(" "@, before) + prefixed("-"@, removed) + prefixed("+"@, added) + prefixed(
        " "@,
        after,
    ));
}

/// A hunk range (see `hunk_range_text`).
pub fn hunk_range(start: usize, len: usize) -> (r: String)
    ensures
        r@ == hunk_range_text(start as int, len as int),
{
    let mut r = decimal_string(start as u64);
    if len != 1 {
        push_str(&mut r, ",");
        let d = decimal_string(len as u64);
        push_str(&mut r, d.as_str());
    }
    r
}

proof fn lemma_prefixed_push(p: Seq<char>, ls: Seq<Seq<char>>, from: int, to: int)
    requires
        0 <= from <= to < ls.len(),
    ensures
        prefixed(p, ls.subrange(from, to + 1)) == prefixed(p, ls.subrange(from, to)) + p + ls[to]
            + "\n"@,
{
    assert(ls.subrange(from, to + 1).drop_last() =~= ls.subrange(from, to));
}

/// Appends `prefixed(p, ls[from..to])` to `out`.
fn push_prefixed(out: &mut String, p: &str, ls: &Vec<String>, from: usize, to: usize)
    requires
        from <= to <= ls@.len(),
    ensures
        final(out)@ == old(out)@ + prefixed(p@, line_views(ls@).subrange(from as int, to as int)),
{
    let ghost lv = line_views(ls@);
    let mut i = from;
    proof {
        assert(lv.subrange(from as int, from as int) =~= Seq::<Seq<char>>::empty());
        assert(old(out)@ + Seq::<char>::empty() =~= old(out)@);
    }
    while i < to
        invariant
            from <= i <= to <= ls@.len(),
            lv == line_views(ls@),
            out@ == old(out)@ + prefixed(p@, lv.subrange(from as int, i as int)),
        decreases to - i,
    {
        push_str(out, p);
        push_str(out, ls[i].as_str());
        push_str(out, "\n");
        proof {
            lemma_prefixed_push(p@, lv, from as int, i as int);
            assert(lv[i as int] == ls@[i as int]@);
            assert(out@ =~= old(out)@ + prefixed(p@, lv.subrange(from as int, i + 1)));
        }
        i += 1;
    }
}

/// The unified diff of two versions of the file at `path` (see
/// `unified_diff`).
#[verifier::spinoff_prover]
#[verifier::rlimit(40)]
pub fn build_unified_diff(path: &str, old_content: &str, new_content: &str) -> (r: String)
    ensures
        r@ == unified_diff(path@, old_content@, new_content@),
{
    let old_lines = split_lines(old_content);
    let new_lines = split_lines(new_content);
    let ghost o = line_views(old_lines@);
    let ghost n = line_views(new_lines@);
    let mut prefix: usize = 0;
    loop
        invariant
            o == line_views(old_lines@),
            n == line_views(new_lines@),
            prefix <= old_lines@.len(),
            prefix <= new_lines@.len(),
            prefix_from(o, n, 0) == prefix_from(o, n, prefix as int),
        ensures
            prefix_from(o, n, 0) == prefix as int,
            prefix <= old_lines@.len(),
            prefix <= new_lines@.len(),
        decreases old_lines@.len() - prefix,
    {
        if prefix >= old_lines.len() || prefix >= new_lines.len() {
            break;
        }
        assert(o[prefix as int] == old_lines@[prefix as int]@);
        assert(n[prefix as int] == new_lines@[prefix as int]@);
        if !str_eq(old_lines[prefix].as_str(), new_lines[prefix].as_str()) {
            break;
        }
        prefix += 1;
    }
    let mut suffix: usize = 0;
    loop
        invariant
            o == line_views(old_lines@),
            n == line_views(new_lines@),
            prefix <= old_lines@.len(),
            prefix <= new_lines@.len(),
            suffix <= old_lines@.len() - prefix,
            suffix <= new_lines@.len() - prefix,
            suffix_from(o, n, prefix as int, 0) == suffix_from(o, n, prefix as int, suffix as int),
        ensures
            suffix_from(o, n, prefix as int, 0) == suffix as int,
            suffix <= old_lines@.len() - prefix,
            suffix <= new_lines@.len() - prefix,
        decreases old_lines@.len() - suffix,
    {
        if suffix >= old_lines.len() - prefix || suffix >= new_lines.len() - prefix {
            break;
        }
        let a = old_lines.len() - 1 - suffix;
        let b = new_lines.len() - 1 - suffix;
        assert(o[a as int] == old_lines@[a as int]@);
        assert(n[b as int] == new_lines@[b as int]@);
        if !str_eq(old_lines[a].as_str(), new_lines[b].as_str()) {
            break;
        }
        suffix += 1;
    }
    let old_end = old_lines.len() - suffix;
    let new_end = new_lines.len() - suffix;
    let start = if prefix >= CONTEXT_LINES {
        prefix - CONTEXT_LINES
    } else {
        0
    };
    let old_ctx_end = if old_lines.len() - old_end >= CONTEXT_LINES {
        old_end + CONTEXT_LINES
    } else {
        old_lines.len()
    };
    let new_ctx_end = if new_lines.len() - new_end >= CONTEXT_LINES {
        new_end + CONTEXT_LINES
    } else {
        new_lines.len()
    };
    let old_len = old_ctx_end - start;
    let new_len = new_ctx_end - start;
    let old_start = if old_len == 0 {
        0
    } else {
        start + 1
    };
    let new_start = if new_len == 0 {
        0
    } else {
        start + 1
    };
    let mut diff = String::new();
    push_str(&mut diff, "diff --git a/");
    push_str(&mut diff, path);
    push_str(&mut diff, " b/");
    push_str(&mut diff, path);
    push_str(&mut diff, "\n--- a/");
    push_str(&mut diff, path);
    push_str(&mut diff, "\n+++ b/");
    push_str(&mut diff, path);
    push_str(&mut diff, "\n@@ -");
    let r1 = hunk_range(old_start, old_len);
    push_str(&mut diff, r1.as_str());
    push_str(&mut diff, " +");
    let r2 = hunk_range(new_start, new_len);
    push_str(&mut diff, r2.as_str());
    push_str(&mut diff, " @@\n");
    let ghost head = diff@;
    push_prefixed(&mut diff, " ", &old_lines, start, prefix);
    push_prefixed(&mut diff, "-", &old_lines, prefix, old_end);
    push_prefixed(&mut diff, "+", &new_lines, prefix, new_end);
    push_prefixed(&mut diff, " ", &old_lines, old_end, old_ctx_end);
    proof {
        reveal_strlit("diff --git a/");
        reveal_strlit(" b/");
        reveal_strlit("\n--- a/");
        reveal_strlit("\n+++ b/");
        reveal_strlit("\n@@ -");
        reveal_strlit("\n");
        reveal_strlit("--- a/");
        reveal_strlit("+++ b/");
        reveal_strlit("@@ -");
        reveal_strlit(" +");
        reveal_strlit(" @@\n");
        assert(o == lines(old_content@));
        assert(n == lines(new_content@));
        assert(head =~= "diff --git a/"@ + path@ + " b/"@ + path@ + "\n"@ + "--- a/"@ + path@ + "\n"@
            + "+++ b/"@ + path@ + "\n"@ + "@@ -"@ + hunk_range_text(old_start as int, old_len as int)
            + " +"@ + hunk_range_text(new_start as int, new_len as int) + " @@\n"@);
        assert(diff@ =~= unified_diff(path@, old_content@, new_content@));
    }
    diff
}

} // verus!
