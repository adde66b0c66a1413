//! Read-only workspace tool steps: recognising them in a step instruction
//! and the small text helpers around them.
use vstd::prelude::*;
use crate::json::{Json, JsonValue, jv, jv_fields};
use crate::task::{TaskStatus, strs};
use crate::text::{occurs_at, chars_of, contains, first_occurrence, own, push_str, str_contains, str_eq, string_of_range, trim, trim_str, find_chars};

verus! {

broadcast use vstd::std_specs::vec::group_vec_axioms;

/// Most search matches a read-only step asks for.
pub const READONLY_TOOL_SEARCH_LIMIT: usize = 8;

/// Most files a read-only step reads.
pub const READONLY_TOOL_READ_LIMIT: usize = 3;

/// Most characters of a file a read-only step keeps.
pub const READONLY_TOOL_PREVIEW_CHARS: usize = 2000;

/// What a read-only tool step asks for: a search query and the files to
/// look at first.
#[derive(Debug)]
pub struct ReadonlyToolInstruction {
    pub query: String,
    pub focus_paths: Vec<String>,
}

// ------------------------------------------------------------------
// Trimming character sets
// ------------------------------------------------------------------
/// `s` without the leading characters that satisfy `p`.
pub open spec fn strip_start_by(s: Seq<char>, p: spec_fn(char) -> bool) -> Seq<char>
    decreases s.len(),
{
    if s.len() > 0 && p(s[0]) {
        strip_start_by(s.drop_first(), p)
    } else {
        s
    }
}

/// `s` without the trailing characters that satisfy `p`.
pub open spec fn strip_end_by(s: Seq<char>, p: spec_fn(char) -> bool) -> Seq<char>
    decreases s.len(),
{
    if s.len() > 0 && p(s.last()) {
        strip_end_by(s.drop_last(), p)
    } else {
        s
    }
}

/// `s` without leading and trailing characters that satisfy `p`.
pub open spec fn strip_by(s: Seq<char>, p: spec_fn(char) -> bool) -> Seq<char> {
    strip_end_by(strip_start_by(s, p), p)
}

/// List separators: ASCII and full-width commas and semicolons.
pub open spec fn is_list_sep(c: char) -> bool {
    c == ',' || c == '，' || c == ';' || c == '；'
}

/// Quotation marks around a path.
pub open spec fn is_quote(c: char) -> bool {
    c == '"' || c == '\'' || c == '`' || c == '“' || c == '”' || c == '‘' || c == '’'
}

fn list_sep(c: char) -> (b: bool)
    ensures
        b == is_list_sep(c),
{
    c == ',' || c == '，' || c == ';' || c == '；'
}

fn quote(c: char) -> (b: bool)
    ensures
        b == is_quote(c),
{
    c == '"' || c == '\'' || c == '`' || c == '“' || c == '”' || c == '‘' || c == '’'
}

pub proof fn lemma_strip_start_skip(s: Seq<char>, p: spec_fn(char) -> bool, i: int)
    requires
        0 <= i <= s.len(),
        forall|j: int| 0 <= j < i ==> p(s[j]),
    ensures
        strip_start_by(s, p) == strip_start_by(s.skip(i), p),
    decreases i,
{
    if i > 0 {
        assert(s.skip(1) =~= s.drop_first());
        lemma_strip_start_skip(s.drop_first(), p, i - 1);
        assert(s.drop_first().skip(i - 1) =~= s.skip(i));
    } else {
        assert(s.skip(0) =~= s);
    }
}

pub proof fn lemma_strip_end_take(s: Seq<char>, p: spec_fn(char) -> bool, e: int)
    requires
        0 <= e <= s.len(),
        forall|j: int| e <= j < s.len() ==> p(s[j]),
    ensures
        strip_end_by(s, p) == strip_end_by(s.take(e), p),
    decreases s.len() - e,
{
    if e < s.len() {
        assert(s.drop_last().take(e) =~= s.take(e));
        lemma_strip_end_take(s.drop_last(), p, e);
    } else {
        assert(s.take(e) =~= s);
    }
}

/// `s` without leading and trailing list separators.
fn strip_list_seps(s: &str) -> (r: String)
    ensures
        r@ == strip_by(s@, |c: char| is_list_sep(c)),
{
    let cs = chars_of(s);
    let ghost p = |c: char| is_list_sep(c);
    let mut i: usize = 0;
    while i < cs.len() && list_sep(cs[i])
        invariant
            cs@ == s@,
            i <= cs@.len(),
            forall|j: int| 0 <= j < i ==> is_list_sep(cs@[j]),
        decreases cs.len() - i,
    {
        i += 1;
    }
    let ghost rest = cs@.skip(i as int);
    proof {
        lemma_strip_start_skip(cs@, p, i as int);
        if i < cs@.len() {
            assert(!p(rest[0]));
        }
        assert(strip_start_by(rest, p) == rest);
    }
    let mut e: usize = cs.len();
    while e > i && list_sep(cs[e - 1])
        invariant
            cs@ == s@,
            i <= e <= cs@.len(),
            rest == cs@.skip(i as int),
            forall|j: int| e <= j < cs@.len() ==> is_list_sep(cs@[j]),
        decreases e,
    {
        e -= 1;
    }
    proof {
        let e2 = e - i;
        assert forall|j: int| e2 <= j < rest.len() implies p(rest[j]) by {
            assert(rest[j] == cs@[j + i]);
        }
        lemma_strip_end_take(rest, p, e2);
        assert(rest.take(e2) =~= cs@.subrange(i as int, e as int));
        if e > i {
            assert(!p(cs@[e - 1]));
            assert(rest.take(e2).last() == cs@[e - 1]);
        }
    }
    string_of_range(&cs, i, e)
}

/// `s` without leading and trailing quotation marks.
fn strip_quotes(s: &str) -> (r: String)
    ensures
        r@ == strip_by(s@, |c: char| is_quote(c)),
{
    let cs = chars_of(s);
    let ghost p = |c: char| is_quote(c);
    let mut i: usize = 0;
    while i < cs.len() && quote(cs[i])
        invariant
            cs@ == s@,
            i <= cs@.len(),
            forall|j: int| 0 <= j < i ==> is_quote(cs@[j]),
        decreases cs.len() - i,
    {
        i += 1;
    }
    let ghost rest = cs@.skip(i as int);
    proof {
        lemma_strip_start_skip(cs@, p, i as int);
        if i < cs@.len() {
            assert(!p(rest[0]));
        }
        assert(strip_start_by(rest, p) == rest);
    }
    let mut e: usize = cs.len();
    while e > i && quote(cs[e - 1])
        invariant
            cs@ == s@,
            i <= e <= cs@.len(),
            rest == cs@.skip(i as int),
            forall|j: int| e <= j < cs@.len() ==> is_quote(cs@[j]),
        decreases e,
    {
        e -= 1;
    }
    proof {
        let e2 = e - i;
        assert forall|j: int| e2 <= j < rest.len() implies p(rest[j]) by {
            assert(rest[j] == cs@[j + i]);
        }
        lemma_strip_end_take(rest, p, e2);
        assert(rest.take(e2) =~= cs@.subrange(i as int, e as int));
        if e > i {
            assert(!p(cs@[e - 1]));
            assert(rest.take(e2).last() == cs@[e - 1]);
        }
    }
    string_of_range(&cs, i, e)
}

// ------------------------------------------------------------------
// Labeled segments
// ------------------------------------------------------------------
/// Characters that end a labeled segment.
pub open spec fn ends_segment(c: char) -> bool {
    c == '。' || c == '\n' || c == '\r'
}

/// The characters of `s` before the first segment end (all of `s` if none).
pub open spec fn until_end(s: Seq<char>) -> Seq<char>
    decreases s.len(),
{
    if s.len() == 0 || ends_segment(s[0]) {
        Seq::empty()
    } else {
        seq![s[0]] + until_end(s.drop_first())
    }
}

/// The segment after the first occurrence of `label` in `text`: up to the
/// next `。` or line break, trimmed, without surrounding list separators,
/// trimmed again. `None` if `label` does not occur or the segment is empty.
pub open spec fn segment_after(text: Seq<char>, label: Seq<char>) -> Option<Seq<char>> {
    match first_occurrence(text, label) {
        Some(start) => {
            let seg = trim(strip_by(trim(until_end(text.skip(start + label.len()))), |c: char| is_list_sep(c)));
            if seg.len() == 0 {
                None
            } else {
                Some(seg)
            }
        },
        None => None,
    }
}

/// The first labeled segment found, trying the labels in order.
pub open spec fn labeled_segment(text: Seq<char>, labels: Seq<Seq<char>>) -> Option<Seq<char>>
    decreases labels.len(),
{
    if labels.len() == 0 {
        None
    } else {
        match segment_after(text, labels[0]) {
            Some(s) => Some(s),
            None => labeled_segment(text, labels.drop_first()),
        }
    }
}

proof fn lemma_until_end(s: Seq<char>, e: int)
    requires
        0 <= e <= s.len(),
        forall|j: int| 0 <= j < e ==> !ends_segment(s[j]),
        e == s.len() || ends_segment(s[e]),
    ensures
        until_end(s) == s.take(e),
    decreases e,
{
    if e == 0 {
        assert(s.take(0) =~= Seq::<char>::empty());
    } else {
        lemma_until_end(s.drop_first(), e - 1);
        assert(s.take(e) =~= seq![s[0]] + s.drop_first().take(e - 1));
    }
}

#[verifier::rlimit(40)]
fn segment_after_label(text: &Vec<char>, label: &str) -> (r: Option<String>)
    ensures
        opt_string_view(r) == segment_after(text@, label@),
{
    let lv = chars_of(label);
    let found = find_chars(text, &lv);
    let start = match found {
        Some(s) => s,
        None => return None,
    };
    let n = text.len();
    assert(occurs_at(text@, lv@, start as int));
    assert(start + lv@.len() <= n);
    let from = start + lv.len();
    let mut e: usize = from;
    while e < text.len() && !(text[e] == '。' || text[e] == '\n' || text[e] == '\r')
        invariant
            from <= e <= text@.len(),
            forall|j: int| from <= j < e ==> !ends_segment(text@[j]),
        decreases text.len() - e,
    {
        e += 1;
    }
    let ghost rest = text@.skip(from as int);
    proof {
        assert forall|j: int| 0 <= j < e - from implies !ends_segment(rest[j]) by {
            assert(rest[j] == text@[j + from]);
        }
        if e < text@.len() {
            assert(rest[e - from] == text@[e as int]);
        }
        lemma_until_end(rest, e - from);
        assert(rest.take(e - from) =~= text@.subrange(from as int, e as int));
    }
    let raw = string_of_range(text, from, e);
    let t1 = trim_str(raw.as_str());
    let t2 = strip_list_seps(t1.as_str());
    let seg = trim_str(t2.as_str());
    if seg.as_str().is_empty() {
        None
    } else {
        Some(seg)
    }
}

/// The model of an optional string.
pub open spec fn opt_string_view(o: Option<String>) -> Option<Seq<char>> {
    match o {
        Some(s) => Some(s@),
        None => None,
    }
}

/// The first labeled segment found in `text`, trying the labels in order
/// (see `segment_after`).
pub fn extract_labeled_segment(text: &str, labels: &Vec<&str>) -> (r: Option<String>)
    ensures
        opt_string_view(r) == labeled_segment(text@, labels@.map_values(|l: &str| l@)),
{
    let tv = chars_of(text);
    let ghost lv = labels@.map_values(|l: &str| l@);
    let mut k: usize = 0;
    assert(lv.skip(0) =~= lv);
    while k < labels.len()
        invariant
            tv@ == text@,
            k <= labels@.len(),
            lv == labels@.map_values(|l: &str| l@),
            labeled_segment(text@, lv) == labeled_segment(text@, lv.skip(k as int)),
        decreases labels.len() - k,
    {
        assert(lv.skip(k as int)[0] == labels@[k as int]@);
        assert(lv.skip(k as int).drop_first() =~= lv.skip(k + 1));
        match segment_after_label(&tv, labels[k]) {
            Some(s) => return Some(s),
            None => {},
        }
        k += 1;
    }
    assert(lv.skip(k as int) =~= Seq::<Seq<char>>::empty());
    None
}

// ------------------------------------------------------------------
// Focus paths
// ------------------------------------------------------------------
/// Characters that separate focus paths.
pub open spec fn is_path_sep(c: char) -> bool {
    is_list_sep(c) || c == '\n' || c == '\r'
}

/// The pieces of `s` between separators, read from the front with `cur`
/// already collected (as `str::split` yields them, empty pieces included).
pub open spec fn pieces_from(s: Seq<char>, cur: Seq<char>) -> Seq<Seq<char>>
    decreases s.len(),
{
    if s.len() == 0 {
        seq![cur]
    } else if is_path_sep(s[0]) {
        seq![cur] + pieces_from(s.drop_first(), Seq::empty())
    } else {
        pieces_from(s.drop_first(), cur.push(s[0]))
    }
}

/// `s` with every backslash turned into a slash.
pub open spec fn slashes(s: Seq<char>) -> Seq<char> {
    Seq::new(s.len(), |i: int| if s[i] == '\\' { '/' } else { s[i] })
}

/// A focus path as written: trimmed, without quotation marks around it, with
/// forward slashes.
pub open spec fn normalized_path(p: Seq<char>) -> Seq<char> {
    slashes(strip_by(trim(p), |c: char| is_quote(c)))
}

/// Whether a text looks like a workspace path: not empty, no spaces, and
/// holding a slash or a dot.
pub open spec fn path_like(p: Seq<char>) -> bool {
    p.len() > 0 && !p.contains(' ') && (p.contains('/') || p.contains('.'))
}

/// The focus paths among `pieces` from position `k` on, after `acc`: each
/// normalized piece that looks like a path, once.
pub open spec fn focus_from(pieces: Seq<Seq<char>>, k: int, acc: Seq<Seq<char>>) -> Seq<Seq<char>>
    decreases pieces.len() - k,
{
    if k < 0 || k >= pieces.len() {
        acc
    } else {
        let p = normalized_path(pieces[k]);
        focus_from(
            pieces,
            k + 1,
            if path_like(p) && !acc.contains(p) {
                acc.push(p)
            } else {
                acc
            },
        )
    }
}

/// The focus paths listed in `raw`.
pub open spec fn focus_paths_of(raw: Seq<char>) -> Seq<Seq<char>> {
    focus_from(pieces_from(raw, Seq::empty()), 0, Seq::empty())
}

/// A focus path as written (see `normalized_path`).
pub fn normalize_focus_path(path: &str) -> (r: String)
    ensures
        r@ == normalized_path(path@),
{
    let t = trim_str(path);
    let q = strip_quotes(t.as_str());
    let cs = chars_of(q.as_str());
    let mut r = String::new();
    let mut i: usize = 0;
    while i < cs.len()
        invariant
            i <= cs@.len(),
            r@ == slashes(cs@).take(i as int),
        decreases cs.len() - i,
    {
        let c = if cs[i] == '\\' {
            '/'
        } else {
            cs[i]
        };
        r.push(c);
        assert(r@ =~= slashes(cs@).take(i + 1));
        i += 1;
    }
    assert(slashes(cs@).take(cs@.len() as int) =~= slashes(cs@));
    r
}

/// A sequence with `c` pushed holds `x` exactly when it held `x` already or
/// `c` is `x`.
proof fn lemma_push_contains(s: Seq<char>, c: char, x: char)
    ensures
        s.push(c).contains(x) <==> (s.contains(x) || c == x),
{
    if s.push(c).contains(x) && c != x {
        let j = choose|j: int| 0 <= j < s.push(c).len() && #[trigger] s.push(c)[j] == x;
        assert(s[j] == x);
    }
    if s.contains(x) {
        let j = choose|j: int| 0 <= j < s.len() && #[trigger] s[j] == x;
        assert(s.push(c)[j] == x);
    }
    if c == x {
        assert(s.push(c)[s.len() as int] == x);
    }
}

/// Whether a text looks like a workspace path (see `path_like`).
pub fn looks_like_workspace_path(path: &str) -> (b: bool)
    ensures
        b == path_like(path@),
{
    let cs = chars_of(path);
    if cs.len() == 0 {
        return false;
    }
    let mut space = false;
    let mut slash = false;
    let mut dot = false;
    let mut i: usize = 0;
    while i < cs.len()
        invariant
            i <= cs@.len(),
            cs@ == path@,
            space == cs@.take(i as int).contains(' '),
            slash == cs@.take(i as int).contains('/'),
            dot == cs@.take(i as int).contains('.'),
        decreases cs.len() - i,
    {
        proof {
            assert(cs@.take(i + 1) =~= cs@.take(i as int).push(cs@[i as int]));
            lemma_push_contains(cs@.take(i as int), cs@[i as int], ' ');
            lemma_push_contains(cs@.take(i as int), cs@[i as int], '/');
            lemma_push_contains(cs@.take(i as int), cs@[i as int], '.');
        }
        if cs[i] == ' ' {
            space = true;
        }
        if cs[i] == '/' {
            slash = true;
        }
        if cs[i] == '.' {
            dot = true;
        }
        i += 1;
    }
    assert(cs@.take(cs@.len() as int) =~= cs@);
    !space && (slash || dot)
}

/// Appends `path` unless it is already listed.
pub fn push_unique_path(paths: &mut Vec<String>, path: &str)
    ensures
        strs(final(paths)@) == if strs(old(paths)@).contains(path@) {
            strs(old(paths)@)
        } else {
            strs(old(paths)@).push(path@)
        },
{
    let mut k: usize = 0;
    while k < paths.len()
        invariant
            paths@ == old(paths)@,
            k <= paths@.len(),
            forall|j: int| 0 <= j < k ==> strs(paths@)[j] != path@,
        decreases paths.len() - k,
    {
        assert(strs(paths@)[k as int] == paths@[k as int]@);
        if str_eq(paths[k].as_str(), path) {
            return;
        }
        k += 1;
    }
    let ghost before = strs(paths@);
    paths.push(own(path));
    assert(strs(paths@) =~= before.push(path@));
}

/// The focus paths listed in `raw` (see `focus_paths_of`).
pub fn parse_focus_paths(raw: &str) -> (r: Vec<String>)
    ensures
        strs(r@) == focus_paths_of(raw@),
{
    let cs = chars_of(raw);
    let mut paths: Vec<String> = Vec::new();
    let mut cur: Vec<char> = Vec::new();
    let mut i: usize = 0;
    proof {
        assert(cs@.skip(0) =~= cs@);
        assert(strs(paths@) =~= Seq::<Seq<char>>::empty());
    }
    while i < cs.len()
        invariant
            cs@ == raw@,
            i <= cs@.len(),
            focus_paths_of(raw@) == focus_from(pieces_from(cs@.skip(i as int), cur@), 0, strs(paths@)),
        decreases cs.len() - i,
    {
        let ghost rest = cs@.skip(i as int);
        let ghost cur0 = cur@;
        let ghost acc0 = strs(paths@);
        assert(rest.drop_first() =~= cs@.skip(i + 1));
        assert(rest[0] == cs@[i as int]);
        let c = cs[i];
        if list_sep(c) || c == '\n' || c == '\r' {
            let piece = crate::text::string_of(&cur);
            let p = normalize_focus_path(piece.as_str());
            if looks_like_workspace_path(p.as_str()) {
                push_unique_path(&mut paths, p.as_str());
            }
            cur = Vec::new();
            proof {
                lemma_focus_cons(cur0, pieces_from(cs@.skip(i + 1), Seq::empty()), acc0);
            }
        } else {
            cur.push(c);
        }
        i += 1;
    }
    proof {
        assert(cs@.skip(i as int) =~= Seq::<char>::empty());
        lemma_focus_cons(cur@, Seq::empty(), strs(paths@));
    }
    let piece = crate::text::string_of(&cur);
    let p = normalize_focus_path(piece.as_str());
    if looks_like_workspace_path(p.as_str()) {
        push_unique_path(&mut paths, p.as_str());
    }
    paths
}

proof fn lemma_focus_shift(pieces: Seq<Seq<char>>, k: int, acc: Seq<Seq<char>>)
    requires
        0 <= k <= pieces.len(),
    ensures
        focus_from(pieces, k, acc) == focus_from(pieces.skip(k), 0, acc),
    decreases pieces.len() - k,
{
    if k < pieces.len() {
        let p = normalized_path(pieces[k]);
        let acc2 = if path_like(p) && !acc.contains(p) {
            acc.push(p)
        } else {
            acc
        };
        lemma_focus_shift(pieces, k + 1, acc2);
        lemma_focus_shift(pieces.skip(k), 1, acc2);
        assert(pieces.skip(k).skip(1) =~= pieces.skip(k + 1));
        assert(pieces.skip(k)[0] == pieces[k]);
    } else {
        assert(pieces.skip(k) =~= Seq::<Seq<char>>::empty());
    }
}

/// Taking one piece off the front.
proof fn lemma_focus_cons(first: Seq<char>, rest: Seq<Seq<char>>, acc: Seq<Seq<char>>)
    ensures
        focus_from(seq![first] + rest, 0, acc) == focus_from(
            rest,
            0,
            if path_like(normalized_path(first)) && !acc.contains(normalized_path(first)) {
                acc.push(normalized_path(first))
            } else {
                acc
            },
        ),
{
    let all = seq![first] + rest;
    let p = normalized_path(first);
    let acc2 = if path_like(p) && !acc.contains(p) {
        acc.push(p)
    } else {
        acc
    };
    assert(all[0] == first);
    lemma_focus_shift(all, 1, acc2);
    assert(all.skip(1) =~= rest);
}

// ------------------------------------------------------------------
// Read-only tool instructions
// ------------------------------------------------------------------
/// What a step instruction asks of the read-only tool: it must speak of a
/// read-only (`只读`) search (`检索` or `搜索`) and name a search query
/// (`搜索词:`); the focus paths come from `优先关注:` (none if absent).
pub open spec fn readonly_request(instruction: Seq<char>) -> Option<(Seq<char>, Seq<Seq<char>>)> {
    if !(contains(instruction, "只读"@) && (contains(instruction, "检索"@) || contains(instruction, "搜索"@))) {
        None
    } else {
        match labeled_segment(instruction, seq!["搜索词:"@, "搜索词："@]) {
            None => None,
            Some(q) => Some(
                (
                    q,
                    match labeled_segment(instruction, seq!["优先关注:"@, "优先关注："@]) {
                        Some(raw) => focus_paths_of(raw),
                        None => Seq::empty(),
                    },
                ),
            ),
        }
    }
}

/// Reads a read-only tool request from a step instruction (see
/// `readonly_request`).
pub fn parse_readonly_tool_instruction(instruction: &str) -> (r: Option<ReadonlyToolInstruction>)
    ensures
        match readonly_request(instruction@) {
            Some((q, ps)) => r matches Some(x) && x.query@ == q && strs(x.focus_paths@) == ps,
            None => r is None,
        },
{
    if !(str_contains(instruction, "只读") && (str_contains(instruction, "检索") || str_contains(instruction, "搜索"))) {
        return None;
    }
    let mut query_labels: Vec<&str> = Vec::new();
    query_labels.push("搜索词:");
    query_labels.push("搜索词：");
    assert(query_labels@.map_values(|l: &str| l@) =~= seq!["搜索词:"@, "搜索词："@]);
    let query = match extract_labeled_segment(instruction, &query_labels) {
        Some(q) => q,
        None => return None,
    };
    let mut focus_labels: Vec<&str> = Vec::new();
    focus_labels.push("优先关注:");
    focus_labels.push("优先关注：");
    assert(focus_labels@.map_values(|l: &str| l@) =~= seq!["优先关注:"@, "优先关注："@]);
    let focus_paths = match extract_labeled_segment(instruction, &focus_labels) {
        Some(raw) => parse_focus_paths(raw.as_str()),
        None => {
            let v: Vec<String> = Vec::new();
            assert(strs(v@) =~= Seq::<Seq<char>>::empty());
            v
        },
    };
    Some(ReadonlyToolInstruction { query, focus_paths })
}

/// The first `max` characters of `text`, and whether more followed.
pub fn text_preview(text: &str, max_chars: usize) -> (r: (String, bool))
    ensures
        r.1 == (text@.len() > max_chars),
        r.0@ == if r.1 {
            text@.take(max_chars as int)
        } else {
            text@
        },
{
    let cs = chars_of(text);
    if cs.len() > max_chars {
        (string_of_range(&cs, 0, max_chars), true)
    } else {
        (own(text), false)
    }
}

// ------------------------------------------------------------------
// Task status labels and message contexts
// ------------------------------------------------------------------
/// The label of a task status shown to the user.
pub open spec fn status_text(s: TaskStatus) -> Seq<char> {
    match s {
        TaskStatus::Draft => "草稿"@,
        TaskStatus::Planning | TaskStatus::Running | TaskStatus::Reviewing => "执行中"@,
        TaskStatus::WaitingApproval => "等待审批"@,
        TaskStatus::Failed => "失败"@,
        TaskStatus::Completed => "完成"@,
        TaskStatus::Cancelled => "已取消"@,
    }
}

/// The label of a task status shown to the user.
pub fn status_label(s: &TaskStatus) -> (r: &'static str)
    ensures
        r@ == status_text(*s),
{
    match s {
        TaskStatus::Draft => "草稿",
        TaskStatus::Planning | TaskStatus::Running | TaskStatus::Reviewing => "执行中",
        TaskStatus::WaitingApproval => "等待审批",
        TaskStatus::Failed => "失败",
        TaskStatus::Completed => "完成",
        TaskStatus::Cancelled => "已取消",
    }
}

} // verus!
