//! What the workspace browser decides: which paths are skipped or refused,
//! which files are searched, how search hits and previews look.
//!
//! Walking directories and reading files is left to the caller, which hands
//! in path components, file names and file contents.
use vstd::prelude::*;
use crate::agents::clipped;
use crate::command::join_parts;
use crate::diff::{lines, split_lines};
use crate::error::AgentError;
use crate::text::{
    ascii_lower_seq, chars_of, contains, ends_with, find_chars, first_occurrence, occurs_at, own,
    push_str, str_contains, str_ends_with, str_eq, string_of_range, to_ascii_lower, to_lowercase,
    trim, trim_str, unicode_lowercase,
};

verus! {



/// Largest file, in bytes, that is read whole.
pub const MAX_READ_BYTES: u64 = 524288;

/// Largest file, in bytes, that is searched.
pub const MAX_SEARCH_BYTES: u64 = 262144;

/// Entries listed when no limit is given.
pub const DEFAULT_FILE_LIMIT: usize = 500;

/// Search hits returned when no limit is given.
pub const DEFAULT_SEARCH_LIMIT: usize = 50;

/// Characters of a line kept in a search preview.
pub const PREVIEW_CHARS: usize = 180;

/// A file or directory inside the workspace. `modified_at` is in
/// milliseconds since the Unix epoch.
#[derive(Debug, Clone)]
pub struct WorkspaceEntry {
    pub path: String,
    pub name: String,
    pub is_dir: bool,
    pub extension: Option<String>,
    pub size_bytes: u64,
    pub modified_at: Option<i64>,
}

/// The contents of a text file.
#[derive(Debug, Clone)]
pub struct FileReadResponse {
    pub path: String,
    pub content: String,
    pub size_bytes: u64,
}

/// One search hit: the file, the 1-based line and column, and a preview.
#[derive(Debug, Clone)]
pub struct SearchMatch {
    pub path: String,
    pub line: usize,
    pub column: usize,
    pub preview: String,
}

/// The hits of a text search.
#[derive(Debug)]
pub struct SearchResponse {
    pub query: String,
    pub matches: Vec<SearchMatch>,
    pub truncated: bool,
}

/// The model of a search hit.
pub struct MatchView {
    pub path: Seq<char>,
    pub line: int,
    pub column: int,
    pub preview: Seq<char>,
}

impl View for SearchMatch {
    type V = MatchView;

    open spec fn view(&self) -> MatchView {
        MatchView { path: self.path@, line: self.line as int, column: self.column as int, preview: self.preview@ }
    }
}

/// The models of a list of search hits.
pub open spec fn match_views(v: Seq<SearchMatch>) -> Seq<MatchView> {
    v.map_values(|m: SearchMatch| m@)
}

// ------------------------------------------------------------------
// Paths
// ------------------------------------------------------------------
/// Directory names that are never listed or searched.
pub open spec fn skipped_name(n: Seq<char>) -> bool {
    n == ".git"@ || n == "node_modules"@ || n == "target"@ || n == "dist"@ || n == "build"@ || n
        == ".next"@ || n == ".tauri"@ || n == ".vite"@
}

/// Whether a path with these components is skipped: some component is a
/// skipped name.
pub fn should_skip_path(components: &Vec<String>) -> (b: bool)
    ensures
        b == exists|i: int| 0 <= i < components@.len() && skipped_name(#[trigger] components@[i]@),
{
    let mut i: usize = 0;
    while i < components.len()
        invariant
            i <= components@.len(),
            forall|j: int| 0 <= j < i ==> !skipped_name(#[trigger] components@[j]@),
        decreases components.len() - i,
    {
        let n = components[i].as_str();
        if str_eq(n, ".git") || str_eq(n, "node_modules") || str_eq(n, "target") || str_eq(n, "dist")
            || str_eq(n, "build") || str_eq(n, ".next") || str_eq(n, ".tauri") || str_eq(n, ".vite") {
            assert(skipped_name(components@[i as int]@));
            return true;
        }
        i += 1;
    }
    false
}

/// Whether a lower-cased file name looks like it holds secrets.
pub open spec fn blocked_name(lower: Seq<char>) -> bool {
    lower == ".env"@ || ends_with(lower, ".pem"@) || ends_with(lower, ".key"@) || ends_with(lower, ".p12"@)
        || ends_with(lower, ".pfx"@) || contains(lower, "secret"@) || contains(lower, "token"@)
}

/// Whether a file with this name is refused: its lower-cased name looks
/// like it holds secrets. A path without a file name is not refused.
pub fn is_blocked_file(file_name: Option<&str>) -> (b: bool)
    ensures
        b == match file_name {
            Some(n) => blocked_name(unicode_lowercase(n@)),
            None => false,
        },
{
    match file_name {
        Some(n) => {
            let lower = to_lowercase(n);
            let l = lower.as_str();
            str_eq(l, ".env") || str_ends_with(l, ".pem") || str_ends_with(l, ".key") || str_ends_with(
                l,
                ".p12",
            ) || str_ends_with(l, ".pfx") || str_contains(l, "secret") || str_contains(l, "token")
        },
        None => false,
    }
}

/// Extensions of files that are searched.
pub open spec fn searchable_extension(lower: Seq<char>) -> bool {
    lower == "rs"@ || lower == "ts"@ || lower == "tsx"@ || lower == "js"@ || lower == "jsx"@ || lower
        == "json"@ || lower == "toml"@ || lower == "md"@ || lower == "css"@ || lower == "html"@
        || lower == "yml"@ || lower == "yaml"@ || lower == "txt"@
}

/// Whether a file is searched: at most `MAX_SEARCH_BYTES` long, with a text
/// extension (ignoring ASCII case).
pub fn is_searchable_text_file(extension: Option<&str>, size_bytes: u64) -> (b: bool)
    ensures
        b == (size_bytes <= MAX_SEARCH_BYTES && match extension {
            Some(e) => searchable_extension(ascii_lower_seq(e@)),
            None => false,
        }),
{
    if size_bytes > MAX_SEARCH_BYTES {
        return false;
    }
    match extension {
        Some(e) => {
            let lower = to_ascii_lower(e);
            let l = lower.as_str();
            str_eq(l, "rs") || str_eq(l, "ts") || str_eq(l, "tsx") || str_eq(l, "js") || str_eq(l, "jsx")
                || str_eq(l, "json") || str_eq(l, "toml") || str_eq(l, "md") || str_eq(l, "css")
                || str_eq(l, "html") || str_eq(l, "yml") || str_eq(l, "yaml") || str_eq(l, "txt")
        },
        None => false,
    }
}

/// A path inside the workspace as shown: its components joined by `/`.
pub fn relative_path(components: &Vec<String>) -> (r: String)
    ensures
        r@ == crate::command::join_slash(crate::task::strs(components@)),
{
    join_parts(components)
}

// ------------------------------------------------------------------
// Search
// ------------------------------------------------------------------
/// A line as a search hit shows it: trimmed and cut to 180 characters,
/// with `...` when it was longer.
pub fn trim_preview(line: &str) -> (r: String)
    ensures
        r@ == clipped(trim(line@), PREVIEW_CHARS as nat),
{
    let t = trim_str(line);
    let cs = chars_of(t.as_str());
    if cs.len() > PREVIEW_CHARS {
        let mut r = string_of_range(&cs, 0, PREVIEW_CHARS);
        push_str(&mut r, "...");
        r
    } else {
        t
    }
}

/// What a search looks for: the trimmed query as typed, the lower-cased
/// text matched against lower-cased lines, and the number of hits wanted.
pub struct SearchPlan {
    pub query: String,
    pub needle: String,
    pub limit: usize,
}

/// The plan of a search for `query`: the trimmed query must not be blank;
/// the limit defaults to `DEFAULT_SEARCH_LIMIT` and is at least one.
pub fn plan_search(query: &str, max_results: Option<usize>) -> (r: Result<SearchPlan, AgentError>)
    ensures
        trim(query@).len() == 0 <==> r is Err,
        r matches Err(e) ==> e matches AgentError::MessageFormat(m) && m@ == "搜索关键词不能为空"@,
        r matches Ok(p) ==> p.query@ == trim(query@) && p.needle@ == unicode_lowercase(trim(query@))
            && p.limit == match max_results {
            Some(n) => if n == 0 {
                1
            } else {
                n
            },
            None => DEFAULT_SEARCH_LIMIT,
        },
{
    let q = trim_str(query);
    if q.as_str().is_empty() {
        return Err(AgentError::MessageFormat(own("搜索关键词不能为空")));
    }
    let needle = to_lowercase(q.as_str());
    let limit = match max_results {
        Some(n) => if n == 0 {
            1
        } else {
            n
        },
        None => DEFAULT_SEARCH_LIMIT,
    };
    Ok(SearchPlan { query: q, needle, limit })
}

/// The hits in lines `ls[k..]` of the file at `path`, at most `room` of
/// them: each line whose lower-cased form holds `needle`, at the first
/// place it does.
pub open spec fn line_hits(path: Seq<char>, ls: Seq<Seq<char>>, needle: Seq<char>, room: int, k: int) -> Seq<MatchView>
    decreases ls.len() - k,
{
    if k < 0 || k >= ls.len() || room <= 0 {
        Seq::empty()
    } else {
        match hit_on_line(path, ls[k], needle, k) {
            Some(mv) => seq![mv] + line_hits(path, ls, needle, room - 1, k + 1),
            None => line_hits(path, ls, needle, room, k + 1),
        }
    }
}

/// The hit on line `k` (0-based) of the file at `path`, if its lower-cased
/// form holds `needle`.
#[verifier::opaque]
pub open spec fn hit_on_line(path: Seq<char>, line: Seq<char>, needle: Seq<char>, k: int) -> Option<MatchView> {
    match first_occurrence(unicode_lowercase(line), needle) {
        Some(p) => Some(
            MatchView { path, line: k + 1, column: p + 1, preview: clipped(trim(line), PREVIEW_CHARS as nat) },
        ),
        None => None,
    }
}

proof fn lemma_line_hits_step(path: Seq<char>, ls: Seq<Seq<char>>, needle: Seq<char>, room: int, k: int)
    requires
        0 <= k < ls.len(),
        room > 0,
    ensures
        line_hits(path, ls, needle, room, k) == match hit_on_line(path, ls[k], needle, k) {
            Some(mv) => seq![mv] + line_hits(path, ls, needle, room - 1, k + 1),
            None => line_hits(path, ls, needle, room, k + 1),
        },
{
}

#[verifier::spinoff_prover]
proof fn lemma_first_hit_bound(hay: Seq<char>, needle: Seq<char>, p: int)
    requires
        first_occurrence(hay, needle) == Some(p),
        occurs_at(hay, needle, p),
    ensures
        p < hay.len() || p == 0,
{
    if needle.len() == 0 {
        assert(hay.subrange(0, 0) =~= needle);
        assert(occurs_at(hay, needle, 0));
        assert(forall|j: int| 0 <= j < 0 ==> !occurs_at(hay, needle, j));
        let q = choose|i: int|
            occurs_at(hay, needle, i) && forall|j: int| 0 <= j < i ==> !occurs_at(hay, needle, j);
        assert(q == p);
        if q > 0 {
            assert(!occurs_at(hay, needle, 0));
        }
    }
}

#[verifier::spinoff_prover]
#[verifier::rlimit(40)]
fn hit_in_line(path: &str, line: &str, needle: &Vec<char>, k: usize) -> (r: Option<SearchMatch>)
    requires
        k < usize::MAX,
    ensures
        match r {
            Some(m) => hit_on_line(path@, line@, needle@, k as int) == Some(m@),
            None => hit_on_line(path@, line@, needle@, k as int) is None,
        },
{
    let hay = to_lowercase(line);
    let hv = chars_of(hay.as_str());
    let ghost lower = unicode_lowercase(line@);
    assert(hv@ == lower);
    let found = find_chars(&hv, needle);
    match found {
        Some(p) => {
            let n = hv.len();
            proof {
                lemma_first_hit_bound(hv@, needle@, p as int);
            }
            assert(p < n || p == 0);
            let column = p + 1;
            let preview = trim_preview(line);
            let ghost pv = preview@;
            assert(pv == clipped(trim(line@), PREVIEW_CHARS as nat));
            assert(first_occurrence(lower, needle@) == Some(p as int));
            let m = SearchMatch { path: own(path), line: k + 1, column, preview };
            assert(m@ == MatchView { path: path@, line: k + 1, column: p + 1, preview: pv });
            assert(hit_on_line(path@, line@, needle@, k as int) == Some(m@)) by {
                reveal(hit_on_line);
            }
            Some(m)
        },
        None => {
            assert(hit_on_line(path@, line@, needle@, k as int) is None) by {
                reveal(hit_on_line);
            }
            None
        },
    }
}

/// Adds the hits in `content` (a file shown as `path`) to `matches`, until
/// `matches` holds `limit` hits.
#[verifier::rlimit(30)]
pub fn search_file_lines(path: &str, content: &str, needle: &str, limit: usize, matches: &mut Vec<SearchMatch>)
    ensures
        match_views(final(matches)@) == match_views(old(matches)@) + line_hits(
            path@,
            lines(content@),
            needle@,
            limit - old(matches)@.len(),
            0,
        ),
{
    let ls = split_lines(content);
    let nv = chars_of(needle);
    let ghost lv = lines(content@);
    let ghost start = match_views(matches@);
    let ghost room0 = limit - matches@.len();
    let mut k: usize = 0;
    proof {
        assert(start + line_hits(path@, lv, needle@, room0, 0) =~= match_views(matches@) + line_hits(
            path@,
            lv,
            needle@,
            limit - matches@.len(),
            0,
        ));
    }
    while k < ls.len() && matches.len() < limit
        invariant
            k <= ls@.len(),
            nv@ == needle@,
            ls@.map_values(|l: String| l@) == lv,
            start + line_hits(path@, lv, needle@, room0, 0) == match_views(matches@) + line_hits(
                path@,
                lv,
                needle@,
                limit - matches@.len(),
                k as int,
            ),
        decreases ls.len() - k,
    {
        let line = ls[k].as_str();
        assert(lv[k as int] == line@);
        let ghost before = match_views(matches@);
        proof {
            lemma_line_hits_step(path@, lv, needle@, limit - matches@.len(), k as int);
        }
        match hit_in_line(path, line, &nv, k) {
            Some(m) => {
                let ghost mv = m@;
                matches.push(m);
                proof {
                    assert(match_views(matches@) =~= before.push(mv));
                    assert(before.push(mv) + line_hits(path@, lv, needle@, limit - before.len() - 1, k + 1)
                        =~= before + (seq![mv] + line_hits(
                        path@,
                        lv,
                        needle@,
                        limit - before.len() - 1,
                        k + 1,
                    )));
                }
            },
            None => {},
        }
        k += 1;
    }
    proof {
        assert(line_hits(path@, lv, needle@, limit - matches@.len(), k as int) =~= Seq::<
            MatchView,
        >::empty());
        assert(match_views(matches@) + Seq::<MatchView>::empty() =~= match_views(matches@));
    }
}

} // verus!
