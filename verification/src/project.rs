//! The project snapshot the planner and the frontend see: what the scan
//! detects from the files found, how manifests are summarized, and which
//! search query a goal suggests.
//!
//! Checking which files exist, reading and parsing them is the caller's
//! part; it hands in what it found.
use vstd::prelude::*;
use crate::error::AgentError;
use crate::task::strs;
use crate::text::{
    chars_of, contains, decimal, decimal_string, own, push_str, str_contains, str_eq, string_of, to_lowercase,
    unicode_lowercase,
};
use crate::workspace::{SearchMatch, match_views, MatchView};

verus! {

broadcast use vstd::std_specs::vec::group_vec_axioms;

/// A manifest file found in the project.
#[derive(Debug, Clone)]
pub struct ProjectManifest {
    pub path: String,
    pub kind: String,
    pub summary: String,
}

/// A file worth knowing about.
#[derive(Debug, Clone)]
pub struct ProjectImportantFile {
    pub path: String,
    pub kind: String,
    pub description: String,
}

/// A low-risk command that checks the project.
#[derive(Debug, Clone)]
pub struct ProjectCommand {
    pub label: String,
    pub command: String,
    pub working_dir: String,
    pub kind: String,
}

/// What a scan found. `generated_at` is in milliseconds since the Unix
/// epoch.
#[derive(Debug, Clone)]
pub struct ProjectSnapshot {
    pub root: String,
    pub name: String,
    pub tech_stack: Vec<String>,
    pub manifests: Vec<ProjectManifest>,
    pub important_files: Vec<ProjectImportantFile>,
    pub recommended_commands: Vec<ProjectCommand>,
    pub generated_at: i64,
}

/// The project context given to the planner with a goal.
#[derive(Debug)]
pub struct ProjectPlanningContext {
    pub snapshot: ProjectSnapshot,
    pub search_query: String,
    pub search_matches: Vec<SearchMatch>,
    pub search_error: Option<String>,
}

/// The model of a snapshot: its lists as tuples of texts.
pub struct SnapshotView {
    pub root: Seq<char>,
    pub name: Seq<char>,
    pub tech_stack: Seq<Seq<char>>,
    pub manifests: Seq<(Seq<char>, Seq<char>, Seq<char>)>,
    pub important_files: Seq<(Seq<char>, Seq<char>, Seq<char>)>,
    pub recommended_commands: Seq<(Seq<char>, Seq<char>, Seq<char>, Seq<char>)>,
    pub generated_at: i64,
}

impl View for ProjectSnapshot {
    type V = SnapshotView;

    open spec fn view(&self) -> SnapshotView {
        SnapshotView {
            root: self.root@,
            name: self.name@,
            tech_stack: strs(self.tech_stack@),
            manifests: self.manifests@.map_values(|m: ProjectManifest| (m.path@, m.kind@, m.summary@)),
            important_files: self.important_files@.map_values(
                |f: ProjectImportantFile| (f.path@, f.kind@, f.description@),
            ),
            recommended_commands: self.recommended_commands@.map_values(
                |c: ProjectCommand| (c.label@, c.command@, c.working_dir@, c.kind@),
            ),
            generated_at: self.generated_at,
        }
    }
}

fn push_manifest(s: &mut ProjectSnapshot, path: &str, kind: &str, summary: String)
    ensures
        final(s)@ == (SnapshotView { manifests: old(s)@.manifests.push((path@, kind@, summary@)), ..old(s)@ }),
{
    let ghost before = s.manifests@;
    s.manifests.push(ProjectManifest { path: own(path), kind: own(kind), summary });
    assert(s.manifests@.map_values(|m: ProjectManifest| (m.path@, m.kind@, m.summary@)) =~= before.map_values(
        |m: ProjectManifest| (m.path@, m.kind@, m.summary@),
    ).push((path@, kind@, summary@)));
}

fn push_important(s: &mut ProjectSnapshot, path: &str, kind: &str, description: &str)
    ensures
        final(s)@ == (SnapshotView {
            important_files: old(s)@.important_files.push((path@, kind@, description@)),
            ..old(s)@
        }),
{
    let ghost before = s.important_files@;
    s.important_files.push(ProjectImportantFile { path: own(path), kind: own(kind), description: own(description) });
    assert(s.important_files@.map_values(|f: ProjectImportantFile| (f.path@, f.kind@, f.description@))
        =~= before.map_values(|f: ProjectImportantFile| (f.path@, f.kind@, f.description@)).push(
        (path@, kind@, description@),
    ));
}

fn push_command(s: &mut ProjectSnapshot, label: &str, command: &str, working_dir: &str, kind: &str)
    ensures
        final(s)@ == (SnapshotView {
            recommended_commands: old(s)@.recommended_commands.push((label@, command@, working_dir@, kind@)),
            ..old(s)@
        }),
{
    let ghost before = s.recommended_commands@;
    s.recommended_commands.push(
        ProjectCommand { label: own(label), command: own(command), working_dir: own(working_dir), kind: own(kind) },
    );
    assert(s.recommended_commands@.map_values(|c: ProjectCommand| (c.label@, c.command@, c.working_dir@, c.kind@))
        =~= before.map_values(|c: ProjectCommand| (c.label@, c.command@, c.working_dir@, c.kind@)).push(
        (label@, command@, working_dir@, kind@),
    ));
}

fn push_tech(s: &mut ProjectSnapshot, name: &str)
    ensures
        final(s)@ == (SnapshotView { tech_stack: old(s)@.tech_stack.push(name@), ..old(s)@ }),
{
    let ghost before = s.tech_stack@;
    s.tech_stack.push(own(name));
    assert(strs(s.tech_stack@) =~= strs(before).push(name@));
}

// ------------------------------------------------------------------
// Summaries
// ------------------------------------------------------------------
/// A value read from a manifest, or `unknown`.
pub open spec fn or_unknown(v: Option<Seq<char>>) -> Seq<char> {
    match v {
        Some(s) => s,
        None => "unknown"@,
    }
}

fn unknown_or(v: Option<&str>) -> (r: String)
    ensures
        r@ == or_unknown(match v {
            Some(s) => Some(s@),
            None => None,
        }),
{
    match v {
        Some(s) => own(s),
        None => own("unknown"),
    }
}

/// The model of an optional borrowed text.
pub open spec fn opt_text(v: Option<&str>) -> Option<Seq<char>> {
    match v {
        Some(s) => Some(s@),
        None => None,
    }
}

/// The summary of a Cargo manifest from its package name, version and
/// number of dependencies.
pub fn summarize_cargo_manifest(name: Option<&str>, version: Option<&str>, dependencies: u64) -> (r: String)
    ensures
        r@ == "package "@ + or_unknown(opt_text(name)) + " "@ + or_unknown(opt_text(version)) + ", "@
            + decimal(dependencies as nat) + " dependencies"@,
{
    let mut r = own("package ");
    push_str(&mut r, unknown_or(name).as_str());
    push_str(&mut r, " ");
    push_str(&mut r, unknown_or(version).as_str());
    push_str(&mut r, ", ");
    push_str(&mut r, decimal_string(dependencies).as_str());
    push_str(&mut r, " dependencies");
    r
}

/// The summary of a Tauri configuration from its product name and
/// identifier.
pub fn summarize_tauri_config(product_name: Option<&str>, identifier: Option<&str>) -> (r: String)
    ensures
        r@ == "product "@ + or_unknown(opt_text(product_name)) + ", identifier "@ + or_unknown(
            opt_text(identifier),
        ),
{
    let mut r = own("product ");
    push_str(&mut r, unknown_or(product_name).as_str());
    push_str(&mut r, ", identifier ");
    push_str(&mut r, unknown_or(identifier).as_str());
    r
}

/// Whether a list of names holds `n`.
pub open spec fn has_name(names: Seq<Seq<char>>, n: Seq<char>) -> bool {
    names.contains(n)
}

fn names_have(names: &Vec<String>, n: &str) -> (b: bool)
    ensures
        b == has_name(strs(names@), n@),
{
    let mut i: usize = 0;
    while i < names.len()
        invariant
            i <= names@.len(),
            forall|j: int| 0 <= j < i ==> strs(names@)[j] != n@,
        decreases names.len() - i,
    {
        assert(strs(names@)[i as int] == names@[i as int]@);
        if str_eq(names[i].as_str(), n) {
            assert(strs(names@)[i as int] == n@);
            return true;
        }
        i += 1;
    }
    false
}

/// The technologies a package's dependency names reveal, in order.
pub open spec fn package_tech(deps: Seq<Seq<char>>, dev: Seq<Seq<char>>) -> Seq<Seq<char>> {
    (if has_name(deps, "react"@) { seq!["React"@] } else { Seq::empty() }) + (if has_name(deps, "zustand"@) {
        seq!["Zustand"@]
    } else {
        Seq::empty()
    }) + (if has_name(deps, "@tauri-apps/api"@) { seq!["Tauri JS API"@] } else { Seq::empty() }) + (if has_name(
        dev,
        "vitest"@,
    ) {
        seq!["Vitest"@]
    } else {
        Seq::empty()
    }) + (if has_name(dev, "tailwindcss"@) { seq!["Tailwind CSS"@] } else { Seq::empty() })
}

/// The summary of a `package.json` from its name, version and the names of
/// its dependencies and dev dependencies; records the technologies those
/// names reveal.
pub fn summarize_package_manifest(
    snapshot: &mut ProjectSnapshot,
    name: Option<&str>,
    version: Option<&str>,
    dependencies: &Vec<String>,
    dev_dependencies: &Vec<String>,
) -> (r: String)
    ensures
        final(snapshot)@ == (SnapshotView {
            tech_stack: old(snapshot)@.tech_stack + package_tech(strs(dependencies@), strs(dev_dependencies@)),
            ..old(snapshot)@
        }),
        r@ == "package "@ + or_unknown(opt_text(name)) + " "@ + or_unknown(opt_text(version)) + ", "@
            + decimal(dependencies@.len()) + " dependencies, "@ + decimal(dev_dependencies@.len())
            + " devDependencies"@,
{
    let ghost t0 = snapshot@;
    let ghost d = strs(dependencies@);
    let ghost v = strs(dev_dependencies@);
    let a = names_have(dependencies, "react");
    if a {
        push_tech(snapshot, "React");
    }
    let b = names_have(dependencies, "zustand");
    if b {
        push_tech(snapshot, "Zustand");
    }
    let c = names_have(dependencies, "@tauri-apps/api");
    if c {
        push_tech(snapshot, "Tauri JS API");
    }
    let e = names_have(dev_dependencies, "vitest");
    if e {
        push_tech(snapshot, "Vitest");
    }
    let f = names_have(dev_dependencies, "tailwindcss");
    if f {
        push_tech(snapshot, "Tailwind CSS");
    }
    assert(snapshot@.tech_stack =~= t0.tech_stack + package_tech(d, v));
    let mut r = own("package ");
    push_str(&mut r, unknown_or(name).as_str());
    push_str(&mut r, " ");
    push_str(&mut r, unknown_or(version).as_str());
    push_str(&mut r, ", ");
    push_str(&mut r, decimal_string(dependencies.len() as u64).as_str());
    push_str(&mut r, " dependencies, ");
    push_str(&mut r, decimal_string(dev_dependencies.len() as u64).as_str());
    push_str(&mut r, " devDependencies");
    r
}

// ------------------------------------------------------------------
// Detection
// ------------------------------------------------------------------
/// Records the Rust/Tauri side: with the Cargo manifest (given by its
/// summary) come Rust, the manifest, the entry point and the Rust test and
/// check commands; with the Tauri configuration come Tauri v2 and the
/// configuration.
pub fn detect_rust_tauri(snapshot: &mut ProjectSnapshot, cargo_summary: Option<String>, tauri_summary: Option<String>)
    ensures
        ({
            let s0 = old(snapshot)@;
            let tech1 = match cargo_summary {
                Some(_) => s0.tech_stack.push("Rust"@),
                None => s0.tech_stack,
            };
            let man1 = match cargo_summary {
                Some(c) => s0.manifests.push(("src-tauri/Cargo.toml"@, "Cargo manifest"@, c@)),
                None => s0.manifests,
            };
            let files1 = match cargo_summary {
                Some(_) => s0.important_files.push(
                    (
                        "src-tauri/src/main.rs"@,
                        "Rust entrypoint"@,
                        "Tauri app startup, Agent runtime initialization, IPC command registration."@,
                    ),
                ),
                None => s0.important_files,
            };
            let cmds1 = match cargo_summary {
                Some(_) => s0.recommended_commands.push(("Rust tests"@, "cargo test"@, "src-tauri"@, "test"@)).push(
                    ("Rust check"@, "cargo check"@, "src-tauri"@, "check"@),
                ),
                None => s0.recommended_commands,
            };
            final(snapshot)@ == (SnapshotView {
                tech_stack: match tauri_summary {
                    Some(_) => tech1.push("Tauri v2"@),
                    None => tech1,
                },
                manifests: match tauri_summary {
                    Some(t) => man1.push(("src-tauri/tauri.conf.json"@, "Tauri config"@, t@)),
                    None => man1,
                },
                important_files: files1,
                recommended_commands: cmds1,
                ..s0
            })
        }),
{
    match cargo_summary {
        Some(summary) => {
            push_tech(snapshot, "Rust");
            push_manifest(snapshot, "src-tauri/Cargo.toml", "Cargo manifest", summary);
            push_important(
                snapshot,
                "src-tauri/src/main.rs",
                "Rust entrypoint",
                "Tauri app startup, Agent runtime initialization, IPC command registration.",
            );
            push_command(snapshot, "Rust tests", "cargo test", "src-tauri", "test");
            push_command(snapshot, "Rust check", "cargo check", "src-tauri", "check");
        },
        None => {},
    }
    match tauri_summary {
        Some(summary) => {
            push_tech(snapshot, "Tauri v2");
            push_manifest(snapshot, "src-tauri/tauri.conf.json", "Tauri config", summary);
        },
        None => {},
    }
}

/// Records the web side: with `package.json` (given by its summary) come
/// the manifest, the app shell, the store and the frontend test and build
/// commands; with a Vite configuration come Vite and that file; with a
/// TypeScript configuration comes TypeScript.
pub fn detect_web_stack(snapshot: &mut ProjectSnapshot, package_summary: Option<String>, has_vite: bool, has_tsconfig: bool)
    ensures
        ({
            let s0 = old(snapshot)@;
            let man1 = match package_summary {
                Some(p) => s0.manifests.push(("src-web/package.json"@, "Node package"@, p@)),
                None => s0.manifests,
            };
            let files1 = match package_summary {
                Some(_) => s0.important_files.push(
                    ("src-web/src/App.tsx"@, "React shell"@, "Main frontend route shell and sidebar navigation."@),
                ).push(
                    (
                        "src-web/src/store/useAgentStore.ts"@,
                        "Frontend state"@,
                        "Zustand store for chat, agents, tasks, and app settings."@,
                    ),
                ),
                None => s0.important_files,
            };
            let cmds1 = match package_summary {
                Some(_) => s0.recommended_commands.push(
                    ("Frontend tests"@, "npm test -- --run"@, "src-web"@, "test"@),
                ).push(("Frontend build"@, "npm run build"@, "src-web"@, "build"@)),
                None => s0.recommended_commands,
            };
            let tech1 = if has_vite {
                s0.tech_stack.push("Vite"@)
            } else {
                s0.tech_stack
            };
            final(snapshot)@ == (SnapshotView {
                tech_stack: if has_tsconfig {
                    tech1.push("TypeScript"@)
                } else {
                    tech1
                },
                manifests: man1,
                important_files: if has_vite {
                    files1.push(
                        (
                            "src-web/vite.config.ts"@,
                            "Vite config"@,
                            "Frontend dev server, build, aliases, and Vitest configuration."@,
                        ),
                    )
                } else {
                    files1
                },
                recommended_commands: cmds1,
                ..s0
            })
        }),
{
    match package_summary {
        Some(summary) => {
            push_manifest(snapshot, "src-web/package.json", "Node package", summary);
            push_important(snapshot, "src-web/src/App.tsx", "React shell", "Main frontend route shell and sidebar navigation.");
            push_important(
                snapshot,
                "src-web/src/store/useAgentStore.ts",
                "Frontend state",
                "Zustand store for chat, agents, tasks, and app settings.",
            );
            push_command(snapshot, "Frontend tests", "npm test -- --run", "src-web", "test");
            push_command(snapshot, "Frontend build", "npm run build", "src-web", "build");
        },
        None => {},
    }
    if has_vite {
        push_tech(snapshot, "Vite");
        push_important(
            snapshot,
            "src-web/vite.config.ts",
            "Vite config",
            "Frontend dev server, build, aliases, and Vitest configuration.",
        );
    }
    if has_tsconfig {
        push_tech(snapshot, "TypeScript");
    }
}

/// The documentation files a scan looks for, with their descriptions.
pub open spec fn doc_files() -> Seq<(Seq<char>, Seq<char>)> {
    seq![
        ("README.md"@, "Project overview, architecture, running instructions, and current capabilities."@),
        ("docs/TECHNICAL_DOCUMENTATION.md"@, "Current technical documentation and known limitations."@),
        ("docs/SELF_EVOLVING_AGENT_ROADMAP.md"@, "Roadmap for the self-evolving software-engineering Agent system."@),
    ]
}

/// The documentation entries for the files found, in order.
pub open spec fn doc_entries(found: Seq<bool>) -> Seq<(Seq<char>, Seq<char>, Seq<char>)>
    decreases found.len(),
{
    if found.len() == 0 {
        Seq::empty()
    } else {
        let k = found.len() - 1;
        doc_entries(found.drop_last()) + if found.last() && k < 3 {
            seq![(doc_files()[k].0, "Documentation"@, doc_files()[k].1)]
        } else {
            Seq::empty()
        }
    }
}

/// Records the documentation files found; `found[i]` says whether the
/// `i`-th of `doc_files` exists.
pub fn detect_docs(snapshot: &mut ProjectSnapshot, found: &Vec<bool>)
    requires
        found@.len() == 3,
    ensures
        final(snapshot)@ == (SnapshotView {
            important_files: old(snapshot)@.important_files + doc_entries(found@),
            ..old(snapshot)@
        }),
{
    let ghost s0 = snapshot@;
    let mut i: usize = 0;
    assert(found@.take(0) =~= Seq::<bool>::empty());
    assert(s0.important_files + doc_entries(Seq::<bool>::empty()) =~= s0.important_files);
    while i < 3
        invariant
            i <= 3,
            found@.len() == 3,
            snapshot@ == (SnapshotView {
                important_files: s0.important_files + doc_entries(found@.take(i as int)),
                ..s0
            }),
        decreases 3 - i,
    {
        assert(found@.take(i + 1).drop_last() =~= found@.take(i as int));
        let ghost before = snapshot@.important_files;
        if found[i] {
            let (path, description) = if i == 0 {
                ("README.md", "Project overview, architecture, running instructions, and current capabilities.")
            } else if i == 1 {
                ("docs/TECHNICAL_DOCUMENTATION.md", "Current technical documentation and known limitations.")
            } else {
                ("docs/SELF_EVOLVING_AGENT_ROADMAP.md", "Roadmap for the self-evolving software-engineering Agent system.")
            };
            push_important(snapshot, path, "Documentation", description);
            assert(snapshot@.important_files =~= s0.important_files + doc_entries(found@.take(i + 1)));
        } else {
            assert(snapshot@.important_files =~= s0.important_files + doc_entries(found@.take(i + 1)));
        }
        i += 1;
    }
    assert(found@.take(3) =~= found@);
}

// ------------------------------------------------------------------
// Sorting names
// ------------------------------------------------------------------
/// Whether `a` comes before `b` in code-point order (the order of their
/// UTF-8 bytes, which `String`'s order compares).
pub open spec fn text_lt(a: Seq<char>, b: Seq<char>) -> bool
    decreases a.len(),
{
    if a.len() == 0 {
        b.len() > 0
    } else if b.len() == 0 {
        false
    } else if a[0] != b[0] {
        a[0] < b[0]
    } else {
        text_lt(a.drop_first(), b.drop_first())
    }
}

pub proof fn lemma_lt_irreflexive(a: Seq<char>)
    ensures
        !text_lt(a, a),
    decreases a.len(),
{
    if a.len() > 0 {
        lemma_lt_irreflexive(a.drop_first());
    }
}

proof fn lemma_lt_transitive(a: Seq<char>, b: Seq<char>, c: Seq<char>)
    requires
        text_lt(a, b),
        text_lt(b, c),
    ensures
        text_lt(a, c),
    decreases a.len(),
{
    if a.len() > 0 && b.len() > 0 && c.len() > 0 && a[0] == b[0] && b[0] == c[0] {
        lemma_lt_transitive(a.drop_first(), b.drop_first(), c.drop_first());
    }
}

proof fn lemma_lt_total(a: Seq<char>, b: Seq<char>)
    ensures
        a == b || text_lt(a, b) || text_lt(b, a),
    decreases a.len(),
{
    if a.len() == 0 && b.len() == 0 {
        assert(a =~= b);
    } else if a.len() > 0 && b.len() > 0 && a[0] == b[0] {
        lemma_lt_total(a.drop_first(), b.drop_first());
        if a.drop_first() == b.drop_first() {
            assert(a =~= seq![a[0]] + a.drop_first());
            assert(b =~= seq![b[0]] + b.drop_first());
        }
    }
}

fn chars_lt(a: &Vec<char>, b: &Vec<char>) -> (r: bool)
    ensures
        r == text_lt(a@, b@),
{
    let mut i: usize = 0;
    assert(a@.skip(0) =~= a@);
    assert(b@.skip(0) =~= b@);
    while i < a.len() && i < b.len() && a[i] == b[i]
        invariant
            i <= a@.len(),
            i <= b@.len(),
            text_lt(a@, b@) == text_lt(a@.skip(i as int), b@.skip(i as int)),
        decreases a.len() - i,
    {
        assert(a@.skip(i as int).drop_first() =~= a@.skip(i + 1));
        assert(b@.skip(i as int).drop_first() =~= b@.skip(i + 1));
        i += 1;
    }
    if i == a.len() {
        i < b.len()
    } else if i == b.len() {
        false
    } else {
        a[i] < b[i]
    }
}

/// Whether `a` comes before `b` (see `text_lt`).
pub fn str_lt(a: &str, b: &str) -> (r: bool)
    ensures
        r == text_lt(a@, b@),
{
    let x = chars_of(a);
    let y = chars_of(b);
    chars_lt(&x, &y)
}

/// Whether the names are in strictly increasing order (so none repeats).
pub open spec fn strictly_sorted(s: Seq<Seq<char>>) -> bool {
    forall|i: int, j: int| 0 <= i < j < s.len() ==> text_lt(s[i], s[j])
}

fn insert_sorted(v: &mut Vec<String>, s: String)
    requires
        strictly_sorted(strs(old(v)@)),
    ensures
        strictly_sorted(strs(final(v)@)),
        strs(final(v)@).to_set() == strs(old(v)@).to_set().insert(s@),
{
    let ghost v0 = strs(v@);
    let mut p: usize = 0;
    while p < v.len() && str_lt(v[p].as_str(), s.as_str())
        invariant
            p <= v@.len(),
            v0 == strs(v@),
            forall|k: int| 0 <= k < p ==> text_lt(#[trigger] v0[k], s@),
        decreases v.len() - p,
    {
        p += 1;
    }
    if p < v.len() && str_eq(v[p].as_str(), s.as_str()) {
        assert(v0.to_set().insert(s@) =~= v0.to_set()) by {
            assert(v0[p as int] == s@);
        }
        return;
    }
    proof {
        if p < v0.len() {
            lemma_lt_total(v0[p as int], s@);
            assert(text_lt(s@, v0[p as int]));
            assert forall|k: int| p <= k < v0.len() implies text_lt(s@, #[trigger] v0[k]) by {
                if k > p {
                    lemma_lt_transitive(s@, v0[p as int], v0[k]);
                }
            }
        }
    }
    let ghost sv = s@;
    v.insert(p, s);
    proof {
        let n = strs(v@);
        assert(n =~= v0.insert(p as int, sv));
        assert forall|i: int, j: int| 0 <= i < j < n.len() implies text_lt(n[i], n[j]) by {
            if j < p {
            } else if j == p {
            } else if i < p {
                if j - 1 > p {
                    lemma_lt_transitive(n[i], sv, n[j]);
                } else {
                    lemma_lt_transitive(n[i], sv, n[j]);
                }
            } else if i == p {
            } else {
            }
        }
        assert(n.to_set() =~= v0.to_set().insert(sv)) by {
            assert forall|x: Seq<char>| n.to_set().contains(x) <==> v0.to_set().insert(sv).contains(x) by {
                if n.to_set().contains(x) {
                    let i = choose|i: int| 0 <= i < n.len() && n[i] == x;
                    if i < p {
                        assert(v0[i] == x);
                    } else if i > p {
                        assert(v0[i - 1] == x);
                    }
                }
                if v0.to_set().contains(x) {
                    let i = choose|i: int| 0 <= i < v0.len() && v0[i] == x;
                    if i < p {
                        assert(n[i] == x);
                    } else {
                        assert(n[i + 1] == x);
                    }
                }
                if x == sv {
                    assert(n[p as int] == x);
                }
            }
        }
    }
}

/// The names sorted in code-point order, each once: what `sort` followed
/// by `dedup` leaves.
pub fn sort_dedup_names(names: Vec<String>) -> (r: Vec<String>)
    ensures
        strictly_sorted(strs(r@)),
        strs(r@).to_set() == strs(names@).to_set(),
{
    let mut out: Vec<String> = Vec::new();
    let ghost all = strs(names@);
    let mut rest = names;
    let mut k: usize = 0;
    let n = rest.len();
    proof {
        assert(strs(out@).to_set() =~= all.take(0).to_set());
    }
    while k < n
        invariant
            n == all.len(),
            k <= n,
            strs(rest@) == all.skip(k as int),
            strictly_sorted(strs(out@)),
            strs(out@).to_set() == all.take(k as int).to_set(),
        decreases n - k,
    {
        assert(strs(rest@).len() == rest@.len());
        let ghost r0 = rest@;
        assert(strs(r0)[0] == r0[0]@);
        assert(all.skip(k as int)[0] == all[k as int]);
        let s = rest.remove(0);
        proof {
            assert(s@ == all[k as int]);
            assert(rest@ == r0.remove(0));
            assert(strs(rest@) =~= strs(r0).skip(1));
            assert(all.skip(k as int).skip(1) =~= all.skip(k + 1));
            assert(strs(rest@) =~= all.skip(k + 1));
            assert(all.take(k + 1) =~= all.take(k as int).push(s@));
            all.take(k as int).lemma_push_to_set_commute(s@);
        }
        insert_sorted(&mut out, s);
        k += 1;
    }
    assert(all.take(n as int) =~= all);
    out
}

/// Puts the technology names in order, each once.
pub fn finish_tech_stack(snapshot: &mut ProjectSnapshot)
    ensures
        strictly_sorted(final(snapshot)@.tech_stack),
        final(snapshot)@.tech_stack.to_set() == old(snapshot)@.tech_stack.to_set(),
        final(snapshot)@ == (SnapshotView { tech_stack: final(snapshot)@.tech_stack, ..old(snapshot)@ }),
{
    let mut names: Vec<String> = Vec::new();
    std::mem::swap(&mut names, &mut snapshot.tech_stack);
    snapshot.tech_stack = sort_dedup_names(names);
}

// ------------------------------------------------------------------
// Search queries and planning context
// ------------------------------------------------------------------
/// The keyword groups a goal is matched against, with the query each one
/// suggests, in order.
pub open spec fn query_mappings() -> Seq<(Seq<Seq<char>>, Seq<char>)> {
    seq![
        (seq!["任务"@, "task"@, "看板"@], "Task"@),
        (seq!["项目"@, "project"@], "Project"@),
        (seq!["文件"@, "读取"@, "file"@], "readProjectFile"@),
        (seq!["搜索"@, "查找"@, "search"@], "search"@),
        (seq!["agent"@, "智能体"@], "Agent"@),
        (seq!["设置"@, "settings"@], "SettingsPanel"@),
        (seq!["对话"@, "聊天"@, "chat"@], "ChatWindow"@),
        (seq!["规划"@, "planner"@], "Planner"@),
        (seq!["调度"@, "orchestrator"@], "Orchestrator"@),
        (seq!["测试"@, "test"@], "test"@),
        (seq!["前端"@, "react"@, "页面"@], "React"@),
        (seq!["后端"@, "rust"@], "Rust"@),
    ]
}

/// Whether `text` contains one of the needles.
pub open spec fn mentions_any(text: Seq<char>, needles: Seq<Seq<char>>) -> bool {
    exists|i: int| 0 <= i < needles.len() && contains(text, #[trigger] needles[i])
}

/// The query of the first keyword group from position `k` on that `text`
/// mentions.
pub open spec fn mapped_query_from(text: Seq<char>, k: int) -> Option<Seq<char>>
    decreases 12 - k,
{
    if k < 0 || k >= 12 {
        None
    } else if mentions_any(text, query_mappings()[k].0) {
        Some(query_mappings()[k].1)
    } else {
        mapped_query_from(text, k + 1)
    }
}

/// Characters that make up search tokens.
pub open spec fn is_token_char(c: char) -> bool {
    ('a' <= c && c <= 'z') || ('A' <= c && c <= 'Z') || ('0' <= c && c <= '9') || c == '_'
}

/// The first run of token characters in `s` at least three long, reading
/// from the front with `cur` already collected.
pub open spec fn long_token_from(s: Seq<char>, cur: Seq<char>) -> Option<Seq<char>>
    decreases s.len(),
{
    if s.len() == 0 {
        if cur.len() >= 3 {
            Some(cur)
        } else {
            None
        }
    } else if is_token_char(s[0]) {
        long_token_from(s.drop_first(), cur.push(s[0]))
    } else if cur.len() >= 3 {
        Some(cur)
    } else {
        long_token_from(s.drop_first(), Seq::empty())
    }
}

/// The search query a goal suggests: the query of the first keyword group
/// its lower-cased text mentions; else its first token of at least three
/// ASCII letters, digits or underscores; else `Agent`.
pub open spec fn search_query_for(goal: Seq<char>) -> Seq<char> {
    let lower = unicode_lowercase(goal);
    match mapped_query_from(lower, 0) {
        Some(q) => q,
        None => match long_token_from(lower, Seq::empty()) {
            Some(t) => t,
            None => "Agent"@,
        },
    }
}

fn mapping_needles(k: usize) -> (r: (Vec<&'static str>, &'static str))
    requires
        k < 12,
    ensures
        r.0@.map_values(|s: &str| s@) == query_mappings()[k as int].0,
        r.1@ == query_mappings()[k as int].1,
{
    let r = if k == 0 {
        (vec!["任务", "task", "看板"], "Task")
    } else if k == 1 {
        (vec!["项目", "project"], "Project")
    } else if k == 2 {
        (vec!["文件", "读取", "file"], "readProjectFile")
    } else if k == 3 {
        (vec!["搜索", "查找", "search"], "search")
    } else if k == 4 {
        (vec!["agent", "智能体"], "Agent")
    } else if k == 5 {
        (vec!["设置", "settings"], "SettingsPanel")
    } else if k == 6 {
        (vec!["对话", "聊天", "chat"], "ChatWindow")
    } else if k == 7 {
        (vec!["规划", "planner"], "Planner")
    } else if k == 8 {
        (vec!["调度", "orchestrator"], "Orchestrator")
    } else if k == 9 {
        (vec!["测试", "test"], "test")
    } else if k == 10 {
        (vec!["前端", "react", "页面"], "React")
    } else {
        (vec!["后端", "rust"], "Rust")
    };
    assert(r.0@.map_values(|s: &str| s@) =~= query_mappings()[k as int].0);
    r
}

fn mentions(text: &str, needles: &Vec<&'static str>) -> (b: bool)
    ensures
        b == mentions_any(text@, needles@.map_values(|s: &str| s@)),
{
    let ghost ns = needles@.map_values(|s: &str| s@);
    let mut i: usize = 0;
    while i < needles.len()
        invariant
            i <= needles@.len(),
            ns == needles@.map_values(|s: &str| s@),
            forall|j: int| 0 <= j < i ==> !contains(text@, #[trigger] ns[j]),
        decreases needles.len() - i,
    {
        assert(ns[i as int] == needles@[i as int]@);
        if str_contains(text, needles[i]) {
            return true;
        }
        i += 1;
    }
    false
}

fn token_char(c: char) -> (b: bool)
    ensures
        b == is_token_char(c),
{
    ('a' <= c && c <= 'z') || ('A' <= c && c <= 'Z') || ('0' <= c && c <= '9') || c == '_'
}

fn first_long_token(s: &str) -> (r: Option<String>)
    ensures
        match r {
            Some(t) => long_token_from(s@, Seq::empty()) == Some(t@),
            None => long_token_from(s@, Seq::empty()) is None,
        },
{
    let cs = chars_of(s);
    let mut cur: Vec<char> = Vec::new();
    let mut i: usize = 0;
    assert(cs@.skip(0) =~= cs@);
    while i < cs.len()
        invariant
            cs@ == s@,
            i <= cs@.len(),
            long_token_from(s@, Seq::empty()) == long_token_from(cs@.skip(i as int), cur@),
        decreases cs.len() - i,
    {
        assert(cs@.skip(i as int).drop_first() =~= cs@.skip(i + 1));
        assert(cs@.skip(i as int)[0] == cs@[i as int]);
        if token_char(cs[i]) {
            cur.push(cs[i]);
        } else if cur.len() >= 3 {
            return Some(string_of(&cur));
        } else {
            cur = Vec::new();
        }
        i += 1;
    }
    assert(cs@.skip(i as int) =~= Seq::<char>::empty());
    if cur.len() >= 3 {
        Some(string_of(&cur))
    } else {
        None
    }
}

/// The search query a goal suggests (see `search_query_for`).
pub fn select_search_query(goal: &str) -> (r: String)
    ensures
        r@ == search_query_for(goal@),
{
    let lower = to_lowercase(goal);
    let mut k: usize = 0;
    while k < 12
        invariant
            k <= 12,
            lower@ == unicode_lowercase(goal@),
            mapped_query_from(lower@, 0) == mapped_query_from(lower@, k as int),
        decreases 12 - k,
    {
        let (needles, query) = mapping_needles(k);
        if mentions(lower.as_str(), &needles) {
            return own(query);
        }
        k += 1;
    }
    match first_long_token(lower.as_str()) {
        Some(t) => t,
        None => own("Agent"),
    }
}

/// Most search hits put in a planning context.
pub const PLANNING_SEARCH_LIMIT: usize = 8;

/// The planning context for a goal: the snapshot, the query the goal
/// suggests, and the hits of searching it (or the message of the search's
/// error, with no hits).
pub fn build_planning_context(
    snapshot: ProjectSnapshot,
    search_query: String,
    search: Result<Vec<SearchMatch>, AgentError>,
) -> (r: ProjectPlanningContext)
    ensures
        r.snapshot@ == snapshot@,
        r.search_query@ == search_query@,
        match search {
            Ok(m) => match_views(r.search_matches@) == match_views(m@) && r.search_error is None,
            Err(e) => r.search_matches@.len() == 0 && crate::task::opt_str(r.search_error) == Some(
                crate::api::error_message(e),
            ),
        },
{
    let (search_matches, search_error) = match search {
        Ok(m) => (m, None),
        Err(e) => (Vec::new(), Some(e.message())),
    };
    ProjectPlanningContext { snapshot, search_query, search_matches, search_error }
}

} // verus!
