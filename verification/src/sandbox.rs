//! Rules of the local process sandbox that applies mutation patches to a copy of the
//! workspace: which programs may run, which files a patch may touch, and what a patch changes.
use crate::hashing::{sha256_hex, sha256_hex_of};
use crate::paths::{joined_path, path_join};
use crate::spec::{joined, views, MutationTarget};
use crate::text::{concat, has_prefix, is_ws, lines_of, split_on, starts_with, str_contains, str_eq, strip_all_prefix, strip_cr, trim, trim_start, trim_start_matches, trimmed, contains_seq};
use vstd::prelude::*;
use vstd::utf8::encode_utf8;

verus! {

/// What the sandbox may run and how.
#[derive(Clone, Debug)]
pub struct SandboxPolicy {
    pub allowed_programs: Vec<String>,
    pub max_duration_ms: u64,
    pub max_output_bytes: usize,
    pub denied_env_prefixes: Vec<String>,
}

impl SandboxPolicy {
    /// The default policy: `cargo`, `rustc` and `git`; five minutes; 1 MiB of output; no
    /// environment variable containing `TOKEN`, `KEY` or `SECRET`.
    pub fn oris_default() -> (r: Self)
        ensures
            r.allowed_programs@.len() == 3,
            r.allowed_programs@[0]@ == "cargo"@,
            r.allowed_programs@[1]@ == "rustc"@,
            r.allowed_programs@[2]@ == "git"@,
            r.max_duration_ms == 300_000,
            r.max_output_bytes == 1_048_576,
            r.denied_env_prefixes@.len() == 3,
            r.denied_env_prefixes@[0]@ == "TOKEN"@,
            r.denied_env_prefixes@[1]@ == "KEY"@,
            r.denied_env_prefixes@[2]@ == "SECRET"@,
    {
        let mut allowed: Vec<String> = Vec::new();
        allowed.push("cargo".to_owned());
        allowed.push("rustc".to_owned());
        allowed.push("git".to_owned());
        let mut denied: Vec<String> = Vec::new();
        denied.push("TOKEN".to_owned());
        denied.push("KEY".to_owned());
        denied.push("SECRET".to_owned());
        SandboxPolicy {
            allowed_programs: allowed,
            max_duration_ms: 300_000,
            max_output_bytes: 1_048_576,
            denied_env_prefixes: denied,
        }
    }
}

impl Default for SandboxPolicy {
    /// The default policy (see [SandboxPolicy::oris_default]).
    fn default() -> (r: Self)
        ensures
            r.allowed_programs@.len() == 3,
            r.allowed_programs@[0]@ == "cargo"@,
            r.allowed_programs@[1]@ == "rustc"@,
            r.allowed_programs@[2]@ == "git"@,
            r.max_duration_ms == 300_000,
            r.max_output_bytes == 1_048_576,
            r.denied_env_prefixes@.len() == 3,
            r.denied_env_prefixes@[0]@ == "TOKEN"@,
            r.denied_env_prefixes@[1]@ == "KEY"@,
            r.denied_env_prefixes@[2]@ == "SECRET"@,
    {
        SandboxPolicy::oris_default()
    }
}

/// Outcome of a command the sandbox ran.
#[derive(Clone, Debug)]
pub struct CommandExecution {
    pub success: bool,
    pub exit_code: Option<i32>,
    pub stdout: String,
    pub stderr: String,
    pub duration_ms: u64,
}

/// Why the sandbox refused or failed.
#[derive(Clone, Debug)]
pub enum SandboxError {
    UnsupportedArtifact,
    TargetViolation(String),
    Io(String),
    CommandDenied(String),
    Timeout(String),
    PatchRejected(String),
    PatchApplyFailed(String),
}

/// Message of a sandbox error.
pub open spec fn sandbox_error_text(e: SandboxError) -> Seq<char> {
    match e {
        SandboxError::UnsupportedArtifact => "unsupported artifact encoding"@,
        SandboxError::TargetViolation(p) => "mutation target violation: "@ + p@,
        SandboxError::Io(m) => "sandbox I/O error: "@ + m@,
        SandboxError::CommandDenied(p) => "command denied by policy: "@ + p@,
        SandboxError::Timeout(c) => "command timed out: "@ + c@,
        SandboxError::PatchRejected(m) => "patch rejected: "@ + m@,
        SandboxError::PatchApplyFailed(m) => "patch apply failed: "@ + m@,
    }
}

impl SandboxError {
    /// Human-readable message.
    pub fn message(&self) -> (r: String)
        ensures
            r@ == sandbox_error_text(*self),
    {
        match self {
            SandboxError::UnsupportedArtifact => "unsupported artifact encoding".to_owned(),
            SandboxError::TargetViolation(p) => concat("mutation target violation: ", p.as_str()),
            SandboxError::Io(m) => concat("sandbox I/O error: ", m.as_str()),
            SandboxError::CommandDenied(p) => concat("command denied by policy: ", p.as_str()),
            SandboxError::Timeout(c) => concat("command timed out: ", c.as_str()),
            SandboxError::PatchRejected(m) => concat("patch rejected: ", m.as_str()),
            SandboxError::PatchApplyFailed(m) => concat("patch apply failed: ", m.as_str()),
        }
    }
}

/// A sandbox that works in `<temp_root>/<run_id>/<mutation id>`.
#[derive(Debug)]
pub struct LocalProcessSandbox {
    pub run_id: String,
    pub workspace_root: String,
    pub temp_root: String,
}

impl LocalProcessSandbox {
    /// A sandbox for run `run_id` copying `workspace_root` under `temp_root`.
    pub fn new(run_id: &str, workspace_root: &str, temp_root: &str) -> (r: Self)
        ensures
            r.run_id@ == run_id@,
            r.workspace_root@ == workspace_root@,
            r.temp_root@ == temp_root@,
    {
        LocalProcessSandbox { run_id: run_id.to_owned(), workspace_root: workspace_root.to_owned(), temp_root: temp_root.to_owned() }
    }

    /// Directory of one mutation: `<temp_root>/<run_id>/<mutation_id>`.
    pub fn sandbox_base(&self, mutation_id: &str) -> (r: String)
        ensures
            r@ == joined_path(joined_path(self.temp_root@, self.run_id@), mutation_id@),
    {
        let run_dir = path_join(self.temp_root.as_str(), self.run_id.as_str());
        path_join(run_dir.as_str(), mutation_id)
    }
}

/// Every line of `s`, as `str::lines` yields them (see [lines_of]).
pub fn lines(s: &str) -> (r: Vec<String>)
    ensures
        views(r@) == lines_of(s@),
{
    let parts = crate::text::split_char(s, '\n');
    let ghost ps = split_on(s@, '\n');
    proof {
        crate::text::lemma_split_len(s@, '\n');
    }
    let n = parts.len();
    let mut out: Vec<String> = Vec::new();
    let mut i: usize = 0;
    while i + 1 < n
        invariant
            n == parts@.len(),
            n == ps.len(),
            n >= 1,
            i <= n - 1,
            forall|k: int| 0 <= k < n ==> #[trigger] parts@[k]@ == ps[k],
            views(out@) == Seq::new(i as nat, |k: int| strip_cr(ps[k])),
        decreases n - i,
    {
        let p = parts[i].as_str();
        let m = p.unicode_len();
        let line = if m > 0 && p.get_char(m - 1) == '\r' {
            p.substring_char(0, m - 1).to_owned()
        } else {
            p.to_owned()
        };
        proof {
            assert(line@ == strip_cr(ps[i as int])) by {
                if m > 0 && p@[m - 1] == '\r' {
                    assert(p@.drop_last() =~= p@.subrange(0, m - 1));
                }
            }
        }
        let ghost before = out@;
        out.push(line);
        proof {
            assert(views(out@) =~= views(before).push(line@));
            assert(views(out@) =~= Seq::new((i + 1) as nat, |k: int| strip_cr(ps[k])));
        }
        i = i + 1;
    }
    if parts[n - 1].unicode_len() > 0 {
        let ghost before = out@;
        let last = parts[n - 1].clone();
        out.push(last);
        proof {
            assert(views(out@) =~= views(before).push(last@));
            assert(views(out@) =~= Seq::new((n - 1) as nat, |k: int| strip_cr(ps[k])).push(ps[n - 1]));
        }
    }
    out
}

/// Index of the first whitespace character of `s`, or its length.
pub open spec fn word_end(s: Seq<char>) -> int
    decreases s.len(),
{
    if s.len() == 0 || is_ws(s[0]) {
        0
    } else {
        1 + word_end(s.drop_first())
    }
}

/// The second whitespace-separated word of `s`, if any (`split_whitespace().nth(1)`).
pub open spec fn second_word(s: Seq<char>) -> Option<Seq<char>> {
    let a = trim_start(s);
    let rest = trim_start(a.subrange(word_end(a), a.len() as int));
    if a.len() == 0 || rest.len() == 0 {
        None
    } else {
        Some(rest.subrange(0, word_end(rest)))
    }
}

/// The file a patch line names, if any: the `b/` side of a `diff --git` header, or the
/// path of a `+++` line, with leading `b/` removed and `/dev/null` left out.
pub open spec fn changed_file_of(line: Seq<char>) -> Option<Seq<char>> {
    if has_prefix(line, "diff --git "@) {
        match second_word(line.subrange(11, line.len() as int)) {
            Some(rhs) => {
                let p = strip_all_prefix(rhs, "b/"@);
                if p != "/dev/null"@ { Some(p) } else { None }
            },
            None => None,
        }
    } else if has_prefix(line, "+++ "@) {
        let path = trimmed(line.subrange(4, line.len() as int));
        if path != "/dev/null"@ { Some(strip_all_prefix(path, "b/"@)) } else { None }
    } else {
        None
    }
}

/// Files named by the lines of a patch, in line order, repeats kept.
pub open spec fn named_files(ls: Seq<Seq<char>>) -> Seq<Seq<char>>
    decreases ls.len(),
{
    if ls.len() == 0 {
        Seq::empty()
    } else {
        match changed_file_of(ls.last()) {
            Some(p) => named_files(ls.drop_last()).push(p),
            None => named_files(ls.drop_last()),
        }
    }
}

proof fn lemma_word_end_range(s: Seq<char>)
    ensures
        0 <= word_end(s) <= s.len(),
        forall|k: int| 0 <= k < word_end(s) ==> !is_ws(#[trigger] s[k]),
        word_end(s) < s.len() ==> is_ws(s[word_end(s)]),
    decreases s.len(),
{
    if s.len() > 0 && !is_ws(s[0]) {
        lemma_word_end_range(s.drop_first());
        assert forall|k: int| 0 <= k < word_end(s) implies !is_ws(#[trigger] s[k]) by {
            if k > 0 {
                assert(s[k] == s.drop_first()[k - 1]);
            }
        }
    }
}

fn find_word_end(s: &str) -> (r: usize)
    ensures
        r as int == word_end(s@),
        r <= s@.len(),
{
    let n = s.unicode_len();
    let mut i: usize = 0;
    proof {
        lemma_word_end_range(s@);
    }
    while i < n && !crate::text::is_whitespace(s.get_char(i))
        invariant
            n == s@.len(),
            i <= n,
            i <= word_end(s@),
            forall|k: int| 0 <= k < i ==> !is_ws(#[trigger] s@[k]),
            0 <= word_end(s@) <= s@.len(),
            forall|k: int| 0 <= k < word_end(s@) ==> !is_ws(#[trigger] s@[k]),
            word_end(s@) < s@.len() ==> is_ws(s@[word_end(s@)]),
        decreases n - i,
    {
        i = i + 1;
    }
    i
}

fn trim_start_str(s: &str) -> (r: &str)
    ensures
        r@ == trim_start(s@),
{
    let n = s.unicode_len();
    let mut i: usize = 0;
    proof {
        assert(s@.subrange(0, n as int) =~= s@);
    }
    while i < n && crate::text::is_whitespace(s.get_char(i))
        invariant
            n == s@.len(),
            i <= n,
            trim_start(s@) == trim_start(s@.subrange(i as int, n as int)),
        decreases n - i,
    {
        proof {
            assert(s@.subrange(i as int, n as int).drop_first() =~= s@.subrange(i + 1, n as int));
        }
        i = i + 1;
    }
    proof {
        if i < n {
            assert(s@.subrange(i as int, n as int)[0] == s@[i as int]);
        }
    }
    s.substring_char(i, n)
}

fn changed_file(line: &str) -> (r: Option<String>)
    ensures
        match changed_file_of(line@) {
            Some(p) => r matches Some(x) && x@ == p,
            None => r is None,
        },
{
    let n = line.unicode_len();
    proof {
        reveal_strlit("diff --git ");
        reveal_strlit("+++ ");
    }
    if starts_with(line, "diff --git ") {
        let rest = line.substring_char(11, n);
        let a = trim_start_str(rest);
        let e = find_word_end(a);
        let an = a.unicode_len();
        let after = trim_start_str(a.substring_char(e, an));
        if an == 0 || after.unicode_len() == 0 {
            return None;
        }
        let e2 = find_word_end(after);
        let rhs = after.substring_char(0, e2);
        let p = trim_start_matches(rhs, "b/");
        if str_eq(p, "/dev/null") {
            None
        } else {
            Some(p.to_owned())
        }
    } else if starts_with(line, "+++ ") {
        let path = trim(line.substring_char(4, n));
        if str_eq(path, "/dev/null") {
            None
        } else {
            Some(trim_start_matches(path, "b/").to_owned())
        }
    } else {
        None
    }
}

/// Paths ordered and deduplicated as a `BTreeSet<PathBuf>` holds them (by path components).
pub uninterp spec fn path_set_order(paths: Seq<Seq<char>>) -> Seq<Seq<char>>;

/// Collects paths into a `BTreeSet<PathBuf>` and back into text; the result is named
/// [path_set_order]. Every path it hands back is one of those given, and no two are the same
/// (a set holds a path once, and paths that differ as text from a `String` differ as paths).
#[verifier::external_body]
fn sorted_unique_paths(paths: Vec<String>) -> (r: Vec<String>)
    ensures
        views(r@) == path_set_order(views(paths@)),
        forall|i: int| 0 <= i < r@.len() ==> views(paths@).contains(#[trigger] r@[i]@),
        forall|i: int, j: int| 0 <= i < j < r@.len() ==> #[trigger] r@[i]@ != #[trigger] r@[j]@,
{
    let set: std::collections::BTreeSet<std::path::PathBuf> = paths.into_iter().map(std::path::PathBuf::from).collect();
    set.into_iter().map(|p| p.to_string_lossy().into_owned()).collect()
}

/// The files a unified diff changes (see [changed_file_of]), ordered and deduplicated as paths:
/// each is a file the diff names, and none comes twice.
pub fn parse_changed_files(patch: &str) -> (r: Vec<String>)
    ensures
        views(r@) == path_set_order(named_files(lines_of(patch@))),
        forall|i: int| 0 <= i < r@.len() ==> named_files(lines_of(patch@)).contains(#[trigger] r@[i]@),
        forall|i: int, j: int| 0 <= i < j < r@.len() ==> #[trigger] r@[i]@ != #[trigger] r@[j]@,
{
    let ls = lines(patch);
    let mut found: Vec<String> = Vec::new();
    let mut i: usize = 0;
    while i < ls.len()
        invariant
            i <= ls@.len(),
            views(ls@) == lines_of(patch@),
            views(found@) == named_files(views(ls@).take(i as int)),
        decreases ls@.len() - i,
    {
        proof {
            assert(views(ls@).take(i + 1).drop_last() =~= views(ls@).take(i as int));
            assert(views(ls@).take(i + 1).last() == ls@[i as int]@);
        }
        match changed_file(ls[i].as_str()) {
            Some(p) => {
                found.push(p);
                proof {
                    assert(views(found@) =~= named_files(views(ls@).take(i as int)).push(found@.last()@));
                }
            },
            None => {},
        }
        i = i + 1;
    }
    proof {
        assert(views(ls@).take(i as int) =~= views(ls@));
    }
    sorted_unique_paths(found)
}

/// A patch line that adds or removes a line (not a `+++`/`---` file header).
pub open spec fn is_change_line(line: Seq<char>) -> bool {
    (has_prefix(line, "+"@) || has_prefix(line, "-"@)) && !has_prefix(line, "+++"@) && !has_prefix(line, "---"@)
}

/// Number of lines of `ls` that add or remove a line.
pub open spec fn change_count(ls: Seq<Seq<char>>) -> nat
    decreases ls.len(),
{
    if ls.len() == 0 {
        0
    } else {
        change_count(ls.drop_last()) + if is_change_line(ls.last()) { 1nat } else { 0nat }
    }
}

/// Counting law: a patch line counts once when it starts with `+` or `-` and is not a `+++`
/// or `---` file header (so the lines `+` and `-` of an added or removed blank line count);
/// any other line counts nothing.
pub proof fn lemma_change_count_line(ls: Seq<Seq<char>>, line: Seq<char>)
    ensures
        line.len() >= 1 && (line[0] == '+' || line[0] == '-') && !(line.len() >= 3 && line[1] == line[0] && line[2]
            == line[0]) ==> change_count(ls.push(line)) == change_count(ls) + 1,
        line.len() == 0 || (line[0] != '+' && line[0] != '-') || (line.len() >= 3 && line[1] == line[0] && line[2]
            == line[0]) ==> change_count(ls.push(line)) == change_count(ls),
        change_count(ls.push("+"@)) == change_count(ls) + 1,
        change_count(ls.push("-"@)) == change_count(ls) + 1,
{
    reveal_strlit("+");
    reveal_strlit("-");
    reveal_strlit("+++");
    reveal_strlit("---");
    assert(ls.push(line).drop_last() =~= ls);
    assert(ls.push(line).last() == line);
    assert(ls.push("+"@).drop_last() =~= ls);
    assert(ls.push("-"@).drop_last() =~= ls);
    assert("+"@ =~= seq!['+']);
    assert("-"@ =~= seq!['-']);
    assert("+++"@ =~= seq!['+', '+', '+']);
    assert("---"@ =~= seq!['-', '-', '-']);
    if line.len() >= 1 {
        assert(has_prefix(line, "+"@) <==> line[0] == '+') by {
            assert(line.subrange(0, 1) =~= seq![line[0]]);
            assert(seq![line[0]][0] == line[0]);
            assert(seq!['+'][0] == '+');
        }
        assert(has_prefix(line, "-"@) <==> line[0] == '-') by {
            assert(line.subrange(0, 1) =~= seq![line[0]]);
            assert(seq![line[0]][0] == line[0]);
            assert(seq!['-'][0] == '-');
        }
    }
    if line.len() >= 3 {
        assert(has_prefix(line, "+++"@) <==> line[0] == '+' && line[1] == '+' && line[2] == '+') by {
            assert(line.subrange(0, 3) =~= seq![line[0], line[1], line[2]]);
            if has_prefix(line, "+++"@) {
                assert(line.subrange(0, 3)[1] == line[1]);
                assert(line.subrange(0, 3)[2] == line[2]);
            }
        }
        assert(has_prefix(line, "---"@) <==> line[0] == '-' && line[1] == '-' && line[2] == '-') by {
            assert(line.subrange(0, 3) =~= seq![line[0], line[1], line[2]]);
            if has_prefix(line, "---"@) {
                assert(line.subrange(0, 3)[1] == line[1]);
                assert(line.subrange(0, 3)[2] == line[2]);
            }
        }
    }
    assert("+"@.subrange(0, 1) =~= "+"@);
    assert("-"@.subrange(0, 1) =~= "-"@);
    assert(change_count(ls.push(line)) == change_count(ls) + if is_change_line(line) { 1nat } else { 0nat });
}

/// Number of added and removed lines of a unified diff.
pub fn count_changed_lines(patch: &str) -> (r: usize)
    ensures
        r == change_count(lines_of(patch@)),
{
    let ls = lines(patch);
    let mut n: usize = 0;
    let mut i: usize = 0;
    while i < ls.len()
        invariant
            i <= ls@.len(),
            n <= i,
            views(ls@) == lines_of(patch@),
            n == change_count(views(ls@).take(i as int)),
        decreases ls@.len() - i,
    {
        proof {
            assert(views(ls@).take(i + 1).drop_last() =~= views(ls@).take(i as int));
            assert(views(ls@).take(i + 1).last() == ls@[i as int]@);
        }
        let l = ls[i].as_str();
        if (starts_with(l, "+") || starts_with(l, "-")) && !starts_with(l, "+++") && !starts_with(l, "---") {
            n = n + 1;
        }
        i = i + 1;
    }
    proof {
        assert(views(ls@).take(i as int) =~= views(ls@));
    }
    n
}

/// Files and lines a patch changes.
#[derive(Clone, Copy, Debug, PartialEq, Eq, Structural)]
pub struct BlastRadius {
    pub files_changed: usize,
    pub lines_changed: usize,
}

/// Files and lines a unified diff changes.
pub fn compute_blast_radius(patch: &str) -> (r: BlastRadius)
    ensures
        r.files_changed == path_set_order(named_files(lines_of(patch@))).len(),
        r.lines_changed == change_count(lines_of(patch@)),
{
    let files = parse_changed_files(patch);
    BlastRadius { files_changed: files.len(), lines_changed: count_changed_lines(patch) }
}

/// Path prefixes a target allows; none means the whole workspace.
pub open spec fn allowed_prefixes(target: MutationTarget) -> Seq<Seq<char>> {
    match target {
        MutationTarget::WorkspaceRoot => Seq::empty(),
        MutationTarget::Crate { name } => seq!["crates/"@ + name@],
        MutationTarget::Paths { allow } => views(allow@),
    }
}

/// `path` is `prefix` or lies under it.
pub open spec fn under_prefix(path: Seq<char>, prefix: Seq<char>) -> bool {
    path == prefix || has_prefix(path, prefix + "/"@)
}

/// `path` lies under one of `prefixes`.
pub open spec fn allowed_path(path: Seq<char>, prefixes: Seq<Seq<char>>) -> bool {
    exists|k: int| 0 <= k < prefixes.len() && under_prefix(path, #[trigger] prefixes[k])
}

fn under_any(path: &str, prefixes: &Vec<String>) -> (r: bool)
    ensures
        r == allowed_path(path@, views(prefixes@)),
{
    let mut k: usize = 0;
    while k < prefixes.len()
        invariant
            k <= prefixes@.len(),
            forall|j: int| 0 <= j < k ==> !under_prefix(path@, #[trigger] views(prefixes@)[j]),
        decreases prefixes@.len() - k,
    {
        let p = prefixes[k].as_str();
        let with_slash = concat(p, "/");
        if str_eq(path, p) || starts_with(path, with_slash.as_str()) {
            proof {
                assert(under_prefix(path@, views(prefixes@)[k as int]));
            }
            return true;
        }
        k = k + 1;
    }
    false
}

/// Checks that a patch stays within its target: every changed file must lie under one of
/// the allowed prefixes, unless the target is the whole workspace; the first file outside
/// is reported.
pub fn validate_target(target: &MutationTarget, changed_files: &Vec<String>) -> (r: Result<(), SandboxError>)
    ensures
        ({
            let prefixes = allowed_prefixes(*target);
            let files = views(changed_files@);
            let bad = |i: int| 0 <= i < files.len() && !allowed_path(files[i], prefixes);
            &&& (prefixes.len() == 0 || forall|i: int| 0 <= i < files.len() ==> allowed_path(#[trigger] files[i], prefixes)) <==> r is Ok
            &&& r matches Err(e) ==> prefixes.len() > 0 && exists|i: int| #[trigger] bad(i) && (forall|j: int| 0 <= j < i ==> allowed_path(#[trigger] files[j], prefixes))
                && e == SandboxError::TargetViolation(changed_files@[i])
        }),
{
    let prefixes: Vec<String> = match target {
        MutationTarget::WorkspaceRoot => Vec::new(),
        MutationTarget::Crate { name } => {
            let mut v: Vec<String> = Vec::new();
            v.push(concat("crates/", name.as_str()));
            proof {
                assert(views(v@) =~= seq!["crates/"@ + name@]);
            }
            v
        },
        MutationTarget::Paths { allow } => crate::spec::clone_strings(allow),
    };
    if prefixes.len() == 0 {
        return Ok(());
    }
    let mut i: usize = 0;
    while i < changed_files.len()
        invariant
            i <= changed_files@.len(),
            views(prefixes@) == allowed_prefixes(*target),
            prefixes@.len() > 0,
            forall|j: int| 0 <= j < i ==> allowed_path(#[trigger] views(changed_files@)[j], views(prefixes@)),
        decreases changed_files@.len() - i,
    {
        if !under_any(changed_files[i].as_str(), &prefixes) {
            let ghost files = views(changed_files@);
            let ghost ps = views(prefixes@);
            let ghost ii = i as int;
            proof {
                let bad = |x: int| 0 <= x < files.len() && !allowed_path(files[x], ps);
                assert(bad(ii));
            }
            return Err(SandboxError::TargetViolation(changed_files[i].clone()));
        }
        i = i + 1;
    }
    Ok(())
}

/// Checks a patch before it is applied: only unified diffs are applied, and the files the
/// diff changes must stay within the target (see [validate_target]). Hands back the changed
/// files, ordered and deduplicated as paths, none twice.
pub fn check_patch(unified_diff: bool, patch: &str, target: &MutationTarget) -> (r: Result<Vec<String>, SandboxError>)
    ensures
        !unified_diff ==> r matches Err(SandboxError::UnsupportedArtifact),
        unified_diff ==> ({
            let files = path_set_order(named_files(lines_of(patch@)));
            let prefixes = allowed_prefixes(*target);
            &&& r is Ok <==> (prefixes.len() == 0 || forall|i: int| 0 <= i < files.len() ==> allowed_path(#[trigger] files[i], prefixes))
            &&& r matches Ok(v) ==> views(v@) == files
            &&& r matches Ok(v) ==> forall|i: int| 0 <= i < v@.len() ==> named_files(lines_of(patch@)).contains(#[trigger] v@[i]@)
            &&& r matches Ok(v) ==> forall|i: int, j: int| 0 <= i < j < v@.len() ==> #[trigger] v@[i]@ != #[trigger] v@[j]@
            &&& r matches Err(e) ==> exists|i: int|
                0 <= i < files.len() && !allowed_path(files[i], prefixes) && (e matches SandboxError::TargetViolation(p) && p@ == #[trigger] files[i])
        }),
{
    if !unified_diff {
        return Err(SandboxError::UnsupportedArtifact);
    }
    let files = parse_changed_files(patch);
    match validate_target(target, &files) {
        Ok(()) => Ok(files),
        Err(e) => {
            proof {
                let fs = views(files@);
                let prefixes = allowed_prefixes(*target);
                let i = choose|i: int|
                    (0 <= i < fs.len() && !allowed_path(fs[i], prefixes)) && (forall|j: int| 0 <= j < i ==> allowed_path(#[trigger] fs[j], prefixes))
                        && e == SandboxError::TargetViolation(files@[i]);
                assert(fs[i] == files@[i]@);
            }
            Err(e)
        },
    }
}

/// Directory entries the workspace copy skips: `.git` and `target`.
pub fn should_skip(file_name: Option<&str>) -> (r: bool)
    ensures
        r == match file_name {
            Some(n) => n@ == ".git"@ || n@ == "target"@,
            None => false,
        },
{
    match file_name {
        Some(n) => str_eq(n, ".git") || str_eq(n, "target"),
        None => false,
    }
}

/// Text of bytes decoded as UTF-8 with invalid sequences replaced (`String::from_utf8_lossy`).
pub uninterp spec fn utf8_lossy(bytes: Seq<u8>) -> Seq<char>;

/// `String::from_utf8_lossy`; the result is named [utf8_lossy].
#[verifier::external_body]
fn from_utf8_lossy(bytes: &[u8]) -> (r: String)
    ensures
        r@ == utf8_lossy(bytes@),
{
    String::from_utf8_lossy(bytes).into_owned()
}

/// Command output kept: at most `max_output_bytes` bytes, decoded leniently.
pub fn truncate_to_limit(bytes: &[u8], max_output_bytes: usize) -> (r: String)
    ensures
        r@ == utf8_lossy(bytes@.take(if bytes@.len() < max_output_bytes { bytes@.len() as int } else { max_output_bytes as int })),
{
    let limit = if bytes.len() < max_output_bytes { bytes.len() } else { max_output_bytes };
    let mut kept: Vec<u8> = Vec::new();
    let mut i: usize = 0;
    while i < limit
        invariant
            limit <= bytes@.len(),
            i <= limit,
            kept@ == bytes@.take(i as int),
        decreases limit - i,
    {
        kept.push(bytes[i]);
        proof {
            assert(kept@ =~= bytes@.take(i + 1));
        }
        i = i + 1;
    }
    from_utf8_lossy(kept.as_slice())
}

/// Fingerprint of a patch: SHA-256 of its text in lowercase hexadecimal.
pub fn hash_patch(payload: &str) -> (r: String)
    ensures
        r@ == sha256_hex_of(encode_utf8(payload@)),
{
    sha256_hex(payload)
}

/// The policy lets `program` run: it is one of the allowed programs.
pub fn program_allowed(policy: &SandboxPolicy, program: &str) -> (r: bool)
    ensures
        r == views(policy.allowed_programs@).contains(program@),
{
    let mut k: usize = 0;
    while k < policy.allowed_programs.len()
        invariant
            k <= policy.allowed_programs@.len(),
            forall|j: int| 0 <= j < k ==> #[trigger] views(policy.allowed_programs@)[j] != program@,
        decreases policy.allowed_programs@.len() - k,
    {
        if str_eq(policy.allowed_programs[k].as_str(), program) {
            proof {
                assert(views(policy.allowed_programs@)[k as int] == program@);
            }
            return true;
        }
        k = k + 1;
    }
    false
}

/// ASCII upper-casing of one character.
pub open spec fn ascii_upper(c: char) -> char {
    if 'a' <= c && c <= 'z' {
        ((c as u32) - 32) as char
    } else {
        c
    }
}

/// ASCII upper-casing of a text.
pub open spec fn upper_seq(s: Seq<char>) -> Seq<char> {
    Seq::new(s.len(), |i: int| ascii_upper(s[i]))
}

fn to_ascii_uppercase(s: &str) -> (r: String)
    ensures
        r@ == upper_seq(s@),
{
    let n = s.unicode_len();
    let mut out = String::new();
    let mut i: usize = 0;
    while i < n
        invariant
            n == s@.len(),
            i <= n,
            out@ == upper_seq(s@).subrange(0, i as int),
        decreases n - i,
    {
        let c = s.get_char(i);
        let uc = if 'a' <= c && c <= 'z' {
            ((c as u8) - 32) as char
        } else {
            c
        };
        proof {
            assert(uc == ascii_upper(c));
            assert(upper_seq(s@).subrange(0, i + 1) =~= upper_seq(s@).subrange(0, i as int).push(uc));
        }
        crate::text::push_char(&mut out, uc);
        i = i + 1;
    }
    proof {
        assert(upper_seq(s@).subrange(0, n as int) =~= upper_seq(s@));
    }
    out
}

/// The policy hides environment variable `key` from commands: its upper-cased name
/// contains one of the denied prefixes.
pub fn env_key_denied(policy: &SandboxPolicy, key: &str) -> (r: bool)
    ensures
        r == exists|k: int| 0 <= k < policy.denied_env_prefixes@.len() && contains_seq(upper_seq(key@), #[trigger] views(policy.denied_env_prefixes@)[k]),
{
    let upper = to_ascii_uppercase(key);
    let mut k: usize = 0;
    while k < policy.denied_env_prefixes.len()
        invariant
            k <= policy.denied_env_prefixes@.len(),
            upper@ == upper_seq(key@),
            forall|j: int| 0 <= j < k ==> !contains_seq(upper_seq(key@), #[trigger] views(policy.denied_env_prefixes@)[j]),
        decreases policy.denied_env_prefixes@.len() - k,
    {
        if str_contains(upper.as_str(), policy.denied_env_prefixes[k].as_str()) {
            proof {
                assert(contains_seq(upper_seq(key@), views(policy.denied_env_prefixes@)[k as int]));
            }
            return true;
        }
        k = k + 1;
    }
    false
}

/// How a timed-out command is named: the program and its arguments, space-separated.
pub fn command_label(program: &str, args: &Vec<String>) -> (r: String)
    ensures
        r@ == program@ + " "@ + joined(views(args@), " "@),
{
    let a = concat(program, " ");
    let b = crate::spec::join_strings(args, " ");
    concat(a.as_str(), b.as_str())
}

/// Output reported for a failed command: its error output, or its standard output when the
/// error output is empty.
pub fn failure_output(execution: &CommandExecution) -> (r: String)
    ensures
        r@ == if execution.stderr@.len() == 0 { execution.stdout@ } else { execution.stderr@ },
{
    if execution.stderr.unicode_len() == 0 {
        execution.stdout.clone()
    } else {
        execution.stderr.clone()
    }
}

} // verus!
