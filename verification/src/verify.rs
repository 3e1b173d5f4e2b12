//! `war go verify`: the offline-readiness report and the findings of its
//! three checks (the `GOPROXY` setting, the war cache contents, and
//! `go list -m all -mod=readonly`).
//!
//! The checks read the environment, the file system and a child process
//! around these functions; here each finding is decided from what was read.
use vstd::prelude::*;
use crate::text::{
    chars_of, decimal, decimal_exec, join_with, pieces_view, push_chars, split_exec, split_on,
    starts_with, starts_with_exec,
};

verus! {

/// Severity of a single verification finding.
#[derive(Debug, Clone, Copy, PartialEq, Eq, Structural)]
pub enum Severity {
    /// Everything looks good.
    Okay,
    /// Potential issue that won't necessarily break a build.
    Warning,
    /// A problem that will likely cause `go build` to fail.
    Error,
}

/// A single finding from one verification check.
#[derive(Debug, Clone)]
pub struct Finding {
    /// Human-readable label for the check (e.g. "GOPROXY", "module list").
    pub check: &'static str,
    /// Severity of this finding.
    pub severity: Severity,
    /// One-line description of what was found.
    pub message: String,
    /// Optional remediation hint shown to the user when severity ≥ Warning.
    pub hint: Option<String>,
}

/// Aggregate result of the offline verification.
#[derive(Debug)]
pub struct VerifyReport {
    /// All findings produced during verification (ok, warning, and error).
    pub findings: Vec<Finding>,
}

impl Default for VerifyReport {
    fn default() -> (r: Self)
        ensures
            r.findings@.len() == 0,
    {
        VerifyReport { findings: Vec::new() }
    }
}

/// The number of findings in `s` with severity `sev`.
pub open spec fn count_severity(s: Seq<Finding>, sev: Severity) -> nat
    decreases s.len(),
{
    if s.len() == 0 {
        0
    } else {
        count_severity(s.drop_last(), sev) + if s.last().severity == sev {
            1nat
        } else {
            0
        }
    }
}

pub proof fn lemma_count_severity_bound(s: Seq<Finding>, sev: Severity)
    ensures
        count_severity(s, sev) <= s.len(),
    decreases s.len(),
{
    if s.len() > 0 {
        lemma_count_severity_bound(s.drop_last(), sev);
    }
}

/// A report is all-ok exactly when it counts no error and no warning:
/// warnings alone are not errors, yet they keep the report from being ok.
pub proof fn law_ok_iff_no_errors_and_no_warnings(s: Seq<Finding>)
    ensures
        (forall|i: int| 0 <= i < s.len() ==> #[trigger] s[i].severity == Severity::Okay) <==> (
        count_severity(s, Severity::Error) == 0 && count_severity(s, Severity::Warning) == 0),
    decreases s.len(),
{
    if s.len() > 0 {
        law_ok_iff_no_errors_and_no_warnings(s.drop_last());
        let last = s.last();
        if forall|i: int| 0 <= i < s.len() ==> #[trigger] s[i].severity == Severity::Okay {
            assert(s[s.len() - 1].severity == Severity::Okay);
            assert forall|i: int| 0 <= i < s.drop_last().len() implies #[trigger] s.drop_last()[i].severity
                == Severity::Okay by {
                assert(s[i].severity == Severity::Okay);
            }
        }
        if count_severity(s, Severity::Error) == 0 && count_severity(s, Severity::Warning) == 0 {
            assert(last.severity == Severity::Okay);
            assert forall|i: int| 0 <= i < s.len() implies #[trigger] s[i].severity == Severity::Okay by {
                if i < s.len() - 1 {
                    assert(s[i] == s.drop_last()[i]);
                }
            }
        }
    }
}

/// Errors and warnings together never outnumber the findings of a report.
pub proof fn law_errors_and_warnings_bounded(s: Seq<Finding>)
    ensures
        count_severity(s, Severity::Error) + count_severity(s, Severity::Warning) <= s.len(),
    decreases s.len(),
{
    if s.len() > 0 {
        law_errors_and_warnings_bounded(s.drop_last());
    }
}

/// The number of findings with severity `sev`.
fn count_upto(findings: &Vec<Finding>, sev: Severity) -> (n: usize)
    ensures
        n == count_severity(findings@, sev),
{
    let mut n: usize = 0;
    let mut i: usize = 0;
    while i < findings.len()
        invariant
            i <= findings.len(),
            n == count_severity(findings@.take(i as int), sev),
            n <= i,
        decreases findings.len() - i,
    {
        proof {
            assert(findings@.take(i + 1).drop_last() =~= findings@.take(i as int));
        }
        if findings[i].severity == sev {
            n = n + 1;
        }
        i = i + 1;
    }
    assert(findings@.take(findings@.len() as int) =~= findings@);
    n
}

impl VerifyReport {
    /// `true` if every finding has severity `Ok`.
    pub fn is_ok(&self) -> (r: bool)
        ensures
            r == forall|i: int|
                0 <= i < self.findings@.len() ==> #[trigger] self.findings@[i].severity
                    == Severity::Okay,
    {
        let mut i: usize = 0;
        while i < self.findings.len()
            invariant
                i <= self.findings.len(),
                forall|j: int| 0 <= j < i ==> #[trigger] self.findings@[j].severity == Severity::Okay,
            decreases self.findings.len() - i,
        {
            if self.findings[i].severity != Severity::Okay {
                return false;
            }
            i = i + 1;
        }
        true
    }

    /// Number of findings with severity `Error`.
    pub fn error_count(&self) -> (n: usize)
        ensures
            n == count_severity(self.findings@, Severity::Error),
    {
        count_upto(&self.findings, Severity::Error)
    }

    /// Number of findings with severity `Warning`.
    pub fn warning_count(&self) -> (n: usize)
        ensures
            n == count_severity(self.findings@, Severity::Warning),
    {
        count_upto(&self.findings, Severity::Warning)
    }
}

/// The exit status of `war go verify`: 1 when some finding is an error,
/// 0 otherwise; warnings do not raise it.
pub fn verify_exit_code(report: &VerifyReport) -> (c: i32)
    ensures
        c == (if count_severity(report.findings@, Severity::Error) > 0 {
            1i32
        } else {
            0i32
        }),
{
    if report.error_count() > 0 {
        1
    } else {
        0
    }
}

// ------------------------------------------------------------------
// Check 1: GOPROXY
// ------------------------------------------------------------------

/// `s` with every leading `prefix` removed (`str::trim_start_matches`).
pub open spec fn trim_start_matches(s: Seq<char>, prefix: Seq<char>) -> Seq<char>
    decreases s.len(),
{
    if prefix.len() > 0 && starts_with(s, prefix) {
        trim_start_matches(s.skip(prefix.len() as int), prefix)
    } else {
        s
    }
}

pub open spec fn file_scheme() -> Seq<char> {
    seq!['f', 'i', 'l', 'e', ':', '/', '/']
}

/// The cache directory a `file://` GOPROXY value points to.
pub fn goproxy_cache_path(value: &str) -> (path: String)
    ensures
        path@ == trim_start_matches(value@, file_scheme()),
{
    let chars = chars_of(value);
    let scheme = vec!['f', 'i', 'l', 'e', ':', '/', '/'];
    proof {
        assert(scheme@ =~= file_scheme());
    }
    let mut start: usize = 0;
    proof {
        assert(chars@.skip(0) =~= chars@);
    }
    loop
        invariant
            start <= chars.len(),
            scheme@ == file_scheme(),
            trim_start_matches(value@, file_scheme()) == trim_start_matches(
                chars@.skip(start as int),
                file_scheme(),
            ),
        decreases chars.len() - start,
    {
        let rest = crate::text::slice_of(&chars, start, chars.len());
        proof {
            assert(rest@ =~= chars@.skip(start as int));
        }
        if !starts_with_exec(&rest, &scheme) {
            return crate::text::string_of(&rest);
        }
        proof {
            assert(chars@.skip(start as int).skip(7) =~= chars@.skip(start + 7));
        }
        start = start + 7;
    }
}

/// The finding for GOPROXY, as its contents.
pub struct FindingView {
    pub check: Seq<char>,
    pub severity: Severity,
    pub message: Seq<char>,
    pub hint: Option<Seq<char>>,
}

impl View for Finding {
    type V = FindingView;

    open spec fn view(&self) -> FindingView {
        FindingView {
            check: self.check@,
            severity: self.severity,
            message: self.message@,
            hint: crate::types::opt_string_view(self.hint),
        }
    }
}

/// The GOPROXY finding for the variable's value (none when unset) and,
/// for a `file://` value, whether the directory it names exists.
pub open spec fn goproxy_finding_spec(value: Option<Seq<char>>, path_exists: bool) -> FindingView {
    match value {
        None => FindingView {
            check: "GOPROXY"@,
            severity: Severity::Warning,
            message: "GOPROXY is not set — Go will attempt network resolution."@,
            hint: Some("Run `eval $(war go offline)` to point GOPROXY at the local war cache."@),
        },
        Some(v) => if v.len() == 0 {
            FindingView {
                check: "GOPROXY"@,
                severity: Severity::Warning,
                message: "GOPROXY is set but empty — Go will use default (network) resolution."@,
                hint: Some("Run `eval $(war go offline)` or `war go sync`."@),
            }
        } else if !starts_with(v, file_scheme()) {
            FindingView {
                check: "GOPROXY"@,
                severity: Severity::Warning,
                message: "GOPROXY is '"@ + v
                    + "' — not a file:// URL, so network calls may occur."@,
                hint: Some("Run `eval $(war go offline)` to switch to the local file:// cache."@),
            }
        } else {
            let p = trim_start_matches(v, file_scheme());
            if !path_exists {
                FindingView {
                    check: "GOPROXY"@,
                    severity: Severity::Error,
                    message: "GOPROXY points to '"@ + p + "' which does not exist on disk."@,
                    hint: Some("Run `war go unpack <archive>` to populate "@ + p
                        + ", then retry."@),
                }
            } else {
                FindingView {
                    check: "GOPROXY"@,
                    severity: Severity::Okay,
                    message: "GOPROXY=file://"@ + p + " ✔  (path exists)"@,
                    hint: None,
                }
            }
        },
    }
}

/// Check that GOPROXY is set to a `file://` URL naming an existing
/// directory, given the variable's value and whether the directory named
/// by `goproxy_cache_path` exists.
pub fn check_goproxy(value: &Option<String>, path_exists: bool) -> (f: Finding)
    ensures
        f@ == goproxy_finding_spec(crate::types::opt_string_view(*value), path_exists),
{
    match value {
        None => Finding {
            check: "GOPROXY",
            severity: Severity::Warning,
            message: String::from_str("GOPROXY is not set — Go will attempt network resolution."),
            hint: Some(
                String::from_str(
                    "Run `eval $(war go offline)` to point GOPROXY at the local war cache.",
                ),
            ),
        },
        Some(v) => {
            let chars = chars_of(v.as_str());
            let scheme = vec!['f', 'i', 'l', 'e', ':', '/', '/'];
            proof {
                assert(scheme@ =~= file_scheme());
            }
            if chars.len() == 0 {
                Finding {
                    check: "GOPROXY",
                    severity: Severity::Warning,
                    message: String::from_str(
                        "GOPROXY is set but empty — Go will use default (network) resolution.",
                    ),
                    hint: Some(String::from_str("Run `eval $(war go offline)` or `war go sync`.")),
                }
            } else if !starts_with_exec(&chars, &scheme) {
                let mut message = String::from_str("GOPROXY is '");
                message.append(v.as_str());
                message.append("' — not a file:// URL, so network calls may occur.");
                Finding {
                    check: "GOPROXY",
                    severity: Severity::Warning,
                    message,
                    hint: Some(
                        String::from_str(
                            "Run `eval $(war go offline)` to switch to the local file:// cache.",
                        ),
                    ),
                }
            } else {
                let p = goproxy_cache_path(v.as_str());
                if !path_exists {
                    let mut message = String::from_str("GOPROXY points to '");
                    message.append(p.as_str());
                    message.append("' which does not exist on disk.");
                    let mut hint = String::from_str("Run `war go unpack <archive>` to populate ");
                    hint.append(p.as_str());
                    hint.append(", then retry.");
                    Finding { check: "GOPROXY", severity: Severity::Error, message, hint: Some(hint) }
                } else {
                    let mut message = String::from_str("GOPROXY=file://");
                    message.append(p.as_str());
                    message.append(" ✔  (path exists)");
                    Finding { check: "GOPROXY", severity: Severity::Okay, message, hint: None }
                }
            }
        },
    }
}

// ------------------------------------------------------------------
// Check 2: cache contents
// ------------------------------------------------------------------

/// The cache-contents finding for the war cache root (or the text of the
/// error that prevented resolving it), whether it exists, and how many
/// `.info` files it holds.
pub open spec fn cache_finding_spec(
    root: Result<Seq<char>, Seq<char>>,
    exists: bool,
    info_files: nat,
) -> FindingView {
    match root {
        Err(e) => FindingView {
            check: "cache contents"@,
            severity: Severity::Error,
            message: "Cannot resolve war cache root: "@ + e,
            hint: Some("Ensure your home directory is accessible."@),
        },
        Ok(r) => if !exists {
            FindingView {
                check: "cache contents"@,
                severity: Severity::Error,
                message: "War cache directory does not exist: "@ + r,
                hint: Some(
                    "Run `war go unpack <archive>` to populate the war cache before verifying."@,
                ),
            }
        } else if info_files == 0 {
            FindingView {
                check: "cache contents"@,
                severity: Severity::Error,
                message: "War cache at "@ + r
                    + " exists but contains no .info files — it may be empty."@,
                hint: Some("Run `war go unpack <archive>` to populate the cache, then retry."@),
            }
        } else {
            FindingView {
                check: "cache contents"@,
                severity: Severity::Okay,
                message: "War cache at "@ + r + " ✔  ("@ + decimal(info_files)
                    + " module version(s) present)"@,
                hint: None,
            }
        },
    }
}

/// Check that the war cache holds at least one `.info` file.
pub fn check_cache_contents(root: &Result<String, String>, exists: bool, info_files: usize) -> (f:
    Finding)
    ensures
        f@ == cache_finding_spec(
            match root {
                Ok(r) => Ok(r@),
                Err(e) => Err(e@),
            },
            exists,
            info_files as nat,
        ),
{
    match root {
        Err(e) => {
            let mut message = String::from_str("Cannot resolve war cache root: ");
            message.append(e.as_str());
            Finding {
                check: "cache contents",
                severity: Severity::Error,
                message,
                hint: Some(String::from_str("Ensure your home directory is accessible.")),
            }
        },
        Ok(r) => {
            if !exists {
                let mut message = String::from_str("War cache directory does not exist: ");
                message.append(r.as_str());
                Finding {
                    check: "cache contents",
                    severity: Severity::Error,
                    message,
                    hint: Some(
                        String::from_str(
                            "Run `war go unpack <archive>` to populate the war cache before verifying.",
                        ),
                    ),
                }
            } else if info_files == 0 {
                let mut message = String::from_str("War cache at ");
                message.append(r.as_str());
                message.append(" exists but contains no .info files — it may be empty.");
                Finding {
                    check: "cache contents",
                    severity: Severity::Error,
                    message,
                    hint: Some(
                        String::from_str(
                            "Run `war go unpack <archive>` to populate the cache, then retry.",
                        ),
                    ),
                }
            } else {
                let mut message = String::from_str("War cache at ");
                message.append(r.as_str());
                message.append(" ✔  (");
                push_chars(&mut message, &decimal_exec(info_files));
                message.append(" module version(s) present)");
                Finding { check: "cache contents", severity: Severity::Okay, message, hint: None }
            }
        },
    }
}

/// A file name with extension `info` (a `.info` file of the cache).
pub open spec fn is_info_name(name: Seq<char>) -> bool {
    &&& name.len() > 5
    &&& name.skip(name.len() - 5) == seq!['.', 'i', 'n', 'f', 'o']
    &&& crate::text::rfind_char(name, '.') == Some(name.len() - 5)
}

/// Whether a file name has the extension `info`.
pub fn is_info_file(name: &str) -> (r: bool)
    ensures
        r == is_info_name(name@),
{
    let chars = chars_of(name);
    let n = chars.len();
    if n <= 5 {
        return false;
    }
    let tail = crate::text::slice_of(&chars, n - 5, n);
    let ext = vec!['.', 'i', 'n', 'f', 'o'];
    proof {
        assert(tail@ =~= chars@.skip(n - 5));
        assert(ext@ =~= seq!['.', 'i', 'n', 'f', 'o']);
        crate::text::lemma_rfind_char(chars@, '.');
    }
    if !crate::text::chars_eq(&tail, &ext) {
        return false;
    }
    match crate::text::rfind_char_exec(&chars, '.') {
        Some(p) => p == n - 5,
        None => false,
    }
}

// ------------------------------------------------------------------
// Check 3: go list -m all -mod=readonly
// ------------------------------------------------------------------

/// What running `go list -m all -mod=readonly` gave.
#[derive(Debug, Clone)]
pub enum GoListOutcome {
    /// The `go` program was not found.
    NotFound,
    /// The program could not be started, with the error's text.
    SpawnFailed(String),
    /// The program ran.
    Finished {
        /// Whether it exited successfully.
        success: bool,
        /// Its standard output.
        stdout: String,
        /// Its standard error.
        stderr: String,
        /// Its exit code, when it exited with one.
        exit_code: Option<i32>,
    },
}

/// A line without its trailing carriage return.
pub open spec fn strip_cr(p: Seq<char>) -> Seq<char> {
    if p.len() > 0 && p.last() == '\r' {
        p.drop_last()
    } else {
        p
    }
}

/// The lines of a text (`str::lines`): split at `\n`, a final empty piece
/// dropped, a `\r` before each `\n` removed.
pub open spec fn text_lines(s: Seq<char>) -> Seq<Seq<char>> {
    let ps = split_on(s, '\n');
    let n = if ps.last().len() == 0 {
        ps.len() - 1
    } else {
        ps.len() as int
    };
    Seq::new(n as nat, |i: int| if i < ps.len() - 1 { strip_cr(ps[i]) } else { ps[i] })
}

/// The non-empty lines among `ls`, at most `k` of them.
pub open spec fn first_nonempty(ls: Seq<Seq<char>>, k: nat) -> Seq<Seq<char>>
    decreases ls.len(),
{
    if ls.len() == 0 || k == 0 {
        Seq::empty()
    } else if ls[0].len() == 0 {
        first_nonempty(ls.drop_first(), k)
    } else {
        seq![ls[0]] + first_nonempty(ls.drop_first(), (k - 1) as nat)
    }
}

/// The decimal representation of a signed integer.
pub open spec fn signed_decimal(x: int) -> Seq<char> {
    if x < 0 {
        seq!['-'] + decimal((-x) as nat)
    } else {
        decimal(x as nat)
    }
}

pub open spec fn go_list_cmd() -> Seq<char> {
    "`go list -m all -mod=readonly`"@
}

/// The module-list finding for what `go list` gave.
pub open spec fn module_list_finding_spec(
    not_found: bool,
    spawn_error: Option<Seq<char>>,
    success: bool,
    stdout: Seq<char>,
    stderr: Seq<char>,
    exit_code: Option<i32>,
) -> FindingView {
    if not_found {
        FindingView {
            check: "module list"@,
            severity: Severity::Warning,
            message: "Go toolchain not found in $PATH — skipping module list check."@,
            hint: Some("Install Go 1.16+ and ensure it is in your PATH to enable this check."@),
        }
    } else if spawn_error is Some {
        FindingView {
            check: "module list"@,
            severity: Severity::Error,
            message: "Failed to spawn `go list`: "@ + spawn_error->0,
            hint: None,
        }
    } else if success {
        FindingView {
            check: "module list"@,
            severity: Severity::Okay,
            message: go_list_cmd() + " ✔  ("@ + decimal(text_lines(stdout).len())
                + " module(s) resolved offline)"@,
            hint: None,
        }
    } else {
        let code = match exit_code {
            Some(c) => c as int,
            None => -1,
        };
        let errors = first_nonempty(text_lines(stderr), 10);
        let detail = if errors.len() == 0 {
            "(exit code "@ + signed_decimal(code) + ")"@
        } else {
            "(exit "@ + signed_decimal(code) + "): "@ + join_with(errors, " | "@)
        };
        FindingView {
            check: "module list"@,
            severity: Severity::Error,
            message: go_list_cmd() + " failed "@ + detail,
            hint: Some(
                "Run `war go unpack <archive>` and `war go sync`, then retry. If the error mentions a specific module, ensure it is in the war cache."@,
            ),
        }
    }
}

/// The decimal digits of a signed exit code.
fn signed_decimal_exec(x: i32) -> (r: Vec<char>)
    ensures
        r@ == signed_decimal(x as int),
{
    if x < 0 {
        let magnitude = (0i64 - (x as i64)) as usize;
        let digits = decimal_exec(magnitude);
        let mut r: Vec<char> = vec!['-'];
        let mut i: usize = 0;
        while i < digits.len()
            invariant
                i <= digits.len(),
                r@ == seq!['-'] + digits@.take(i as int),
            decreases digits.len() - i,
        {
            r.push(digits[i]);
            assert(digits@.take(i + 1) =~= digits@.take(i as int).push(digits@[i as int]));
            i = i + 1;
        }
        assert(digits@.take(digits@.len() as int) =~= digits@);
        r
    } else {
        decimal_exec(x as usize)
    }
}

/// The lines of a text.
fn text_lines_exec(s: &str) -> (ls: Vec<Vec<char>>)
    ensures
        pieces_view(ls@) == text_lines(s@),
{
    let chars = chars_of(s);
    let ps = split_exec(&chars, '\n');
    proof {
        crate::text::lemma_split_on_len(chars@, '\n');
    }
    let np = ps.len();
    let n = if ps[np - 1].len() == 0 {
        np - 1
    } else {
        np
    };
    let mut out: Vec<Vec<char>> = Vec::new();
    let mut i: usize = 0;
    while i < n
        invariant
            i <= n <= np,
            np == ps@.len(),
            pieces_view(ps@) == split_on(s@, '\n'),
            pieces_view(out@) == text_lines(s@).take(i as int),
            n == text_lines(s@).len(),
        decreases n - i,
    {
        let p = &ps[i];
        let keep = if i < np - 1 && p.len() > 0 && p[p.len() - 1] == '\r' {
            p.len() - 1
        } else {
            p.len()
        };
        let line = crate::text::slice_of(p, 0, keep);
        let ghost prev = out@;
        out.push(line);
        proof {
            assert(p@.drop_last() =~= p@.subrange(0, p@.len() - 1));
            assert(p@.subrange(0, p@.len() as int) =~= p@);
            assert(pieces_view(out@) =~= pieces_view(prev).push(text_lines(s@)[i as int]));
            assert(text_lines(s@).take(i + 1) =~= text_lines(s@).take(i as int).push(
                text_lines(s@)[i as int],
            ));
        }
        i = i + 1;
    }
    assert(text_lines(s@).take(n as int) =~= text_lines(s@));
    out
}

/// Join the first at most `k` non-empty lines with ` | `, and count them.
fn join_first_nonempty(ls: &Vec<Vec<char>>, k: usize) -> (r: (Vec<char>, usize))
    ensures
        r.0@ == join_with(first_nonempty(pieces_view(ls@), k as nat), " | "@),
        r.1 == first_nonempty(pieces_view(ls@), k as nat).len(),
{
    let sep = chars_of(" | ");
    let mut out: Vec<char> = Vec::new();
    let mut taken: usize = 0;
    let mut i: usize = 0;
    let ghost all = pieces_view(ls@);
    let ghost mut picked: Seq<Seq<char>> = Seq::empty();
    proof {
        assert(all.skip(0) =~= all);
        assert(picked + first_nonempty(all.skip(0), k as nat) =~= first_nonempty(all, k as nat));
    }
    while i < ls.len() && taken < k
        invariant
            i <= ls.len(),
            taken <= k,
            all == pieces_view(ls@),
            sep@ == " | "@,
            picked.len() == taken,
            picked + first_nonempty(all.skip(i as int), (k - taken) as nat) == first_nonempty(
                all,
                k as nat,
            ),
            out@ == join_with(picked, " | "@),
        decreases ls.len() - i,
    {
        let l = &ls[i];
        proof {
            assert(all.skip(i as int)[0] == l@);
            assert(all.skip(i as int).drop_first() =~= all.skip(i + 1));
        }
        if l.len() > 0 {
            let ghost out0 = out@;
            let ghost picked0 = picked;
            if taken > 0 {
                let mut j: usize = 0;
                while j < sep.len()
                    invariant
                        j <= sep.len(),
                        out@ == out0 + sep@.take(j as int),
                    decreases sep.len() - j,
                {
                    out.push(sep[j]);
                    assert(sep@.take(j + 1) =~= sep@.take(j as int).push(sep@[j as int]));
                    j = j + 1;
                }
                assert(sep@.take(sep@.len() as int) =~= sep@);
            }
            let ghost out1 = out@;
            let mut j: usize = 0;
            while j < l.len()
                invariant
                    j <= l.len(),
                    out@ == out1 + l@.take(j as int),
                decreases l.len() - j,
            {
                out.push(l[j]);
                assert(l@.take(j + 1) =~= l@.take(j as int).push(l@[j as int]));
                j = j + 1;
            }
            proof {
                assert(l@.take(l@.len() as int) =~= l@);
                picked = picked.push(l@);
                assert(picked.drop_last() =~= picked0);
                if picked0.len() == 0 {
                    assert(out@ =~= l@);
                } else {
                    assert(out@ =~= join_with(picked0, " | "@) + " | "@ + l@);
                }
                assert(picked0 + (seq![l@] + first_nonempty(all.skip(i + 1), (k - taken - 1) as nat))
                    =~= picked + first_nonempty(all.skip(i + 1), (k - taken - 1) as nat));
            }
            taken = taken + 1;
        }
        i = i + 1;
    }
    proof {
        if i >= ls.len() {
            assert(all.skip(i as int).len() == 0);
        }
        assert(picked + first_nonempty(all.skip(i as int), (k - taken) as nat) =~= picked);
    }
    (out, taken)
}

/// Run-result of `go list -m all -mod=readonly` turned into a finding.
pub fn check_module_list(outcome: &GoListOutcome) -> (f: Finding)
    ensures
        f@ == match outcome {
            GoListOutcome::NotFound => module_list_finding_spec(
                true,
                None,
                false,
                Seq::empty(),
                Seq::empty(),
                None,
            ),
            GoListOutcome::SpawnFailed(e) => module_list_finding_spec(
                false,
                Some(e@),
                false,
                Seq::empty(),
                Seq::empty(),
                None,
            ),
            GoListOutcome::Finished { success, stdout, stderr, exit_code } => module_list_finding_spec(
                false,
                None,
                *success,
                stdout@,
                stderr@,
                *exit_code,
            ),
        },
{
    match outcome {
        GoListOutcome::NotFound => Finding {
            check: "module list",
            severity: Severity::Warning,
            message: String::from_str("Go toolchain not found in $PATH — skipping module list check."),
            hint: Some(
                String::from_str(
                    "Install Go 1.16+ and ensure it is in your PATH to enable this check.",
                ),
            ),
        },
        GoListOutcome::SpawnFailed(e) => {
            let mut message = String::from_str("Failed to spawn `go list`: ");
            message.append(e.as_str());
            Finding { check: "module list", severity: Severity::Error, message, hint: None }
        },
        GoListOutcome::Finished { success, stdout, stderr, exit_code } => {
            if *success {
                let lines = text_lines_exec(stdout.as_str());
                let mut message = String::from_str("`go list -m all -mod=readonly`");
                message.append(" ✔  (");
                push_chars(&mut message, &decimal_exec(lines.len()));
                message.append(" module(s) resolved offline)");
                assert(message@ =~= go_list_cmd() + " ✔  ("@ + decimal(text_lines(stdout@).len())
                    + " module(s) resolved offline)"@);
                Finding { check: "module list", severity: Severity::Okay, message, hint: None }
            } else {
                let code: i32 = match exit_code {
                    Some(c) => *c,
                    None => -1,
                };
                let lines = text_lines_exec(stderr.as_str());
                let (joined, count) = join_first_nonempty(&lines, 10);
                let mut message = String::from_str("`go list -m all -mod=readonly`");
                message.append(" failed ");
                if count == 0 {
                    message.append("(exit code ");
                    push_chars(&mut message, &signed_decimal_exec(code));
                    message.append(")");
                } else {
                    message.append("(exit ");
                    push_chars(&mut message, &signed_decimal_exec(code));
                    message.append("): ");
                    push_chars(&mut message, &joined);
                }
                proof {
                    let code_i = code as int;
                    let errors = first_nonempty(text_lines(stderr@), 10);
                    let detail = if errors.len() == 0 {
                        "(exit code "@ + signed_decimal(code_i) + ")"@
                    } else {
                        "(exit "@ + signed_decimal(code_i) + "): "@ + join_with(errors, " | "@)
                    };
                    assert(message@ =~= go_list_cmd() + " failed "@ + detail);
                }
                Finding {
                    check: "module list",
                    severity: Severity::Error,
                    message,
                    hint: Some(
                        String::from_str(
                            "Run `war go unpack <archive>` and `war go sync`, then retry. If the error mentions a specific module, ensure it is in the war cache.",
                        ),
                    ),
                }
            }
        },
    }
}

} // verus!
