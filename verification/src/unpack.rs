//! Extracting a `war go pack` archive into the Go module cache: the path
//! mapping from archive entries to cache files, the zip-slip guard, the
//! staged filter, and the decision taken for each entry.
//!
//! The archive uses `/`-separated module paths
//! (`github.com/gin-gonic/gin/@v/v1.9.1.info`); the cache joins the
//! module path with `!` (`github.com!gin-gonic!gin/@v/v1.9.1.info`).
use vstd::prelude::*;
use crate::error::WarError;
use crate::path::{
    components, components_exec, file_stem, file_stem_exec, first_index, first_index_exec,
    join_comps, normal_only, parent_comp, render, cur_comp, root_comp, texts, version_dir,
    is_version_dir,
};
use crate::text::{chars_of, join_with, push_chars, replace_char, replace_char_exec, string_of};
use crate::path::{plain_name, is_normal, lemma_components_join, lemma_join_append, lemma_first_index_after, lemma_normal_only_all};
use crate::pack::{normalize_spec, lemma_join_cons};

verus! {

/// The pairs of a staged filter as their contents.
pub open spec fn filter_view(f: Seq<(String, String)>) -> Seq<(Seq<char>, Seq<char>)> {
    f.map_values(|p: (String, String)| (p.0@, p.1@))
}

/// Options controlling how an archive is unpacked.
#[derive(Debug, Clone, Default)]
pub struct UnpackOpts {
    /// When true, only list the paths that would be extracted — do **not**
    /// write any files to disk.
    pub dry_run: bool,
    /// When set, only entries matching the staged `(module, version)`
    /// pairs are extracted; the others are counted as skipped.
    pub staged_filter: Option<Vec<(String, String)>>,
}

/// Statistics returned after unpacking a war archive.
#[derive(Debug, Clone, PartialEq, Eq)]
pub struct UnpackStats {
    /// Files successfully extracted and written to disk.
    pub extracted: usize,
    /// Files skipped because the destination already matched or they were
    /// excluded by the staged filter.
    pub skipped: usize,
    /// Files that failed to extract.
    pub failed: usize,
}

// ------------------------------------------------------------------
// Path mapping
// ------------------------------------------------------------------

/// `cs` without its leading `.` components.
pub open spec fn drop_leading_cur(cs: Seq<Seq<char>>) -> Seq<Seq<char>>
    decreases cs.len(),
{
    if cs.len() > 0 && cs[0] == cur_comp() {
        drop_leading_cur(cs.drop_first())
    } else {
        cs
    }
}

/// `path` without a leading `./`, as `PathBuf` renders its components.
pub open spec fn strip_leading_dot_slash_spec(path: Seq<char>) -> Seq<char> {
    render(drop_leading_cur(components(path)))
}

/// `path` has a `..` component.
pub open spec fn has_traversal(path: Seq<char>) -> bool {
    components(path).contains(parent_comp())
}

/// The cache path of an archive path: the components before `@v` (plain
/// names only) joined with `!`, then `@v` and what follows; a path
/// without `@v`, or that starts with it, has every `/` turned into `!`.
pub open spec fn denormalize_spec(path: Seq<char>) -> Seq<char> {
    let cs = components(path);
    match first_index(cs, version_dir()) {
        Some(idx) => if idx > 0 {
            let module = join_with(normal_only(cs.take(idx)), seq!['!']);
            let rest = join_with(cs.skip(idx), seq!['/']);
            if module.len() == 0 {
                rest
            } else {
                module + seq!['/'] + rest
            }
        } else {
            replace_char(path, '/', '!')
        },
        None => replace_char(path, '/', '!'),
    }
}

/// The `(module, version)` pair an archive path belongs to: the plain
/// names before `@v` joined with `/`, and the file stem after `@v`; none
/// for paths with fewer than three components or without a file after
/// `@v`.
pub open spec fn entry_pair(path: Seq<char>) -> Option<(Seq<char>, Seq<char>)> {
    let cs = components(path);
    if cs.len() < 3 {
        None
    } else {
        match first_index(cs, version_dir()) {
            Some(v) => if v + 1 >= cs.len() {
                None
            } else {
                Some((join_with(normal_only(cs.take(v)), seq!['/']), file_stem(cs[v + 1])))
            },
            None => None,
        }
    }
}

/// An archive entry belongs to a staged `(module, version)` pair.
pub open spec fn entry_matches_spec(path: Seq<char>, filter: Seq<(Seq<char>, Seq<char>)>) -> bool {
    match entry_pair(path) {
        Some(p) => filter.contains(p),
        None => false,
    }
}

/// Return `true` if `path` contains any `..` (parent directory) component.
///
/// Called on every entry path before the destination is built, so that
/// an archive entry such as `../../etc/passwd` cannot escape the target.
pub fn contains_traversal(path: &str) -> (r: bool)
    ensures
        r == has_traversal(path@),
{
    let chars = chars_of(path);
    let cs = components_exec(&chars);
    let mut i: usize = 0;
    while i < cs.len()
        invariant
            i <= cs.len(),
            texts(cs@) == components(path@),
            forall|j: int| 0 <= j < i ==> texts(cs@)[j] != parent_comp(),
        decreases cs.len() - i,
    {
        if cs[i].len() == 2 && cs[i][0] == '.' && cs[i][1] == '.' {
            assert(texts(cs@)[i as int] =~= parent_comp());
            assert(texts(cs@).contains(parent_comp()));
            return true;
        }
        assert(texts(cs@)[i as int] != parent_comp());
        i = i + 1;
    }
    false
}

/// Strip a leading `./` prefix from a path, if present.
pub fn strip_leading_dot_slash(path: &str) -> (r: String)
    ensures
        r@ == strip_leading_dot_slash_spec(path@),
{
    let cs = components_exec(&chars_of(path));
    let mut start: usize = 0;
    proof {
        assert(texts(cs@).skip(0) =~= texts(cs@));
    }
    while start < cs.len() && cs[start].len() == 1 && cs[start][0] == '.'
        invariant
            start <= cs.len(),
            drop_leading_cur(components(path@)) == drop_leading_cur(texts(cs@).skip(start as int)),
        decreases cs.len() - start,
    {
        proof {
            assert(texts(cs@).skip(start as int)[0] =~= cur_comp());
            assert(texts(cs@).skip(start as int).drop_first() =~= texts(cs@).skip(start + 1));
        }
        start = start + 1;
    }
    let ghost rest = texts(cs@).skip(start as int);
    proof {
        if rest.len() > 0 {
            assert(rest[0] == cs@[start as int]@);
            assert(rest[0] != cur_comp());
        }
        assert(drop_leading_cur(rest) == rest);
    }
    if start < cs.len() && cs[start].len() == 1 && cs[start][0] == '/' {
        let joined = join_comps(&cs, start + 1, cs.len(), '/', false);
        let mut out = String::new();
        crate::text::push_char(&mut out, '/');
        push_chars(&mut out, &joined);
        proof {
            assert(rest[0] =~= root_comp());
            assert(texts(cs@).subrange(start + 1, cs@.len() as int) =~= rest.drop_first());
            assert(out@ =~= render(rest));
        }
        out
    } else {
        let joined = join_comps(&cs, start, cs.len(), '/', false);
        proof {
            assert(texts(cs@).subrange(start as int, cs@.len() as int) =~= rest);
            if rest.len() > 0 {
                assert(rest[0] != root_comp());
            }
        }
        string_of(&joined)
    }
}

/// Convert an archive path (`/`-separated) to a Go module cache path
/// (`!`-separated module part).
///
/// ```text
/// github.com/gin-gonic/gin/@v/v1.9.1.info
///   → github.com!gin-gonic!gin/@v/v1.9.1.info
/// ```
pub fn denormalize_cache_path(relative: &str) -> (r: String)
    ensures
        r@ == denormalize_spec(relative@),
{
    let chars = chars_of(relative);
    let cs = components_exec(&chars);
    let at_v = vec!['@', 'v'];
    proof {
        assert(at_v@ =~= version_dir());
    }
    proof {
        crate::path::lemma_first_index(texts(cs@), version_dir());
    }
    match first_index_exec(&cs, &at_v) {
        Some(idx) if idx > 0 => {
            let module = join_comps(&cs, 0, idx, '!', true);
            let rest = join_comps(&cs, idx, cs.len(), '/', false);
            proof {
                assert(texts(cs@).subrange(0, idx as int) =~= texts(cs@).take(idx as int));
                assert(texts(cs@).subrange(idx as int, cs@.len() as int) =~= texts(cs@).skip(
                    idx as int,
                ));
            }
            let mut out = string_of(&module);
            if module.len() > 0 {
                crate::text::push_char(&mut out, '/');
            }
            push_chars(&mut out, &rest);
            out
        },
        _ => {
            let replaced = replace_char_exec(&chars, '/', '!');
            string_of(&replaced)
        },
    }
}

/// The `(module, version)` pair an archive entry belongs to.
pub fn entry_pair_exec(path: &str) -> (r: Option<(Vec<char>, Vec<char>)>)
    ensures
        match r {
            Some(p) => entry_pair(path@) == Some((p.0@, p.1@)),
            None => entry_pair(path@) is None,
        },
{
    let cs = components_exec(&chars_of(path));
    if cs.len() < 3 {
        return None;
    }
    let at_v = vec!['@', 'v'];
    proof {
        assert(at_v@ =~= version_dir());
    }
    match first_index_exec(&cs, &at_v) {
        Some(v) => {
            proof {
                crate::path::lemma_first_index(texts(cs@), version_dir());
            }
            if v + 1 >= cs.len() {
                None
            } else {
                let module = join_comps(&cs, 0, v, '/', true);
                let version = file_stem_exec(&cs[v + 1]);
                proof {
                    assert(texts(cs@).subrange(0, v as int) =~= texts(cs@).take(v as int));
                }
                Some((module, version))
            }
        },
        None => None,
    }
}

/// Whether the staged filter holds `(module, version)`.
pub fn filter_holds(filter: &Vec<(String, String)>, module: &Vec<char>, version: &Vec<char>) -> (r:
    bool)
    ensures
        r == filter_view(filter@).contains((module@, version@)),
{
    let mut i: usize = 0;
    while i < filter.len()
        invariant
            i <= filter.len(),
            forall|j: int| 0 <= j < i ==> filter_view(filter@)[j] != (module@, version@),
        decreases filter.len() - i,
    {
        let m = chars_of(filter[i].0.as_str());
        let v = chars_of(filter[i].1.as_str());
        if crate::text::chars_eq(&m, module) && crate::text::chars_eq(&v, version) {
            assert(filter_view(filter@)[i as int] == (module@, version@));
            return true;
        }
        i = i + 1;
    }
    false
}

/// Check whether an archive entry path matches any `(module, version)`
/// pair in the staged filter.  The `@v` component separates the module
/// path from the version file name.
pub fn entry_matches_staged_filter(entry_path: &str, filter: &Vec<(String, String)>) -> (r: bool)
    ensures
        r == entry_matches_spec(entry_path@, filter_view(filter@)),
{
    match entry_pair_exec(entry_path) {
        Some((module, version)) => filter_holds(filter, &module, &version),
        None => false,
    }
}

// ------------------------------------------------------------------
// Per-entry decisions
// ------------------------------------------------------------------

/// What to do with one archive entry.
#[derive(Debug, Clone, PartialEq, Eq)]
pub enum EntryAction {
    /// The entry is rejected: unreadable name or path traversal.
    Failed,
    /// A directory entry; nothing to do, not counted.
    Directory,
    /// Excluded by the staged filter.
    Filtered,
    /// Dry run: the entry would be extracted to this cache path.
    WouldExtract(String),
    /// Extract the entry to this cache path (unless it is already there).
    Extract(String),
}

/// The archive path of an entry once a leading `./` is removed.
pub open spec fn entry_stripped(name: Seq<char>) -> Seq<char> {
    strip_leading_dot_slash_spec(name)
}

/// The decision for one archive entry, given its sanitised name (none
/// when the archive reader found it unsafe), whether it is a directory,
/// and the options.
pub open spec fn entry_action_spec(
    name: Option<Seq<char>>,
    is_dir: bool,
    dry_run: bool,
    filter: Option<Seq<(Seq<char>, Seq<char>)>>,
) -> EntryActionView {
    match name {
        None => EntryActionView::Failed,
        Some(n) => {
            let stripped = entry_stripped(n);
            if has_traversal(stripped) {
                EntryActionView::Failed
            } else if is_dir {
                EntryActionView::Directory
            } else if filter matches Some(f) && !entry_matches_spec(stripped, f) {
                EntryActionView::Filtered
            } else if dry_run {
                EntryActionView::WouldExtract(denormalize_spec(stripped))
            } else {
                EntryActionView::Extract(denormalize_spec(stripped))
            }
        },
    }
}

/// An entry action as its contents.
pub enum EntryActionView {
    Failed,
    Directory,
    Filtered,
    WouldExtract(Seq<char>),
    Extract(Seq<char>),
}

impl View for EntryAction {
    type V = EntryActionView;

    open spec fn view(&self) -> EntryActionView {
        match self {
            EntryAction::Failed => EntryActionView::Failed,
            EntryAction::Directory => EntryActionView::Directory,
            EntryAction::Filtered => EntryActionView::Filtered,
            EntryAction::WouldExtract(d) => EntryActionView::WouldExtract(d@),
            EntryAction::Extract(d) => EntryActionView::Extract(d@),
        }
    }
}

/// The optional staged filter as its contents.
pub open spec fn opt_filter_view(f: Option<Vec<(String, String)>>) -> Option<
    Seq<(Seq<char>, Seq<char>)>,
> {
    match f {
        Some(v) => Some(filter_view(v@)),
        None => None,
    }
}

/// Decide what to do with one archive entry: reject unsafe names and
/// `..` paths, pass over directories, apply the staged filter, and give
/// the cache path for the rest.
pub fn plan_entry(name: &Option<String>, is_dir: bool, opts: &UnpackOpts) -> (a: EntryAction)
    ensures
        a@ == entry_action_spec(
            crate::types::opt_string_view(*name),
            is_dir,
            opts.dry_run,
            opt_filter_view(opts.staged_filter),
        ),
{
    match name {
        None => EntryAction::Failed,
        Some(n) => {
            let stripped = strip_leading_dot_slash(n.as_str());
            if contains_traversal(stripped.as_str()) {
                return EntryAction::Failed;
            }
            if is_dir {
                return EntryAction::Directory;
            }
            let dest = denormalize_cache_path(stripped.as_str());
            if let Some(filter) = &opts.staged_filter {
                if !entry_matches_staged_filter(stripped.as_str(), filter) {
                    return EntryAction::Filtered;
                }
            }
            if opts.dry_run {
                EntryAction::WouldExtract(dest)
            } else {
                EntryAction::Extract(dest)
            }
        },
    }
}

/// An entry whose path climbs out of the cache with `..` is rejected,
/// whatever the options.
pub proof fn law_traversal_entry_rejected(
    name: Seq<char>,
    is_dir: bool,
    dry_run: bool,
    filter: Option<Seq<(Seq<char>, Seq<char>)>>,
)
    requires
        has_traversal(strip_leading_dot_slash_spec(name)),
    ensures
        entry_action_spec(Some(name), is_dir, dry_run, filter) is Failed,
{
}

/// With a staged filter, only entries of staged `(module, version)` pairs
/// are extracted (or, in a dry run, reported as extracted).
pub proof fn law_staged_unpack_extracts_only_staged(
    name: Seq<char>,
    is_dir: bool,
    dry_run: bool,
    filter: Seq<(Seq<char>, Seq<char>)>,
)
    ensures
        (entry_action_spec(Some(name), is_dir, dry_run, Some(filter)) is Extract
            || entry_action_spec(Some(name), is_dir, dry_run, Some(filter)) is WouldExtract)
            ==> entry_matches_spec(strip_leading_dot_slash_spec(name), filter),
{
}

/// A dry run never extracts: an entry is at most reported as one that
/// would be extracted.
pub proof fn law_dry_run_writes_nothing(
    name: Option<Seq<char>>,
    is_dir: bool,
    filter: Option<Seq<(Seq<char>, Seq<char>)>>,
)
    ensures
        !(entry_action_spec(name, is_dir, true, filter) is Extract),
{
}

/// A dry run previews the real run: the two decide every entry alike,
/// and where the real run extracts to a path the dry run reports that
/// same path.
pub proof fn law_dry_run_previews_real_run(
    name: Option<Seq<char>>,
    is_dir: bool,
    filter: Option<Seq<(Seq<char>, Seq<char>)>>,
)
    ensures
        entry_action_spec(name, is_dir, false, filter) matches EntryActionView::Extract(d)
            ==> entry_action_spec(name, is_dir, true, filter) == EntryActionView::WouldExtract(d),
        entry_action_spec(name, is_dir, true, filter) matches EntryActionView::WouldExtract(d)
            ==> entry_action_spec(name, is_dir, false, filter) == EntryActionView::Extract(d),
        !(entry_action_spec(name, is_dir, false, filter) is Extract) ==> entry_action_spec(
            name,
            is_dir,
            true,
            filter,
        ) == entry_action_spec(name, is_dir, false, filter),
{
}

/// A file already at the destination with the expected byte length is
/// taken as extracted by an earlier run.
pub fn is_idempotent_skip(existing_len: Option<u64>, expected_size: u64) -> (r: bool)
    ensures
        r == (existing_len == Some(expected_size)),
{
    match existing_len {
        Some(len) => len == expected_size,
        None => false,
    }
}

/// How one entry ended.
#[derive(Debug, Clone, Copy, PartialEq, Eq)]
pub enum EntryOutcome {
    /// Written (or, in a dry run, would be written).
    Extracted,
    /// Already present or excluded by the filter.
    Skipped,
    /// Could not be read, was unsafe, or could not be written.
    Failed,
    /// A directory entry, not counted.
    NotCounted,
}

impl UnpackStats {
    /// No entry processed yet.
    pub fn new() -> (s: Self)
        ensures
            s.extracted == 0 && s.skipped == 0 && s.failed == 0,
    {
        UnpackStats { extracted: 0, skipped: 0, failed: 0 }
    }

    /// The total number of counted entries.
    pub open spec fn total(&self) -> int {
        self.extracted + self.skipped + self.failed
    }

    /// Count one entry's outcome.
    pub fn record(&mut self, outcome: EntryOutcome)
        requires
            old(self).total() < usize::MAX,
        ensures
            *final(self) == record_step(*old(self), outcome),
            final(self).extracted == old(self).extracted + (if outcome == EntryOutcome::Extracted {
                1int
            } else {
                0
            }),
            final(self).skipped == old(self).skipped + (if outcome == EntryOutcome::Skipped {
                1int
            } else {
                0
            }),
            final(self).failed == old(self).failed + (if outcome == EntryOutcome::Failed {
                1int
            } else {
                0
            }),
    {
        match outcome {
            EntryOutcome::Extracted => self.extracted = self.extracted + 1,
            EntryOutcome::Skipped => self.skipped = self.skipped + 1,
            EntryOutcome::Failed => self.failed = self.failed + 1,
            EntryOutcome::NotCounted => {},
        }
    }
}

/// The counters after one entry's outcome: one field goes up by one, or
/// none for a directory.
pub open spec fn record_step(s: UnpackStats, o: EntryOutcome) -> UnpackStats {
    match o {
        EntryOutcome::Extracted => UnpackStats { extracted: (s.extracted + 1) as usize, ..s },
        EntryOutcome::Skipped => UnpackStats { skipped: (s.skipped + 1) as usize, ..s },
        EntryOutcome::Failed => UnpackStats { failed: (s.failed + 1) as usize, ..s },
        EntryOutcome::NotCounted => s,
    }
}

/// The counters after recording the outcomes `os` in order.
pub open spec fn record_all(s: UnpackStats, os: Seq<EntryOutcome>) -> UnpackStats
    decreases os.len(),
{
    if os.len() == 0 {
        s
    } else {
        record_step(record_all(s, os.drop_last()), os.last())
    }
}

/// How many of the outcomes `os` are `o`.
pub open spec fn outcome_count(os: Seq<EntryOutcome>, o: EntryOutcome) -> nat
    decreases os.len(),
{
    if os.len() == 0 {
        0
    } else {
        outcome_count(os.drop_last(), o) + if os.last() == o {
            1nat
        } else {
            0
        }
    }
}

/// Recording a run's outcomes counts every entry in exactly one field:
/// each field grows by the number of outcomes of its kind, so the total
/// grows by the number of entries that are not directories.
pub proof fn law_every_entry_counted_once(s: UnpackStats, os: Seq<EntryOutcome>)
    requires
        s.total() + os.len() < usize::MAX,
    ensures
        record_all(s, os).extracted == s.extracted + outcome_count(os, EntryOutcome::Extracted),
        record_all(s, os).skipped == s.skipped + outcome_count(os, EntryOutcome::Skipped),
        record_all(s, os).failed == s.failed + outcome_count(os, EntryOutcome::Failed),
        outcome_count(os, EntryOutcome::Extracted) + outcome_count(os, EntryOutcome::Skipped)
            + outcome_count(os, EntryOutcome::Failed) + outcome_count(os, EntryOutcome::NotCounted)
            == os.len(),
        record_all(s, os).total() == s.total() + os.len() - outcome_count(
            os,
            EntryOutcome::NotCounted,
        ),
    decreases os.len(),
{
    if os.len() > 0 {
        law_every_entry_counted_once(s, os.drop_last());
    }
}

/// The outcome of one entry, given what was planned for it, and for an
/// entry to extract whether a file of its size was already there and
/// whether writing it succeeded.
pub open spec fn entry_outcome_spec(a: EntryActionView, already_present: bool, written: bool) -> EntryOutcome {
    match a {
        EntryActionView::Failed => EntryOutcome::Failed,
        EntryActionView::Directory => EntryOutcome::NotCounted,
        EntryActionView::Filtered => EntryOutcome::Skipped,
        EntryActionView::WouldExtract(_) => EntryOutcome::Extracted,
        EntryActionView::Extract(_) => if already_present {
            EntryOutcome::Skipped
        } else if written {
            EntryOutcome::Extracted
        } else {
            EntryOutcome::Failed
        },
    }
}

/// The outcome to record for one entry (see `entry_outcome_spec`).
pub fn entry_outcome(action: &EntryAction, already_present: bool, written: bool) -> (o: EntryOutcome)
    ensures
        o == entry_outcome_spec(action@, already_present, written),
{
    match action {
        EntryAction::Failed => EntryOutcome::Failed,
        EntryAction::Directory => EntryOutcome::NotCounted,
        EntryAction::Filtered => EntryOutcome::Skipped,
        EntryAction::WouldExtract(_) => EntryOutcome::Extracted,
        EntryAction::Extract(_) => if already_present {
            EntryOutcome::Skipped
        } else if written {
            EntryOutcome::Extracted
        } else {
            EntryOutcome::Failed
        },
    }
}

/// The exit status of `war go unpack`: 1 when it failed or some entry
/// failed, 0 otherwise.
pub fn unpack_exit_code(result: &Result<UnpackStats, WarError>) -> (c: i32)
    ensures
        c == (match result {
            Ok(s) => if s.failed > 0 {
                1i32
            } else {
                0i32
            },
            Err(_) => 1i32,
        }),
{
    match result {
        Ok(s) => if s.failed > 0 {
            1
        } else {
            0
        },
        Err(_) => 1,
    }
}

/// Whether a target directory created by this run should be removed
/// again: nothing was extracted and something failed.
pub fn should_remove_target(stats: &UnpackStats, created_by_us: bool) -> (r: bool)
    ensures
        r == (stats.extracted == 0 && stats.failed > 0 && created_by_us),
{
    stats.extracted == 0 && stats.failed > 0 && created_by_us
}


// ------------------------------------------------------------------
// Pack then unpack
// ------------------------------------------------------------------

/// A segment of a module path: a plain name that holds no `!` and is not
/// `..` or `@v`.
pub open spec fn module_segment(c: Seq<char>) -> bool {
    plain_name(c) && c != parent_comp() && c != version_dir() && forall|j: int|
        0 <= j < c.len() ==> c[j] != '!'
}

/// The cache path of module segments `ms` (joined with `!`), `@v`, and
/// the names below it.
pub open spec fn cache_path(ms: Seq<Seq<char>>, rest: Seq<Seq<char>>) -> Seq<char> {
    join_with(seq![join_with(ms, seq!['!'])] + seq![version_dir()] + rest, seq!['/'])
}

/// The archive path of the same file: module segments joined with `/`.
pub open spec fn archive_path(ms: Seq<Seq<char>>, rest: Seq<Seq<char>>) -> Seq<char> {
    join_with(ms + seq![version_dir()] + rest, seq!['/'])
}

proof fn lemma_replace_append(a: Seq<char>, b: Seq<char>, from: char, to: char)
    ensures
        replace_char(a + b, from, to) == replace_char(a, from, to) + replace_char(b, from, to),
{
    assert(replace_char(a + b, from, to) =~= replace_char(a, from, to) + replace_char(b, from, to));
}

/// Turning the `!` of segments joined with `!` into `/` joins them with `/`.
proof fn lemma_replace_join(ms: Seq<Seq<char>>)
    requires
        ms.len() > 0,
        forall|i: int| 0 <= i < ms.len() ==> #[trigger] module_segment(ms[i]),
    ensures
        replace_char(join_with(ms, seq!['!']), '!', '/') == join_with(ms, seq!['/']),
    decreases ms.len(),
{
    let last = ms.last();
    assert(module_segment(last));
    assert(replace_char(last, '!', '/') =~= last);
    if ms.len() > 1 {
        let init = ms.drop_last();
        assert forall|i: int| 0 <= i < init.len() implies #[trigger] module_segment(init[i]) by {
            assert(module_segment(ms[i]));
        }
        lemma_replace_join(init);
        lemma_replace_append(join_with(init, seq!['!']) + seq!['!'], last, '!', '/');
        lemma_replace_append(join_with(init, seq!['!']), seq!['!'], '!', '/');
        assert(replace_char(seq!['!'], '!', '/') =~= seq!['/']);
    }
}

/// The module part of a cache path is a single plain name.
proof fn lemma_module_name_plain(ms: Seq<Seq<char>>)
    requires
        ms.len() > 0,
        forall|i: int| 0 <= i < ms.len() ==> #[trigger] module_segment(ms[i]),
    ensures
        plain_name(join_with(ms, seq!['!'])),
        join_with(ms, seq!['!']).len() >= ms[0].len(),
        forall|j: int| 0 <= j < ms[0].len() ==> join_with(ms, seq!['!'])[j] == ms[0][j],
    decreases ms.len(),
{
    assert(module_segment(ms[0]));
    if ms.len() == 1 {
        assert(module_segment(ms[0]));
    } else {
        let init = ms.drop_last();
        assert forall|i: int| 0 <= i < init.len() implies #[trigger] module_segment(init[i]) by {
            assert(module_segment(ms[i]));
        }
        lemma_module_name_plain(init);
        let j0 = join_with(init, seq!['!']);
        let m = j0 + seq!['!'] + ms.last();
        assert(module_segment(ms.last()));
        assert forall|j: int| 0 <= j < m.len() implies m[j] != '/' by {
            if j < j0.len() {
                assert(m[j] == j0[j]);
            } else if j > j0.len() {
                assert(m[j] == ms.last()[j - j0.len() - 1]);
            }
        }
        assert(m.len() > 1);
        assert(m != cur_comp());
        assert(init[0] == ms[0]);
        assert forall|j: int| 0 <= j < ms[0].len() implies m[j] == ms[0][j] by {
            assert(m[j] == j0[j]);
        }
    }
}

/// Packing then unpacking gives every cache file its cache path back: the
/// archive path that pack gives a cache path is mapped by unpack to that
/// same cache path.
pub proof fn law_unpack_restores_packed_path(ms: Seq<Seq<char>>, rest: Seq<Seq<char>>)
    requires
        ms.len() > 0,
        forall|i: int| 0 <= i < ms.len() ==> #[trigger] module_segment(ms[i]),
        forall|i: int| 0 <= i < rest.len() ==> #[trigger] plain_name(rest[i]),
    ensures
        normalize_spec(cache_path(ms, rest)) == archive_path(ms, rest),
        denormalize_spec(archive_path(ms, rest)) == cache_path(ms, rest),
{
    let m = join_with(ms, seq!['!']);
    let tail = seq![version_dir()] + rest;
    let cs0 = seq![m] + tail;
    lemma_module_name_plain(ms);
    assert(seq![m] + seq![version_dir()] + rest =~= cs0);
    assert forall|i: int| 0 <= i < tail.len() implies #[trigger] plain_name(tail[i]) by {
        if i > 0 {
            assert(tail[i] == rest[i - 1]);
        } else {
            assert(version_dir() != cur_comp());
        }
    }
    assert forall|i: int| 0 <= i < cs0.len() implies #[trigger] plain_name(cs0[i]) by {
        if i > 0 {
            assert(cs0[i] == tail[i - 1]);
        }
    }
    // Pack side.
    lemma_components_join(cs0);
    lemma_replace_join(ms);
    assert(cs0[0] == m);
    assert(cs0.drop_first() =~= tail);
    assert(seq![join_with(ms, seq!['/'])] + tail =~= seq![join_with(ms, seq!['/'])] + cs0.drop_first());
    lemma_join_cons(join_with(ms, seq!['/']), tail, seq!['/']);
    lemma_join_append(ms, tail, seq!['/']);
    assert(ms + seq![version_dir()] + rest =~= ms + tail);
    // Unpack side.
    let cs1 = ms + tail;
    assert forall|i: int| 0 <= i < cs1.len() implies #[trigger] plain_name(cs1[i]) by {
        if i < ms.len() {
            assert(cs1[i] == ms[i]);
            assert(module_segment(ms[i]));
        } else {
            assert(cs1[i] == tail[i - ms.len()]);
        }
    }
    lemma_components_join(cs1);
    assert forall|i: int| 0 <= i < ms.len() implies ms[i] != version_dir() by {
        assert(module_segment(ms[i]));
    }
    assert(cs1 =~= ms + seq![version_dir()] + rest);
    lemma_first_index_after(ms, version_dir(), rest);
    assert(cs1.take(ms.len() as int) =~= ms);
    assert(cs1.skip(ms.len() as int) =~= tail);
    assert forall|i: int| 0 <= i < ms.len() implies #[trigger] is_normal(ms[i]) by {
        assert(module_segment(ms[i]));
        if ms[i] == root_comp() {
            assert(ms[i][0] == '/');
        }
    }
    lemma_normal_only_all(ms);
    lemma_join_cons(m, tail, seq!['/']);
}

} // verus!
