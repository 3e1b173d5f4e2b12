//! Archiving the Go module cache: which cache files go into the archive
//! and under which archive path.
//!
//! The cache joins a module path with `!`
//! (`github.com!gin-gonic!gin/@v/v1.9.1.info`); the archive uses `/`
//! (`github.com/gin-gonic/gin/@v/v1.9.1.info`).
use vstd::prelude::*;
use crate::error::WarError;
use crate::path::{
    components, components_exec, file_stem, file_stem_exec, first_index, first_index_exec,
    join_comps, texts, version_dir,
};
use crate::text::{chars_eq, chars_of, join_with, push_chars, replace_char, replace_char_exec};
use crate::unpack::filter_view;

verus! {

/// The archive path of cache components: the first component with `!`
/// turned into `/`, then the others, all joined with `/`.
pub open spec fn normalize_comps(cs: Seq<Seq<char>>) -> Seq<char> {
    if cs.len() == 0 {
        Seq::empty()
    } else {
        join_with(seq![replace_char(cs[0], '!', '/')] + cs.drop_first(), seq!['/'])
    }
}

/// The archive path of a cache path.
pub open spec fn normalize_spec(relative: Seq<char>) -> Seq<char> {
    normalize_comps(components(relative))
}

/// The version a filter pair names: `latest` stands for every version.
pub open spec fn latest() -> Seq<char> {
    seq!['l', 'a', 't', 'e', 's', 't']
}

/// A staged pair admits `(module, version)`.
pub open spec fn pair_admits(p: (Seq<char>, Seq<char>), module: Seq<char>, version: Seq<char>) -> bool {
    p.0 == module && (p.1 == latest() || p.1 == version)
}

/// The module a cache path (relative components) belongs to, and the
/// version: components before `@v` joined with `/` and `!` turned into
/// `/`, and the stem of the file after `@v`.
pub open spec fn cache_pair(parts: Seq<Seq<char>>, v: int) -> (Seq<char>, Seq<char>) {
    (replace_char(join_with(parts.take(v), seq!['/']), '!', '/'), file_stem(parts[v + 1]))
}

/// The error for a file outside the cache root.
pub open spec fn not_under_root_msg(file: Seq<char>, root: Seq<char>) -> Seq<char> {
    "Path "@ + file + " not under cache root "@ + root + ": prefix not found"@
}

/// The error for a cache path without `@v`.
pub open spec fn missing_version_dir_msg() -> Seq<char> {
    "Invalid cache path (missing @v)"@
}

/// The components of `file` below `root`, when `root`'s components start
/// `file`'s (`Path::strip_prefix`).
pub open spec fn strip_root(root: Seq<char>, file: Seq<char>) -> Option<Seq<Seq<char>>> {
    let rc = components(root);
    let fc = components(file);
    if rc.len() <= fc.len() && fc.take(rc.len() as int) == rc {
        Some(fc.skip(rc.len() as int))
    } else {
        None
    }
}

/// Whether a cache file belongs to a module in the staged filter.
pub open spec fn matches_filter_spec(
    root: Seq<char>,
    file: Seq<char>,
    filter: Seq<(Seq<char>, Seq<char>)>,
) -> Result<bool, Seq<char>> {
    match strip_root(root, file) {
        None => Err(not_under_root_msg(file, root)),
        Some(parts) => if parts.len() < 3 {
            Ok(false)
        } else {
            match first_index(parts, version_dir()) {
                None => Err(missing_version_dir_msg()),
                Some(v) => if v + 1 >= parts.len() {
                    Ok(false)
                } else {
                    let (module, version) = cache_pair(parts, v);
                    Ok(exists|i: int|
                        0 <= i < filter.len() && pair_admits(#[trigger] filter[i], module, version))
                },
            }
        },
    }
}

/// Convert a Go cache relative path (with `!` separators in the first
/// component) into an archive path (with `/` separators).
///
/// Example: `github.com!gin-gonic!gin/@v/v1.9.1.info`
///       → `github.com/gin-gonic/gin/@v/v1.9.1.info`
pub fn normalize_cache_path(relative: &str) -> (r: String)
    ensures
        r@ == normalize_spec(relative@),
{
    let chars = chars_of(relative);
    let cs = components_exec(&chars);
    let v = normalize_comps_exec(&cs, 0);
    proof {
        assert(texts(cs@).skip(0) =~= texts(cs@));
    }
    crate::text::string_of(&v)
}

/// The archive path of components `cs[from..]`.
fn normalize_comps_exec(cs: &Vec<Vec<char>>, from: usize) -> (r: Vec<char>)
    requires
        from <= cs.len(),
    ensures
        r@ == normalize_comps(texts(cs@).skip(from as int)),
{
    if from >= cs.len() {
        return Vec::new();
    }
    let first = replace_char_exec(&cs[from], '!', '/');
    let rest = join_comps(cs, from + 1, cs.len(), '/', false);
    let mut out = first;
    let ghost parts = texts(cs@).skip(from as int);
    let ghost tail = texts(cs@).subrange(from + 1, cs@.len() as int);
    proof {
        assert(parts.drop_first() =~= tail);
        lemma_join_cons(replace_char(parts[0], '!', '/'), tail, seq!['/']);
    }
    if rest.len() > 0 || from + 1 < cs.len() {
        out.push('/');
    }
    let ghost before = out@;
    push_chars_vec(&mut out, &rest);
    proof {
        if tail.len() == 0 {
            assert(seq![replace_char(parts[0], '!', '/')] + tail =~= seq![replace_char(parts[0], '!', '/')]);
        }
    }
    out
}

fn push_chars_vec(out: &mut Vec<char>, v: &Vec<char>)
    ensures
        final(out)@ == old(out)@ + v@,
{
    let mut i: usize = 0;
    while i < v.len()
        invariant
            i <= v.len(),
            out@ == old(out)@ + v@.take(i as int),
        decreases v.len() - i,
    {
        out.push(v[i]);
        assert(v@.take(i + 1) =~= v@.take(i as int).push(v@[i as int]));
        i = i + 1;
    }
    assert(v@.take(v@.len() as int) =~= v@);
}

/// Joining `[x] + rest` puts `x` in front of the rest joined.
pub proof fn lemma_join_cons(x: Seq<char>, rest: Seq<Seq<char>>, sep: Seq<char>)
    ensures
        join_with(seq![x] + rest, sep) == if rest.len() == 0 {
            x
        } else {
            x + sep + join_with(rest, sep)
        },
    decreases rest.len(),
{
    if rest.len() == 0 {
        assert(seq![x] + rest =~= seq![x]);
    } else if rest.len() == 1 {
        assert((seq![x] + rest).drop_last() =~= seq![x]);
        assert((seq![x] + rest).last() == rest[0]);
        assert(join_with(seq![x], sep) == x);
        assert(join_with(rest, sep) == rest[0]);
    } else {
        lemma_join_cons(x, rest.drop_last(), sep);
        assert((seq![x] + rest).drop_last() =~= seq![x] + rest.drop_last());
        assert((seq![x] + rest).last() == rest.last());
        assert(x + sep + join_with(rest.drop_last(), sep) + sep + rest.last() =~= x + sep + (
        join_with(rest.drop_last(), sep) + sep + rest.last()));
    }
}

/// Whether some filter pair admits `(module, version)`.
fn filter_admits(filter: &Vec<(String, String)>, module: &Vec<char>, version: &Vec<char>) -> (r:
    bool)
    ensures
        r == exists|i: int|
            0 <= i < filter@.len() && pair_admits(
                #[trigger] filter_view(filter@)[i],
                module@,
                version@,
            ),
{
    let latest_chars = vec!['l', 'a', 't', 'e', 's', 't'];
    proof {
        assert(latest_chars@ =~= latest());
    }
    let mut i: usize = 0;
    while i < filter.len()
        invariant
            i <= filter.len(),
            latest_chars@ == latest(),
            forall|j: int|
                0 <= j < i ==> !pair_admits(#[trigger] filter_view(filter@)[j], module@, version@),
        decreases filter.len() - i,
    {
        let m = chars_of(filter[i].0.as_str());
        let v = chars_of(filter[i].1.as_str());
        if chars_eq(&m, module) && (chars_eq(&v, &latest_chars) || chars_eq(&v, version)) {
            assert(pair_admits(filter_view(filter@)[i as int], module@, version@));
            return true;
        }
        i = i + 1;
    }
    false
}

/// Check whether a file in the cache belongs to a module in the staged
/// filter list.
///
/// The path of `file` below `cache_root` has the shape
/// `<module with !>/@v/<version>.<ext>`.  Everything before `@v` is the
/// module path (with `!` → `/`); the file name under `@v` gives the
/// version (before the extension).  A filter version `latest` matches any
/// version of that module.
pub fn matches_filter(cache_root: &str, file: &str, filter: &Vec<(String, String)>) -> (r: Result<
    bool,
    WarError,
>)
    ensures
        match matches_filter_spec(cache_root@, file@, filter_view(filter@)) {
            Ok(b) => r == Ok::<bool, WarError>(b),
            Err(msg) => r matches Err(WarError::InvalidInput(m)) && m@ == msg,
        },
{
    let parts = match relative_components(cache_root, file) {
        Some(p) => p,
        None => {
            let mut msg = String::from_str("Path ");
            msg.append(file);
            msg.append(" not under cache root ");
            msg.append(cache_root);
            msg.append(": prefix not found");
            proof {
                assert(msg@ =~= not_under_root_msg(file@, cache_root@));
            }
            return Err(WarError::InvalidInput(msg));
        },
    };
    if parts.len() < 3 {
        return Ok(false);
    }
    let at_v = vec!['@', 'v'];
    proof {
        assert(at_v@ =~= version_dir());
        crate::path::lemma_first_index(texts(parts@), version_dir());
    }
    let v = match first_index_exec(&parts, &at_v) {
        Some(v) => v,
        None => {
            return Err(WarError::InvalidInput(String::from_str("Invalid cache path (missing @v)")));
        },
    };
    if v + 1 >= parts.len() {
        return Ok(false);
    }
    let joined = join_comps(&parts, 0, v, '/', false);
    let module = replace_char_exec(&joined, '!', '/');
    let version = file_stem_exec(&parts[v + 1]);
    proof {
        assert(texts(parts@).subrange(0, v as int) =~= texts(parts@).take(v as int));
    }
    Ok(filter_admits(filter, &module, &version))
}

/// The components of `file` below `root`.
pub fn relative_components(root: &str, file: &str) -> (r: Option<Vec<Vec<char>>>)
    ensures
        match r {
            Some(p) => strip_root(root@, file@) == Some(texts(p@)),
            None => strip_root(root@, file@) is None,
        },
{
    let root_chars = chars_of(root);
    let file_chars = chars_of(file);
    let rc = components_exec(&root_chars);
    let fc = components_exec(&file_chars);
    if rc.len() > fc.len() {
        return None;
    }
    let mut i: usize = 0;
    while i < rc.len()
        invariant
            i <= rc.len() <= fc.len(),
            texts(rc@) == components(root@),
            texts(fc@) == components(file@),
            forall|j: int| 0 <= j < i ==> texts(fc@)[j] == texts(rc@)[j],
        decreases rc.len() - i,
    {
        if !chars_eq(&fc[i], &rc[i]) {
            proof {
                assert(texts(fc@).take(rc@.len() as int)[i as int] != texts(rc@)[i as int]);
                assert(texts(fc@).take(rc@.len() as int) != texts(rc@));
                assert(components(file@).take(components(root@).len() as int) != components(root@));
            }
            return None;
        }
        i = i + 1;
    }
    proof {
        assert(texts(fc@).take(rc@.len() as int) =~= texts(rc@));
    }
    let mut out: Vec<Vec<char>> = Vec::new();
    let mut k = rc.len();
    while k < fc.len()
        invariant
            rc.len() <= k <= fc.len(),
            texts(rc@) == components(root@),
            texts(fc@) == components(file@),
            texts(fc@).take(rc@.len() as int) == texts(rc@),
            texts(out@) == texts(fc@).subrange(rc@.len() as int, k as int),
        decreases fc.len() - k,
    {
        let item = crate::text::slice_of(&fc[k], 0, fc[k].len());
        let ghost prev = out@;
        out.push(item);
        proof {
            assert(fc@[k as int]@.subrange(0, fc@[k as int]@.len() as int) =~= fc@[k as int]@);
            assert(texts(out@) =~= texts(prev).push(fc@[k as int]@));
            assert(texts(out@) =~= texts(fc@).subrange(rc@.len() as int, k + 1));
        }
        k = k + 1;
    }
    proof {
        assert(texts(fc@).subrange(rc@.len() as int, fc@.len() as int) =~= texts(fc@).skip(
            rc@.len() as int,
        ));
    }
    Some(out)
}


/// The error for a walked file outside the cache root.
pub open spec fn walked_outside_msg(file: Seq<char>, root: Seq<char>) -> Seq<char> {
    "Path "@ + file + " is not under cache root "@ + root + ": prefix not found"@
}

/// One file to archive: its path on disk and its path in the archive.
#[derive(Debug, Clone)]
pub struct PackEntry {
    /// The file in the cache.
    pub file: String,
    /// The `/`-separated path the file gets in the archive.
    pub archive_path: String,
}

/// The files to archive, in walk order, and how many the staged filter
/// left out.
#[derive(Debug, Clone)]
pub struct PackPlan {
    /// Files to archive.
    pub entries: Vec<PackEntry>,
    /// Files left out by the staged filter.
    pub skipped: usize,
}

/// The plan for the cache files `files` (as walked under `root`): each
/// file the filter admits gets its archive path; an error of the filter,
/// or a file outside the root, stops the plan.
pub open spec fn pack_plan_spec(
    root: Seq<char>,
    files: Seq<Seq<char>>,
    filter: Option<Seq<(Seq<char>, Seq<char>)>>,
) -> Result<(Seq<(Seq<char>, Seq<char>)>, nat), Seq<char>>
    decreases files.len(),
{
    if files.len() == 0 {
        Ok((Seq::empty(), 0))
    } else {
        match pack_plan_spec(root, files.drop_last(), filter) {
            Err(e) => Err(e),
            Ok((entries, skipped)) => {
                let f = files.last();
                let verdict = match filter {
                    Some(flt) => matches_filter_spec(root, f, flt),
                    None => Ok(true),
                };
                match verdict {
                    Err(e) => Err(e),
                    Ok(false) => Ok((entries, skipped + 1)),
                    Ok(true) => match strip_root(root, f) {
                        None => Err(walked_outside_msg(f, root)),
                        Some(parts) => Ok((entries.push((f, normalize_comps(parts))), skipped)),
                    },
                }
            },
        }
    }
}

/// The entries of a plan as their contents.
pub open spec fn entries_view(v: Seq<PackEntry>) -> Seq<(Seq<char>, Seq<char>)> {
    v.map_values(|e: PackEntry| (e.file@, e.archive_path@))
}

/// Decide which walked cache files go into the archive and under which
/// archive path.  With a staged filter, only files of staged modules are
/// taken (version `latest` takes every version of its module); the others
/// are counted as skipped.
pub fn plan_pack(
    cache_root: &str,
    files: &Vec<String>,
    staged_filter: &Option<Vec<(String, String)>>,
) -> (r: Result<PackPlan, WarError>)
    requires
        files@.len() < usize::MAX,
    ensures
        match pack_plan_spec(
            cache_root@,
            crate::types::strings_view(files@),
            crate::unpack::opt_filter_view(*staged_filter),
        ) {
            Ok((entries, skipped)) => r matches Ok(plan) && entries_view(plan.entries@) == entries
                && plan.skipped == skipped,
            Err(msg) => r matches Err(WarError::InvalidInput(m)) && m@ == msg,
        },
{
    let ghost fv = crate::types::strings_view(files@);
    let ghost flt = crate::unpack::opt_filter_view(*staged_filter);
    let mut entries: Vec<PackEntry> = Vec::new();
    let mut skipped: usize = 0;
    let mut i: usize = 0;
    proof {
        assert(fv.take(0) =~= Seq::<Seq<char>>::empty());
        assert(entries_view(entries@) =~= Seq::empty());
    }
    while i < files.len()
        invariant
            i <= files.len() < usize::MAX,
            fv == crate::types::strings_view(files@),
            flt == crate::unpack::opt_filter_view(*staged_filter),
            skipped <= i,
            pack_plan_spec(cache_root@, fv.take(i as int), flt) == Ok::<
                (Seq<(Seq<char>, Seq<char>)>, nat),
                Seq<char>,
            >((entries_view(entries@), skipped as nat)),
        decreases files.len() - i,
    {
        let f = &files[i];
        proof {
            assert(fv.take(i + 1).drop_last() =~= fv.take(i as int));
            assert(fv.take(i + 1).last() == f@);
        }
        let admitted = match staged_filter {
            Some(filter) => match matches_filter(cache_root, f.as_str(), filter) {
                Ok(b) => b,
                Err(e) => {
                    proof {
                        lemma_pack_plan_err_sticks(cache_root@, fv, flt, i as int + 1);
                    }
                    return Err(e);
                },
            },
            None => true,
        };
        if !admitted {
            skipped = skipped + 1;
        } else {
            match relative_components(cache_root, f.as_str()) {
                None => {
                    let mut msg = String::from_str("Path ");
                    msg.append(f.as_str());
                    msg.append(" is not under cache root ");
                    msg.append(cache_root);
                    msg.append(": prefix not found");
                    proof {
                        assert(msg@ =~= walked_outside_msg(f@, cache_root@));
                        lemma_pack_plan_err_sticks(cache_root@, fv, flt, i as int + 1);
                    }
                    return Err(WarError::InvalidInput(msg));
                },
                Some(parts) => {
                    let archive = normalize_comps_exec(&parts, 0);
                    proof {
                        assert(texts(parts@).skip(0) =~= texts(parts@));
                    }
                    let ghost prev = entries@;
                    entries.push(
                        PackEntry {
                            file: f.clone(),
                            archive_path: crate::text::string_of(&archive),
                        },
                    );
                    proof {
                        assert(entries_view(entries@) =~= entries_view(prev).push(
                            (f@, normalize_comps(texts(parts@))),
                        ));
                    }
                },
            }
        }
        i = i + 1;
    }
    proof {
        assert(fv.take(files@.len() as int) =~= fv);
    }
    Ok(PackPlan { entries, skipped })
}

/// A staged filter admits a cache file exactly through a pair that names
/// the file's module (the components before the first `@v`, joined with
/// `/`, with `!` read as `/`) and either the file's version (the stem of the
/// component after `@v`) or `latest`.  So a pair of another module never
/// admits the file, and a pair with another version admits it only when
/// that version is `latest`.
pub proof fn law_filter_admits_by_module_and_version(
    root: Seq<char>,
    file: Seq<char>,
    filter: Seq<(Seq<char>, Seq<char>)>,
)
    ensures
        matches_filter_spec(root, file, filter) == Ok::<bool, Seq<char>>(true) <==> (
        strip_root(root, file) matches Some(parts) && parts.len() >= 3 && exists|k: int, i: int|
            #![trigger parts[k], filter[i]]
            0 <= k && k + 1 < parts.len() && parts[k] == seq!['@', 'v'] && (forall|j: int|
                0 <= j < k ==> parts[j] != seq!['@', 'v']) && 0 <= i < filter.len() && filter[i].0
                == replace_char(join_with(parts.take(k), seq!['/']), '!', '/') && (filter[i].1
                == seq!['l', 'a', 't', 'e', 's', 't'] || filter[i].1 == file_stem(parts[k + 1]))),
{
    if let Some(parts) = strip_root(root, file) {
        crate::path::lemma_first_index(parts, version_dir());
        if parts.len() >= 3 {
            if matches_filter_spec(root, file, filter) == Ok::<bool, Seq<char>>(true) {
                let k = first_index(parts, version_dir())->0;
                let i = choose|i: int|
                    0 <= i < filter.len() && pair_admits(
                        #[trigger] filter[i],
                        cache_pair(parts, k).0,
                        cache_pair(parts, k).1,
                    );
                assert(parts[k] == seq!['@', 'v']);
                assert(filter[i] == filter[i]);
            }
            if exists|k: int, i: int|
                #![trigger parts[k], filter[i]]
                0 <= k && k + 1 < parts.len() && parts[k] == seq!['@', 'v'] && (forall|j: int|
                    0 <= j < k ==> parts[j] != seq!['@', 'v']) && 0 <= i < filter.len()
                    && filter[i].0 == replace_char(join_with(parts.take(k), seq!['/']), '!', '/')
                    && (filter[i].1 == seq!['l', 'a', 't', 'e', 's', 't'] || filter[i].1 == file_stem(
                    parts[k + 1],
                ))
            {
                let (k, i) = choose|k: int, i: int|
                    #![trigger parts[k], filter[i]]
                    0 <= k && k + 1 < parts.len() && parts[k] == seq!['@', 'v'] && (forall|j: int|
                        0 <= j < k ==> parts[j] != seq!['@', 'v']) && 0 <= i < filter.len()
                        && filter[i].0 == replace_char(join_with(parts.take(k), seq!['/']), '!', '/')
                        && (filter[i].1 == seq!['l', 'a', 't', 'e', 's', 't'] || filter[i].1
                        == file_stem(parts[k + 1]));
                let f = first_index(parts, version_dir());
                assert(f == Some(k)) by {
                    if f is None {
                        assert(parts[k] == version_dir());
                    } else {
                        let k2 = f->0;
                        if k2 < k {
                            assert(parts[k2] == version_dir());
                        } else if k2 > k {
                            assert(parts[k] == version_dir());
                        }
                    }
                }
                assert(pair_admits(filter[i], cache_pair(parts, k).0, cache_pair(parts, k).1));
            }
        }
    }
}

/// With a staged filter, the archive holds only files the filter admits:
/// each packed file is admitted, and each walked file is either packed or
/// counted as skipped.  Without a filter every file is packed.
pub proof fn law_staged_pack_admits_only_staged(
    root: Seq<char>,
    files: Seq<Seq<char>>,
    filter: Option<Seq<(Seq<char>, Seq<char>)>>,
)
    ensures
        pack_plan_spec(root, files, filter) matches Ok((entries, skipped)) ==> {
            &&& entries.len() + skipped == files.len()
            &&& filter is None ==> skipped == 0
            &&& forall|i: int|
                0 <= i < entries.len() ==> match filter {
                    Some(f) => matches_filter_spec(root, #[trigger] entries[i].0, f) == Ok::<
                        bool,
                        Seq<char>,
                    >(true),
                    None => true,
                }
        },
    decreases files.len(),
{
    if files.len() > 0 {
        law_staged_pack_admits_only_staged(root, files.drop_last(), filter);
        if let Ok((entries, skipped)) = pack_plan_spec(root, files, filter) {
            if let Ok((e0, s0)) = pack_plan_spec(root, files.drop_last(), filter) {
                assert forall|i: int| 0 <= i < e0.len() implies #[trigger] entries[i] == e0[i] by {
                    if entries.len() > e0.len() {
                        assert(entries == e0.push(entries.last()));
                    }
                }
            }
        }
    }
}

/// Once a prefix of the files stops the plan with an error, the whole
/// plan stops with that error.
proof fn lemma_pack_plan_err_sticks(
    root: Seq<char>,
    files: Seq<Seq<char>>,
    filter: Option<Seq<(Seq<char>, Seq<char>)>>,
    n: int,
)
    requires
        0 <= n <= files.len(),
        pack_plan_spec(root, files.take(n), filter) is Err,
    ensures
        pack_plan_spec(root, files, filter) == pack_plan_spec(root, files.take(n), filter),
    decreases files.len() - n,
{
    if n < files.len() {
        assert(files.take(n + 1).drop_last() =~= files.take(n));
        lemma_pack_plan_err_sticks(root, files, filter, n + 1);
    } else {
        assert(files.take(n) =~= files);
    }
}

} // verus!
