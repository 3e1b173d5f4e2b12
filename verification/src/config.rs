//! The war configuration (`~/.war/war.lock`) and the operations on its
//! staged-modules list.
//!
//! Reading and writing the file happen around these functions: each one
//! takes the loaded configuration, changes it in memory, and says whether
//! there is anything to persist.
use vstd::prelude::*;
use crate::order::{sort_staged, sorted_pairs, staged_le, staged_lt, lemma_staged_lt_asym, lemma_staged_le_trans, lemma_staged_lt_irrefl};
use vstd::multiset::Multiset;
use crate::types::{staged_views, GoConfig, RustConfig, StagedModule};

verus! {

/// Root configuration structure stored in ~/.war/war.lock.
#[derive(Debug, Clone)]
pub struct WarConfig {
    /// Schema version for future migration support.
    pub schema_version: u32,
    /// Go-specific configuration section.
    pub go: Option<GoConfig>,
    /// Rust-specific configuration section (future).
    pub rust: Option<RustConfig>,
}

impl Default for WarConfig {
    fn default() -> (c: Self)
        ensures
            c.schema_version == 1,
            c.go matches Some(g) && g.staged_modules@.len() == 0 && g.last_vendor_path is None
                && g.last_sync_timestamp is None && g.go_version is None,
            c.rust is None,
    {
        WarConfig { schema_version: 1, go: Some(GoConfig::default()), rust: None }
    }
}

/// The staged `(module, version)` pairs of a configuration; none when the
/// Go section is absent.
pub open spec fn staged_list(c: WarConfig) -> Seq<(Seq<char>, Seq<char>)> {
    match c.go {
        Some(g) => staged_views(g.staged_modules@),
        None => Seq::empty(),
    }
}

/// `s` without any occurrence of `x`, the rest in order.
pub open spec fn remove_all(s: Seq<(Seq<char>, Seq<char>)>, x: (Seq<char>, Seq<char>)) -> Seq<
    (Seq<char>, Seq<char>),
>
    decreases s.len(),
{
    if s.len() == 0 {
        s
    } else if s.last() == x {
        remove_all(s.drop_last(), x)
    } else {
        remove_all(s.drop_last(), x).push(s.last())
    }
}

/// The Go section after the call keeps every field but the staged list.
pub open spec fn go_rest_kept(before: WarConfig, after: WarConfig) -> bool {
    &&& after.schema_version == before.schema_version
    &&& after.rust == before.rust
    &&& after.go matches Some(g) && match before.go {
        Some(g0) => g.last_vendor_path == g0.last_vendor_path && g.last_sync_timestamp
            == g0.last_sync_timestamp && g.go_version == g0.go_version,
        None => g.last_vendor_path is None && g.last_sync_timestamp is None && g.go_version is None,
    }
}

/// Puts a default Go section into `config` when it has none.
fn fill_go(config: &mut WarConfig)
    ensures
        go_rest_kept(*old(config), *final(config)),
        staged_list(*final(config)) == staged_list(*old(config)),
        old(config).go is Some ==> *final(config) == *old(config),
        old(config).go is None ==> (final(config).go matches Some(g) && g.staged_modules@.len() == 0
            && g.last_vendor_path is None && g.last_sync_timestamp is None && g.go_version is None),
{
    if config.go.is_none() {
        config.go = Some(GoConfig::default());
        assert(staged_views(Seq::<StagedModule>::empty()) =~= Seq::empty());
    }
}

/// The Go section of `config`, created with defaults when absent.
pub fn ensure_go_config(config: &mut WarConfig) -> (go: &mut GoConfig)
    ensures
        old(config).go matches Some(g) ==> *go == g,
        old(config).go is None ==> (go.staged_modules@.len() == 0 && go.last_vendor_path is None
            && go.last_sync_timestamp is None && go.go_version is None),
        final(config).schema_version == old(config).schema_version,
        final(config).rust == old(config).rust,
        final(config).go == Some(*final(go)),
{
    fill_go(config);
    config.go.as_mut().unwrap()
}

/// Takes the Go section out of `config` (a default one when absent).
fn take_go(config: &mut WarConfig) -> (g: GoConfig)
    ensures
        final(config).schema_version == old(config).schema_version,
        final(config).rust == old(config).rust,
        final(config).go is None,
        staged_views(g.staged_modules@) == staged_list(*old(config)),
        go_rest_kept(*old(config), WarConfig { go: Some(g), ..*final(config) }),
{
    fill_go(config);
    config.go.take().unwrap()
}

/// Whether `v` holds the pair `(module, version)`.
fn holds_pair(v: &Vec<StagedModule>, module: &String, version: &String) -> (r: bool)
    ensures
        r == staged_views(v@).contains((module@, version@)),
{
    let mut i: usize = 0;
    while i < v.len()
        invariant
            i <= v.len(),
            forall|j: int| 0 <= j < i ==> staged_views(v@)[j] != (module@, version@),
        decreases v.len() - i,
    {
        if v[i].module == *module && v[i].version == *version {
            assert(staged_views(v@)[i as int] == (module@, version@));
            return true;
        }
        i = i + 1;
    }
    false
}

/// Add `(module, version)` to the staged list.
///
/// Deduplicates by `(module, version)`: when the pair is already staged the
/// list is left as it was and `false` is returned.  Otherwise the pair is
/// added, the list is put in order, and `true` is returned: the caller then
/// persists the configuration.
pub fn stage_add(config: &mut WarConfig, module: &str, version: &str) -> (added: bool)
    ensures
        added == !staged_list(*old(config)).contains((module@, version@)),
        !added ==> staged_list(*final(config)) == staged_list(*old(config)),
        added ==> sorted_pairs(staged_list(*final(config))),
        added ==> staged_list(*final(config)).to_multiset() == staged_list(
            *old(config),
        ).to_multiset().insert((module@, version@)),
        go_rest_kept(*old(config), *final(config)),
{
    let mut go = take_go(config);
    let candidate = StagedModule::new(module, version);
    if holds_pair(&go.staged_modules, &candidate.module, &candidate.version) {
        config.go = Some(go);
        return false;
    }
    let ghost before = staged_views(go.staged_modules@);
    let mut list = Vec::new();
    std::mem::swap(&mut list, &mut go.staged_modules);
    list.push(candidate);
    proof {
        assert(staged_views(list@) =~= before.push((module@, version@)));
        before.to_multiset_ensures();
    }
    go.staged_modules = sort_staged(list);
    config.go = Some(go);
    true
}

/// Remove every `(module, version)` entry from the staged list.
///
/// Returns `true` if the pair was staged (the caller then persists the
/// configuration), `false` if it was not in the list.
pub fn stage_remove(config: &mut WarConfig, module: &str, version: &str) -> (removed: bool)
    ensures
        removed == staged_list(*old(config)).contains((module@, version@)),
        staged_list(*final(config)) == remove_all(staged_list(*old(config)), (module@, version@)),
        go_rest_kept(*old(config), *final(config)),
{
    let mut go = take_go(config);
    let target = StagedModule::new(module, version);
    let ghost x = (module@, version@);
    let ghost before = staged_views(go.staged_modules@);
    let mut kept: Vec<StagedModule> = Vec::new();
    let mut i: usize = 0;
    let mut found = false;
    while i < go.staged_modules.len()
        invariant
            i <= go.staged_modules.len(),
            before == staged_views(go.staged_modules@),
            staged_views(kept@) == remove_all(before.take(i as int), x),
            found == before.take(i as int).contains(x),
            target@ == x,
        decreases go.staged_modules.len() - i,
    {
        let e = &go.staged_modules[i];
        proof {
            assert(before.take(i + 1).drop_last() == before.take(i as int));
            assert(before.take(i + 1).last() == e@);
        }
        if e.module == target.module && e.version == target.version {
            found = true;
            assert(before.take(i + 1)[i as int] == x);
        } else {
            kept.push(e.duplicate());
            assert(staged_views(kept@) =~= remove_all(before.take(i as int), x).push(e@));
            proof {
                if found {
                    let j = choose|j: int| 0 <= j < i && before.take(i as int)[j] == x;
                    assert(before.take(i + 1)[j] == x);
                } else {
                    assert forall|j: int| 0 <= j < i + 1 implies #[trigger] before.take(i + 1)[j]
                        != x by {
                        if j < i {
                            assert(before.take(i + 1)[j] == before.take(i as int)[j]);
                        }
                    }
                }
            }
        }
        i = i + 1;
    }
    proof {
        assert(before.take(i as int) == before);
    }
    go.staged_modules = kept;
    config.go = Some(go);
    found
}

/// Clear all staged modules.
pub fn stage_clear(config: &mut WarConfig)
    ensures
        staged_list(*final(config)).len() == 0,
        go_rest_kept(*old(config), *final(config)),
{
    let mut go = take_go(config);
    go.staged_modules = Vec::new();
    config.go = Some(go);
    assert(staged_views(Seq::<StagedModule>::empty()) =~= Seq::empty());
}

/// A copy of the staged-modules list.
pub fn stage_list(config: &WarConfig) -> (v: Vec<StagedModule>)
    ensures
        staged_views(v@) == staged_list(*config),
{
    let mut v: Vec<StagedModule> = Vec::new();
    match &config.go {
        Some(go) => {
            let mut i: usize = 0;
            while i < go.staged_modules.len()
                invariant
                    i <= go.staged_modules.len(),
                    staged_views(v@) == staged_views(go.staged_modules@).take(i as int),
                decreases go.staged_modules.len() - i,
            {
                let d = go.staged_modules[i].duplicate();
                let ghost prev = v@;
                v.push(d);
                assert(staged_views(v@) =~= staged_views(prev).push(d@));
                assert(staged_views(go.staged_modules@).take(i + 1) =~= staged_views(
                    go.staged_modules@,
                ).take(i as int).push(go.staged_modules@[i as int]@));
                assert(staged_views(v@) =~= staged_views(go.staged_modules@).take(i + 1));
                i = i + 1;
            }
            assert(staged_views(go.staged_modules@).take(i as int) == staged_views(
                go.staged_modules@,
            ));
        },
        None => {
            assert(staged_views(v@) =~= Seq::empty());
        },
    }
    v
}

/// The staged list as `(module, version)` string pairs, the filter that
/// pack and unpack take.
pub fn staged_filter_pairs(config: &WarConfig) -> (pairs: Vec<(String, String)>)
    ensures
        pairs@.map_values(|p: (String, String)| (p.0@, p.1@)) == staged_list(*config),
{
    let list = stage_list(config);
    let mut pairs: Vec<(String, String)> = Vec::new();
    let mut i: usize = 0;
    while i < list.len()
        invariant
            i <= list.len(),
            pairs@.map_values(|p: (String, String)| (p.0@, p.1@)) == staged_views(list@).take(
                i as int,
            ),
        decreases list.len() - i,
    {
        let p = (list[i].module.clone(), list[i].version.clone());
        let ghost prev = pairs@;
        pairs.push(p);
        assert(pairs@.map_values(|p: (String, String)| (p.0@, p.1@)) =~= prev.map_values(
            |p: (String, String)| (p.0@, p.1@),
        ).push(list@[i as int]@));
        assert(staged_views(list@).take(i + 1) =~= staged_views(list@).take(i as int).push(
            list@[i as int]@,
        ));
        assert(pairs@.map_values(|p: (String, String)| (p.0@, p.1@)) =~= staged_views(list@).take(
            i + 1,
        ));
        i = i + 1;
    }
    assert(staged_views(list@).take(i as int) == staged_views(list@));
    pairs
}


// ------------------------------------------------------------------
// Laws of the staged list
// ------------------------------------------------------------------

/// Once a pair is added, it is staged: a second `stage_add` of the same
/// pair reports `false` and changes nothing.
pub proof fn law_added_pair_is_staged(
    before: Seq<(Seq<char>, Seq<char>)>,
    after: Seq<(Seq<char>, Seq<char>)>,
    x: (Seq<char>, Seq<char>),
)
    requires
        after.to_multiset() == before.to_multiset().insert(x),
    ensures
        after.contains(x),
{
    after.to_multiset_ensures();
    vstd::multiset::lemma_insert_increases_count_by_1(before.to_multiset(), x);
}

/// Adding keeps the list free of duplicates: when every pair occurred at
/// most once before, it does after.
pub proof fn law_add_keeps_pairs_unique(
    before: Seq<(Seq<char>, Seq<char>)>,
    after: Seq<(Seq<char>, Seq<char>)>,
    x: (Seq<char>, Seq<char>),
)
    requires
        forall|y: (Seq<char>, Seq<char>)| #[trigger] before.to_multiset().count(y) <= 1,
        !before.contains(x),
        after.to_multiset() == before.to_multiset().insert(x),
    ensures
        forall|y: (Seq<char>, Seq<char>)| #[trigger] after.to_multiset().count(y) <= 1,
{
    before.to_multiset_ensures();
}

/// After `stage_remove`, the pair is no longer staged.
pub proof fn law_removed_pair_is_gone(s: Seq<(Seq<char>, Seq<char>)>, x: (Seq<char>, Seq<char>))
    ensures
        !remove_all(s, x).contains(x),
{
    lemma_remove_all_contains(s, x);
}

/// Removing a pair just added to a sorted list that did not hold it gives
/// back the list as it was.
pub proof fn law_remove_undoes_add(
    before: Seq<(Seq<char>, Seq<char>)>,
    after: Seq<(Seq<char>, Seq<char>)>,
    x: (Seq<char>, Seq<char>),
)
    requires
        sorted_pairs(before),
        !before.contains(x),
        sorted_pairs(after),
        after.to_multiset() == before.to_multiset().insert(x),
    ensures
        remove_all(after, x) == before,
{
    let r = remove_all(after, x);
    lemma_remove_all_sorted(after, x);
    lemma_remove_all_count(after, x);
    before.to_multiset_ensures();
    assert(r.to_multiset() =~= before.to_multiset());
    lemma_sorted_unique(r, before);
}

proof fn lemma_remove_all_contains(s: Seq<(Seq<char>, Seq<char>)>, x: (Seq<char>, Seq<char>))
    ensures
        forall|y: (Seq<char>, Seq<char>)| #[trigger]
            remove_all(s, x).contains(y) <==> (s.contains(y) && y != x),
    decreases s.len(),
{
    if s.len() > 0 {
        lemma_remove_all_contains(s.drop_last(), x);
        assert forall|y: (Seq<char>, Seq<char>)| #[trigger]
            remove_all(s, x).contains(y) <==> (s.contains(y) && y != x) by {
            if s.contains(y) && y != x {
                let j = choose|j: int| 0 <= j < s.len() && s[j] == y;
                if j < s.len() - 1 {
                    assert(s.drop_last()[j] == y);
                    assert(s.drop_last().contains(y));
                    let r0 = remove_all(s.drop_last(), x);
                    assert(r0.contains(y));
                    let k = choose|k: int| 0 <= k < r0.len() && r0[k] == y;
                    if s.last() != x {
                        assert(remove_all(s, x)[k] == y);
                    }
                } else {
                    assert(remove_all(s, x).last() == y);
                }
            }
            if remove_all(s, x).contains(y) {
                let r0 = remove_all(s.drop_last(), x);
                let k = choose|k: int| 0 <= k < remove_all(s, x).len() && remove_all(s, x)[k] == y;
                if s.last() == x {
                    assert(r0.contains(y));
                    let j = choose|j: int| 0 <= j < s.drop_last().len() && s.drop_last()[j] == y;
                    assert(s[j] == y);
                } else if k < r0.len() {
                    assert(r0[k] == y);
                    assert(r0.contains(y));
                    let j = choose|j: int| 0 <= j < s.drop_last().len() && s.drop_last()[j] == y;
                    assert(s[j] == y);
                } else {
                    assert(s[s.len() - 1] == y);
                }
            }
        }
    }
}

proof fn lemma_remove_all_count(s: Seq<(Seq<char>, Seq<char>)>, x: (Seq<char>, Seq<char>))
    ensures
        forall|y: (Seq<char>, Seq<char>)| #[trigger]
            remove_all(s, x).to_multiset().count(y) == if y == x {
                0
            } else {
                s.to_multiset().count(y)
            },
    decreases s.len(),
{
    if s.len() == 0 {
        s.to_multiset_ensures();
        vstd::multiset::lemma_multiset_empty_len(s.to_multiset());
    } else {
        lemma_remove_all_count(s.drop_last(), x);
        s.drop_last().to_multiset_ensures();
        remove_all(s.drop_last(), x).to_multiset_ensures();
        assert(s.drop_last().push(s.last()) =~= s);
    }
}

proof fn lemma_remove_all_sorted(s: Seq<(Seq<char>, Seq<char>)>, x: (Seq<char>, Seq<char>))
    requires
        sorted_pairs(s),
    ensures
        sorted_pairs(remove_all(s, x)),
    decreases s.len(),
{
    if s.len() > 0 {
        let t = s.drop_last();
        assert(sorted_pairs(t)) by {
            assert forall|i: int, j: int| 0 <= i < j < t.len() implies staged_le(
                #[trigger] t[i],
                #[trigger] t[j],
            ) by {
                assert(staged_le(s[i], s[j]));
            }
        }
        lemma_remove_all_sorted(t, x);
        lemma_remove_all_contains(t, x);
        if s.last() != x {
            let r0 = remove_all(t, x);
            let r = r0.push(s.last());
            assert forall|i: int, j: int| 0 <= i < j < r.len() implies staged_le(
                #[trigger] r[i],
                #[trigger] r[j],
            ) by {
                if j == r.len() - 1 {
                    assert(r0.contains(r0[i]));
                    assert(t.contains(r0[i]));
                    let k = choose|k: int| 0 <= k < t.len() && t[k] == r0[i];
                    assert(staged_le(s[k], s[s.len() - 1]));
                } else {
                    assert(staged_le(r0[i], r0[j]));
                }
            }
        }
    }
}

/// Two sorted lists with the same entries are equal.
proof fn lemma_sorted_unique(a: Seq<(Seq<char>, Seq<char>)>, b: Seq<(Seq<char>, Seq<char>)>)
    requires
        sorted_pairs(a),
        sorted_pairs(b),
        a.to_multiset() == b.to_multiset(),
    ensures
        a == b,
    decreases a.len(),
{
    a.to_multiset_ensures();
    b.to_multiset_ensures();
    if a.len() == 0 {
        assert(b.len() == 0);
        assert(a =~= b);
    } else {
        assert(b.len() > 0);
        let x = a[0];
        let y = b[0];
        assert(a.contains(x));
        assert(b.to_multiset().count(x) > 0);
        assert(b.contains(x));
        let jb = choose|j: int| 0 <= j < b.len() && b[j] == x;
        assert(a.to_multiset().count(y) > 0);
        assert(b.contains(y));
        assert(a.contains(y));
        let ja = choose|j: int| 0 <= j < a.len() && a[j] == y;
        assert(staged_le(y, x)) by {
            if jb > 0 {
                assert(staged_le(b[0], b[jb]));
            }
        }
        assert(staged_le(x, y)) by {
            if ja > 0 {
                assert(staged_le(a[0], a[ja]));
            }
        }
        lemma_staged_lt_asym(x, y);
        assert(x == y);
        let a1 = a.drop_first();
        let b1 = b.drop_first();
        assert(a.remove(0) =~= a1);
        assert(b.remove(0) =~= b1);
        assert(a1.to_multiset() =~= b1.to_multiset());
        assert(sorted_pairs(a1)) by {
            assert forall|i: int, j: int| 0 <= i < j < a1.len() implies staged_le(
                #[trigger] a1[i],
                #[trigger] a1[j],
            ) by {
                assert(staged_le(a[i + 1], a[j + 1]));
            }
        }
        assert(sorted_pairs(b1)) by {
            assert forall|i: int, j: int| 0 <= i < j < b1.len() implies staged_le(
                #[trigger] b1[i],
                #[trigger] b1[j],
            ) by {
                assert(staged_le(b[i + 1], b[j + 1]));
            }
        }
        lemma_sorted_unique(a1, b1);
        assert forall|i: int| 0 <= i < a.len() implies a[i] == b[i] by {
            if i > 0 {
                assert(a[i] == a1[i - 1]);
                assert(b[i] == b1[i - 1]);
            }
        }
        assert(a =~= b);
    }
}

} // verus!
