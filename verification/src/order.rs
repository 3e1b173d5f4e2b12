//! The order of staged modules: by module path, then by version, each
//! compared character by character (the order of `String`s, which
//! compares their UTF-8 bytes and so their code points).
use vstd::prelude::*;
use vstd::multiset::Multiset;
use crate::text::{chars_eq, chars_of};
use crate::types::{staged_views, StagedModule};

verus! {

/// `a` comes strictly before `b` in lexicographic code-point order.
pub open spec fn seq_lt(a: Seq<char>, b: Seq<char>) -> bool
    decreases a.len(),
{
    if a.len() == 0 {
        b.len() > 0
    } else if b.len() == 0 {
        false
    } else if a[0] != b[0] {
        (a[0] as int) < (b[0] as int)
    } else {
        seq_lt(a.drop_first(), b.drop_first())
    }
}

/// A staged pair comes strictly before another.
pub open spec fn staged_lt(x: (Seq<char>, Seq<char>), y: (Seq<char>, Seq<char>)) -> bool {
    seq_lt(x.0, y.0) || (x.0 == y.0 && seq_lt(x.1, y.1))
}

/// A staged pair comes before another or equals it.
pub open spec fn staged_le(x: (Seq<char>, Seq<char>), y: (Seq<char>, Seq<char>)) -> bool {
    staged_lt(x, y) || x == y
}

/// The pairs are in nondecreasing order.
pub open spec fn sorted_pairs(s: Seq<(Seq<char>, Seq<char>)>) -> bool {
    forall|i: int, j: int| 0 <= i < j < s.len() ==> staged_le(#[trigger] s[i], #[trigger] s[j])
}

pub proof fn lemma_seq_lt_irrefl(a: Seq<char>)
    ensures
        !seq_lt(a, a),
    decreases a.len(),
{
    if a.len() > 0 {
        lemma_seq_lt_irrefl(a.drop_first());
    }
}

pub proof fn lemma_seq_lt_asym(a: Seq<char>, b: Seq<char>)
    ensures
        !(seq_lt(a, b) && seq_lt(b, a)),
    decreases a.len(),
{
    if a.len() > 0 && b.len() > 0 && a[0] == b[0] {
        lemma_seq_lt_asym(a.drop_first(), b.drop_first());
    }
}

pub proof fn lemma_seq_lt_trans(a: Seq<char>, b: Seq<char>, c: Seq<char>)
    requires
        seq_lt(a, b),
        seq_lt(b, c),
    ensures
        seq_lt(a, c),
    decreases a.len(),
{
    if a.len() > 0 && b.len() > 0 && c.len() > 0 && a[0] == b[0] && b[0] == c[0] {
        lemma_seq_lt_trans(a.drop_first(), b.drop_first(), c.drop_first());
    }
}

pub proof fn lemma_seq_lt_total(a: Seq<char>, b: Seq<char>)
    ensures
        seq_lt(a, b) || seq_lt(b, a) || a == b,
    decreases a.len(),
{
    if a.len() > 0 && b.len() > 0 {
        if a[0] == b[0] {
            lemma_seq_lt_total(a.drop_first(), b.drop_first());
            if a.drop_first() == b.drop_first() {
                assert(a =~= seq![a[0]] + a.drop_first());
                assert(b =~= seq![b[0]] + b.drop_first());
            }
        } else {
            assert((a[0] as int) != (b[0] as int));
        }
    } else if a.len() == 0 && b.len() == 0 {
        assert(a =~= b);
    }
}

pub proof fn lemma_staged_lt_irrefl(x: (Seq<char>, Seq<char>))
    ensures
        !staged_lt(x, x),
{
    lemma_seq_lt_irrefl(x.0);
    lemma_seq_lt_irrefl(x.1);
}

pub proof fn lemma_staged_lt_asym(x: (Seq<char>, Seq<char>), y: (Seq<char>, Seq<char>))
    ensures
        !(staged_lt(x, y) && staged_lt(y, x)),
{
    lemma_seq_lt_asym(x.0, y.0);
    lemma_seq_lt_asym(x.1, y.1);
    lemma_seq_lt_irrefl(x.0);
}

pub proof fn lemma_staged_lt_trans(
    x: (Seq<char>, Seq<char>),
    y: (Seq<char>, Seq<char>),
    z: (Seq<char>, Seq<char>),
)
    requires
        staged_lt(x, y),
        staged_lt(y, z),
    ensures
        staged_lt(x, z),
{
    if seq_lt(x.0, y.0) && seq_lt(y.0, z.0) {
        lemma_seq_lt_trans(x.0, y.0, z.0);
    } else if seq_lt(x.1, y.1) && seq_lt(y.1, z.1) {
        lemma_seq_lt_trans(x.1, y.1, z.1);
    }
}

pub proof fn lemma_staged_le_trans(
    x: (Seq<char>, Seq<char>),
    y: (Seq<char>, Seq<char>),
    z: (Seq<char>, Seq<char>),
)
    requires
        staged_le(x, y),
        staged_le(y, z),
    ensures
        staged_le(x, z),
{
    if staged_lt(x, y) && staged_lt(y, z) {
        lemma_staged_lt_trans(x, y, z);
    }
}

pub proof fn lemma_staged_total(x: (Seq<char>, Seq<char>), y: (Seq<char>, Seq<char>))
    ensures
        staged_lt(x, y) || staged_lt(y, x) || x == y,
{
    lemma_seq_lt_total(x.0, y.0);
    lemma_seq_lt_total(x.1, y.1);
}

/// Whether `a` comes strictly before `b`.
pub fn chars_lt(a: &Vec<char>, b: &Vec<char>) -> (r: bool)
    ensures
        r == seq_lt(a@, b@),
{
    let mut i: usize = 0;
    assert(a@.skip(0) == a@);
    assert(b@.skip(0) == b@);
    while i < a.len() && i < b.len()
        invariant
            i <= a.len(),
            i <= b.len(),
            seq_lt(a@, b@) == seq_lt(a@.skip(i as int), b@.skip(i as int)),
        decreases a.len() - i,
    {
        let x = a[i];
        let y = b[i];
        if x != y {
            assert(a@.skip(i as int)[0] == x);
            assert(b@.skip(i as int)[0] == y);
            return x < y;
        }
        assert(a@.skip(i as int).drop_first() == a@.skip(i + 1));
        assert(b@.skip(i as int).drop_first() == b@.skip(i + 1));
        i = i + 1;
    }
    i < b.len()
}

/// Whether staged pair `x` comes strictly before `y`.
pub fn staged_less(x: &StagedModule, y: &StagedModule) -> (r: bool)
    ensures
        r == staged_lt(x@, y@),
{
    let xm = chars_of(x.module.as_str());
    let ym = chars_of(y.module.as_str());
    if chars_lt(&xm, &ym) {
        return true;
    }
    if !chars_eq(&xm, &ym) {
        return false;
    }
    let xv = chars_of(x.version.as_str());
    let yv = chars_of(y.version.as_str());
    chars_lt(&xv, &yv)
}

/// Inserts `x` into the sorted list `v`, after every entry that does not
/// come after it.
pub fn insert_sorted(v: &mut Vec<StagedModule>, x: StagedModule)
    requires
        sorted_pairs(staged_views(old(v)@)),
    ensures
        sorted_pairs(staged_views(final(v)@)),
        staged_views(final(v)@).to_multiset() == staged_views(old(v)@).to_multiset().insert(x@),
        final(v)@.len() == old(v)@.len() + 1,
{
    let ghost xv = x@;
    let ghost old_views = staged_views(v@);
    let mut k: usize = 0;
    while k < v.len() && !staged_less(&x, &v[k])
        invariant
            k <= v.len(),
            v@ == old(v)@,
            forall|j: int| 0 <= j < k ==> staged_le(#[trigger] old_views[j], xv),
            old_views == staged_views(v@),
            xv == x@,
        decreases v.len() - k,
    {
        proof {
            lemma_staged_total(xv, old_views[k as int]);
        }
        k = k + 1;
    }
    v.insert(k, x);
    let ghost new_views = staged_views(v@);
    proof {
        assert(new_views =~= old_views.insert(k as int, xv));
        assert forall|i: int, j: int| 0 <= i < j < new_views.len() implies staged_le(
            #[trigger] new_views[i],
            #[trigger] new_views[j],
        ) by {
            if j < k {
            } else if j == k {
            } else if i < k {
                // old_views[i] <= x < old_views[k] <= old_views[j - 1]
                let a = old_views[i];
                let b = old_views[j - 1];
                assert(staged_le(a, xv));
                if k < old_views.len() {
                    assert(staged_lt(xv, old_views[k as int]));
                    assert(staged_le(old_views[k as int], b) || k == j - 1);
                    lemma_staged_le_trans(xv, old_views[k as int], b);
                }
                lemma_staged_le_trans(a, xv, b);
            } else if i == k {
                assert(staged_lt(xv, old_views[k as int]));
                if k < j - 1 {
                    lemma_staged_le_trans(xv, old_views[k as int], old_views[j - 1]);
                }
            } else {
                assert(staged_le(old_views[i - 1], old_views[j - 1]));
            }
        }
        let pre = old_views.subrange(0, k as int);
        let post = old_views.subrange(k as int, old_views.len() as int);
        assert(old_views =~= pre + post);
        assert(new_views =~= pre.push(xv) + post);
        vstd::seq_lib::lemma_multiset_commutative(pre, post);
        vstd::seq_lib::lemma_multiset_commutative(pre.push(xv), post);
        pre.to_multiset_ensures();
        assert(new_views.to_multiset() =~= old_views.to_multiset().insert(xv));
    }
}

/// A sorted copy of `v`: its entries in order, duplicates kept.
pub fn sort_staged(v: Vec<StagedModule>) -> (r: Vec<StagedModule>)
    ensures
        sorted_pairs(staged_views(r@)),
        staged_views(r@).to_multiset() == staged_views(v@).to_multiset(),
{
    let mut src = v;
    let mut r: Vec<StagedModule> = Vec::new();
    let ghost orig = staged_views(v@);
    proof {
        assert(staged_views(r@) =~= Seq::empty());
        staged_views(r@).to_multiset_ensures();
        vstd::multiset::lemma_multiset_empty_len(staged_views(r@).to_multiset());
        assert(Multiset::<(Seq<char>, Seq<char>)>::empty().add(orig.to_multiset()) =~= orig.to_multiset());
    }
    while src.len() > 0
        invariant
            sorted_pairs(staged_views(r@)),
            staged_views(r@).to_multiset().add(staged_views(src@).to_multiset())
                == orig.to_multiset(),
        decreases src.len(),
    {
        let ghost before = src@;
        let x = src.pop().unwrap();
        proof {
            assert(staged_views(before) =~= staged_views(src@).push(x@));
            staged_views(src@).to_multiset_ensures();
        }
        insert_sorted(&mut r, x);
        proof {
            let m_src = staged_views(src@).to_multiset();
            assert(staged_views(r@).to_multiset().add(m_src) =~= orig.to_multiset());
        }
    }
    proof {
        staged_views(src@).to_multiset_ensures();
        vstd::multiset::lemma_multiset_empty_len(staged_views(src@).to_multiset());
        assert(staged_views(r@).to_multiset().add(Multiset::empty()) =~= staged_views(r@).to_multiset());
    }
    r
}

} // verus!
