//! Relative paths as sequences of components, the way `Path::components`
//! reads a Unix path.
//!
//! A component is given by its text: `/` for the root, `.` for a leading
//! current-directory marker, `..` for a parent directory, and the name
//! otherwise.  Empty pieces and `.` pieces after the first are dropped.
use vstd::prelude::*;
use crate::text::{join_with, split_on, rfind_char, lemma_split_on_len};

verus! {

/// The text of the root component.
pub open spec fn root_comp() -> Seq<char> {
    seq!['/']
}

/// The text of the current-directory component.
pub open spec fn cur_comp() -> Seq<char> {
    seq!['.']
}

/// The text of the parent-directory component.
pub open spec fn parent_comp() -> Seq<char> {
    seq!['.', '.']
}

/// The `@v` directory that separates a module path from its versions.
pub open spec fn version_dir() -> Seq<char> {
    seq!['@', 'v']
}

/// A component that is a plain name.
pub open spec fn is_normal(c: Seq<char>) -> bool {
    c != root_comp() && c != cur_comp() && c != parent_comp()
}

/// The pieces between `/` that are components: all but empty ones and `.`.
pub open spec fn kept_pieces(ps: Seq<Seq<char>>) -> Seq<Seq<char>>
    decreases ps.len(),
{
    if ps.len() == 0 {
        Seq::empty()
    } else if ps.last().len() == 0 || ps.last() == cur_comp() {
        kept_pieces(ps.drop_last())
    } else {
        kept_pieces(ps.drop_last()).push(ps.last())
    }
}

/// The leading components that are not pieces: the root of an absolute
/// path, or `.` when a relative path is `.` or starts with `./`.
pub open spec fn lead_comps(s: Seq<char>) -> Seq<Seq<char>> {
    if s.len() > 0 && s[0] == '/' {
        seq![root_comp()]
    } else if s.len() > 0 && s[0] == '.' && (s.len() == 1 || s[1] == '/') {
        seq![cur_comp()]
    } else {
        Seq::empty()
    }
}

/// The components of path `s` (`Path::components`).
pub open spec fn components(s: Seq<char>) -> Seq<Seq<char>> {
    lead_comps(s) + kept_pieces(split_on(s, '/'))
}

/// The texts of a vector of character vectors.
pub open spec fn texts(v: Seq<Vec<char>>) -> Seq<Seq<char>> {
    v.map_values(|x: Vec<char>| x@)
}

/// The first index of `c` in `cs`.
pub open spec fn first_index(cs: Seq<Seq<char>>, c: Seq<char>) -> Option<int>
    decreases cs.len(),
{
    if cs.len() == 0 {
        None
    } else {
        match first_index(cs.drop_last(), c) {
            Some(i) => Some(i),
            None => if cs.last() == c {
                Some(cs.len() - 1)
            } else {
                None
            },
        }
    }
}

/// The plain names among `cs`, in order.
pub open spec fn normal_only(cs: Seq<Seq<char>>) -> Seq<Seq<char>>
    decreases cs.len(),
{
    if cs.len() == 0 {
        Seq::empty()
    } else if is_normal(cs.last()) {
        normal_only(cs.drop_last()).push(cs.last())
    } else {
        normal_only(cs.drop_last())
    }
}

/// The stem of a file name: the name up to its last `.`, unless that `.`
/// is the first character or there is none (`Path::file_stem`); nothing
/// for `/`, `.` and `..`.
pub open spec fn file_stem(c: Seq<char>) -> Seq<char> {
    if !is_normal(c) {
        Seq::empty()
    } else {
        match rfind_char(c, '.') {
            Some(p) => if p == 0 {
                c
            } else {
                c.take(p)
            },
            None => c,
        }
    }
}

/// The path made of components `cs` (`PathBuf` collected from them).
pub open spec fn render(cs: Seq<Seq<char>>) -> Seq<char> {
    if cs.len() > 0 && cs[0] == root_comp() {
        root_comp() + join_with(cs.drop_first(), seq!['/'])
    } else {
        join_with(cs, seq!['/'])
    }
}

// ------------------------------------------------------------------
// Lemmas
// ------------------------------------------------------------------

pub proof fn lemma_first_index(cs: Seq<Seq<char>>, c: Seq<char>)
    ensures
        first_index(cs, c) matches Some(i) ==> 0 <= i < cs.len() && cs[i] == c && forall|j: int|
            0 <= j < i ==> cs[j] != c,
        first_index(cs, c) is None ==> forall|j: int| 0 <= j < cs.len() ==> cs[j] != c,
    decreases cs.len(),
{
    if cs.len() > 0 {
        lemma_first_index(cs.drop_last(), c);
        assert forall|j: int| 0 <= j < cs.len() - 1 implies cs.drop_last()[j] == cs[j] by {}
    }
}

// ------------------------------------------------------------------
// Executable functions
// ------------------------------------------------------------------

/// Whether `v` holds exactly the characters of `t`.
pub fn is_text(v: &Vec<char>, t: &str) -> (r: bool)
    ensures
        r == (v@ == t@),
{
    let tv = crate::text::chars_of(t);
    crate::text::chars_eq(v, &tv)
}

fn is_dot(v: &Vec<char>) -> (r: bool)
    ensures
        r == (v@ == cur_comp()),
{
    let r = v.len() == 1 && v[0] == '.';
    assert(r ==> v@ =~= cur_comp());
    r
}

fn is_dot_dot(v: &Vec<char>) -> (r: bool)
    ensures
        r == (v@ == parent_comp()),
{
    let r = v.len() == 2 && v[0] == '.' && v[1] == '.';
    assert(r ==> v@ =~= parent_comp());
    r
}

fn is_root(v: &Vec<char>) -> (r: bool)
    ensures
        r == (v@ == root_comp()),
{
    let r = v.len() == 1 && v[0] == '/';
    assert(r ==> v@ =~= root_comp());
    r
}

/// Whether `v` is `@v`.
pub fn is_version_dir(v: &Vec<char>) -> (r: bool)
    ensures
        r == (v@ == version_dir()),
{
    let r = v.len() == 2 && v[0] == '@' && v[1] == 'v';
    assert(r ==> v@ =~= version_dir());
    r
}

/// Whether a component is a plain name.
pub fn is_normal_exec(v: &Vec<char>) -> (r: bool)
    ensures
        r == is_normal(v@),
{
    !is_root(v) && !is_dot(v) && !is_dot_dot(v)
}

/// The components of path `s`.
pub fn components_exec(s: &Vec<char>) -> (cs: Vec<Vec<char>>)
    ensures
        texts(cs@) == components(s@),
{
    let mut cs: Vec<Vec<char>> = Vec::new();
    let mut cur: Vec<char> = Vec::new();
    let mut i: usize = 0;
    proof {
        assert(s@.take(0) =~= Seq::<char>::empty());
        assert(texts(cs@) =~= kept_pieces(split_on(s@.take(0), '/').drop_last()));
    }
    while i < s.len()
        invariant
            i <= s.len(),
            split_on(s@.take(i as int), '/').len() >= 1,
            cur@ == split_on(s@.take(i as int), '/').last(),
            texts(cs@) == kept_pieces(split_on(s@.take(i as int), '/').drop_last()),
        decreases s.len() - i,
    {
        let c = s[i];
        let ghost prev = split_on(s@.take(i as int), '/');
        proof {
            assert(s@.take(i + 1).drop_last() =~= s@.take(i as int));
            lemma_split_on_len(s@.take(i + 1), '/');
        }
        if c == '/' {
            if cur.len() > 0 && !is_dot(&cur) {
                let piece = cur;
                cs.push(piece);
                proof {
                    assert(split_on(s@.take(i + 1), '/').drop_last() =~= prev);
                    assert(texts(cs@) =~= kept_pieces(prev.drop_last()).push(prev.last()));
                }
            } else {
                proof {
                    assert(split_on(s@.take(i + 1), '/').drop_last() =~= prev);
                }
            }
            cur = Vec::new();
            proof {
                assert(cur@ =~= split_on(s@.take(i + 1), '/').last());
            }
        } else {
            cur.push(c);
            proof {
                assert(split_on(s@.take(i + 1), '/').drop_last() =~= prev.drop_last());
            }
        }
        i = i + 1;
    }
    proof {
        assert(s@.take(s@.len() as int) =~= s@);
    }
    let ghost pieces = split_on(s@, '/');
    if cur.len() > 0 && !is_dot(&cur) {
        cs.push(cur);
        proof {
            assert(pieces.drop_last().push(pieces.last()) =~= pieces);
            assert(texts(cs@) =~= kept_pieces(pieces));
        }
    } else {
        proof {
            assert(pieces.drop_last().push(pieces.last()) =~= pieces);
        }
    }
    // Leading components.
    let absolute = s.len() > 0 && s[0] == '/';
    let leading_dot = !absolute && s.len() > 0 && s[0] == '.' && (s.len() == 1 || s[1] == '/');
    if absolute || leading_dot {
        let mut out: Vec<Vec<char>> = Vec::new();
        let lead = if absolute {
            vec!['/']
        } else {
            vec!['.']
        };
        proof {
            assert(lead@ =~= lead_comps(s@)[0]);
        }
        out.push(lead);
        proof {
            assert(texts(out@) =~= lead_comps(s@));
        }
        append_all(&mut out, &cs);
        out
    } else {
        proof {
            assert(texts(cs@) =~= lead_comps(s@) + kept_pieces(pieces));
        }
        cs
    }
}

fn append_all(out: &mut Vec<Vec<char>>, cs: &Vec<Vec<char>>)
    ensures
        texts(final(out)@) == texts(old(out)@) + texts(cs@),
{
    let mut i: usize = 0;
    while i < cs.len()
        invariant
            i <= cs.len(),
            texts(out@) == texts(old(out)@) + texts(cs@).take(i as int),
        decreases cs.len() - i,
    {
        let ghost prev = out@;
        let item = crate::text::slice_of(&cs[i], 0, cs[i].len());
        out.push(item);
        proof {
            assert(cs@[i as int]@.subrange(0, cs@[i as int]@.len() as int) =~= cs@[i as int]@);
            assert(texts(out@) =~= texts(prev).push(cs@[i as int]@));
            assert(texts(out@) =~= texts(old(out)@) + texts(cs@).take(i + 1));
        }
        i = i + 1;
    }
    assert(texts(cs@).take(cs@.len() as int) =~= texts(cs@));
}

/// The first index of `target` among `cs`.
pub fn first_index_exec(cs: &Vec<Vec<char>>, target: &Vec<char>) -> (r: Option<usize>)
    ensures
        match r {
            Some(i) => first_index(texts(cs@), target@) == Some(i as int),
            None => first_index(texts(cs@), target@) is None,
        },
{
    let mut i: usize = 0;
    while i < cs.len()
        invariant
            i <= cs.len(),
            first_index(texts(cs@).take(i as int), target@) is None,
        decreases cs.len() - i,
    {
        proof {
            assert(texts(cs@).take(i + 1).drop_last() =~= texts(cs@).take(i as int));
        }
        if crate::text::chars_eq(&cs[i], target) {
            proof {
                lemma_first_index_prefix(texts(cs@), target@, i + 1);
            }
            return Some(i);
        }
        i = i + 1;
    }
    proof {
        assert(texts(cs@).take(cs@.len() as int) =~= texts(cs@));
    }
    None
}

/// A match found in a prefix is the first match of the whole sequence.
proof fn lemma_first_index_prefix(cs: Seq<Seq<char>>, c: Seq<char>, n: int)
    requires
        0 <= n <= cs.len(),
        first_index(cs.take(n), c) is Some,
    ensures
        first_index(cs, c) == first_index(cs.take(n), c),
    decreases cs.len() - n,
{
    if n < cs.len() {
        assert(cs.take(n + 1).drop_last() =~= cs.take(n));
        lemma_first_index_prefix(cs, c, n + 1);
    } else {
        assert(cs.take(n) =~= cs);
    }
}

/// The components in `cs[lo..hi]` joined with `sep`, keeping only plain
/// names when `only_normal` holds.
pub fn join_comps(cs: &Vec<Vec<char>>, lo: usize, hi: usize, sep: char, only_normal: bool) -> (r:
    Vec<char>)
    requires
        lo <= hi <= cs.len(),
    ensures
        r@ == join_with(
            if only_normal {
                normal_only(texts(cs@).subrange(lo as int, hi as int))
            } else {
                texts(cs@).subrange(lo as int, hi as int)
            },
            seq![sep],
        ),
{
    let ghost all = texts(cs@).subrange(lo as int, hi as int);
    let ghost chosen = if only_normal {
        normal_only(all)
    } else {
        all
    };
    let mut r: Vec<char> = Vec::new();
    let mut count: usize = 0;
    let mut i = lo;
    let ghost mut picked: Seq<Seq<char>> = Seq::empty();
    proof {
        assert(all.take(0) =~= Seq::<Seq<char>>::empty());
    }
    while i < hi
        invariant
            lo <= i <= hi <= cs.len(),
            all == texts(cs@).subrange(lo as int, hi as int),
            picked == (if only_normal {
                normal_only(all.take(i - lo))
            } else {
                all.take(i - lo)
            }),
            r@ == join_with(picked, seq![sep]),
            count as int == picked.len(),
            count <= i - lo,
        decreases hi - i,
    {
        let c = &cs[i];
        proof {
            assert(all.take(i - lo + 1).drop_last() =~= all.take(i - lo));
            assert(all.take(i - lo + 1).last() == c@);
        }
        if !only_normal || is_normal_exec(c) {
            if count > 0 {
                r.push(sep);
            }
            let ghost r0 = r@;
            let mut j: usize = 0;
            while j < c.len()
                invariant
                    j <= c.len(),
                    r@ == r0 + c@.take(j as int),
                decreases c.len() - j,
            {
                r.push(c[j]);
                assert(c@.take(j + 1) =~= c@.take(j as int).push(c@[j as int]));
                j = j + 1;
            }
            proof {
                assert(c@.take(c@.len() as int) =~= c@);
                let old_picked = picked;
                picked = picked.push(c@);
                assert(picked.drop_last() =~= old_picked);
                if old_picked.len() == 0 {
                    assert(r@ =~= c@);
                } else {
                    assert(r@ =~= join_with(old_picked, seq![sep]) + seq![sep] + c@);
                }
            }
            count = count + 1;
        }
        i = i + 1;
    }
    proof {
        assert(all.take(hi - lo) =~= all);
    }
    r
}

/// The stem of a file-name component.
pub fn file_stem_exec(c: &Vec<char>) -> (r: Vec<char>)
    ensures
        r@ == file_stem(c@),
{
    if !is_normal_exec(c) {
        return Vec::new();
    }
    proof {
        crate::text::lemma_rfind_char(c@, '.');
    }
    match crate::text::rfind_char_exec(c, '.') {
        Some(p) => if p == 0 {
            crate::text::slice_of(c, 0, c.len())
        } else {
            crate::text::slice_of(c, 0, p)
        },
        None => crate::text::slice_of(c, 0, c.len()),
    }
}


/// `base` joined with the relative name `name` (`Path::join`).
pub open spec fn path_join(base: Seq<char>, name: Seq<char>) -> Seq<char> {
    if base.len() == 0 {
        name
    } else if base.last() == '/' {
        base + name
    } else {
        base + seq!['/'] + name
    }
}

/// `base` joined with the relative name `name`.
pub fn path_join_exec(base: &str, name: &str) -> (r: String)
    ensures
        r@ == path_join(base@, name@),
{
    let b = crate::text::chars_of(base);
    let mut out = String::from_str(base);
    if b.len() > 0 && b[b.len() - 1] != '/' {
        crate::text::push_char(&mut out, '/');
    }
    out.append(name);
    out
}


// ------------------------------------------------------------------
// Parsing a joined path back
// ------------------------------------------------------------------

/// A name that is a component as written: not empty, no `/`, not `.`.
pub open spec fn plain_name(c: Seq<char>) -> bool {
    c.len() > 0 && c != cur_comp() && forall|j: int| 0 <= j < c.len() ==> c[j] != '/'
}

/// Joining `a + b` (both non-empty) joins each and puts `sep` between.
pub proof fn lemma_join_append(a: Seq<Seq<char>>, b: Seq<Seq<char>>, sep: Seq<char>)
    requires
        a.len() > 0,
        b.len() > 0,
    ensures
        join_with(a + b, sep) == join_with(a, sep) + sep + join_with(b, sep),
    decreases b.len(),
{
    if b.len() == 1 {
        assert((a + b).drop_last() =~= a);
        assert((a + b).last() == b[0]);
    } else {
        lemma_join_append(a, b.drop_last(), sep);
        assert((a + b).drop_last() =~= a + b.drop_last());
        assert((a + b).last() == b.last());
        assert(join_with(a, sep) + sep + join_with(b.drop_last(), sep) + sep + b.last() =~= join_with(
            a,
            sep,
        ) + sep + (join_with(b.drop_last(), sep) + sep + b.last()));
    }
}

/// Splitting names joined with `/` gives the names back.
pub proof fn lemma_split_join(cs: Seq<Seq<char>>)
    requires
        cs.len() > 0,
        forall|i: int| 0 <= i < cs.len() ==> #[trigger] plain_name(cs[i]),
    ensures
        split_on(join_with(cs, seq!['/']), '/') == cs,
    decreases cs.len(),
{
    if cs.len() == 1 {
        assert(plain_name(cs[0]));
        crate::text::lemma_split_on_no_sep(cs[0], '/');
        assert(seq![cs[0]] =~= cs);
    } else {
        let init = cs.drop_last();
        assert forall|i: int| 0 <= i < init.len() implies #[trigger] plain_name(init[i]) by {
            assert(plain_name(cs[i]));
        }
        lemma_split_join(init);
        assert(plain_name(cs.last()));
        crate::text::lemma_split_on_no_sep(cs.last(), '/');
        assert(join_with(init, seq!['/']) + seq!['/'] + cs.last() =~= join_with(init, seq!['/']).push(
            '/',
        ) + cs.last());
        crate::text::lemma_split_on_append_sep(join_with(init, seq!['/']), cs.last(), '/');
        assert(init + seq![cs.last()] =~= cs);
    }
}

/// Pieces that are all plain names are all kept.
pub proof fn lemma_kept_plain(cs: Seq<Seq<char>>)
    requires
        forall|i: int| 0 <= i < cs.len() ==> #[trigger] plain_name(cs[i]),
    ensures
        kept_pieces(cs) == cs,
    decreases cs.len(),
{
    if cs.len() > 0 {
        let init = cs.drop_last();
        assert forall|i: int| 0 <= i < init.len() implies #[trigger] plain_name(init[i]) by {
            assert(plain_name(cs[i]));
        }
        lemma_kept_plain(init);
        assert(plain_name(cs.last()));
        assert(init.push(cs.last()) =~= cs);
    }
}

/// The components of plain names joined with `/` are those names.
pub proof fn lemma_components_join(cs: Seq<Seq<char>>)
    requires
        cs.len() > 0,
        forall|i: int| 0 <= i < cs.len() ==> #[trigger] plain_name(cs[i]),
    ensures
        components(join_with(cs, seq!['/'])) == cs,
{
    let s = join_with(cs, seq!['/']);
    lemma_split_join(cs);
    lemma_kept_plain(cs);
    assert(plain_name(cs[0]));
    let x = cs[0];
    let rest = cs.drop_first();
    assert(seq![x] + rest =~= cs);
    crate::pack::lemma_join_cons(x, rest, seq!['/']);
    if rest.len() == 0 {
        assert(s == x);
    } else {
        assert(s == x + seq!['/'] + join_with(rest, seq!['/']));
        assert(s[x.len() as int] == '/');
    }
    assert(s[0] == x[0]);
    if x.len() == 1 && x[0] == '.' {
        assert(x =~= cur_comp());
    }
    if x.len() > 1 {
        assert(s[1] == x[1]);
    }
    assert(lead_comps(s) =~= Seq::<Seq<char>>::empty());
    assert(Seq::<Seq<char>>::empty() + cs =~= cs);
}

/// The first index of `c` in `a + [c] + b`, when `a` does not hold `c`.
pub proof fn lemma_first_index_after(a: Seq<Seq<char>>, c: Seq<char>, b: Seq<Seq<char>>)
    requires
        forall|i: int| 0 <= i < a.len() ==> a[i] != c,
    ensures
        first_index(a + seq![c] + b, c) == Some(a.len() as int),
    decreases b.len(),
{
    if b.len() == 0 {
        assert(a + seq![c] + b =~= a.push(c));
        assert(a.push(c).drop_last() =~= a);
        lemma_first_index(a, c);
    } else {
        lemma_first_index_after(a, c, b.drop_last());
        assert((a + seq![c] + b).drop_last() =~= a + seq![c] + b.drop_last());
    }
}

/// Plain names other than `..` are all kept by `normal_only`.
pub proof fn lemma_normal_only_all(cs: Seq<Seq<char>>)
    requires
        forall|i: int| 0 <= i < cs.len() ==> #[trigger] is_normal(cs[i]),
    ensures
        normal_only(cs) == cs,
    decreases cs.len(),
{
    if cs.len() > 0 {
        let init = cs.drop_last();
        assert forall|i: int| 0 <= i < init.len() implies #[trigger] is_normal(init[i]) by {
            assert(is_normal(cs[i]));
        }
        lemma_normal_only_all(init);
        assert(is_normal(cs.last()));
        assert(init.push(cs.last()) =~= cs);
    }
}

} // verus!
