//! Parse Go's vendor manifest (`vendor/modules.txt`) into vendored modules.
//!
//! The format is:
//!
//! ```text
//! # <module_path> <version>
//! ## explicit; go <version>
//! <package_path>
//! <package_path>
//! ```
//!
//! Lines are trimmed; blank lines are ignored.
use vstd::prelude::*;
use crate::error::WarError;
use crate::text::{
    chars_of, contains_seq, decimal, find_char, find_from, find_from_exec, pieces_view, split_exec,
    split_on, starts_with, starts_with_exec, string_of, trim, trim_exec,
};
use crate::types::{strings_view, SpecVendorModule, VendorModule};

verus! {

/// The parser's state: the finished modules and the module being read.
pub type ParseState = (Seq<SpecVendorModule>, Option<SpecVendorModule>);

/// A module just named by its header line.
pub open spec fn new_module(path: Seq<char>, version: Seq<char>) -> SpecVendorModule {
    SpecVendorModule {
        path,
        version,
        explicit: false,
        go_version: None,
        packages: Seq::empty(),
        vendor_path: Seq::empty(),
    }
}

/// The path and version of a header line `# <path> <version>`: the text
/// after `# ` split at its first space.
pub open spec fn header_parts(line: Seq<char>) -> Option<(Seq<char>, Seq<char>)> {
    let rest = line.skip(2);
    match find_char(rest, ' ') {
        Some(i) => Some((rest.take(i), rest.skip(i + 1))),
        None => None,
    }
}

pub open spec fn explicit_word() -> Seq<char> {
    seq!['e', 'x', 'p', 'l', 'i', 'c', 'i', 't']
}

pub open spec fn go_word() -> Seq<char> {
    seq!['g', 'o', ' ']
}

/// A metadata line's text (after `## `) applied to a module: `explicit`
/// anywhere marks it explicit; the trimmed text after the first `go `, if
/// not empty, is its Go version.
pub open spec fn apply_metadata(m: SpecVendorModule, meta: Seq<char>) -> SpecVendorModule {
    let m1 = if contains_seq(meta, explicit_word()) {
        SpecVendorModule { explicit: true, ..m }
    } else {
        m
    };
    match find_from(meta, go_word(), 0) {
        Some(p) => {
            let gv = trim(meta.skip(p + 3));
            if gv.len() > 0 {
                SpecVendorModule { go_version: Some(gv), ..m1 }
            } else {
                m1
            }
        },
        None => m1,
    }
}

/// The message for line `n` (0-based) with `what` wrong.
pub open spec fn line_msg(what: Seq<char>, n: nat, line: Seq<char>) -> Seq<char> {
    what + " at line "@ + decimal(n + 1) + ": '"@ + line + "'"@
}

pub open spec fn header_err() -> Seq<char> {
    "invalid module header"@
}

pub open spec fn metadata_err() -> Seq<char> {
    "metadata line without module header"@
}

pub open spec fn package_err() -> Seq<char> {
    "package line without module header"@
}

pub open spec fn hash_space() -> Seq<char> {
    seq!['#', ' ']
}

pub open spec fn hash_hash() -> Seq<char> {
    seq!['#', '#']
}

pub open spec fn hash_hash_space() -> Seq<char> {
    seq!['#', '#', ' ']
}

/// The kind of a trimmed, non-blank line.
pub open spec fn is_header_line(l: Seq<char>) -> bool {
    starts_with(l, hash_space()) && !starts_with(l, hash_hash())
}

pub open spec fn is_metadata_line(l: Seq<char>) -> bool {
    !is_header_line(l) && starts_with(l, hash_hash_space())
}

/// The modules finished so far, the current one included.
pub open spec fn finished(st: ParseState) -> Seq<SpecVendorModule> {
    match st.1 {
        Some(m) => st.0.push(m),
        None => st.0,
    }
}

/// One trimmed, non-blank line (0-based number `n`) applied to the state.
pub open spec fn parse_trimmed_spec(st: ParseState, n: nat, l: Seq<char>) -> Result<
    ParseState,
    Seq<char>,
> {
    if is_header_line(l) {
        match header_parts(l) {
            None => Err(line_msg(header_err(), n, l)),
            Some((p, v)) => Ok((finished(st), Some(new_module(p, v)))),
        }
    } else if is_metadata_line(l) {
        match st.1 {
            None => Err(line_msg(metadata_err(), n, l)),
            Some(m) => Ok((st.0, Some(apply_metadata(m, l.skip(3))))),
        }
    } else {
        match st.1 {
            None => Err(line_msg(package_err(), n, l)),
            Some(m) => Ok((st.0, Some(SpecVendorModule { packages: m.packages.push(l), ..m }))),
        }
    }
}

/// One line (0-based number `n`) applied to the state: it is trimmed,
/// and ignored when blank.
pub open spec fn parse_line_spec(st: ParseState, n: nat, raw: Seq<char>) -> Result<
    ParseState,
    Seq<char>,
> {
    let l = trim(raw);
    if l.len() == 0 {
        Ok(st)
    } else {
        parse_trimmed_spec(st, n, l)
    }
}

/// The state after all `lines`, or the first error.
pub open spec fn parse_lines_spec(lines: Seq<Seq<char>>) -> Result<ParseState, Seq<char>>
    decreases lines.len(),
{
    if lines.len() == 0 {
        Ok((Seq::empty(), None))
    } else {
        match parse_lines_spec(lines.drop_last()) {
            Err(e) => Err(e),
            Ok(st) => parse_line_spec(st, (lines.len() - 1) as nat, lines.last()),
        }
    }
}

/// The modules of a `modules.txt` text, or the message of its first bad line.
pub open spec fn parse_modules_txt_spec(content: Seq<char>) -> Result<
    Seq<SpecVendorModule>,
    Seq<char>,
> {
    match parse_lines_spec(split_on(content, '\n')) {
        Ok(st) => Ok(finished(st)),
        Err(e) => Err(e),
    }
}

/// The contents of a list of modules.
/// A header line `# <path> <version>` whose path holds no space is read as
/// that path and that version, the version kept whole even when it holds
/// spaces (as in `v1.9.1 => ../gin` for a replaced module).
pub proof fn law_header_splits_at_first_space(p: Seq<char>, v: Seq<char>)
    requires
        forall|j: int| 0 <= j < p.len() ==> p[j] != ' ' && p[j] != '\n',
        forall|j: int| 0 <= j < v.len() ==> v[j] != '\n',
        v.len() > 0,
        !crate::text::is_ws(v.last()),
    ensures
        parse_modules_txt_spec(seq!['#', ' '] + p + seq![' '] + v) matches Ok(ms) && ms.len() == 1
            && ms[0].path == p && ms[0].version == v,
{
    let line = seq!['#', ' '] + p + seq![' '] + v;
    assert forall|j: int| 0 <= j < line.len() implies line[j] != '\n' by {
        if j >= 2 + p.len() + 1 {
            assert(line[j] == v[j - p.len() - 3]);
        } else if j >= 2 && j < 2 + p.len() {
            assert(line[j] == p[j - 2]);
        }
    }
    crate::text::lemma_split_on_no_sep(line, '\n');
    let lines = split_on(line, '\n');
    assert(lines.drop_last() =~= Seq::<Seq<char>>::empty());
    assert(line[0] == '#');
    assert(!crate::text::is_ws('#'));
    assert(crate::text::trim_start(line) == line);
    assert(line.last() == v.last());
    assert(crate::text::trim_end(line) == line);
    assert(trim(line) == line);
    assert(line.take(2) =~= seq!['#', ' ']);
    assert(line[1] == ' ');
    assert(!starts_with(line, seq!['#', '#']));
    assert(is_header_line(line));
    let rest = line.skip(2);
    assert(rest =~= p + seq![' '] + v);
    crate::text::lemma_find_from_some(rest, seq![' '], 0);
    assert(rest.subrange(p.len() as int, (p.len() + 1) as int) =~= seq![' ']);
    assert(crate::text::occurs_at(rest, seq![' '], p.len() as int));
    assert forall|j: int| 0 <= j < p.len() implies !crate::text::occurs_at(rest, seq![' '], j) by {
        assert(rest.subrange(j, j + 1)[0] == p[j]);
    }
    assert(find_char(rest, ' ') == Some(p.len() as int));
    assert(rest.take(p.len() as int) =~= p);
    assert(rest.skip((p.len() + 1) as int) =~= v);
    assert(header_parts(line) == Some((p, v)));
    let st0: ParseState = (Seq::empty(), None);
    assert(parse_lines_spec(lines.drop_last()) == Ok::<ParseState, Seq<char>>(st0));
    assert(lines.last() == line);
    assert(parse_trimmed_spec(st0, 0, line) == Ok::<ParseState, Seq<char>>(
        (finished(st0), Some(new_module(p, v))),
    ));
    assert(parse_line_spec(st0, 0, line) == parse_trimmed_spec(st0, 0, line));
    assert(parse_lines_spec(lines) == parse_line_spec(st0, 0, line));
    assert(finished((finished(st0), Some(new_module(p, v)))) =~= seq![new_module(p, v)]);
}

/// The number of module header lines (`# <path> <version>`) among `lines`.
pub open spec fn header_count(lines: Seq<Seq<char>>) -> nat
    decreases lines.len(),
{
    if lines.len() == 0 {
        0
    } else {
        header_count(lines.drop_last()) + if is_header_line(trim(lines.last())) {
            1nat
        } else {
            0
        }
    }
}

proof fn lemma_parse_lines_count(lines: Seq<Seq<char>>)
    ensures
        parse_lines_spec(lines) matches Ok(st) ==> finished(st).len() == header_count(lines),
    decreases lines.len(),
{
    if lines.len() > 0 {
        lemma_parse_lines_count(lines.drop_last());
    }
}

/// A parsed manifest holds one module per header line: package and
/// metadata lines only fill in the module above them, and blank lines are
/// passed over.
pub proof fn law_one_module_per_header(content: Seq<char>)
    ensures
        parse_modules_txt_spec(content) matches Ok(ms) ==> ms.len() == header_count(
            split_on(content, '\n'),
        ),
{
    lemma_parse_lines_count(split_on(content, '\n'));
}

pub open spec fn modules_view(v: Seq<VendorModule>) -> Seq<SpecVendorModule> {
    v.map_values(|m: VendorModule| m@)
}

/// The contents of an optional module.
pub open spec fn opt_module_view(o: Option<VendorModule>) -> Option<SpecVendorModule> {
    match o {
        Some(m) => Some(m@),
        None => None,
    }
}

/// Parses the raw content of a modules.txt string.
pub fn parse_modules_txt(content: &str) -> (r: Result<Vec<VendorModule>, WarError>)
    ensures
        match parse_modules_txt_spec(content@) {
            Ok(mods) => r matches Ok(v) && modules_view(v@) == mods,
            Err(msg) => r matches Err(WarError::ParseError(m)) && m@ == msg,
        },
{
    let chars = chars_of(content);
    let lines = split_exec(&chars, '\n');
    let ghost ls = pieces_view(lines@);
    let mut modules: Vec<VendorModule> = Vec::new();
    let mut current: Option<VendorModule> = None;
    let mut line_num: usize = 0;
    proof {
        assert(ls.take(0) =~= Seq::<Seq<char>>::empty());
        assert(modules_view(modules@) =~= Seq::empty());
    }
    while line_num < lines.len()
        invariant
            line_num <= lines.len(),
            ls == pieces_view(lines@),
            ls == split_on(content@, '\n'),
            parse_lines_spec(ls.take(line_num as int)) == Ok::<ParseState, Seq<char>>(
                (modules_view(modules@), opt_module_view(current)),
            ),
        decreases lines.len() - line_num,
    {
        proof {
            assert(ls.take(line_num + 1).drop_last() =~= ls.take(line_num as int));
            assert(ls.take(line_num + 1).last() == lines@[line_num as int]@);
        }
        let line = trim_exec(&lines[line_num]);
        if line.len() > 0 {
            match parse_modules_line(&mut modules, &mut current, line_num, &line) {
                Ok(()) => {},
                Err(e) => {
                    proof {
                        assert(parse_lines_spec(ls.take(line_num + 1)) is Err);
                        lemma_parse_err_sticks(ls, line_num + 1);
                    }
                    return Err(e);
                },
            }
        }
        line_num = line_num + 1;
    }
    proof {
        assert(ls.take(lines@.len() as int) =~= ls);
    }
    // Don't forget the last module
    if let Some(module) = current {
        let ghost m0 = modules@;
        modules.push(module);
        proof {
            assert(modules_view(modules@) =~= modules_view(m0).push(module@));
        }
    }
    Ok(modules)
}

/// Once a prefix of the lines fails, the whole text fails with that error.
proof fn lemma_parse_err_sticks(ls: Seq<Seq<char>>, n: int)
    requires
        0 <= n <= ls.len(),
        parse_lines_spec(ls.take(n)) is Err,
    ensures
        parse_lines_spec(ls) == parse_lines_spec(ls.take(n)),
    decreases ls.len() - n,
{
    if n < ls.len() {
        assert(ls.take(n + 1).drop_last() =~= ls.take(n));
        lemma_parse_err_sticks(ls, n + 1);
    } else {
        assert(ls.take(n) =~= ls);
    }
}

/// The message for line `line_num` with `what` wrong.
fn line_error(what: &str, line_num: usize, line: &Vec<char>) -> (e: WarError)
    requires
        line_num < usize::MAX,
    ensures
        e matches WarError::ParseError(m) && m@ == line_msg(what@, line_num as nat, line@),
{
    let mut msg = String::from_str(what);
    msg.append(" at line ");
    crate::text::push_chars(&mut msg, &crate::text::decimal_exec(line_num + 1));
    msg.append(": '");
    crate::text::push_chars(&mut msg, line);
    msg.append("'");
    proof {
        assert(msg@ =~= line_msg(what@, line_num as nat, line@));
    }
    WarError::ParseError(msg)
}

/// Parse one trimmed, non-blank line: a module header `# <path>
/// <version>`, a metadata line `## explicit; go 1.20`, or a package path.
fn parse_modules_line(
    modules: &mut Vec<VendorModule>,
    current: &mut Option<VendorModule>,
    line_num: usize,
    line: &Vec<char>,
) -> (r: Result<(), WarError>)
    requires
        line@.len() > 0,
        line_num < usize::MAX,
    ensures
        match parse_trimmed_spec(
            (modules_view(old(modules)@), opt_module_view(*old(current))),
            line_num as nat,
            line@,
        ) {
            Ok(st) => r is Ok && st == (modules_view(final(modules)@), opt_module_view(
                *final(current),
            )),
            Err(msg) => r matches Err(WarError::ParseError(m)) && m@ == msg,
        },
{
    let hs = vec!['#', ' '];
    let hh = vec!['#', '#'];
    let hhs = vec!['#', '#', ' '];
    proof {
        assert(hs@ =~= hash_space());
        assert(hh@ =~= hash_hash());
        assert(hhs@ =~= hash_hash_space());
    }
    if starts_with_exec(line, &hs) && !starts_with_exec(line, &hh) {
        match parse_header(modules, current, line_num, line) {
            Ok(m) => {
                *current = Some(m);
                Ok(())
            },
            Err(e) => Err(e),
        }
    } else if starts_with_exec(line, &hhs) {
        parse_metadata(current, line_num, line)
    } else {
        parse_package(current, line_num, line)
    }
}

/// Parse a header line `# <path> <version>`, finishing the module read so
/// far.
fn parse_header(
    modules: &mut Vec<VendorModule>,
    current: &mut Option<VendorModule>,
    line_num: usize,
    line: &Vec<char>,
) -> (r: Result<VendorModule, WarError>)
    requires
        line@.len() >= 2,
        line_num < usize::MAX,
    ensures
        modules_view(final(modules)@) == finished(
            (modules_view(old(modules)@), opt_module_view(*old(current))),
        ),
        *final(current) is None,
        match header_parts(line@) {
            Some((p, v)) => r matches Ok(m) && m@ == new_module(p, v),
            None => r matches Err(WarError::ParseError(m)) && m@ == line_msg(
                header_err(),
                line_num as nat,
                line@,
            ),
        },
{
    // Push the previous module if any
    if let Some(module) = current.take() {
        let ghost m0 = modules@;
        modules.push(module);
        proof {
            assert(modules_view(modules@) =~= modules_view(m0).push(module@));
        }
    }
    let rest = crate::text::slice_of(line, 2, line.len());
    let space = vec![' '];
    proof {
        assert(rest@ =~= line@.skip(2));
        assert(space@ =~= seq![' ']);
    }
    match find_from_exec(&rest, &space, 0) {
        None => Err(line_error("invalid module header", line_num, line)),
        Some(i) => {
            proof {
                crate::text::lemma_find_from_some(rest@, space@, 0);
            }
            let path = crate::text::slice_of(&rest, 0, i);
            let version = crate::text::slice_of(&rest, i + 1, rest.len());
            proof {
                assert(path@ =~= rest@.take(i as int));
                assert(version@ =~= rest@.skip(i + 1));
            }
            let m = VendorModule {
                path: string_of(&path),
                version: string_of(&version),
                explicit: false,
                go_version: None,
                packages: Vec::new(),
                vendor_path: String::new(),
            };
            proof {
                assert(strings_view(m.packages@) =~= Seq::<Seq<char>>::empty());
            }
            Ok(m)
        },
    }
}

/// Parse a metadata line `## explicit; go 1.20` into the current module.
fn parse_metadata(current: &mut Option<VendorModule>, line_num: usize, line: &Vec<char>) -> (r:
    Result<(), WarError>)
    requires
        line@.len() >= 3,
        line_num < usize::MAX,
    ensures
        match *old(current) {
            None => r matches Err(WarError::ParseError(m)) && m@ == line_msg(
                metadata_err(),
                line_num as nat,
                line@,
            ),
            Some(m) => r is Ok && opt_module_view(*final(current)) == Some(
                apply_metadata(m@, line@.skip(3)),
            ),
        },
{
    let mut module = match current.take() {
        Some(m) => m,
        None => {
            return Err(line_error("metadata line without module header", line_num, line));
        },
    };
    let ghost m0 = module@;
    let meta = crate::text::slice_of(line, 3, line.len());
    let explicit = vec!['e', 'x', 'p', 'l', 'i', 'c', 'i', 't'];
    let go = vec!['g', 'o', ' '];
    proof {
        assert(meta@ =~= line@.skip(3));
        assert(explicit@ =~= explicit_word());
        assert(go@ =~= go_word());
    }
    if find_from_exec(&meta, &explicit, 0).is_some() {
        module.explicit = true;
    }
    // Extract go version: "explicit; go 1.20"
    if let Some(go_pos) = find_from_exec(&meta, &go, 0) {
        proof {
            crate::text::lemma_find_from_some(meta@, go@, 0);
        }
        let tail = crate::text::slice_of(&meta, go_pos + 3, meta.len());
        let go_ver = trim_exec(&tail);
        proof {
            assert(tail@ =~= meta@.skip(go_pos + 3));
        }
        if go_ver.len() > 0 {
            module.go_version = Some(string_of(&go_ver));
        }
    }
    *current = Some(module);
    Ok(())
}

/// Parse a package line (a bare import path) into the current module.
fn parse_package(current: &mut Option<VendorModule>, line_num: usize, line: &Vec<char>) -> (r:
    Result<(), WarError>)
    requires
        line_num < usize::MAX,
    ensures
        match *old(current) {
            None => r matches Err(WarError::ParseError(m)) && m@ == line_msg(
                package_err(),
                line_num as nat,
                line@,
            ),
            Some(m) => r is Ok && opt_module_view(*final(current)) == Some(
                SpecVendorModule { packages: m@.packages.push(line@), ..m@ },
            ),
        },
{
    let mut module = match current.take() {
        Some(m) => m,
        None => {
            return Err(line_error("package line without module header", line_num, line));
        },
    };
    let ghost p0 = module.packages@;
    module.packages.push(string_of(line));
    proof {
        assert(strings_view(module.packages@) =~= strings_view(p0).push(line@));
    }
    *current = Some(module);
    Ok(())
}

} // verus!
