//! `war go get`: splitting `module@version`, adding a blank import of the
//! fetched module to `main.go`, and locating Go's download cache.
use vstd::prelude::*;
use crate::error::WarError;
use crate::path::{path_join, path_join_exec};
use crate::text::{
    chars_of, contains_seq, find_from, find_from_exec, push_chars, rfind_char, rfind_char_exec,
    slice_of, string_of,
};

verus! {

/// The module path and version of `module[@version]`: split at the last
/// `@`; without one the version is `latest`.
pub open spec fn module_version_spec(module: Seq<char>) -> (Seq<char>, Seq<char>) {
    match rfind_char(module, '@') {
        Some(at) => (module.take(at), module.skip(at + 1)),
        None => (module, "latest"@),
    }
}

/// Parse `module@version` into `(path, version)`, the version defaulting
/// to `latest`.
pub fn parse_module_version(module: &str) -> (r: (String, String))
    ensures
        (r.0@, r.1@) == module_version_spec(module@),
{
    let chars = chars_of(module);
    proof {
        crate::text::lemma_rfind_char(chars@, '@');
    }
    match rfind_char_exec(&chars, '@') {
        Some(at) => {
            let path = slice_of(&chars, 0, at);
            let version = slice_of(&chars, at + 1, chars.len());
            proof {
                assert(path@ =~= chars@.take(at as int));
                assert(version@ =~= chars@.skip(at + 1));
            }
            (string_of(&path), string_of(&version))
        },
        None => (String::from_str(module), String::from_str("latest")),
    }
}

/// The text `import (`.
pub open spec fn import_open() -> Seq<char> {
    seq!['i', 'm', 'p', 'o', 'r', 't', ' ', '(']
}

/// A newline followed by `)`.
pub open spec fn import_close() -> Seq<char> {
    seq!['\n', ')']
}

/// The blank import line for a module: a tab, `_ "`, the path, `"` and a
/// newline.
pub open spec fn import_line(import_path: Seq<char>) -> Seq<char> {
    seq!['\t', '_', ' ', '"'] + import_path + seq!['"', '\n']
}

/// `source` with a blank import of `import_path` inserted before the `)`
/// that closes the first `import (` block (the first `)` at the start of a
/// line after it); none when there is no such block.
pub open spec fn inject_import_spec(source: Seq<char>, import_path: Seq<char>) -> Option<
    Seq<char>,
> {
    match find_from(source, import_open(), 0) {
        None => None,
        Some(open) => match find_from(source, import_close(), open + 8) {
            None => None,
            Some(close) => Some(
                source.take(close + 1) + import_line(import_path) + source.skip(close + 1),
            ),
        },
    }
}

/// Insert `\t_ "import_path"` before the closing `)` of the first
/// `import (...)` block found in `source`.
///
/// Returns `None` if no `import (` block exists in `source`.
pub fn inject_import(source: &str, import_path: &str) -> (r: Option<String>)
    ensures
        match inject_import_spec(source@, import_path@) {
            Some(s) => r matches Some(t) && t@ == s,
            None => r is None,
        },
{
    let src = chars_of(source);
    let open_pat = vec!['i', 'm', 'p', 'o', 'r', 't', ' ', '('];
    let close_pat = vec!['\n', ')'];
    proof {
        assert(open_pat@ =~= import_open());
        assert(close_pat@ =~= import_close());
        crate::text::lemma_find_from_some(src@, import_open(), 0);
    }
    let open = match find_from_exec(&src, &open_pat, 0) {
        Some(i) => i,
        None => return None,
    };
    assert(crate::text::occurs_at(src@, import_open(), open as int));
    let n = src.len();
    assert(open + 8 <= n);
    let close = match find_from_exec(&src, &close_pat, open + 8) {
        Some(c) => c,
        None => return None,
    };
    proof {
        crate::text::lemma_find_from_some(src@, import_close(), open + 8);
    }
    assert(crate::text::occurs_at(src@, import_close(), close as int));
    assert(close + 2 <= n);
    let close_pos = close + 1;
    let head = slice_of(&src, 0, close_pos);
    let tail = slice_of(&src, close_pos, src.len());
    let mut result = string_of(&head);
    result.append("\t_ \"");
    result.append(import_path);
    result.append("\"\n");
    push_chars(&mut result, &tail);
    proof {
        reveal_strlit("\t_ \"");
        reveal_strlit("\"\n");
        assert(result@ =~= src@.take(close_pos as int) + import_line(import_path@) + src@.skip(
            close_pos as int,
        ));
    }
    Some(result)
}

/// The quoted module path `"<import_path>"`.
pub open spec fn quoted(import_path: Seq<char>) -> Seq<char> {
    seq!['"'] + import_path + seq!['"']
}

/// The error for a `main.go` without an `import (` block.
pub open spec fn no_import_block_msg(main_go: Seq<char>) -> Seq<char> {
    "main.go at "@ + main_go
        + " has no `import (...)` block to inject into.\nAdd one manually: import (\n\t// imports here\n)"@
}

/// The new text of `main.go` (at path `main_go`) with a blank import of
/// `import_path`: none when the quoted path already occurs in the file,
/// an error when there is no `import (` block.
pub fn plan_main_import(content: &str, import_path: &str, main_go: &str) -> (r: Result<
    Option<String>,
    WarError,
>)
    ensures
        contains_seq(content@, quoted(import_path@)) ==> r matches Ok(None),
        !contains_seq(content@, quoted(import_path@)) ==> match inject_import_spec(
            content@,
            import_path@,
        ) {
            Some(s) => r matches Ok(Some(t)) && t@ == s,
            None => r matches Err(WarError::InvalidInput(m)) && m@ == no_import_block_msg(
                main_go@,
            ),
        },
{
    let src = chars_of(content);
    let mut q: Vec<char> = Vec::new();
    q.push('"');
    let m = chars_of(import_path);
    let mut k: usize = 0;
    while k < m.len()
        invariant
            k <= m.len(),
            q@ == seq!['"'] + m@.take(k as int),
        decreases m.len() - k,
    {
        q.push(m[k]);
        assert(m@.take(k + 1) =~= m@.take(k as int).push(m@[k as int]));
        k = k + 1;
    }
    q.push('"');
    proof {
        assert(m@.take(m@.len() as int) =~= m@);
        assert(q@ =~= quoted(import_path@));
    }
    if find_from_exec(&src, &q, 0).is_some() {
        return Ok(None);
    }
    match inject_import(content, import_path) {
        Some(updated) => Ok(Some(updated)),
        None => {
            let mut msg = String::from_str("main.go at ");
            msg.append(main_go);
            msg.append(
                " has no `import (...)` block to inject into.\nAdd one manually: import (\n\t// imports here\n)",
            );
            Err(WarError::InvalidInput(msg))
        },
    }
}

/// Go's download cache below a module cache root: `<root>/cache/download`.
pub open spec fn download_dir(root: Seq<char>) -> Seq<char> {
    path_join(path_join(root, "cache"@), "download"@)
}

/// Where `go mod download` writes `.info`/`.mod`/`.zip` files: below
/// `$GOMODCACHE` when it is set, else below `<home>/go/pkg/mod`.
pub fn native_download_dir(gomodcache: &Option<String>, home: &Option<String>) -> (r: Result<
    String,
    WarError,
>)
    ensures
        match gomodcache {
            Some(g) => r matches Ok(p) && p@ == download_dir(g@),
            None => match home {
                Some(h) => r matches Ok(p) && p@ == download_dir(
                    path_join(path_join(path_join(h@, "go"@), "pkg"@), "mod"@),
                ),
                None => r matches Err(WarError::InvalidInput(m)) && m@
                    == "Could not determine home directory"@,
            },
        },
{
    let base = match gomodcache {
        Some(g) => String::from_str(g.as_str()),
        None => match home {
            Some(h) => {
                let a = path_join_exec(h.as_str(), "go");
                let b = path_join_exec(a.as_str(), "pkg");
                path_join_exec(b.as_str(), "mod")
            },
            None => {
                return Err(
                    WarError::InvalidInput(String::from_str("Could not determine home directory")),
                );
            },
        },
    };
    let c = path_join_exec(base.as_str(), "cache");
    Ok(path_join_exec(c.as_str(), "download"))
}

/// The result of a finished `go` command: success, or `GoCommandFailed`
/// with the command's label, the standard error it printed and its exit
/// code (`-1` when it was ended by a signal).
pub fn go_command_outcome(command_label: &str, success: bool, exit_code: Option<i32>, stderr: &str) -> (r:
    Result<(), WarError>)
    ensures
        success ==> r is Ok,
        !success ==> (r matches Err(WarError::GoCommandFailed { command, stderr: e, exit_code: c })
            && command@ == command_label@ && e@ == stderr@ && c == match exit_code {
            Some(x) => x,
            None => -1i32,
        }),
{
    if success {
        return Ok(());
    }
    let code = match exit_code {
        Some(c) => c,
        None => -1,
    };
    Err(
        WarError::GoCommandFailed {
            command: String::from_str(command_label),
            stderr: String::from_str(stderr),
            exit_code: code,
        },
    )
}

/// The label of a `go get` run: `go get <module>`.
pub fn go_get_label(module: &str) -> (label: String)
    ensures
        label@ == "go get "@ + module@,
{
    let mut label = String::from_str("go get ");
    label.append(module);
    label
}

} // verus!
