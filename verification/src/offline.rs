//! Shell export commands that route `GOPROXY` to the local war cache at
//! `~/.war/cache/go` (`eval $(war go offline)`), and the commands that
//! undo them (`eval $(war go online)`).
use vstd::prelude::*;
use crate::text::{contains_seq, lemma_find_from_some, occurs_at};
use crate::error::WarError;
use crate::path::{path_join, path_join_exec};

verus! {

/// The war Go cache root below a home directory: `<home>/.war/cache/go`.
pub open spec fn war_cache_root_spec(home: Seq<char>) -> Seq<char> {
    path_join(path_join(path_join(home, ".war"@), "cache"@), "go"@)
}

/// The war Go cache root for a home directory; without a home directory
/// there is none.
pub fn war_cache_root(home: &Option<String>) -> (r: Result<String, WarError>)
    ensures
        match home {
            Some(h) => r matches Ok(p) && p@ == war_cache_root_spec(h@),
            None => r matches Err(WarError::ShellDetectionError),
        },
{
    match home {
        Some(h) => {
            let a = path_join_exec(h.as_str(), ".war");
            let b = path_join_exec(a.as_str(), "cache");
            Ok(path_join_exec(b.as_str(), "go"))
        },
        None => Err(WarError::ShellDetectionError),
    }
}

/// The text of `generate_offline_exports`.
pub open spec fn offline_exports_spec(cache_root: Option<Seq<char>>, cache_exists: bool) -> Seq<
    char,
> {
    match cache_root {
        Some(root) => "# war go offline — route Go to local cache\n"@ + "export GOPROXY=file://"@
            + root + "\nexport GONOSUMDB=*\nexport GOSUMDB=off\nexport GOFLAGS=-mod=readonly\n"@
            + if cache_exists {
            Seq::empty()
        } else {
            "# ⚠  Cache dir "@ + root + " does not exist yet. Run `war go unpack <archive>` first.\n"@
        },
        None => "# ⚠  Could not determine home directory; cannot generate offline exports.\n"@,
    }
}

/// With a cache root `r`, the offline exports always set all four
/// variables, whether or not the cache exists yet: the output holds the
/// `GOPROXY=file://r` export followed by the other three exports, and for a
/// missing cache it is the output for an existing one with one warning
/// line after it.
pub proof fn law_offline_exports_always_export(r: Seq<char>, cache_exists: bool)
    ensures
        contains_seq(
            offline_exports_spec(Some(r), cache_exists),
            "export GOPROXY=file://"@ + r
                + "\nexport GONOSUMDB=*\nexport GOSUMDB=off\nexport GOFLAGS=-mod=readonly\n"@,
        ),
        offline_exports_spec(Some(r), false) == offline_exports_spec(Some(r), true) + (
        "# ⚠  Cache dir "@ + r + " does not exist yet. Run `war go unpack <archive>` first.\n"@),
{
    let out = offline_exports_spec(Some(r), cache_exists);
    let head = "# war go offline — route Go to local cache\n"@;
    let pat = "export GOPROXY=file://"@ + r
        + "\nexport GONOSUMDB=*\nexport GOSUMDB=off\nexport GOFLAGS=-mod=readonly\n"@;
    let tail = out.skip((head.len() + pat.len()) as int);
    assert(out =~= head + pat + tail);
    assert(out.subrange(head.len() as int, (head.len() + pat.len()) as int) =~= pat);
    lemma_find_from_some(out, pat, 0);
    assert(occurs_at(out, pat, head.len() as int));
    assert(offline_exports_spec(Some(r), false) =~= offline_exports_spec(Some(r), true) + (
    "# ⚠  Cache dir "@ + r + " does not exist yet. Run `war go unpack <archive>` first.\n"@));
}

/// Generate shell `export` statements that route Go to the local war cache.
///
/// The output is designed for `eval $(war go offline)`.  It sets
/// `GOPROXY=file://<cache_root>`, `GONOSUMDB=*`, `GOSUMDB=off` and
/// `GOFLAGS=-mod=readonly`.  When the cache directory does not exist yet a
/// warning comment is added; without a cache root (no home directory) only
/// a warning comment is produced.
pub fn generate_offline_exports(cache_root: &Option<String>, cache_exists: bool) -> (out: String)
    ensures
        out@ == offline_exports_spec(
            match cache_root {
                Some(r) => Some(r@),
                None => None,
            },
            cache_exists,
        ),
{
    match cache_root {
        Some(root) => {
            let mut out = String::from_str("# war go offline — route Go to local cache\n");
            out.append("export GOPROXY=file://");
            out.append(root.as_str());
            out.append("\nexport GONOSUMDB=*\nexport GOSUMDB=off\nexport GOFLAGS=-mod=readonly\n");
            if !cache_exists {
                out.append("# ⚠  Cache dir ");
                out.append(root.as_str());
                out.append(" does not exist yet. Run `war go unpack <archive>` first.\n");
            }
            proof {
                if cache_exists {
                    assert(out@ =~= offline_exports_spec(Some(root@), cache_exists));
                } else {
                    assert(out@ =~= offline_exports_spec(Some(root@), cache_exists));
                }
            }
            out
        },
        None => String::from_str(
            "# ⚠  Could not determine home directory; cannot generate offline exports.\n",
        ),
    }
}

/// The text of `generate_online_exports`.
pub open spec fn online_exports_spec() -> Seq<char> {
    "# war go online — restore default Go behaviour\nunset GOPROXY\nunset GONOSUMDB\nunset GOSUMDB\nunset GOFLAGS\n"@
}

/// Generate shell `unset` statements to restore online Go behaviour
/// (`eval $(war go online)`).
pub fn generate_online_exports() -> (out: String)
    ensures
        out@ == online_exports_spec(),
{
    let mut out = String::from_str("# war go online — restore default Go behaviour\n");
    out.append("unset GOPROXY\n");
    out.append("unset GONOSUMDB\n");
    out.append("unset GOSUMDB\n");
    out.append("unset GOFLAGS\n");
    proof {
        reveal_strlit("# war go online — restore default Go behaviour\n");
        reveal_strlit("unset GOPROXY\n");
        reveal_strlit("unset GONOSUMDB\n");
        reveal_strlit("unset GOSUMDB\n");
        reveal_strlit("unset GOFLAGS\n");
        reveal_strlit(
            "# war go online — restore default Go behaviour\nunset GOPROXY\nunset GONOSUMDB\nunset GOSUMDB\nunset GOFLAGS\n",
        );
        assert(out@ =~= online_exports_spec());
    }
    out
}

/// The environment settings of offline mode, in the order they are
/// applied: `GOPROXY`, `GONOSUMDB`, `GOSUMDB`, `GOFLAGS`.
pub open spec fn offline_env_spec(cache_root: Seq<char>) -> Seq<(Seq<char>, Seq<char>)> {
    seq![
        ("GOPROXY"@, "file://"@ + cache_root),
        ("GONOSUMDB"@, "*"@),
        ("GOSUMDB"@, "off"@),
        ("GOFLAGS"@, "-mod=readonly"@),
    ]
}

/// The `(variable, value)` pairs that offline mode sets.
pub fn offline_env_vars(cache_root: &str) -> (vars: Vec<(String, String)>)
    ensures
        vars@.map_values(|p: (String, String)| (p.0@, p.1@)) == offline_env_spec(cache_root@),
{
    let mut proxy = String::from_str("file://");
    proxy.append(cache_root);
    let vars = vec![
        (String::from_str("GOPROXY"), proxy),
        (String::from_str("GONOSUMDB"), String::from_str("*")),
        (String::from_str("GOSUMDB"), String::from_str("off")),
        (String::from_str("GOFLAGS"), String::from_str("-mod=readonly")),
    ];
    assert(vars@.map_values(|p: (String, String)| (p.0@, p.1@)) =~= offline_env_spec(cache_root@));
    vars
}

/// The variables that online mode unsets.
pub open spec fn offline_var_names() -> Seq<Seq<char>> {
    seq!["GOPROXY"@, "GONOSUMDB"@, "GOSUMDB"@, "GOFLAGS"@]
}

/// The names of the variables that offline mode sets and online mode unsets.
pub fn offline_var_names_exec() -> (names: Vec<String>)
    ensures
        names@.map_values(|s: String| s@) == offline_var_names(),
{
    let names = vec![
        String::from_str("GOPROXY"),
        String::from_str("GONOSUMDB"),
        String::from_str("GOSUMDB"),
        String::from_str("GOFLAGS"),
    ];
    assert(names@.map_values(|s: String| s@) =~= offline_var_names());
    names
}

} // verus!
