//! `war go init`: the `go.mod` and `main.go` of a new Go project.
use vstd::prelude::*;

verus! {

/// The `go.mod` of a new project named `name`.
pub fn go_mod_content(name: &str) -> (r: String)
    ensures
        r@ == "module "@ + name@ + "\n\ngo 1.22\n"@,
{
    let mut r = String::from_str("module ");
    r.append(name);
    r.append("\n\ngo 1.22\n");
    r
}

/// The `main.go` of a new project, with an import block ready for
/// `war go get` to append to.
pub open spec fn main_go_spec() -> Seq<char> {
    "package main\n\n// Blank import block — `war go get` will append modules here.\nimport (\n\t// _ \"github.com/example/module\"\n)\n\nfunc main() {\n\t// TODO: Add your application logic here.\n}\n"@
}

/// The `main.go` of a new project.
pub fn main_go_content() -> (r: String)
    ensures
        r@ == main_go_spec(),
{
    String::from_str(
        "package main\n\n// Blank import block — `war go get` will append modules here.\nimport (\n\t// _ \"github.com/example/module\"\n)\n\nfunc main() {\n\t// TODO: Add your application logic here.\n}\n",
    )
}

} // verus!
