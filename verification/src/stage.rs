//! The staged-module cart for `war go pack --staged` and
//! `war go unpack --staged`: listing, adding, removing and clearing
//! staged `(module, version)` pairs of a loaded configuration.
use vstd::prelude::*;
use crate::config::{
    stage_add, stage_clear, stage_list, stage_remove, staged_filter_pairs, staged_list,
    go_rest_kept, remove_all, WarConfig,
};
use crate::order::sorted_pairs;
use crate::types::{staged_views, StagedModule};

verus! {

/// The line shown for a staged pair: `module@version`.
pub open spec fn staged_line(p: (Seq<char>, Seq<char>)) -> Seq<char> {
    p.0 + seq!['@'] + p.1
}

/// List all staged modules as lines of the form `module_path@version`,
/// in the order of the list.
pub fn list_staged(config: &WarConfig) -> (lines: Vec<String>)
    ensures
        lines@.len() == staged_list(*config).len(),
        forall|i: int|
            0 <= i < lines@.len() ==> #[trigger] lines@[i]@ == staged_line(staged_list(*config)[i]),
{
    let modules = stage_list(config);
    let mut lines: Vec<String> = Vec::new();
    let mut i: usize = 0;
    while i < modules.len()
        invariant
            i <= modules.len(),
            staged_views(modules@) == staged_list(*config),
            lines@.len() == i,
            forall|j: int|
                0 <= j < i ==> #[trigger] lines@[j]@ == staged_line(staged_views(modules@)[j]),
        decreases modules.len() - i,
    {
        let mut line = modules[i].module.clone();
        crate::text::push_char(&mut line, '@');
        line.append(modules[i].version.as_str());
        lines.push(line);
        i = i + 1;
    }
    lines
}

/// Add a module to the staged list; `true` if it was newly added,
/// `false` if it was already present.
pub fn add_staged(config: &mut WarConfig, module: &str, version: &str) -> (added: bool)
    ensures
        added == !staged_list(*old(config)).contains((module@, version@)),
        !added ==> staged_list(*final(config)) == staged_list(*old(config)),
        added ==> sorted_pairs(staged_list(*final(config))),
        added ==> staged_list(*final(config)).to_multiset() == staged_list(
            *old(config),
        ).to_multiset().insert((module@, version@)),
        go_rest_kept(*old(config), *final(config)),
{
    stage_add(config, module, version)
}

/// Remove a module from the staged list; `true` if it was staged.
pub fn remove_staged(config: &mut WarConfig, module: &str, version: &str) -> (removed: bool)
    ensures
        removed == staged_list(*old(config)).contains((module@, version@)),
        staged_list(*final(config)) == remove_all(staged_list(*old(config)), (module@, version@)),
        go_rest_kept(*old(config), *final(config)),
{
    stage_remove(config, module, version)
}

/// Clear all staged modules.
pub fn clear_staged(config: &mut WarConfig)
    ensures
        staged_list(*final(config)).len() == 0,
        go_rest_kept(*old(config), *final(config)),
{
    stage_clear(config)
}

/// The staged list as `(module, version)` filter pairs for pack and unpack.
pub fn get_staged_filter(config: &WarConfig) -> (pairs: Vec<(String, String)>)
    ensures
        pairs@.map_values(|p: (String, String)| (p.0@, p.1@)) == staged_list(*config),
{
    staged_filter_pairs(config)
}

/// The staged list as `StagedModule`s.
pub fn get_staged_modules(config: &WarConfig) -> (v: Vec<StagedModule>)
    ensures
        staged_views(v@) == staged_list(*config),
{
    stage_list(config)
}

} // verus!
