//! The command line: which workspace directory was asked for.

use vstd::prelude::*;
use crate::text::{chars_of, has_prefix, matches_at, str_eq, string_of, string_views};

verus! {

/// The option that is followed by the workspace directory.
pub const WORKSPACE_DIR_FLAG: &'static str = "--workspace-dir";

/// The short form of [`WORKSPACE_DIR_FLAG`].
pub const WORKSPACE_FLAG: &'static str = "--workspace";

/// The option that holds the workspace directory after an equals sign.
pub const WORKSPACE_DIR_PREFIX: &'static str = "--workspace-dir=";

/// The short form of [`WORKSPACE_DIR_PREFIX`].
pub const WORKSPACE_PREFIX: &'static str = "--workspace=";

/// The directory that the argument at position `i` selects: the next
/// argument when it is the option alone, the rest of the argument when it
/// is the option with an equals sign.
pub open spec fn dir_at(args: Seq<Seq<char>>, i: int) -> Option<Seq<char>> {
    let arg = args[i];
    if arg == WORKSPACE_DIR_FLAG@ || arg == WORKSPACE_FLAG@ {
        if i + 1 < args.len() {
            Some(args[i + 1])
        } else {
            None
        }
    } else if has_prefix(arg, WORKSPACE_DIR_PREFIX@) {
        Some(arg.skip(WORKSPACE_DIR_PREFIX@.len() as int))
    } else if has_prefix(arg, WORKSPACE_PREFIX@) {
        Some(arg.skip(WORKSPACE_PREFIX@.len() as int))
    } else {
        None
    }
}

/// The directory that the first argument from position `from` on selects
/// that selects one.
pub open spec fn workspace_dir_from(args: Seq<Seq<char>>, from: int) -> Option<Seq<char>>
    decreases args.len() - from,
{
    if from < 0 || from >= args.len() {
        None
    } else {
        match dir_at(args, from) {
            Some(dir) => Some(dir),
            None => workspace_dir_from(args, from + 1),
        }
    }
}

/// What is left of `arg` after `prefix`, when it begins with it.
fn strip_prefix(arg: &str, prefix: &str) -> (r: Option<String>)
    ensures
        match r {
            Some(rest) => has_prefix(arg@, prefix@) && rest@ == arg@.skip(prefix@.len() as int),
            None => !has_prefix(arg@, prefix@),
        },
{
    let a = chars_of(arg);
    let p = chars_of(prefix);
    if matches_at(&a, 0, &p) {
        assert(a@.subrange(p.len() as int, a.len() as int) =~= a@.skip(p.len() as int));
        Some(string_of(&a, p.len(), a.len()))
    } else {
        None
    }
}

/// The workspace directory named on the command line, as
/// `--workspace-dir DIR`, `--workspace DIR`, `--workspace-dir=DIR` or
/// `--workspace=DIR`; the first of them decides.
pub fn parse_workspace_dir(args: &Vec<String>) -> (r: Option<String>)
    ensures
        match r {
            Some(dir) => workspace_dir_from(string_views(args@), 0) == Some(dir@),
            None => workspace_dir_from(string_views(args@), 0) is None,
        },
{
    let ghost all = string_views(args@);
    let mut i: usize = 0;
    while i < args.len()
        invariant
            i <= args.len(),
            all == string_views(args@),
            workspace_dir_from(all, 0) == workspace_dir_from(all, i as int),
        decreases args.len() - i,
    {
        let arg = args[i].as_str();
        assert(all[i as int] == arg@);
        if str_eq(arg, WORKSPACE_DIR_FLAG) || str_eq(arg, WORKSPACE_FLAG) {
            if i + 1 < args.len() {
                assert(all[i + 1] == args@[i + 1]@);
                return Some(args[i + 1].clone());
            }
        } else {
            match strip_prefix(arg, WORKSPACE_DIR_PREFIX) {
                Some(dir) => {
                    return Some(dir);
                },
                None => match strip_prefix(arg, WORKSPACE_PREFIX) {
                    Some(dir) => {
                        return Some(dir);
                    },
                    None => {},
                },
            }
        }
        i = i + 1;
    }
    None
}

} // verus!
