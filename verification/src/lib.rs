//! Follows the chain of symbolic links and trailing-slash directory
//! redirections starting from a path, producing one entry per hop until a
//! terminal entry is reached.
//!
//! The traversal itself is a pure state machine: every filesystem fact it
//! needs (the kind a non-following stat reports, the literal text stored in
//! a symlink) is handed to it as an event by the caller, and every decision
//! it makes from those facts is verified.

use vstd::prelude::*;

pub mod chain;
pub mod entry;
pub mod util;

verus! {

/// Starts a traversal at the path `filename_arg` names relative to the
/// working directory `cwd`: the path is made absolute, and the chain is
/// seeded with it and with `kind`, the classification a non-following stat
/// of that absolute path reported.
pub fn chaseln(cwd: &str, filename_arg: &str, kind: entry::EntryKind) -> (r: chain::EntriesChain)
    ensures
        r@ == chain::init_model(util::join_spec(cwd@, filename_arg@), kind),
        r.wf(),
{
    chain::EntriesChain::new(util::any_path_to_abs(cwd, filename_arg), kind)
}

} // verus!
