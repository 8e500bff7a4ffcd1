use vstd::prelude::*;

verus! {

/// The command line: one subcommand.
pub struct Cli {
    pub command: Commands,
}

/// The subcommands of `graft`.
pub enum Commands {
    /// Create an empty graft.toml
    Init,
    /// Add a dependency: `source` is `gh:owner/repo/path@version`; `dest` defaults to
    /// the source path; `adopt` tracks an existing local file without overwriting it;
    /// `force` overwrites an existing destination.
    Add { source: String, dest: Option<String>, adopt: bool, force: bool },
    /// Fetch and write all dependencies, bypassing the cache with `no_cache`
    Sync { no_cache: bool },
    /// Show all grafts with status
    List,
    /// Verify all grafts are clean (for CI)
    Check,
    /// Show grafts with newer upstream versions
    Outdated,
    /// Upgrade grafts (one, or all where `name` is absent) to newer versions, or only
    /// show what would change with `dry_run`
    Upgrade { name: Option<String>, dry_run: bool },
    /// Mark a conflicted graft as resolved
    Resolve { name: String },
    /// Remove a graft (keeps local file)
    Remove { name: String },
}

} // verus!
