# graft

A package manager for config files: versioned dependencies on single files and
directories of GitHub repositories, declared in `graft.toml`, pinned in `graft.lock`,
and upgraded with a three-way merge that keeps local changes.

The library in `src/` is written in Verus. Its functions carry contracts that Verus
proves, except for a small set of trusted items: the calls into the standard
library and the outside crates (`sha2`, `hex`, `semver`, `base64`, `tar`/`flate2`,
`indexmap`), whose contracts state what those libraries document and are not
proved.

- `source/`: reading `gh:owner/repo/path@version`, telling SHAs from tags, reading
  `git ls-remote --tags` output, ordering tags (semantic versions first) and finding
  newer ones.
- `checksum.rs`: `sha256:` checksums of files and of directories (order independent).
- `config/`: the dependencies of `graft.toml` and the entries of `graft.lock`, and the
  rules on destinations.
- `state.rs`: whether a dependency is synced, modified, conflicted or missing.
- `github/`: GitHub API URLs and what each response status means, decoding file
  contents, picking a directory's files out of a tarball, reading `git ls-remote`
  results, tokens.
- `commands/`: the decisions of each command.

The work that needs the network or the disk is driven by step functions (`sync`,
`outdated`, `upgrade`, and the API requests in `github/request.rs`): from where the
work stands and what the last outside action brought, they say what to do next.
- `cache.rs`, `merge.rs`: cache keys, and the outcome of `git merge-file`.

`app/` is the program around the library: the command line, files, the network,
`git` and `gh`, and serialisation of the two TOML files. It performs the actions that
the library's step functions ask for and hands their results back.
