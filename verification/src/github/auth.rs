use vstd::prelude::*;

use crate::text::{chars_of, string_of, text_from_bytes_lossy, trim, trim_bounds, utf8_lossy};

verus! {

/// The text of an optional string.
pub open spec fn opt_text(o: Option<String>) -> Option<Seq<char>> {
    match o {
        Some(s) => Some(s@),
        None => None,
    }
}

/// The token an environment variable gives: its value where it is set and not empty.
pub open spec fn env_token(value: Option<Seq<char>>) -> Option<Seq<char>> {
    match value {
        Some(v) => if v.len() > 0 {
            Some(v)
        } else {
            None
        },
        None => None,
    }
}

/// A token from an environment variable: its value where it is set and not empty.
pub fn token_from_env(value: Option<String>) -> (r: Option<String>)
    ensures
        opt_text(r) == env_token(opt_text(value)),
{
    match value {
        Some(v) => {
            if v.as_str().is_empty() {
                None
            } else {
                Some(v)
            }
        },
        None => None,
    }
}

/// A token from the output of `gh auth token`: what it printed, trimmed, where it
/// succeeded and printed something other than white space.
pub fn token_from_gh_output(success: bool, stdout: &[u8]) -> (r: Option<String>)
    ensures
        opt_text(r) == (if success && trim(utf8_lossy(stdout@)).len() > 0 {
            Some(trim(utf8_lossy(stdout@)))
        } else {
            None
        }),
{
    if !success {
        return None;
    }
    let text = text_from_bytes_lossy(stdout);
    let v = chars_of(text.as_str());
    let (a, b) = trim_bounds(&v, 0, v.len());
    assert(v@.subrange(0, v@.len() as int) =~= v@);
    if a == b {
        return None;
    }
    Some(string_of(&v, a, b))
}

/// The token graft uses: the first of `GH_TOKEN`, `GITHUB_TOKEN` and `gh auth token`
/// that gives one, each as the functions above read it.
pub fn choose_token(gh_token: Option<String>, github_token: Option<String>, gh_cli: Option<String>) -> (r: Option<String>)
    ensures
        env_token(opt_text(gh_token)) is Some ==> opt_text(r) == env_token(opt_text(gh_token)),
        env_token(opt_text(gh_token)) is None && env_token(opt_text(github_token)) is Some ==> opt_text(r)
            == env_token(opt_text(github_token)),
        env_token(opt_text(gh_token)) is None && env_token(opt_text(github_token)) is None ==> opt_text(r)
            == opt_text(gh_cli),
{
    if let Some(t) = token_from_env(gh_token) {
        return Some(t);
    }
    if let Some(t) = token_from_env(github_token) {
        return Some(t);
    }
    gh_cli
}

/// The `User-Agent` graft sends: `graft/{version}`.
pub fn user_agent(version: &str) -> (r: String)
    ensures
        r@ == "graft/"@ + version@,
{
    let mut r = "graft/".to_owned();
    r.append(version);
    r
}

/// The `Authorization` header value for a token: `Bearer {token}`.
pub fn bearer(token: &str) -> (r: String)
    ensures
        r@ == "Bearer "@ + token@,
{
    let mut r = "Bearer ".to_owned();
    r.append(token);
    r
}

} // verus!
