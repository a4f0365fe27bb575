use crate::github::Repo;
use vstd::prelude::*;

verus! {

/// Why the configuration could not be read.
#[derive(Clone, Debug)]
pub enum ConfigError {
    /// The variable `name` is not set; `msg` says what it should hold.
    Missing { name: String, msg: String },
    /// The variable `name` is set but does not hold valid Unicode.
    NotUnicode { name: String },
    /// The repository is not written as `<org>:<repo>`.
    GithubRepoInvalid,
}

/// A snapshot of the process environment: each variable's name and its value,
/// `None` where the value is not valid Unicode.
#[derive(Clone, Debug)]
pub struct Environment {
    pub vars: Vec<(String, Option<String>)>,
}

/// The value of the first variable named `name` among `vars`: `None` where
/// there is none, `Some(None)` where its value is not valid Unicode.
pub open spec fn var_in(vars: Seq<(String, Option<String>)>, name: Seq<char>) -> Option<
    Option<Seq<char>>,
>
    decreases vars.len(),
{
    if vars.len() == 0 {
        None
    } else if vars[0].0@ == name {
        match vars[0].1 {
            Some(v) => Some(Some(v@)),
            None => Some(None),
        }
    } else {
        var_in(vars.skip(1), name)
    }
}

/// `r` is what reading variable `name`, described by `msg`, gives.
pub open spec fn read_as(
    r: Result<String, ConfigError>,
    vars: Seq<(String, Option<String>)>,
    name: Seq<char>,
    msg: Seq<char>,
) -> bool {
    match var_in(vars, name) {
        Some(Some(v)) => r matches Ok(s) && s@ == v,
        _ => r matches Err(e) && unset_as(e, vars, name, msg),
    }
}

/// `e` is the error for variable `name`, described by `msg`, where it is
/// unset or not valid Unicode.
pub open spec fn unset_as(
    e: ConfigError,
    vars: Seq<(String, Option<String>)>,
    name: Seq<char>,
    msg: Seq<char>,
) -> bool {
    match var_in(vars, name) {
        None => e matches ConfigError::Missing { name: n, msg: m } && n@ == name && m@ == msg,
        Some(None) => e matches ConfigError::NotUnicode { name: n } && n@ == name,
        Some(Some(_)) => false,
    }
}

/// Reads the variable `name`; `msg` says what it should hold.
fn getenv(env: &Environment, name: &str, msg: &str) -> (r: Result<String, ConfigError>)
    ensures
        read_as(r, env.vars@, name@, msg@),
{
    let mut i: usize = 0;
    assert(env.vars@.skip(0) =~= env.vars@);
    while i < env.vars.len()
        invariant
            i <= env.vars@.len(),
            var_in(env.vars@, name@) == var_in(env.vars@.skip(i as int), name@),
        decreases env.vars@.len() - i,
    {
        assert(env.vars@.skip(i as int)[0] == env.vars@[i as int]);
        if crate::issue::same_text(env.vars[i].0.as_str(), name) {
            return match &env.vars[i].1 {
                Some(v) => Ok(v.clone()),
                None => Err(ConfigError::NotUnicode { name: name.to_owned() }),
            };
        }
        assert(env.vars@.skip(i as int).skip(1) =~= env.vars@.skip(i + 1));
        i = i + 1;
    }
    Err(ConfigError::Missing { name: name.to_owned(), msg: msg.to_owned() })
}

/// The GitHub access token, from `MAUNZ_GITHUB_TOKEN`.
pub fn github_token(env: &Environment) -> (r: Result<String, ConfigError>)
    ensures
        read_as(r, env.vars@, "MAUNZ_GITHUB_TOKEN"@, "a github access token"@),
{
    getenv(env, "MAUNZ_GITHUB_TOKEN", "a github access token")
}

/// Position of the first `:` in `s`.
pub open spec fn first_colon(s: Seq<char>) -> Option<int> {
    if exists|i: int| 0 <= i < s.len() && s[i] == ':' {
        Some(choose|i: int| 0 <= i < s.len() && s[i] == ':' && forall|j: int| 0 <= j < i ==> s[j] != ':')
    } else {
        None
    }
}

/// The GitHub repository, from `MAUNZ_GITHUB_REPO`, written `<org>:<repo>`
/// and split at the first `:`.
pub fn github_repo(env: &Environment) -> (r: Result<Repo, ConfigError>)
    ensures
        match var_in(env.vars@, "MAUNZ_GITHUB_REPO"@) {
            Some(Some(v)) => match first_colon(v) {
                Some(i) => r matches Ok(repo) && repo.0@ == v.take(i) && repo.1@ == v.skip(i + 1),
                None => r matches Err(ConfigError::GithubRepoInvalid),
            },
            _ => r matches Err(e) && unset_as(
                e,
                env.vars@,
                "MAUNZ_GITHUB_REPO"@,
                "the github org and repo in format <org>:<repo>"@,
            ),
        },
{
    let var = match getenv(env, "MAUNZ_GITHUB_REPO", "the github org and repo in format <org>:<repo>") {
        Ok(v) => v,
        Err(e) => {
            return Err(e);
        },
    };
    let s = var.as_str();
    let n = s.unicode_len();
    let mut i: usize = 0;
    while i < n
        invariant
            var_in(env.vars@, "MAUNZ_GITHUB_REPO"@) == Some(Some(s@)),
            n == s@.len(),
            i <= n,
            forall|j: int| 0 <= j < i ==> s@[j] != ':',
        decreases n - i,
    {
        if s.get_char(i) == ':' {
            let org = s.substring_char(0, i).to_owned();
            let repo = s.substring_char(i + 1, n).to_owned();
            proof {
                assert(s@[i as int] == ':');
                assert(first_colon(s@) is Some);
                let w = first_colon(s@)->0;
                assert(0 <= w < s@.len() && s@[w] == ':' && forall|j: int| 0 <= j < w ==> s@[j] != ':');
                assert(w == i) by {
                    if w < i {
                    } else if w > i {
                        assert(s@[i as int] == ':');
                    }
                }
                assert(org@ =~= s@.take(i as int));
                assert(repo@ =~= s@.skip(i + 1));
            }
            return Ok(Repo(org, repo));
        }
        i = i + 1;
    }
    Err(ConfigError::GithubRepoInvalid)
}

/// The path of the state file, from `MAUNZ_STATE`.
pub fn state_file(env: &Environment) -> (r: Result<String, ConfigError>)
    ensures
        read_as(r, env.vars@, "MAUNZ_STATE"@, "a path to the state file"@),
{
    getenv(env, "MAUNZ_STATE", "a path to the state file")
}

/// The directory of the issue definitions, from `MAUNZ_ISSUES`.
pub fn issues_path(env: &Environment) -> (r: Result<String, ConfigError>)
    ensures
        read_as(r, env.vars@, "MAUNZ_ISSUES"@, "a path to the issue files"@),
{
    getenv(env, "MAUNZ_ISSUES", "a path to the issue files")
}

} // verus!
