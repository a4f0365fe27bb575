use vstd::prelude::*;

verus! {

/// A GitHub repository: organisation and repository name.
#[derive(Clone, Debug)]
pub struct Repo(pub String, pub String);

/// Where issues are mirrored to: an access token and a repository.
#[derive(Clone, Debug)]
pub struct Github {
    token: String,
    repo: Repo,
}

impl Github {
    pub fn new(token: String, repo: Repo) -> (r: Github)
        ensures
            r.token_view() == token@,
            r.repo_view() == (repo.0@, repo.1@),
    {
        Github { token: token, repo: repo }
    }

    pub closed spec fn token_view(&self) -> Seq<char> {
        self.token@
    }

    pub closed spec fn repo_view(&self) -> (Seq<char>, Seq<char>) {
        (self.repo.0@, self.repo.1@)
    }

    /// The access token.
    pub fn token(&self) -> (r: &str)
        ensures
            r@ == self.token_view(),
    {
        self.token.as_str()
    }

    /// The repository issues go to.
    pub fn repo(&self) -> (r: &Repo)
        ensures
            (r.0@, r.1@) == self.repo_view(),
    {
        &self.repo
    }
}

} // verus!
