//! Remote plugins: `github:user/repo/path[@ref]` locators, where their
//! clones live, and the decisions of fetching them.
use vstd::prelude::*;

use crate::text::{
    find_char, index_of, join_path, last_index_of, lemma_index_of, lemma_last_index_range,
    path_join, rfind_char, strip_prefix, views,
};

verus! {

/// A parsed remote locator.
#[derive(Debug)]
pub struct GithubUrl {
    pub user: String,
    pub repo: String,
    pub path: String,
    pub git_ref: String,
}

/// The parts of a locator: user, repository, path inside it, and ref.
pub open spec fn locator_parts(base: Seq<char>) -> Option<(Seq<char>, Seq<char>, Seq<char>, Seq<char>)> {
    let prefix = "github:"@;
    if base.len() >= prefix.len() && base.subrange(0, prefix.len() as int) == prefix {
        let rest = base.subrange(prefix.len() as int, base.len() as int);
        let (pp, r) = match last_index_of(rest, '@') {
            Some(i) => (rest.subrange(0, i), rest.subrange(i + 1, rest.len() as int)),
            None => (rest, "main"@),
        };
        match index_of(pp, '/') {
            Some(i) => {
                let tail = pp.subrange(i + 1, pp.len() as int);
                match index_of(tail, '/') {
                    Some(j) => Some(
                        (pp.subrange(0, i), tail.subrange(0, j), tail.subrange(j + 1, tail.len() as int), r),
                    ),
                    None => None,
                }
            },
            None => None,
        }
    } else {
        None
    }
}

/// Where remote plugins are cloned, under the per-user data directory.
pub open spec fn plugins_root(data_dir: Option<Seq<char>>) -> Seq<char> {
    let d = match data_dir {
        Some(d) => d,
        None => "~/.local/share"@,
    };
    path_join(d, "pal/plugins/github.com"@)
}

/// The clone of `user/repo` at `git_ref`.
pub open spec fn repo_dir_of(root: Seq<char>, user: Seq<char>, repo: Seq<char>, git_ref: Seq<char>) -> Seq<char> {
    path_join(path_join(path_join(root, user), repo), git_ref)
}

impl GithubUrl {
    pub open spec fn parts(&self) -> (Seq<char>, Seq<char>, Seq<char>, Seq<char>) {
        (self.user@, self.repo@, self.path@, self.git_ref@)
    }

    pub open spec fn spec_repo_dir(&self, root: Seq<char>) -> Seq<char> {
        repo_dir_of(root, self.user@, self.repo@, self.git_ref@)
    }

    pub open spec fn spec_plugin_dir(&self, root: Seq<char>) -> Seq<char> {
        path_join(self.spec_repo_dir(root), self.path@)
    }

    /// Parses `github:user/repo/path` or `github:user/repo/path@ref`; the ref
    /// is `main` when none is given.
    pub fn parse(base: &str) -> (r: Option<GithubUrl>)
        ensures
            match r {
                Some(u) => locator_parts(base@) == Some(u.parts()),
                None => locator_parts(base@) is None,
            },
    {
        proof { reveal_strlit("github:"); reveal_strlit("main"); }
        let rest = match strip_prefix(base, "github:") {
            Some(r) => r,
            None => return None,
        };
        let n = rest.unicode_len();
        let (path_part, git_ref) = match rfind_char(rest, '@') {
            Some(idx) => {
                proof { lemma_last_index_range(rest@, '@'); }
                (rest.substring_char(0, idx), String::from_str(rest.substring_char(idx + 1, n)))
            },
            None => (rest, String::from_str("main")),
        };
        let m = path_part.unicode_len();
        let i = match find_char(path_part, '/') {
            Some(i) => i,
            None => return None,
        };
        proof { lemma_index_of(path_part@, '/'); }
        let tail = path_part.substring_char(i + 1, m);
        let k = tail.unicode_len();
        let j = match find_char(tail, '/') {
            Some(j) => j,
            None => return None,
        };
        proof { lemma_index_of(tail@, '/'); }
        Some(
            GithubUrl {
                user: String::from_str(path_part.substring_char(0, i)),
                repo: String::from_str(tail.substring_char(0, j)),
                path: String::from_str(tail.substring_char(j + 1, k)),
                git_ref,
            },
        )
    }

    /// The directory this locator's repository is cloned into.
    pub fn repo_dir(&self, root: &str) -> (r: String)
        ensures
            r@ == self.spec_repo_dir(root@),
    {
        let a = join_path(root, self.user.as_str());
        let b = join_path(a.as_str(), self.repo.as_str());
        join_path(b.as_str(), self.git_ref.as_str())
    }

    /// The plugin's directory inside the clone.
    pub fn plugin_dir(&self, root: &str) -> (r: String)
        ensures
            r@ == self.spec_plugin_dir(root@),
    {
        let d = self.repo_dir(root);
        join_path(d.as_str(), self.path.as_str())
    }

    /// The URL the repository is cloned from.
    pub fn clone_url(&self) -> (r: String)
        ensures
            r@ == "https://github.com/"@ + self.user@ + "/"@ + self.repo@ + ".git"@,
    {
        String::from_str("https://github.com/").concat(self.user.as_str()).concat("/").concat(
            self.repo.as_str(),
        ).concat(".git")
    }
}

/// Where remote plugins are cloned, given the per-user data directory if
/// there is one.
pub fn plugins_base(data_dir: Option<&str>) -> (r: String)
    ensures
        r@ == plugins_root(
            match data_dir {
                Some(d) => Some(d@),
                None => None,
            },
        ),
{
    match data_dir {
        Some(d) => join_path(d, "pal/plugins/github.com"),
        None => join_path("~/.local/share", "pal/plugins/github.com"),
    }
}

/// A git operation that fetching a remote plugin may need.
#[derive(PartialEq, Eq, Structural, Clone, Copy, Debug)]
pub enum FetchStep {
    /// A shallow, blob-filtered, sparse clone of the ref.
    Clone,
    /// Adding the plugin's path to the clone's sparse checkout.
    SparseAdd,
}

/// Where fetching stands: what is checked next.
#[derive(PartialEq, Eq, Structural, Clone, Copy, Debug)]
pub enum EnsurePhase {
    /// Whether the repository's clone exists (its `.git`).
    CheckRepo,
    /// Whether the plugin's directory exists in the clone.
    CheckPath,
    /// Nothing left to do.
    Ready,
}

/// The next phase, and the operation to perform first, given whether what
/// the current phase checks exists.
pub open spec fn ensure_transition(phase: EnsurePhase, exists: bool) -> (EnsurePhase, Option<FetchStep>) {
    match phase {
        EnsurePhase::CheckRepo => (EnsurePhase::CheckPath, if exists { None } else { Some(FetchStep::Clone) }),
        EnsurePhase::CheckPath => (EnsurePhase::Ready, if exists { None } else { Some(FetchStep::SparseAdd) }),
        EnsurePhase::Ready => (EnsurePhase::Ready, None),
    }
}

/// One decision of fetching a remote plugin.
pub fn ensure_step(phase: EnsurePhase, exists: bool) -> (r: (EnsurePhase, Option<FetchStep>))
    ensures
        r == ensure_transition(phase, exists),
{
    match phase {
        EnsurePhase::CheckRepo => (EnsurePhase::CheckPath, if exists { None } else { Some(FetchStep::Clone) }),
        EnsurePhase::CheckPath => (EnsurePhase::Ready, if exists { None } else { Some(FetchStep::SparseAdd) }),
        EnsurePhase::Ready => (EnsurePhase::Ready, None),
    }
}

/// What is on disk for one locator.
pub struct FetchWorld {
    pub repo_cloned: bool,
    pub path_present: bool,
}

/// What a phase finds on disk.
pub open spec fn observed(phase: EnsurePhase, w: FetchWorld) -> bool {
    match phase {
        EnsurePhase::CheckRepo => w.repo_cloned,
        EnsurePhase::CheckPath => w.path_present,
        EnsurePhase::Ready => true,
    }
}

/// The disk after a successful operation; whether a fresh clone already
/// holds the plugin's path is left open (`path_after_clone`).
pub open spec fn performed(w: FetchWorld, step: Option<FetchStep>, path_after_clone: bool) -> FetchWorld {
    match step {
        Some(FetchStep::Clone) => FetchWorld { repo_cloned: true, path_present: path_after_clone },
        Some(FetchStep::SparseAdd) => FetchWorld { repo_cloned: w.repo_cloned, path_present: true },
        None => w,
    }
}

pub open spec fn steps_of(a: Option<FetchStep>) -> Seq<FetchStep> {
    match a {
        Some(s) => seq![s],
        None => Seq::empty(),
    }
}

/// One whole fetch from the first phase: the operations performed, and the
/// disk afterwards.
pub open spec fn ensure_run(w: FetchWorld, path_after_clone: bool) -> (Seq<FetchStep>, FetchWorld) {
    let (after_repo, a1) = ensure_transition(EnsurePhase::CheckRepo, observed(EnsurePhase::CheckRepo, w));
    let w1 = performed(w, a1, path_after_clone);
    let (_, a2) = ensure_transition(after_repo, observed(after_repo, w1));
    let w2 = performed(w1, a2, path_after_clone);
    (steps_of(a1) + steps_of(a2), w2)
}

pub open spec fn count_of(s: Seq<FetchStep>, step: FetchStep) -> nat {
    s.filter(|x: FetchStep| x == step).len()
}

/// Fetching the same locator twice clones at most once and adds the sparse
/// path at most once; the second fetch performs nothing.
pub proof fn lemma_ensure_idempotent(w: FetchWorld, first_clone_has_path: bool, second_clone_has_path: bool)
    ensures
        ({
            let (a1, w1) = ensure_run(w, first_clone_has_path);
            let (a2, w2) = ensure_run(w1, second_clone_has_path);
            &&& a2.len() == 0
            &&& count_of(a1 + a2, FetchStep::Clone) <= 1
            &&& count_of(a1 + a2, FetchStep::SparseAdd) <= 1
            &&& w1.repo_cloned && w1.path_present
        }),
{
    let (a1, w1) = ensure_run(w, first_clone_has_path);
    let (a2, w2) = ensure_run(w1, second_clone_has_path);
    assert(a2 =~= Seq::<FetchStep>::empty());
    assert(a1 + a2 =~= a1);
    reveal_with_fuel(Seq::filter, 3);
    if a1.len() == 2 {
        assert(a1 =~= seq![FetchStep::Clone, FetchStep::SparseAdd]);
        assert(a1.drop_last() =~= seq![FetchStep::Clone]);
        assert(a1.drop_last().drop_last() =~= Seq::<FetchStep>::empty());
    } else if a1.len() == 1 {
        assert(a1.drop_last() =~= Seq::<FetchStep>::empty());
    }
}

/// What fetching a locator works on: the parsed locator, its clone, and the
/// plugin's directory in it.
#[derive(Debug)]
pub struct EnsurePlan {
    pub url: GithubUrl,
    pub repo_dir: String,
    pub plugin_dir: String,
}

/// Resolves a remote locator to its clone and plugin directories under the
/// data directory; `None` when it is not a remote locator. The directories
/// are a function of the locator and the data directory alone.
pub fn ensure_github(base: &str, data_dir: Option<&str>) -> (r: Option<EnsurePlan>)
    ensures
        match r {
            Some(p) => {
                let root = plugins_root(
                    match data_dir {
                        Some(d) => Some(d@),
                        None => None,
                    },
                );
                &&& locator_parts(base@) == Some(p.url.parts())
                &&& p.repo_dir@ == p.url.spec_repo_dir(root)
                &&& p.plugin_dir@ == p.url.spec_plugin_dir(root)
            },
            None => locator_parts(base@) is None,
        },
{
    let url = match GithubUrl::parse(base) {
        Some(u) => u,
        None => return None,
    };
    let root = plugins_base(data_dir);
    let repo_dir = url.repo_dir(root.as_str());
    let plugin_dir = url.plugin_dir(root.as_str());
    Some(EnsurePlan { url, repo_dir, plugin_dir })
}

/// Arguments of the first-use clone: shallow, blob-filtered, sparse, at the ref.
pub fn clone_args(url: &GithubUrl, repo_dir: &str) -> (r: Vec<String>)
    ensures
        views(r@) == seq![
            "clone"@,
            "--sparse"@,
            "--filter=blob:none"@,
            "--depth=1"@,
            "--branch"@,
            url.git_ref@,
            "https://github.com/"@ + url.user@ + "/"@ + url.repo@ + ".git"@,
            repo_dir@,
        ],
{
    let mut v: Vec<String> = Vec::new();
    v.push(String::from_str("clone"));
    v.push(String::from_str("--sparse"));
    v.push(String::from_str("--filter=blob:none"));
    v.push(String::from_str("--depth=1"));
    v.push(String::from_str("--branch"));
    v.push(url.git_ref.clone());
    v.push(url.clone_url());
    v.push(String::from_str(repo_dir));
    assert(views(v@) =~= seq![
        "clone"@,
        "--sparse"@,
        "--filter=blob:none"@,
        "--depth=1"@,
        "--branch"@,
        url.git_ref@,
        "https://github.com/"@ + url.user@ + "/"@ + url.repo@ + ".git"@,
        repo_dir@,
    ]);
    v
}

/// Arguments that add the plugin's path to the clone's sparse checkout.
pub fn sparse_checkout_args(url: &GithubUrl, repo_dir: &str) -> (r: Vec<String>)
    ensures
        views(r@) == seq!["-C"@, repo_dir@, "sparse-checkout"@, "add"@, url.path@],
{
    let mut v: Vec<String> = Vec::new();
    v.push(String::from_str("-C"));
    v.push(String::from_str(repo_dir));
    v.push(String::from_str("sparse-checkout"));
    v.push(String::from_str("add"));
    v.push(url.path.clone());
    assert(views(v@) =~= seq!["-C"@, repo_dir@, "sparse-checkout"@, "add"@, url.path@]);
    v
}

} // verus!
