use pal::remote::{
    clone_args, ensure_github, ensure_step, plugins_base, sparse_checkout_args, EnsurePhase,
    FetchStep, GithubUrl,
};

#[test]
fn parses_locator_with_default_ref() {
    let u = GithubUrl::parse("github:zcag/pal/plugins/actions/copy").unwrap();
    assert_eq!(u.user, "zcag");
    assert_eq!(u.repo, "pal");
    assert_eq!(u.path, "plugins/actions/copy");
    assert_eq!(u.git_ref, "main");
}

#[test]
fn parses_locator_with_ref() {
    let u = GithubUrl::parse("github:me/repo/sub/dir@v1.2").unwrap();
    assert_eq!(u.path, "sub/dir");
    assert_eq!(u.git_ref, "v1.2");
    assert_eq!(u.clone_url(), "https://github.com/me/repo.git");
}

#[test]
fn rejects_short_or_foreign_locators() {
    assert!(GithubUrl::parse("github:me/repo").is_none());
    assert!(GithubUrl::parse("gitlab:me/repo/x").is_none());
    assert!(GithubUrl::parse("plugins/local").is_none());
}

#[test]
fn directories_follow_layout() {
    assert_eq!(plugins_base(Some("/home/u/.local/share")), "/home/u/.local/share/pal/plugins/github.com");
    assert_eq!(plugins_base(None), "~/.local/share/pal/plugins/github.com");
    let plan = ensure_github("github:me/repo/p/q@dev", Some("/data")).unwrap();
    assert_eq!(plan.repo_dir, "/data/pal/plugins/github.com/me/repo/dev");
    assert_eq!(plan.plugin_dir, "/data/pal/plugins/github.com/me/repo/dev/p/q");
    let again = ensure_github("github:me/repo/p/q@dev", Some("/data")).unwrap();
    assert_eq!(again.plugin_dir, plan.plugin_dir);
    assert!(ensure_github("local/dir", Some("/data")).is_none());
}

fn run(repo_cloned: bool, path_present: bool) -> Vec<FetchStep> {
    let mut steps = Vec::new();
    let (mut repo, mut path) = (repo_cloned, path_present);
    let mut phase = EnsurePhase::CheckRepo;
    while phase != EnsurePhase::Ready {
        let exists = if phase == EnsurePhase::CheckRepo { repo } else { path };
        let (next, step) = ensure_step(phase, exists);
        match step {
            Some(FetchStep::Clone) => repo = true,
            Some(FetchStep::SparseAdd) => path = true,
            None => {}
        }
        if let Some(s) = step {
            steps.push(s);
        }
        phase = next;
    }
    steps
}

#[test]
fn second_fetch_does_nothing() {
    assert_eq!(run(false, false), vec![FetchStep::Clone, FetchStep::SparseAdd]);
    assert_eq!(run(true, false), vec![FetchStep::SparseAdd]);
    assert_eq!(run(true, true), vec![]);
}

#[test]
fn git_arguments() {
    let u = GithubUrl::parse("github:me/repo/p@dev").unwrap();
    assert_eq!(
        clone_args(&u, "/d/me/repo/dev"),
        vec![
            "clone",
            "--sparse",
            "--filter=blob:none",
            "--depth=1",
            "--branch",
            "dev",
            "https://github.com/me/repo.git",
            "/d/me/repo/dev"
        ]
    );
    assert_eq!(sparse_checkout_args(&u, "/d"), vec!["-C", "/d", "sparse-checkout", "add", "p"]);
}
