use mirror_blame::{mirror_dir, parse_repo_id, EngineError, RepoId};

fn parts(id: &RepoId) -> (String, String) {
    match id {
        RepoId::GitHubRepo { owner, name } => (owner.clone(), name.clone()),
    }
}

#[test]
fn parses_owner_and_name() {
    let id = parse_repo_id("github-cuddlefish-app!cuddlefish").ok().unwrap();
    assert_eq!(parts(&id), ("cuddlefish-app".to_string(), "cuddlefish".to_string()));
}

#[test]
fn text_form_round_trips() {
    let id = parse_repo_id("github-acme!widgets").ok().unwrap();
    assert_eq!(id.to_string(), "github-acme!widgets");
    let built = RepoId::GitHubRepo { owner: "a-b".to_string(), name: "c".to_string() };
    let again = parse_repo_id(&built.to_string()).ok().unwrap();
    assert_eq!(parts(&again), ("a-b".to_string(), "c".to_string()));
}

#[test]
fn rejects_wrong_prefix() {
    assert!(matches!(parse_repo_id("gitlab-acme!widgets"), Err(EngineError::InvalidRepoId)));
    assert!(matches!(parse_repo_id("github"), Err(EngineError::InvalidRepoId)));
    assert!(matches!(parse_repo_id(""), Err(EngineError::InvalidRepoId)));
}

#[test]
fn rejects_missing_or_extra_delimiter() {
    assert!(matches!(parse_repo_id("github-acme/widgets"), Err(EngineError::InvalidRepoId)));
    assert!(matches!(parse_repo_id("github-a!b!c"), Err(EngineError::InvalidRepoId)));
}

#[test]
fn accepts_empty_parts() {
    let id = parse_repo_id("github-!").ok().unwrap();
    assert_eq!(parts(&id), (String::new(), String::new()));
}

#[test]
fn clone_url_points_at_github() {
    let id = parse_repo_id("github-acme!widgets").ok().unwrap();
    assert_eq!(id.clone_url(), "https://github.com/acme/widgets");
}

#[test]
fn mirror_dir_joins_identity_to_root() {
    let id = parse_repo_id("github-acme!widgets").ok().unwrap();
    assert_eq!(mirror_dir("/srv/mirrors", &id), "/srv/mirrors/github-acme!widgets");
    assert_eq!(mirror_dir("/srv/mirrors/", &id), "/srv/mirrors/github-acme!widgets");
    assert_eq!(mirror_dir("", &id), "github-acme!widgets");
}

#[test]
fn mirror_dir_is_deterministic() {
    let a = parse_repo_id("github-acme!widgets").ok().unwrap();
    let b = parse_repo_id("github-acme!widgets").ok().unwrap();
    let c = parse_repo_id("github-acme!gadgets").ok().unwrap();
    assert_eq!(mirror_dir("/m", &a), mirror_dir("/m", &b));
    assert_ne!(mirror_dir("/m", &a), mirror_dir("/m", &c));
}
