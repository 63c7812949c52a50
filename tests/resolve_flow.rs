use std::collections::{HashMap, HashSet};

use mirror_blame::{
    Action, BlameHunk, BlameLine, BlameOutput, EngineError, Event, Resolved, Resolver,
};

type Line = (String, String, i32);
type Hunk = (String, Option<String>, usize, usize, usize);

fn line_tuple(l: &BlameLine) -> Line {
    (l.original_commit.clone(), l.original_file_path.clone(), l.original_line_number)
}

fn to_lines(v: &[Line]) -> Vec<BlameLine> {
    v.iter()
        .map(|(c, p, n)| BlameLine {
            original_commit: c.clone(),
            original_file_path: p.clone(),
            original_line_number: *n,
        })
        .collect()
}

/// A stand-in for the cache store and the version-control system that counts
/// what it is asked to do.
struct Stub {
    cache: HashMap<(String, String), Vec<Line>>,
    cache_up: bool,
    write_ok: bool,
    mirrors: HashSet<String>,
    clone_ok: bool,
    fetched: HashSet<(String, String)>,
    upstream: HashSet<String>,
    files: HashMap<(String, String), (Vec<Hunk>, Vec<u8>)>,
    locked: HashSet<String>,
    clones: usize,
    updates: usize,
    vcs_ops: usize,
    inserts: usize,
    log: Vec<String>,
}

impl Stub {
    fn new() -> Stub {
        Stub {
            cache: HashMap::new(),
            cache_up: true,
            write_ok: true,
            mirrors: HashSet::new(),
            clone_ok: true,
            fetched: HashSet::new(),
            upstream: HashSet::new(),
            files: HashMap::new(),
            locked: HashSet::new(),
            clones: 0,
            updates: 0,
            vcs_ops: 0,
            inserts: 0,
            log: Vec::new(),
        }
    }

    fn fetch_all(&mut self, path: &str) {
        for c in self.upstream.clone() {
            self.fetched.insert((path.to_string(), c));
        }
    }

    /// Does `action`; `None` where it has to wait for a lock.
    fn respond(&mut self, action: Action) -> Option<Event> {
        Some(match action {
            Action::LookupCache { commit, file_path } => {
                if !self.cache_up {
                    Event::CacheUnavailable
                } else {
                    let found = self.cache.get(&(commit, file_path)).map(|v| to_lines(v));
                    Event::CacheLookedUp { found }
                }
            }
            Action::AcquireMirrorLock { path } => {
                if !self.locked.insert(path) {
                    return None;
                }
                Event::LockAcquired
            }
            Action::ProbeMirror { path } => {
                self.vcs_ops += 1;
                self.log.push(format!("probe {}", path));
                Event::MirrorProbed { present: self.mirrors.contains(&path) }
            }
            Action::CloneMirror { url, path } => {
                assert!(url.starts_with("https://github.com/"));
                self.vcs_ops += 1;
                self.clones += 1;
                self.log.push(format!("clone {} {}", url, path));
                if self.clone_ok {
                    self.mirrors.insert(path.clone());
                    self.fetch_all(&path);
                }
                Event::CloneFinished { success: self.clone_ok }
            }
            Action::CheckCommit { path, commit } => {
                self.vcs_ops += 1;
                self.log.push(format!("check {}", commit));
                Event::CommitChecked { present: self.fetched.contains(&(path, commit)) }
            }
            Action::RemoteUpdate { path } => {
                self.vcs_ops += 1;
                self.updates += 1;
                self.log.push(format!("update {}", path));
                self.fetch_all(&path);
                Event::UpdateFinished { success: true }
            }
            Action::Blame { commit, file_path, .. } => {
                self.vcs_ops += 1;
                self.log.push(format!("blame {} {}", commit, file_path));
                let output = self.files.get(&(commit, file_path)).map(|(hunks, content)| {
                    BlameOutput {
                        hunks: hunks
                            .iter()
                            .map(|(c, p, o, f, n)| BlameHunk {
                                orig_commit_id: c.clone(),
                                path: p.clone(),
                                orig_start_line: *o,
                                final_start_line: *f,
                                lines_in_hunk: *n,
                            })
                            .collect(),
                        content: content.clone(),
                    }
                });
                Event::BlameFinished { output }
            }
            Action::ReleaseMirrorLock { path } => {
                assert!(self.locked.remove(&path));
                Event::LockReleased
            }
            Action::InsertCache { commit, file_path, lines } => {
                self.inserts += 1;
                if !self.cache_up || !self.write_ok {
                    Event::CacheWritten { success: false }
                } else {
                    let v: Vec<Line> = lines.iter().map(line_tuple).collect();
                    self.cache.entry((commit, file_path)).or_insert(v);
                    Event::CacheWritten { success: true }
                }
            }
            Action::Finish { .. } => panic!("a finished request asks for nothing"),
        })
    }
}

fn request(repo: &str, commit: &str, file: &str) -> Resolver {
    Resolver::new("/mirrors".to_string(), repo.to_string(), commit.to_string(), file.to_string())
}

fn resolve(stub: &mut Stub, repo: &str, commit: &str, file: &str) -> Result<Resolved, EngineError> {
    let mut r = request(repo, commit, file);
    loop {
        match r.action() {
            Action::Finish { outcome } => return outcome,
            action => {
                let event = stub.respond(action).expect("no other request holds a lock");
                r = r.step(event);
            }
        }
    }
}

fn lines_of(r: &Result<Resolved, EngineError>) -> Vec<Line> {
    r.as_ref().ok().unwrap().lines.iter().map(line_tuple).collect()
}

fn hit_of(r: &Result<Resolved, EngineError>) -> bool {
    r.as_ref().ok().unwrap().cache_hit
}

const MIRROR: &str = "/mirrors/github-acme!widgets";

/// The world of the worked example: `src/main.txt` has three lines at `abc123`.
fn widgets() -> Stub {
    let mut s = Stub::new();
    s.upstream.insert("abc123".to_string());
    s.upstream.insert("def456".to_string());
    s.files.insert(
        ("abc123".to_string(), "src/main.txt".to_string()),
        (vec![("abc123".to_string(), Some("src/main.txt".to_string()), 1, 1, 3)], b"a\nb\nc\n".to_vec()),
    );
    s.files.insert(
        ("def456".to_string(), "src/main.txt".to_string()),
        (
            vec![
                ("abc123".to_string(), Some("src/main.txt".to_string()), 1, 1, 2),
                ("def456".to_string(), Some("src/main.txt".to_string()), 3, 3, 2),
            ],
            b"a\nb\nx\ny\n".to_vec(),
        ),
    );
    s
}

#[test]
fn end_to_end_widgets() {
    let mut s = widgets();
    let first = resolve(&mut s, "github-acme!widgets", "abc123", "src/main.txt");
    assert!(!hit_of(&first));
    let expected: Vec<Line> = (1..=3)
        .map(|n| ("abc123".to_string(), "src/main.txt".to_string(), n))
        .collect();
    assert_eq!(lines_of(&first), expected);
    assert_eq!(s.clones, 1);
    assert_eq!(
        s.log,
        vec![
            format!("probe {}", MIRROR),
            format!("clone https://github.com/acme/widgets {}", MIRROR),
            "check abc123".to_string(),
            "blame abc123 src/main.txt".to_string(),
        ]
    );
    assert!(s.mirrors.contains(MIRROR));
    assert_eq!(s.cache.get(&("abc123".to_string(), "src/main.txt".to_string())), Some(&expected));
    let ops = s.vcs_ops;
    let second = resolve(&mut s, "github-acme!widgets", "abc123", "src/main.txt");
    assert!(hit_of(&second));
    assert_eq!(lines_of(&second), expected);
    assert_eq!(s.vcs_ops, ops);
    assert_eq!(s.clones, 1);
    assert_eq!(s.inserts, 1);
    assert_eq!(s.cache.get(&("abc123".to_string(), "src/main.txt".to_string())), Some(&expected));
}

#[test]
fn second_lookup_is_a_cache_hit() {
    let mut s = widgets();
    let first = resolve(&mut s, "github-acme!widgets", "def456", "src/main.txt");
    // The cache lookup is keyed by commit and path only.
    let second = resolve(&mut s, "github-other!repo", "def456", "src/main.txt");
    assert!(!hit_of(&first));
    assert!(hit_of(&second));
    assert_eq!(lines_of(&first), lines_of(&second));
}

#[test]
fn store_holds_returned_lines_after_miss() {
    let mut s = widgets();
    let r = resolve(&mut s, "github-acme!widgets", "def456", "src/main.txt");
    assert!(!hit_of(&r));
    let stored = s.cache.get(&("def456".to_string(), "src/main.txt".to_string())).unwrap();
    assert_eq!(stored, &lines_of(&r));
    assert_eq!(stored[2], ("def456".to_string(), "src/main.txt".to_string(), 3));
}

#[test]
fn line_count_mismatch_is_blame_failure() {
    let mut s = widgets();
    s.files.insert(
        ("abc123".to_string(), "short.txt".to_string()),
        (vec![("abc123".to_string(), Some("short.txt".to_string()), 1, 1, 2)], b"a\nb\nc\n".to_vec()),
    );
    let r = resolve(&mut s, "github-acme!widgets", "abc123", "short.txt");
    assert!(matches!(r, Err(EngineError::BlameFailed)));
    assert_eq!(s.inserts, 0);
    assert!(s.locked.is_empty());
}

#[test]
fn missing_file_is_blame_failure() {
    let mut s = widgets();
    let r = resolve(&mut s, "github-acme!widgets", "abc123", "nope.txt");
    assert!(matches!(r, Err(EngineError::BlameFailed)));
    assert_eq!(s.inserts, 0);
}

#[test]
fn mirror_reused_across_commits() {
    let mut s = widgets();
    let a = resolve(&mut s, "github-acme!widgets", "abc123", "src/main.txt");
    let b = resolve(&mut s, "github-acme!widgets", "def456", "src/main.txt");
    assert!(a.is_ok() && b.is_ok());
    assert_eq!(s.clones, 1);
}

#[test]
fn unknown_commit_updates_once_then_fails() {
    let mut s = widgets();
    s.mirrors.insert(MIRROR.to_string());
    let r = resolve(&mut s, "github-acme!widgets", "0000000", "src/main.txt");
    assert!(matches!(r, Err(EngineError::CommitNotFound)));
    assert_eq!(s.updates, 1);
    assert_eq!(s.clones, 0);
    assert_eq!(s.inserts, 0);
    assert!(s.cache.is_empty());
    assert!(s.locked.is_empty());
}

#[test]
fn new_upstream_commit_is_fetched() {
    let mut s = widgets();
    s.mirrors.insert(MIRROR.to_string());
    let r = resolve(&mut s, "github-acme!widgets", "abc123", "src/main.txt");
    assert_eq!(s.updates, 1);
    assert_eq!(lines_of(&r).len(), 3);
}

#[test]
fn concurrent_requests_clone_once() {
    let mut s = widgets();
    let mut reqs: Vec<Option<Resolver>> =
        (0..4).map(|_| Some(request("github-acme!widgets", "abc123", "src/main.txt"))).collect();
    let mut outcomes: Vec<Option<Result<Resolved, EngineError>>> = (0..4).map(|_| None).collect();
    let mut rounds = 0;
    while outcomes.iter().any(|o| o.is_none()) {
        rounds += 1;
        assert!(rounds < 1000);
        for i in 0..4 {
            if let Some(r) = reqs[i].take() {
                match r.action() {
                    Action::Finish { outcome } => outcomes[i] = Some(outcome),
                    action => match s.respond(action) {
                        Some(event) => reqs[i] = Some(r.step(event)),
                        None => reqs[i] = Some(r),
                    },
                }
            }
        }
    }
    assert_eq!(s.clones, 1);
    let first = lines_of(outcomes[0].as_ref().unwrap());
    assert_eq!(first.len(), 3);
    for o in &outcomes {
        assert_eq!(lines_of(o.as_ref().unwrap()), first);
    }
    assert_eq!(s.cache.len(), 1);
}

#[test]
fn invalid_repo_id_touches_nothing() {
    let mut s = widgets();
    let r = resolve(&mut s, "acme/widgets", "abc123", "src/main.txt");
    assert!(matches!(r, Err(EngineError::InvalidRepoId)));
    assert_eq!(s.vcs_ops, 0);
}

#[test]
fn cache_hit_skips_repo_parsing() {
    let mut s = widgets();
    s.cache.insert(
        ("abc123".to_string(), "src/main.txt".to_string()),
        vec![("abc123".to_string(), "src/main.txt".to_string(), 1)],
    );
    let r = resolve(&mut s, "not a repo id", "abc123", "src/main.txt");
    assert!(hit_of(&r));
    assert_eq!(lines_of(&r).len(), 1);
}

#[test]
fn unreachable_store_fails_request() {
    let mut s = widgets();
    s.cache_up = false;
    let r = resolve(&mut s, "github-acme!widgets", "abc123", "src/main.txt");
    assert!(matches!(r, Err(EngineError::CacheStoreUnavailable)));
    assert_eq!(s.vcs_ops, 0);
}

#[test]
fn failed_cache_write_still_returns_lines() {
    let mut s = widgets();
    s.write_ok = false;
    let r = resolve(&mut s, "github-acme!widgets", "abc123", "src/main.txt");
    assert!(!hit_of(&r));
    assert_eq!(lines_of(&r).len(), 3);
    assert!(s.cache.is_empty());
}

#[test]
fn failed_clone_fails_request() {
    let mut s = widgets();
    s.clone_ok = false;
    let r = resolve(&mut s, "github-acme!widgets", "abc123", "src/main.txt");
    assert!(matches!(r, Err(EngineError::CloneFailed)));
    assert!(s.locked.is_empty());
    assert_eq!(s.inserts, 0);
}

#[test]
fn unrelated_event_changes_nothing() {
    let r = request("github-acme!widgets", "abc123", "src/main.txt");
    let r = r.step(Event::LockReleased);
    match r.action() {
        Action::LookupCache { commit, file_path } => {
            assert_eq!(commit, "abc123");
            assert_eq!(file_path, "src/main.txt");
        }
        _ => panic!("still checking the cache"),
    }
    assert!(!r.is_done());
}

#[test]
fn lock_is_asked_for_the_mirror_dir() {
    let r = request("github-acme!widgets", "abc123", "src/main.txt");
    let r = r.step(Event::CacheLookedUp { found: None });
    match r.action() {
        Action::AcquireMirrorLock { path } => assert_eq!(path, MIRROR),
        _ => panic!("a miss asks for the mirror lock"),
    }
}
