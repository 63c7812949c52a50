use vstd::prelude::*;

use crate::blame::{HunkView, LineView};
use crate::repo_id::{join_path, parse_spec, repo_id_text};
use crate::resolver::{action_of, next_phase, with_phase, ActionView, EventView, PhaseView, ResolverView};
use crate::EngineError;

verus! {

/// A model of what a request talks to, as the engine relies on it: the cache
/// store, the mirror directories on disk, the commits on the remotes, and the
/// blame computation, which gives the same output for the same commit and path.
pub struct World {
    /// Cache entries, keyed by `(commit, file path)`.
    pub cache: Map<(Seq<char>, Seq<char>), Seq<LineView>>,
    /// Whether the cache store can be reached.
    pub cache_up: bool,
    /// Whether a write to the cache store succeeds.
    pub cache_write_ok: bool,
    /// The mirror directories that exist.
    pub mirrors: Set<Seq<char>>,
    /// Whether a clone succeeds.
    pub clone_ok: bool,
    /// The `(mirror directory, commit)` pairs whose commit the mirror holds.
    pub fetched: Set<(Seq<char>, Seq<char>)>,
    /// The commits on the remotes.
    pub upstream: Set<Seq<char>>,
    /// The blame output for each `(commit, file path)` that can be blamed.
    pub blames: Map<(Seq<char>, Seq<char>), (Seq<HunkView>, Seq<u8>)>,
    /// How many clones were started.
    pub clones: nat,
    /// How many remote updates were started.
    pub updates: nat,
    /// The mirror directories whose lock is held.
    pub locked: Set<Seq<char>>,
}

/// The mirror at `path` after fetching all that the remotes hold.
pub open spec fn fetch_all(w: World, path: Seq<char>) -> Set<(Seq<char>, Seq<char>)> {
    w.fetched.union(Set::new(|x: (Seq<char>, Seq<char>)| x.0 == path && w.upstream.contains(x.1)))
}

/// How the world does the action `a`, and what it reports.
pub open spec fn respond(w: World, a: ActionView) -> (World, EventView) {
    match a {
        ActionView::LookupCache { commit, file_path } => if !w.cache_up {
            (w, EventView::CacheUnavailable)
        } else if w.cache.contains_key((commit, file_path)) {
            (w, EventView::CacheLookedUp { found: Some(w.cache[(commit, file_path)]) })
        } else {
            (w, EventView::CacheLookedUp { found: None })
        },
        ActionView::AcquireMirrorLock { path } => (
            World { locked: w.locked.insert(path), ..w },
            EventView::LockAcquired,
        ),
        ActionView::ProbeMirror { path } => (
            w,
            EventView::MirrorProbed { present: w.mirrors.contains(path) },
        ),
        ActionView::CloneMirror { path, .. } => if w.clone_ok {
            (
                World {
                    clones: w.clones + 1,
                    mirrors: w.mirrors.insert(path),
                    fetched: fetch_all(w, path),
                    ..w
                },
                EventView::CloneFinished { success: true },
            )
        } else {
            (World { clones: w.clones + 1, ..w }, EventView::CloneFinished { success: false })
        },
        ActionView::CheckCommit { path, commit } => (
            w,
            EventView::CommitChecked { present: w.fetched.contains((path, commit)) },
        ),
        ActionView::RemoteUpdate { path } => (
            World { updates: w.updates + 1, fetched: fetch_all(w, path), ..w },
            EventView::UpdateFinished { success: true },
        ),
        ActionView::Blame { commit, file_path, .. } => (
            w,
            EventView::BlameFinished {
                output: if w.blames.contains_key((commit, file_path)) {
                    Some(w.blames[(commit, file_path)])
                } else {
                    None
                },
            },
        ),
        ActionView::ReleaseMirrorLock { path } => (
            World { locked: w.locked.remove(path), ..w },
            EventView::LockReleased,
        ),
        ActionView::InsertCache { commit, file_path, lines } => if !w.cache_up
            || !w.cache_write_ok {
            (w, EventView::CacheWritten { success: false })
        } else if w.cache.contains_key((commit, file_path)) {
            (w, EventView::CacheWritten { success: true })
        } else {
            (
                World { cache: w.cache.insert((commit, file_path), lines), ..w },
                EventView::CacheWritten { success: true },
            )
        },
        ActionView::Finish { .. } => (w, EventView::LockReleased),
    }
}

/// How many steps a request in phase `p` has left at most.
pub open spec fn rank(p: PhaseView) -> nat {
    match p {
        PhaseView::CacheCheck => 10,
        PhaseView::Locking { .. } => 9,
        PhaseView::MirrorProbe { .. } => 8,
        PhaseView::Cloning { .. } => 7,
        PhaseView::CommitCheck { .. } => 6,
        PhaseView::Updating { .. } => 5,
        PhaseView::CommitRecheck { .. } => 4,
        PhaseView::Computing { .. } => 3,
        PhaseView::Unlocking { .. } => 2,
        PhaseView::CacheWrite { .. } => 1,
        PhaseView::Done { .. } => 0,
    }
}

/// One step of a request in world `w`: the world does the pending action, and
/// the request takes the report.
pub open spec fn advance(w: World, r: ResolverView) -> (World, ResolverView) {
    let (w2, e) = respond(w, action_of(r));
    (w2, with_phase(r, next_phase(r, e)))
}

/// Each step of a request that is not over brings it nearer the end.
pub proof fn lemma_advance_rank(w: World, r: ResolverView)
    requires
        !(r.phase is Done),
    ensures
        rank(advance(w, r).1.phase) < rank(r.phase),
{
}

/// A request run in world `w` until it is over.
pub open spec fn run(w: World, r: ResolverView) -> (World, ResolverView)
    decreases rank(r.phase),
{
    if r.phase is Done {
        (w, r)
    } else {
        proof {
            lemma_advance_rank(w, r);
        }
        let (w2, r2) = advance(w, r);
        run(w2, r2)
    }
}

/// Every request comes to an end.
pub proof fn lemma_run_done(w: World, r: ResolverView)
    ensures
        run(w, r).1.phase is Done,
    decreases rank(r.phase),
{
    if !(r.phase is Done) {
        lemma_advance_rank(w, r);
        let (w2, r2) = advance(w, r);
        lemma_run_done(w2, r2);
    }
}

/// A new request.
pub open spec fn start(mirrors_dir: Seq<char>, repo_id: Seq<char>, commit: Seq<char>, file_path: Seq<char>) -> ResolverView {
    ResolverView { mirrors_dir, repo_id, commit, file_path, phase: PhaseView::CacheCheck }
}

/// The world after a request, and the request's outcome.
pub open spec fn resolve_in(
    w: World,
    mirrors_dir: Seq<char>,
    repo_id: Seq<char>,
    commit: Seq<char>,
    file_path: Seq<char>,
) -> (World, Result<(Seq<LineView>, bool), EngineError>) {
    let (w2, r) = run(w, start(mirrors_dir, repo_id, commit, file_path));
    (w2, r.phase->outcome)
}

/// The mirror directory a request works on, if its repository identity parses.
pub open spec fn request_mirror(mirrors_dir: Seq<char>, repo_id: Seq<char>) -> Option<Seq<char>> {
    match parse_spec(repo_id) {
        Some((o, n)) => Some(join_path(mirrors_dir, repo_id_text(o, n))),
        None => None,
    }
}

} // verus!
