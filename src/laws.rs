use vstd::prelude::*;

use crate::blame::LineView;
use crate::resolver::blame_result;
use crate::resolver::{action_of, next_phase, ActionView, EventView, PhaseView, ResolverView};
use crate::world::{
    advance,
    lemma_advance_rank,
    rank,
    request_mirror,
    resolve_in,
    respond,
    run,
    start,
    World,
};
use crate::EngineError;

verus! {

/// What holds of the cache along a request for key `k` that started in world `w0`.
pub open spec fn cache_inv(w0: World, k: (Seq<char>, Seq<char>), w: World, r: ResolverView) -> bool {
    &&& (r.commit, r.file_path) == k
    &&& w.cache_up == w0.cache_up
    &&& w.cache_write_ok == w0.cache_write_ok
    &&& match r.phase {
        PhaseView::CacheCheck => w.cache == w0.cache,
        PhaseView::Done { outcome } => match outcome {
            Ok((l, hit)) => w.cache_up && ((hit || w.cache_write_ok) ==> w.cache.contains_key(k)
                && w.cache[k] == l),
            Err(_) => true,
        },
        _ => w.cache_up && !w.cache.contains_key(k),
    }
}

proof fn lemma_cache_inv(w0: World, k: (Seq<char>, Seq<char>), w: World, r: ResolverView)
    requires
        cache_inv(w0, k, w, r),
    ensures
        cache_inv(w0, k, run(w, r).0, run(w, r).1),
    decreases rank(r.phase),
{
    if !(r.phase is Done) {
        lemma_advance_rank(w, r);
        let (w2, r2) = advance(w, r);
        assert(cache_inv(w0, k, w2, r2));
        lemma_cache_inv(w0, k, w2, r2);
    }
}

/// A request whose key the cache holds gets the cached lines at once, and
/// leaves the world as it was.
pub proof fn lemma_cache_hit(
    w: World,
    mirrors_dir: Seq<char>,
    repo_id: Seq<char>,
    commit: Seq<char>,
    file_path: Seq<char>,
)
    requires
        w.cache_up,
        w.cache.contains_key((commit, file_path)),
    ensures
        resolve_in(w, mirrors_dir, repo_id, commit, file_path) == (
            w,
            Ok::<(Seq<LineView>, bool), EngineError>((w.cache[(commit, file_path)], true)),
        ),
{
    let s = start(mirrors_dir, repo_id, commit, file_path);
    let (w2, r2) = advance(w, s);
    assert(r2.phase is Done);
    assert(run(w2, r2) == (w2, r2));
}

/// Asking twice for the blame of the same file at the same commit gives the
/// same lines, and the second answer comes from the cache; the repository
/// identity and mirror directory of the second request play no part.
pub proof fn lemma_lookup_idempotent(
    w: World,
    mirrors_dir: Seq<char>,
    repo_id: Seq<char>,
    other_mirrors_dir: Seq<char>,
    other_repo_id: Seq<char>,
    commit: Seq<char>,
    file_path: Seq<char>,
)
    requires
        resolve_in(w, mirrors_dir, repo_id, commit, file_path).1 is Ok,
        w.cache_write_ok,
    ensures
        ({
            let (w1, first) = resolve_in(w, mirrors_dir, repo_id, commit, file_path);
            let (w2, second) = resolve_in(w1, other_mirrors_dir, other_repo_id, commit, file_path);
            second == Ok::<(Seq<LineView>, bool), EngineError>((first->Ok_0.0, true))
        }),
{
    let k = (commit, file_path);
    let s = start(mirrors_dir, repo_id, commit, file_path);
    lemma_cache_inv(w, k, w, s);
    crate::world::lemma_run_done(w, s);
    let (w1, first) = resolve_in(w, mirrors_dir, repo_id, commit, file_path);
    lemma_cache_hit(w1, other_mirrors_dir, other_repo_id, commit, file_path);
}

/// After a request that missed the cache succeeds, a lookup of its commit and
/// path finds the lines it returned.
pub proof fn lemma_cache_population(
    w: World,
    mirrors_dir: Seq<char>,
    repo_id: Seq<char>,
    commit: Seq<char>,
    file_path: Seq<char>,
)
    requires
        resolve_in(w, mirrors_dir, repo_id, commit, file_path).1 matches Ok((_, false)),
        w.cache_write_ok,
    ensures
        ({
            let (w1, o) = resolve_in(w, mirrors_dir, repo_id, commit, file_path);
            respond(w1, ActionView::LookupCache { commit, file_path }) == (
                w1,
                EventView::CacheLookedUp { found: Some(o->Ok_0.0) },
            )
        }),
{
    let k = (commit, file_path);
    let s = start(mirrors_dir, repo_id, commit, file_path);
    lemma_cache_inv(w, k, w, s);
    crate::world::lemma_run_done(w, s);
}

/// What holds along a request, started in world `w0`, for a repository whose
/// mirror `p` is absent there, while the clone succeeds.
pub open spec fn first_clone_inv(
    w0: World,
    p: Seq<char>,
    k: (Seq<char>, Seq<char>),
    w: World,
    r: ResolverView,
) -> bool {
    &&& request_mirror(r.mirrors_dir, r.repo_id) == Some(p)
    &&& (r.commit, r.file_path) == k
    &&& w.clone_ok
    &&& w.cache_up
    &&& match r.phase {
        PhaseView::CacheCheck => w.clones == w0.clones && !w.mirrors.contains(p)
            && !w.cache.contains_key(k),
        PhaseView::Locking { path, .. } => path == p && w.clones == w0.clones && !w.mirrors.contains(
            p,
        ),
        PhaseView::MirrorProbe { path, .. } => path == p && w.clones == w0.clones
            && !w.mirrors.contains(p),
        PhaseView::Cloning { path, .. } => path == p && w.clones == w0.clones && !w.mirrors.contains(
            p,
        ),
        _ => w.clones == w0.clones + 1 && w.mirrors.contains(p),
    }
}

proof fn lemma_first_clone_inv(
    w0: World,
    p: Seq<char>,
    k: (Seq<char>, Seq<char>),
    w: World,
    r: ResolverView,
)
    requires
        first_clone_inv(w0, p, k, w, r),
    ensures
        first_clone_inv(w0, p, k, run(w, r).0, run(w, r).1),
    decreases rank(r.phase),
{
    if !(r.phase is Done) {
        lemma_advance_rank(w, r);
        let (w2, r2) = advance(w, r);
        assert(first_clone_inv(w0, p, k, w2, r2));
        lemma_first_clone_inv(w0, p, k, w2, r2);
    }
}

/// What holds along a request, started in world `w0`, for a repository whose
/// mirror `p` exists.
pub open spec fn present_inv(w0: World, p: Seq<char>, w: World, r: ResolverView) -> bool {
    &&& request_mirror(r.mirrors_dir, r.repo_id) == Some(p)
    &&& w.clones == w0.clones
    &&& w.mirrors.contains(p)
    &&& w.cache_up == w0.cache_up
    &&& w.cache_write_ok == w0.cache_write_ok
    &&& match r.phase {
        PhaseView::Locking { path, .. } => path == p,
        PhaseView::MirrorProbe { path, .. } => path == p,
        PhaseView::Cloning { .. } => false,
        _ => true,
    }
}

proof fn lemma_present_inv(w0: World, p: Seq<char>, w: World, r: ResolverView)
    requires
        present_inv(w0, p, w, r),
    ensures
        present_inv(w0, p, run(w, r).0, run(w, r).1),
    decreases rank(r.phase),
{
    if !(r.phase is Done) {
        lemma_advance_rank(w, r);
        let (w2, r2) = advance(w, r);
        assert(present_inv(w0, p, w2, r2));
        lemma_present_inv(w0, p, w2, r2);
    }
}

/// A request for a repository whose mirror exists clones nothing, and the
/// mirror stays.
pub proof fn lemma_no_clone_when_present(
    w: World,
    mirrors_dir: Seq<char>,
    repo_id: Seq<char>,
    commit: Seq<char>,
    file_path: Seq<char>,
)
    requires
        request_mirror(mirrors_dir, repo_id) is Some,
        w.mirrors.contains(request_mirror(mirrors_dir, repo_id)->Some_0),
    ensures
        ({
            let w1 = resolve_in(w, mirrors_dir, repo_id, commit, file_path).0;
            w1.clones == w.clones && w1.mirrors.contains(request_mirror(mirrors_dir, repo_id)->Some_0)
                && w1.cache_up == w.cache_up && w1.cache_write_ok == w.cache_write_ok
        }),
{
    let p = request_mirror(mirrors_dir, repo_id)->Some_0;
    lemma_present_inv(w, p, w, start(mirrors_dir, repo_id, commit, file_path));
}

/// The first request for a repository whose mirror is absent, missing the
/// cache, clones the mirror once, when cloning succeeds.
pub proof fn lemma_first_request_clones_once(
    w: World,
    mirrors_dir: Seq<char>,
    repo_id: Seq<char>,
    commit: Seq<char>,
    file_path: Seq<char>,
)
    requires
        request_mirror(mirrors_dir, repo_id) is Some,
        !w.mirrors.contains(request_mirror(mirrors_dir, repo_id)->Some_0),
        w.clone_ok,
        w.cache_up,
        !w.cache.contains_key((commit, file_path)),
    ensures
        ({
            let w1 = resolve_in(w, mirrors_dir, repo_id, commit, file_path).0;
            w1.clones == w.clones + 1 && w1.mirrors.contains(request_mirror(mirrors_dir, repo_id)->Some_0)
        }),
{
    let p = request_mirror(mirrors_dir, repo_id)->Some_0;
    let s = start(mirrors_dir, repo_id, commit, file_path);
    lemma_first_clone_inv(w, p, (commit, file_path), w, s);
    crate::world::lemma_run_done(w, s);
}

/// Two requests for one repository, at two commits, clone its mirror once:
/// the second finds the mirror that the first made.
pub proof fn lemma_mirror_reuse(
    w: World,
    mirrors_dir: Seq<char>,
    repo_id: Seq<char>,
    commit: Seq<char>,
    file_path: Seq<char>,
    other_commit: Seq<char>,
    other_file_path: Seq<char>,
)
    requires
        request_mirror(mirrors_dir, repo_id) is Some,
        !w.mirrors.contains(request_mirror(mirrors_dir, repo_id)->Some_0),
        w.clone_ok,
        w.cache_up,
        !w.cache.contains_key((commit, file_path)),
    ensures
        ({
            let w1 = resolve_in(w, mirrors_dir, repo_id, commit, file_path).0;
            let w2 = resolve_in(w1, mirrors_dir, repo_id, other_commit, other_file_path).0;
            w2.clones == w.clones + 1
        }),
{
    lemma_first_request_clones_once(w, mirrors_dir, repo_id, commit, file_path);
    let w1 = resolve_in(w, mirrors_dir, repo_id, commit, file_path).0;
    lemma_no_clone_when_present(w1, mirrors_dir, repo_id, other_commit, other_file_path);
}

/// Requests for one repository, each run whole before the next starts;
/// `reqs` holds each one's commit and path. (The mirror lock orders only the
/// mirror work of concurrent requests; their cache checks and writes may
/// interleave, which `run_interleaved` models.)
pub open spec fn run_all(
    w: World,
    mirrors_dir: Seq<char>,
    repo_id: Seq<char>,
    reqs: Seq<(Seq<char>, Seq<char>)>,
) -> (World, Seq<Result<(Seq<LineView>, bool), EngineError>>)
    decreases reqs.len(),
{
    if reqs.len() == 0 {
        (w, Seq::empty())
    } else {
        let (w1, outs) = run_all(w, mirrors_dir, repo_id, reqs.drop_last());
        let (w2, o) = resolve_in(w1, mirrors_dir, repo_id, reqs.last().0, reqs.last().1);
        (w2, outs.push(o))
    }
}

/// Any number of requests for one repository whose mirror is absent, each run
/// whole before the next starts, the first of them missing the cache, clone the
/// mirror exactly once when cloning succeeds.
pub proof fn lemma_serialized_requests_clone_once(
    w: World,
    mirrors_dir: Seq<char>,
    repo_id: Seq<char>,
    reqs: Seq<(Seq<char>, Seq<char>)>,
)
    requires
        reqs.len() > 0,
        request_mirror(mirrors_dir, repo_id) is Some,
        !w.mirrors.contains(request_mirror(mirrors_dir, repo_id)->Some_0),
        w.clone_ok,
        w.cache_up,
        !w.cache.contains_key(reqs[0]),
    ensures
        run_all(w, mirrors_dir, repo_id, reqs).0.clones == w.clones + 1,
        run_all(w, mirrors_dir, repo_id, reqs).0.mirrors.contains(
            request_mirror(mirrors_dir, repo_id)->Some_0,
        ),
    decreases reqs.len(),
{
    if reqs.len() == 1 {
        assert(reqs.drop_last() =~= Seq::<(Seq<char>, Seq<char>)>::empty());
        assert(reqs.last() == reqs[0]);
        assert(run_all(w, mirrors_dir, repo_id, reqs.drop_last()).0 == w);
        lemma_first_request_clones_once(w, mirrors_dir, repo_id, reqs[0].0, reqs[0].1);
    } else {
        let prefix = reqs.drop_last();
        assert(prefix[0] == reqs[0]);
        lemma_serialized_requests_clone_once(w, mirrors_dir, repo_id, prefix);
        let w1 = run_all(w, mirrors_dir, repo_id, prefix).0;
        lemma_no_clone_when_present(w1, mirrors_dir, repo_id, reqs.last().0, reqs.last().1);
    }
}

/// Requests for the same commit and path, each run whole before the next
/// starts, all get the lines of the first when it succeeds and its cache write
/// goes through: every later one is answered from the cache.
pub proof fn lemma_serialized_requests_agree(
    w: World,
    mirrors_dir: Seq<char>,
    repo_id: Seq<char>,
    reqs: Seq<(Seq<char>, Seq<char>)>,
)
    requires
        reqs.len() > 0,
        forall|i: int| 0 <= i < reqs.len() ==> #[trigger] reqs[i] == reqs[0],
        resolve_in(w, mirrors_dir, repo_id, reqs[0].0, reqs[0].1).1 is Ok,
        w.cache_write_ok,
    ensures
        ({
            let (w1, outs) = run_all(w, mirrors_dir, repo_id, reqs);
            let first = resolve_in(w, mirrors_dir, repo_id, reqs[0].0, reqs[0].1).1;
            &&& outs.len() == reqs.len()
            &&& outs[0] == first
            &&& forall|i: int|
                0 < i < outs.len() ==> outs[i] == Ok::<(Seq<LineView>, bool), EngineError>(
                    (first->Ok_0.0, true),
                )
            &&& w1.cache_up
            &&& w1.cache.contains_key(reqs[0])
            &&& w1.cache[reqs[0]] == first->Ok_0.0
        }),
    decreases reqs.len(),
{
    let k = reqs[0];
    let s = start(mirrors_dir, repo_id, k.0, k.1);
    if reqs.len() == 1 {
        assert(reqs.drop_last() =~= Seq::<(Seq<char>, Seq<char>)>::empty());
        lemma_cache_inv(w, k, w, s);
        crate::world::lemma_run_done(w, s);
    } else {
        let prefix = reqs.drop_last();
        assert(prefix[0] == reqs[0]);
        lemma_serialized_requests_agree(w, mirrors_dir, repo_id, prefix);
        let (w1, outs) = run_all(w, mirrors_dir, repo_id, prefix);
        assert(reqs.last() == k);
        lemma_cache_hit(w1, mirrors_dir, repo_id, k.0, k.1);
    }
}

/// The phases in which a request holds the lock of its mirror.
pub open spec fn holds_mirror_lock(p: PhaseView) -> bool {
    ||| p is MirrorProbe
    ||| p is Cloning
    ||| p is CommitCheck
    ||| p is Updating
    ||| p is CommitRecheck
    ||| p is Computing
    ||| p is Unlocking
}

/// The actions that read or change a mirror.
pub open spec fn touches_mirror(a: ActionView) -> bool {
    ||| a is ProbeMirror
    ||| a is CloneMirror
    ||| a is CheckCommit
    ||| a is RemoteUpdate
    ||| a is Blame
}

/// A request reads or changes its mirror only while it holds the mirror's
/// lock; it comes to hold the lock only when the lock is granted, and stops
/// holding it only when it has released it.
pub proof fn lemma_lock_discipline(r: ResolverView, e: EventView)
    ensures
        touches_mirror(action_of(r)) ==> holds_mirror_lock(r.phase),
        !holds_mirror_lock(r.phase) && holds_mirror_lock(next_phase(r, e)) ==> r.phase is Locking
            && e is LockAcquired,
        holds_mirror_lock(r.phase) && !holds_mirror_lock(next_phase(r, e)) ==> r.phase is Unlocking
            && e is LockReleased,
{
}

/// What holds along a request, started in world `w0`, for a commit that
/// neither the mirror `p` nor any remote holds.
pub open spec fn unknown_commit_inv(
    w0: World,
    p: Seq<char>,
    k: (Seq<char>, Seq<char>),
    w: World,
    r: ResolverView,
) -> bool {
    &&& request_mirror(r.mirrors_dir, r.repo_id) == Some(p)
    &&& (r.commit, r.file_path) == k
    &&& !w.upstream.contains(k.0)
    &&& !w.fetched.contains((p, k.0))
    &&& w.cache == w0.cache
    &&& w.cache_up
    &&& (w.mirrors.contains(p) || w.clone_ok)
    &&& match r.phase {
        PhaseView::CacheCheck => !w.cache.contains_key(k) && w.updates == w0.updates,
        PhaseView::Locking { path, .. } => path == p && w.updates == w0.updates,
        PhaseView::MirrorProbe { path, .. } => path == p && w.updates == w0.updates,
        PhaseView::Cloning { path, .. } => path == p && w.updates == w0.updates && w.clone_ok,
        PhaseView::CommitCheck { path } => path == p && w.updates == w0.updates,
        PhaseView::Updating { path } => path == p && w.updates == w0.updates,
        PhaseView::CommitRecheck { path } => path == p && w.updates == w0.updates + 1,
        PhaseView::Unlocking { result, .. } => result == Err::<Seq<LineView>, EngineError>(
            EngineError::CommitNotFound,
        ) && w.updates == w0.updates + 1,
        PhaseView::Done { outcome } => outcome == Err::<(Seq<LineView>, bool), EngineError>(
            EngineError::CommitNotFound,
        ) && w.updates == w0.updates + 1,
        _ => false,
    }
}

proof fn lemma_unknown_commit_inv(
    w0: World,
    p: Seq<char>,
    k: (Seq<char>, Seq<char>),
    w: World,
    r: ResolverView,
)
    requires
        unknown_commit_inv(w0, p, k, w, r),
    ensures
        unknown_commit_inv(w0, p, k, run(w, r).0, run(w, r).1),
    decreases rank(r.phase),
{
    if !(r.phase is Done) {
        lemma_advance_rank(w, r);
        let (w2, r2) = advance(w, r);
        assert(unknown_commit_inv(w0, p, k, w2, r2));
        lemma_unknown_commit_inv(w0, p, k, w2, r2);
    }
}

/// A request for a commit that no remote holds updates the mirror exactly once
/// and fails with `CommitNotFound`, leaving the cache as it was.
pub proof fn lemma_unknown_commit(
    w: World,
    mirrors_dir: Seq<char>,
    repo_id: Seq<char>,
    commit: Seq<char>,
    file_path: Seq<char>,
)
    requires
        request_mirror(mirrors_dir, repo_id) is Some,
        w.mirrors.contains(request_mirror(mirrors_dir, repo_id)->Some_0) || w.clone_ok,
        !w.upstream.contains(commit),
        !w.fetched.contains((request_mirror(mirrors_dir, repo_id)->Some_0, commit)),
        w.cache_up,
        !w.cache.contains_key((commit, file_path)),
    ensures
        ({
            let (w1, o) = resolve_in(w, mirrors_dir, repo_id, commit, file_path);
            &&& o == Err::<(Seq<LineView>, bool), EngineError>(EngineError::CommitNotFound)
            &&& w1.updates == w.updates + 1
            &&& w1.cache == w.cache
        }),
{
    let p = request_mirror(mirrors_dir, repo_id)->Some_0;
    let s = start(mirrors_dir, repo_id, commit, file_path);
    lemma_unknown_commit_inv(w, p, (commit, file_path), w, s);
    crate::world::lemma_run_done(w, s);
}

/// Whether request `r` waits for a mirror lock that is held in world `w`.
pub open spec fn waits_for_lock(w: World, r: ResolverView) -> bool {
    match action_of(r) {
        ActionView::AcquireMirrorLock { path } => w.locked.contains(path),
        _ => false,
    }
}

/// One step of the concurrent requests `rs`: request `i` moves on, unless it
/// is over or waits for a held lock.
pub open spec fn interleave_step(w: World, rs: Seq<ResolverView>, i: int) -> (
    World,
    Seq<ResolverView>,
) {
    if !(0 <= i < rs.len()) || rs[i].phase is Done || waits_for_lock(w, rs[i]) {
        (w, rs)
    } else {
        let (w2, r2) = advance(w, rs[i]);
        (w2, rs.update(i, r2))
    }
}

/// The concurrent requests `rs` after their steps are taken in the order
/// `schedule` gives, by index.
pub open spec fn run_interleaved(w: World, rs: Seq<ResolverView>, schedule: Seq<int>) -> (
    World,
    Seq<ResolverView>,
)
    decreases schedule.len(),
{
    if schedule.len() == 0 {
        (w, rs)
    } else {
        let (w1, rs1) = run_interleaved(w, rs, schedule.drop_last());
        interleave_step(w1, rs1, schedule.last())
    }
}

/// Every mirror directory that phase `ph` names is `p`.
pub open spec fn phase_on_mirror(p: Seq<char>, ph: PhaseView) -> bool {
    match ph {
        PhaseView::Locking { path, .. } => path == p,
        PhaseView::MirrorProbe { path, .. } => path == p,
        PhaseView::Cloning { path, .. } => path == p,
        PhaseView::CommitCheck { path } => path == p,
        PhaseView::Updating { path } => path == p,
        PhaseView::CommitRecheck { path } => path == p,
        PhaseView::Computing { path } => path == p,
        PhaseView::Unlocking { path, .. } => path == p,
        _ => true,
    }
}

/// What holds of concurrent requests `rs` for the one mirror `p`, started in
/// world `w0` without that mirror: the lock of `p` is held exactly when one
/// request is in a phase that holds it, never by two, and the mirror was
/// cloned once if it exists, not at all otherwise.
pub open spec fn interleaved_inv(w0: World, p: Seq<char>, w: World, rs: Seq<ResolverView>) -> bool {
    &&& forall|j: int|
        0 <= j < rs.len() ==> request_mirror(#[trigger] rs[j].mirrors_dir, rs[j].repo_id) == Some(p)
            && phase_on_mirror(p, rs[j].phase)
    &&& w.clone_ok
    &&& (w.locked.contains(p) <==> exists|j: int|
        0 <= j < rs.len() && #[trigger] holds_mirror_lock(rs[j].phase))
    &&& forall|j: int, k: int|
        0 <= j < rs.len() && 0 <= k < rs.len() && #[trigger] holds_mirror_lock(rs[j].phase)
            && #[trigger] holds_mirror_lock(rs[k].phase) ==> j == k
    &&& if w.mirrors.contains(p) {
        w.clones == w0.clones + 1 && forall|j: int| 0 <= j < rs.len() ==> !(#[trigger] rs[j].phase is Cloning)
    } else {
        w.clones == w0.clones
    }
}

proof fn lemma_interleave_step_inv(w0: World, p: Seq<char>, w: World, rs: Seq<ResolverView>, i: int)
    requires
        interleaved_inv(w0, p, w, rs),
    ensures
        interleaved_inv(w0, p, interleave_step(w, rs, i).0, interleave_step(w, rs, i).1),
        interleave_step(w, rs, i).1.len() == rs.len(),
{
    if !(0 <= i < rs.len()) || rs[i].phase is Done || waits_for_lock(w, rs[i]) {
    } else {
        let r = rs[i];
        let (w2, r2) = advance(w, r);
        let rs2 = rs.update(i, r2);
        assert(request_mirror(r.mirrors_dir, r.repo_id) == Some(p));
        assert(phase_on_mirror(p, r.phase));
        assert(phase_on_mirror(p, r2.phase));
        assert forall|j: int| 0 <= j < rs2.len() implies request_mirror(
            #[trigger] rs2[j].mirrors_dir,
            rs2[j].repo_id,
        ) == Some(p) && phase_on_mirror(p, rs2[j].phase) by {
            if j != i {
                assert(rs2[j] == rs[j]);
            }
        }
        if holds_mirror_lock(r.phase) {
            assert forall|j: int| 0 <= j < rs.len() && j != i implies !holds_mirror_lock(
                #[trigger] rs[j].phase,
            ) by {}
        }
        if r.phase is Locking {
            assert(!w.locked.contains(p));
            assert forall|j: int| 0 <= j < rs.len() implies !holds_mirror_lock(
                #[trigger] rs[j].phase,
            ) by {}
            assert(holds_mirror_lock(rs2[i].phase));
        }
        if r.phase is Cloning {
            assert(holds_mirror_lock(r.phase));
            assert(!w.mirrors.contains(p));
        }
        assert((w2.locked.contains(p) <==> exists|j: int|
            0 <= j < rs2.len() && #[trigger] holds_mirror_lock(rs2[j].phase))) by {
            if holds_mirror_lock(r2.phase) {
                assert(holds_mirror_lock(rs2[i].phase));
            }
            if exists|j: int| 0 <= j < rs2.len() && #[trigger] holds_mirror_lock(rs2[j].phase) {
                let j = choose|j: int| 0 <= j < rs2.len() && #[trigger] holds_mirror_lock(rs2[j].phase);
                if j != i {
                    assert(rs2[j] == rs[j]);
                }
            }
            if exists|j: int| 0 <= j < rs.len() && #[trigger] holds_mirror_lock(rs[j].phase) {
                let j = choose|j: int| 0 <= j < rs.len() && #[trigger] holds_mirror_lock(rs[j].phase);
                if j != i {
                    assert(rs2[j] == rs[j]);
                    assert(holds_mirror_lock(rs2[j].phase));
                }
            }
        }
        assert forall|j: int, k: int|
            0 <= j < rs2.len() && 0 <= k < rs2.len() && #[trigger] holds_mirror_lock(rs2[j].phase)
                && #[trigger] holds_mirror_lock(rs2[k].phase) implies j == k by {
            if j != i {
                assert(rs2[j] == rs[j]);
            }
            if k != i {
                assert(rs2[k] == rs[k]);
            }
        }
        if w2.mirrors.contains(p) {
            assert forall|j: int| 0 <= j < rs2.len() implies !(#[trigger] rs2[j].phase is Cloning) by {
                if j != i {
                    assert(rs2[j] == rs[j]);
                    if rs[j].phase is Cloning {
                        assert(holds_mirror_lock(rs[j].phase));
                    }
                }
            }
        }
    }
}

/// Requests for one repository whose mirror is absent, their steps
/// interleaved in any order, a request waiting for the mirror lock moving
/// only once it is free: never do two of them hold the mirror lock at once,
/// and the mirror is cloned at most once, exactly once if it ends up present,
/// when cloning succeeds.
pub proof fn lemma_interleaved_requests_clone_once(
    w: World,
    p: Seq<char>,
    rs: Seq<ResolverView>,
    schedule: Seq<int>,
)
    requires
        forall|j: int|
            0 <= j < rs.len() ==> request_mirror(#[trigger] rs[j].mirrors_dir, rs[j].repo_id) == Some(p)
                && rs[j].phase is CacheCheck,
        w.clone_ok,
        !w.mirrors.contains(p),
        !w.locked.contains(p),
    ensures
        ({
            let (w1, rs1) = run_interleaved(w, rs, schedule);
            &&& rs1.len() == rs.len()
            &&& w1.clones == w.clones + if w1.mirrors.contains(p) {
                1nat
            } else {
                0nat
            }
            &&& forall|j: int, k: int|
                0 <= j < rs1.len() && 0 <= k < rs1.len() && #[trigger] holds_mirror_lock(rs1[j].phase)
                    && #[trigger] holds_mirror_lock(rs1[k].phase) ==> j == k
        }),
{
    lemma_interleaved_run_inv(w, p, rs, schedule);
}

proof fn lemma_interleaved_run_inv(w: World, p: Seq<char>, rs: Seq<ResolverView>, schedule: Seq<int>)
    requires
        forall|j: int|
            0 <= j < rs.len() ==> request_mirror(#[trigger] rs[j].mirrors_dir, rs[j].repo_id) == Some(p)
                && rs[j].phase is CacheCheck,
        w.clone_ok,
        !w.mirrors.contains(p),
        !w.locked.contains(p),
    ensures
        interleaved_inv(w, p, run_interleaved(w, rs, schedule).0, run_interleaved(w, rs, schedule).1),
        run_interleaved(w, rs, schedule).1.len() == rs.len(),
    decreases schedule.len(),
{
    if schedule.len() == 0 {
        assert forall|j: int| 0 <= j < rs.len() implies !holds_mirror_lock(#[trigger] rs[j].phase) by {
            assert(request_mirror(rs[j].mirrors_dir, rs[j].repo_id) == Some(p));
            assert(rs[j].phase is CacheCheck);
        }
        assert forall|j: int| 0 <= j < rs.len() implies request_mirror(
            #[trigger] rs[j].mirrors_dir,
            rs[j].repo_id,
        ) == Some(p) && phase_on_mirror(p, rs[j].phase) by {
            assert(request_mirror(rs[j].mirrors_dir, rs[j].repo_id) == Some(p));
            assert(rs[j].phase is CacheCheck);
        }
    } else {
        lemma_interleaved_run_inv(w, p, rs, schedule.drop_last());
        let (w1, rs1) = run_interleaved(w, rs, schedule.drop_last());
        lemma_interleave_step_inv(w, p, w1, rs1, schedule.last());
    }
}

/// Concurrent requests that hold the invariant never wait for one another in a
/// circle: while one of them is not over, one of them can move.
pub proof fn lemma_interleaved_progress(w0: World, p: Seq<char>, w: World, rs: Seq<ResolverView>)
    requires
        interleaved_inv(w0, p, w, rs),
        exists|j: int| 0 <= j < rs.len() && !(#[trigger] rs[j].phase is Done),
    ensures
        exists|i: int|
            0 <= i < rs.len() && !(#[trigger] rs[i].phase is Done) && !waits_for_lock(w, rs[i]),
{
    let j = choose|j: int| 0 <= j < rs.len() && !(#[trigger] rs[j].phase is Done);
    if waits_for_lock(w, rs[j]) {
        assert(request_mirror(rs[j].mirrors_dir, rs[j].repo_id) == Some(p));
        assert(w.locked.contains(p));
        let h = choose|h: int| 0 <= h < rs.len() && #[trigger] holds_mirror_lock(rs[h].phase);
        assert(!(rs[h].phase is Done) && !waits_for_lock(w, rs[h]));
    }
}

/// The lines of a request in phase `ph`, where it has them, are `l`.
pub open spec fn phase_lines_are(l: Seq<LineView>, ph: PhaseView) -> bool {
    match ph {
        PhaseView::Unlocking { result, .. } => result matches Ok(x) ==> x == l,
        PhaseView::CacheWrite { lines } => lines == l,
        PhaseView::Done { outcome } => outcome matches Ok((x, _)) ==> x == l,
        _ => true,
    }
}

/// Where the world can give lines for key `k`, from the cache or by blame, it
/// gives `l`.
pub open spec fn only_lines_for(w: World, k: (Seq<char>, Seq<char>), l: Seq<LineView>) -> bool {
    &&& w.cache.contains_key(k) ==> w.cache[k] == l
    &&& w.blames.contains_key(k) ==> (blame_result(w.blames[k].0, w.blames[k].1) matches Ok(x)
        ==> x == l)
}

/// What holds of concurrent requests `rs`, all for key `k`, while the world
/// gives only the lines `l` for it.
pub open spec fn agree_inv(k: (Seq<char>, Seq<char>), l: Seq<LineView>, w: World, rs: Seq<ResolverView>) -> bool {
    &&& only_lines_for(w, k, l)
    &&& forall|j: int|
        0 <= j < rs.len() ==> (#[trigger] rs[j].commit, rs[j].file_path) == k && phase_lines_are(
            l,
            rs[j].phase,
        )
}

proof fn lemma_agree_run_inv(
    k: (Seq<char>, Seq<char>),
    l: Seq<LineView>,
    w: World,
    rs: Seq<ResolverView>,
    schedule: Seq<int>,
)
    requires
        agree_inv(k, l, w, rs),
    ensures
        agree_inv(k, l, run_interleaved(w, rs, schedule).0, run_interleaved(w, rs, schedule).1),
        run_interleaved(w, rs, schedule).1.len() == rs.len(),
    decreases schedule.len(),
{
    if schedule.len() > 0 {
        lemma_agree_run_inv(k, l, w, rs, schedule.drop_last());
        let (w1, rs1) = run_interleaved(w, rs, schedule.drop_last());
        let i = schedule.last();
        if 0 <= i < rs1.len() && !(rs1[i].phase is Done) && !waits_for_lock(w1, rs1[i]) {
            let r = rs1[i];
            assert((r.commit, r.file_path) == k);
            let (w2, r2) = advance(w1, r);
            let rs2 = rs1.update(i, r2);
            assert(phase_lines_are(l, r2.phase));
            assert forall|j: int| 0 <= j < rs2.len() implies (#[trigger] rs2[j].commit, rs2[j].file_path)
                == k && phase_lines_are(l, rs2[j].phase) by {
                if j != i {
                    assert(rs2[j] == rs1[j]);
                }
            }
        }
    }
}

/// Concurrent requests for the same commit and path, their steps interleaved
/// in any order, all return the same lines when they succeed: those that the
/// cache held, or else those that the blame gives, since every one of them
/// that misses the cache computes the same blame and a cache entry, once
/// written, is kept.
pub proof fn lemma_interleaved_requests_agree(
    w: World,
    k: (Seq<char>, Seq<char>),
    l: Seq<LineView>,
    rs: Seq<ResolverView>,
    schedule: Seq<int>,
)
    requires
        forall|j: int|
            0 <= j < rs.len() ==> (#[trigger] rs[j].commit, rs[j].file_path) == k && rs[j].phase is CacheCheck,
        only_lines_for(w, k, l),
    ensures
        ({
            let (w1, rs1) = run_interleaved(w, rs, schedule);
            &&& rs1.len() == rs.len()
            &&& forall|j: int|
                0 <= j < rs1.len() ==> (#[trigger] rs1[j].phase matches PhaseView::Done {
                    outcome: Ok((x, _)),
                } ==> x == l)
            &&& w1.cache.contains_key(k) ==> w1.cache[k] == l
        }),
{
    assert forall|j: int| 0 <= j < rs.len() implies (#[trigger] rs[j].commit, rs[j].file_path) == k
        && phase_lines_are(l, rs[j].phase) by {
        let c = rs[j].commit;
        assert(rs[j].phase is CacheCheck);
    }
    lemma_agree_run_inv(k, l, w, rs, schedule);
    let (w1, rs1) = run_interleaved(w, rs, schedule);
    assert forall|j: int| 0 <= j < rs1.len() implies (#[trigger] rs1[j].phase matches PhaseView::Done {
        outcome: Ok((x, _)),
    } ==> x == l) by {
        assert((rs1[j].commit, rs1[j].file_path) == k);
        assert(phase_lines_are(l, rs1[j].phase));
    }
}

} // verus!
