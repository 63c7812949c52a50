use vstd::prelude::*;

use crate::blame::{
    count_lines,
    duplicate_lines,
    expand,
    expand_hunks,
    hunks_fit,
    hunks_view,
    line_count,
    lines_view,
    BlameHunk,
    BlameLine,
    HunkView,
    LineView,
};
use crate::repo_id::{clone_url_spec, join_path, mirror_dir, parse_repo_id, parse_spec, repo_id_text};
use crate::EngineError;

verus! {

/// The answer to a blame request: one line per line of the file, and whether
/// the answer was already in the cache.
pub struct Resolved {
    pub lines: Vec<BlameLine>,
    pub cache_hit: bool,
}

/// What a blame computation hands back: the hunks, in order, and the content
/// of the file at the queried commit.
pub struct BlameOutput {
    pub hunks: Vec<BlameHunk>,
    pub content: Vec<u8>,
}

/// Where a request stands. `path` is the directory of the repository's mirror,
/// `url` the location it is cloned from.
pub enum Phase {
    CacheCheck,
    Locking { path: String, url: String },
    MirrorProbe { path: String, url: String },
    Cloning { path: String, url: String },
    CommitCheck { path: String },
    Updating { path: String },
    CommitRecheck { path: String },
    Computing { path: String },
    Unlocking { path: String, result: Result<Vec<BlameLine>, EngineError> },
    CacheWrite { lines: Vec<BlameLine> },
    Done { outcome: Result<Resolved, EngineError> },
}

/// The work a request asks of its surroundings next.
pub enum Action {
    /// Look the cache up under `(commit, file_path)`.
    LookupCache { commit: String, file_path: String },
    /// Wait for exclusive use of the mirror at `path`.
    AcquireMirrorLock { path: String },
    /// Tell whether a mirror directory exists at `path`.
    ProbeMirror { path: String },
    /// Clone `url` as a mirror into `path`.
    CloneMirror { url: String, path: String },
    /// Tell whether `commit` names a commit object in the mirror at `path`.
    CheckCommit { path: String, commit: String },
    /// Fetch all remotes of the mirror at `path`.
    RemoteUpdate { path: String },
    /// Blame `file_path` as of `commit` in the mirror at `path`.
    Blame { path: String, commit: String, file_path: String },
    /// Give up exclusive use of the mirror at `path`.
    ReleaseMirrorLock { path: String },
    /// Store `lines` in the cache under `(commit, file_path)` unless an entry is there.
    InsertCache { commit: String, file_path: String, lines: Vec<BlameLine> },
    /// The request is over.
    Finish { outcome: Result<Resolved, EngineError> },
}

/// What the surroundings report back after doing an action.
pub enum Event {
    CacheLookedUp { found: Option<Vec<BlameLine>> },
    CacheUnavailable,
    LockAcquired,
    MirrorProbed { present: bool },
    CloneFinished { success: bool },
    CommitChecked { present: bool },
    UpdateFinished { success: bool },
    BlameFinished { output: Option<BlameOutput> },
    LockReleased,
    CacheWritten { success: bool },
}

/// A blame request in progress.
pub struct Resolver {
    pub mirrors_dir: String,
    pub repo_id: String,
    pub commit: String,
    pub file_path: String,
    pub phase: Phase,
}

pub enum PhaseView {
    CacheCheck,
    Locking { path: Seq<char>, url: Seq<char> },
    MirrorProbe { path: Seq<char>, url: Seq<char> },
    Cloning { path: Seq<char>, url: Seq<char> },
    CommitCheck { path: Seq<char> },
    Updating { path: Seq<char> },
    CommitRecheck { path: Seq<char> },
    Computing { path: Seq<char> },
    Unlocking { path: Seq<char>, result: Result<Seq<LineView>, EngineError> },
    CacheWrite { lines: Seq<LineView> },
    Done { outcome: Result<(Seq<LineView>, bool), EngineError> },
}

pub enum ActionView {
    LookupCache { commit: Seq<char>, file_path: Seq<char> },
    AcquireMirrorLock { path: Seq<char> },
    ProbeMirror { path: Seq<char> },
    CloneMirror { url: Seq<char>, path: Seq<char> },
    CheckCommit { path: Seq<char>, commit: Seq<char> },
    RemoteUpdate { path: Seq<char> },
    Blame { path: Seq<char>, commit: Seq<char>, file_path: Seq<char> },
    ReleaseMirrorLock { path: Seq<char> },
    InsertCache { commit: Seq<char>, file_path: Seq<char>, lines: Seq<LineView> },
    Finish { outcome: Result<(Seq<LineView>, bool), EngineError> },
}

pub enum EventView {
    CacheLookedUp { found: Option<Seq<LineView>> },
    CacheUnavailable,
    LockAcquired,
    MirrorProbed { present: bool },
    CloneFinished { success: bool },
    CommitChecked { present: bool },
    UpdateFinished { success: bool },
    BlameFinished { output: Option<(Seq<HunkView>, Seq<u8>)> },
    LockReleased,
    CacheWritten { success: bool },
}

pub struct ResolverView {
    pub mirrors_dir: Seq<char>,
    pub repo_id: Seq<char>,
    pub commit: Seq<char>,
    pub file_path: Seq<char>,
    pub phase: PhaseView,
}

pub open spec fn result_view(r: Result<Vec<BlameLine>, EngineError>) -> Result<
    Seq<LineView>,
    EngineError,
> {
    match r {
        Ok(v) => Ok(lines_view(v@)),
        Err(e) => Err(e),
    }
}

pub open spec fn outcome_view(r: Result<Resolved, EngineError>) -> Result<
    (Seq<LineView>, bool),
    EngineError,
> {
    match r {
        Ok(v) => Ok((lines_view(v.lines@), v.cache_hit)),
        Err(e) => Err(e),
    }
}

impl View for Phase {
    type V = PhaseView;

    open spec fn view(&self) -> PhaseView {
        match self {
            Phase::CacheCheck => PhaseView::CacheCheck,
            Phase::Locking { path, url } => PhaseView::Locking { path: path@, url: url@ },
            Phase::MirrorProbe { path, url } => PhaseView::MirrorProbe { path: path@, url: url@ },
            Phase::Cloning { path, url } => PhaseView::Cloning { path: path@, url: url@ },
            Phase::CommitCheck { path } => PhaseView::CommitCheck { path: path@ },
            Phase::Updating { path } => PhaseView::Updating { path: path@ },
            Phase::CommitRecheck { path } => PhaseView::CommitRecheck { path: path@ },
            Phase::Computing { path } => PhaseView::Computing { path: path@ },
            Phase::Unlocking { path, result } => PhaseView::Unlocking {
                path: path@,
                result: result_view(*result),
            },
            Phase::CacheWrite { lines } => PhaseView::CacheWrite { lines: lines_view(lines@) },
            Phase::Done { outcome } => PhaseView::Done { outcome: outcome_view(*outcome) },
        }
    }
}

impl View for Action {
    type V = ActionView;

    open spec fn view(&self) -> ActionView {
        match self {
            Action::LookupCache { commit, file_path } => ActionView::LookupCache {
                commit: commit@,
                file_path: file_path@,
            },
            Action::AcquireMirrorLock { path } => ActionView::AcquireMirrorLock { path: path@ },
            Action::ProbeMirror { path } => ActionView::ProbeMirror { path: path@ },
            Action::CloneMirror { url, path } => ActionView::CloneMirror { url: url@, path: path@ },
            Action::CheckCommit { path, commit } => ActionView::CheckCommit {
                path: path@,
                commit: commit@,
            },
            Action::RemoteUpdate { path } => ActionView::RemoteUpdate { path: path@ },
            Action::Blame { path, commit, file_path } => ActionView::Blame {
                path: path@,
                commit: commit@,
                file_path: file_path@,
            },
            Action::ReleaseMirrorLock { path } => ActionView::ReleaseMirrorLock { path: path@ },
            Action::InsertCache { commit, file_path, lines } => ActionView::InsertCache {
                commit: commit@,
                file_path: file_path@,
                lines: lines_view(lines@),
            },
            Action::Finish { outcome } => ActionView::Finish { outcome: outcome_view(*outcome) },
        }
    }
}

impl View for Event {
    type V = EventView;

    open spec fn view(&self) -> EventView {
        match self {
            Event::CacheLookedUp { found } => EventView::CacheLookedUp {
                found: match found {
                    Some(v) => Some(lines_view(v@)),
                    None => None,
                },
            },
            Event::CacheUnavailable => EventView::CacheUnavailable,
            Event::LockAcquired => EventView::LockAcquired,
            Event::MirrorProbed { present } => EventView::MirrorProbed { present: *present },
            Event::CloneFinished { success } => EventView::CloneFinished { success: *success },
            Event::CommitChecked { present } => EventView::CommitChecked { present: *present },
            Event::UpdateFinished { success } => EventView::UpdateFinished { success: *success },
            Event::BlameFinished { output } => EventView::BlameFinished {
                output: match output {
                    Some(o) => Some((hunks_view(o.hunks@), o.content@)),
                    None => None,
                },
            },
            Event::LockReleased => EventView::LockReleased,
            Event::CacheWritten { success } => EventView::CacheWritten { success: *success },
        }
    }
}

impl View for Resolver {
    type V = ResolverView;

    open spec fn view(&self) -> ResolverView {
        ResolverView {
            mirrors_dir: self.mirrors_dir@,
            repo_id: self.repo_id@,
            commit: self.commit@,
            file_path: self.file_path@,
            phase: self.phase@,
        }
    }
}

/// The action that a request in state `r` asks for.
pub open spec fn action_of(r: ResolverView) -> ActionView {
    match r.phase {
        PhaseView::CacheCheck => ActionView::LookupCache { commit: r.commit, file_path: r.file_path },
        PhaseView::Locking { path, .. } => ActionView::AcquireMirrorLock { path },
        PhaseView::MirrorProbe { path, .. } => ActionView::ProbeMirror { path },
        PhaseView::Cloning { path, url } => ActionView::CloneMirror { url, path },
        PhaseView::CommitCheck { path } => ActionView::CheckCommit { path, commit: r.commit },
        PhaseView::Updating { path } => ActionView::RemoteUpdate { path },
        PhaseView::CommitRecheck { path } => ActionView::CheckCommit { path, commit: r.commit },
        PhaseView::Computing { path } => ActionView::Blame {
            path,
            commit: r.commit,
            file_path: r.file_path,
        },
        PhaseView::Unlocking { path, .. } => ActionView::ReleaseMirrorLock { path },
        PhaseView::CacheWrite { lines } => ActionView::InsertCache {
            commit: r.commit,
            file_path: r.file_path,
            lines,
        },
        PhaseView::Done { outcome } => ActionView::Finish { outcome },
    }
}

/// The phase after a cache miss: the repository identity is parsed, and the
/// mirror's lock is asked for.
pub open spec fn after_miss(r: ResolverView) -> PhaseView {
    match parse_spec(r.repo_id) {
        None => PhaseView::Done { outcome: Err(EngineError::InvalidRepoId) },
        Some((o, n)) => PhaseView::Locking {
            path: join_path(r.mirrors_dir, repo_id_text(o, n)),
            url: clone_url_spec(o, n),
        },
    }
}

/// The lines of a blame output, or `BlameFailed` where its hunks do not cover
/// the file's lines exactly.
pub open spec fn blame_result(hunks: Seq<HunkView>, content: Seq<u8>) -> Result<
    Seq<LineView>,
    EngineError,
> {
    if hunks_fit(hunks, line_count(content)) {
        Ok(expand(hunks))
    } else {
        Err(EngineError::BlameFailed)
    }
}

/// The phase that a request in state `r` moves to on event `e`. An event that
/// does not answer the pending action leaves the phase as it is.
pub open spec fn next_phase(r: ResolverView, e: EventView) -> PhaseView {
    match r.phase {
        PhaseView::CacheCheck => match e {
            EventView::CacheLookedUp { found } => match found {
                Some(lines) => PhaseView::Done { outcome: Ok((lines, true)) },
                None => after_miss(r),
            },
            EventView::CacheUnavailable => PhaseView::Done {
                outcome: Err(EngineError::CacheStoreUnavailable),
            },
            _ => r.phase,
        },
        PhaseView::Locking { path, url } => match e {
            EventView::LockAcquired => PhaseView::MirrorProbe { path, url },
            _ => r.phase,
        },
        PhaseView::MirrorProbe { path, url } => match e {
            EventView::MirrorProbed { present } => if present {
                PhaseView::CommitCheck { path }
            } else {
                PhaseView::Cloning { path, url }
            },
            _ => r.phase,
        },
        PhaseView::Cloning { path, url } => match e {
            EventView::CloneFinished { success } => if success {
                PhaseView::CommitCheck { path }
            } else {
                PhaseView::Unlocking { path, result: Err(EngineError::CloneFailed) }
            },
            _ => r.phase,
        },
        PhaseView::CommitCheck { path } => match e {
            EventView::CommitChecked { present } => if present {
                PhaseView::Computing { path }
            } else {
                PhaseView::Updating { path }
            },
            _ => r.phase,
        },
        PhaseView::Updating { path } => match e {
            EventView::UpdateFinished { success } => if success {
                PhaseView::CommitRecheck { path }
            } else {
                PhaseView::Unlocking { path, result: Err(EngineError::CommitNotFound) }
            },
            _ => r.phase,
        },
        PhaseView::CommitRecheck { path } => match e {
            EventView::CommitChecked { present } => if present {
                PhaseView::Computing { path }
            } else {
                PhaseView::Unlocking { path, result: Err(EngineError::CommitNotFound) }
            },
            _ => r.phase,
        },
        PhaseView::Computing { path } => match e {
            EventView::BlameFinished { output } => PhaseView::Unlocking {
                path,
                result: match output {
                    Some((hunks, content)) => blame_result(hunks, content),
                    None => Err(EngineError::BlameFailed),
                },
            },
            _ => r.phase,
        },
        PhaseView::Unlocking { path, result } => match e {
            EventView::LockReleased => match result {
                Ok(lines) => PhaseView::CacheWrite { lines },
                Err(err) => PhaseView::Done { outcome: Err(err) },
            },
            _ => r.phase,
        },
        PhaseView::CacheWrite { lines } => match e {
            EventView::CacheWritten { .. } => PhaseView::Done { outcome: Ok((lines, false)) },
            _ => r.phase,
        },
        PhaseView::Done { .. } => r.phase,
    }
}

/// The state `r` with its phase replaced by `p`.
pub open spec fn with_phase(r: ResolverView, p: PhaseView) -> ResolverView {
    ResolverView { phase: p, ..r }
}

fn copy_outcome(o: &Result<Resolved, EngineError>) -> (r: Result<Resolved, EngineError>)
    ensures
        outcome_view(r) == outcome_view(*o),
{
    match o {
        Ok(v) => Ok(Resolved { lines: duplicate_lines(&v.lines), cache_hit: v.cache_hit }),
        Err(e) => Err(*e),
    }
}

impl Resolver {
    /// A new request for the blame of `file_path` at `commit` in the repository
    /// named `repo_id`, with mirrors kept under `mirrors_dir`. It starts by
    /// checking the cache.
    pub fn new(mirrors_dir: String, repo_id: String, commit: String, file_path: String) -> (r:
        Resolver)
        ensures
            r@ == (ResolverView {
                mirrors_dir: mirrors_dir@,
                repo_id: repo_id@,
                commit: commit@,
                file_path: file_path@,
                phase: PhaseView::CacheCheck,
            }),
    {
        Resolver { mirrors_dir, repo_id, commit, file_path, phase: Phase::CacheCheck }
    }

    /// Whether the request is over.
    pub fn is_done(&self) -> (r: bool)
        ensures
            r == (self@.phase is Done),
    {
        match self.phase {
            Phase::Done { .. } => true,
            _ => false,
        }
    }

    /// The action the request asks for now.
    pub fn action(&self) -> (a: Action)
        ensures
            a@ == action_of(self@),
    {
        match &self.phase {
            Phase::CacheCheck => Action::LookupCache {
                commit: self.commit.clone(),
                file_path: self.file_path.clone(),
            },
            Phase::Locking { path, .. } => Action::AcquireMirrorLock { path: path.clone() },
            Phase::MirrorProbe { path, .. } => Action::ProbeMirror { path: path.clone() },
            Phase::Cloning { path, url } => Action::CloneMirror {
                url: url.clone(),
                path: path.clone(),
            },
            Phase::CommitCheck { path } => Action::CheckCommit {
                path: path.clone(),
                commit: self.commit.clone(),
            },
            Phase::Updating { path } => Action::RemoteUpdate { path: path.clone() },
            Phase::CommitRecheck { path } => Action::CheckCommit {
                path: path.clone(),
                commit: self.commit.clone(),
            },
            Phase::Computing { path } => Action::Blame {
                path: path.clone(),
                commit: self.commit.clone(),
                file_path: self.file_path.clone(),
            },
            Phase::Unlocking { path, .. } => Action::ReleaseMirrorLock { path: path.clone() },
            Phase::CacheWrite { lines } => Action::InsertCache {
                commit: self.commit.clone(),
                file_path: self.file_path.clone(),
                lines: duplicate_lines(lines),
            },
            Phase::Done { outcome } => Action::Finish { outcome: copy_outcome(outcome) },
        }
    }

    /// The phase after a cache miss.
    fn miss(&self) -> (p: Phase)
        ensures
            p@ == after_miss(self@),
    {
        match parse_repo_id(self.repo_id.as_str()) {
            Err(e) => Phase::Done { outcome: Err(e) },
            Ok(id) => {
                let path = mirror_dir(self.mirrors_dir.as_str(), &id);
                let url = id.clone_url();
                Phase::Locking { path, url }
            },
        }
    }

    /// Moves the request on by the event `event`, the report on the pending action.
    pub fn step(self, event: Event) -> (r: Resolver)
        ensures
            r@ == with_phase(self@, next_phase(self@, event@)),
    {
        let ghost s = self@;
        let phase = match self.phase {
            Phase::CacheCheck => match event {
                Event::CacheLookedUp { found } => match found {
                    Some(lines) => Phase::Done {
                        outcome: Ok(Resolved { lines, cache_hit: true }),
                    },
                    None => self.miss(),
                },
                Event::CacheUnavailable => Phase::Done {
                    outcome: Err(EngineError::CacheStoreUnavailable),
                },
                _ => Phase::CacheCheck,
            },
            Phase::Locking { path, url } => match event {
                Event::LockAcquired => Phase::MirrorProbe { path, url },
                _ => Phase::Locking { path, url },
            },
            Phase::MirrorProbe { path, url } => match event {
                Event::MirrorProbed { present } => if present {
                    Phase::CommitCheck { path }
                } else {
                    Phase::Cloning { path, url }
                },
                _ => Phase::MirrorProbe { path, url },
            },
            Phase::Cloning { path, url } => match event {
                Event::CloneFinished { success } => if success {
                    Phase::CommitCheck { path }
                } else {
                    Phase::Unlocking { path, result: Err(EngineError::CloneFailed) }
                },
                _ => Phase::Cloning { path, url },
            },
            Phase::CommitCheck { path } => match event {
                Event::CommitChecked { present } => if present {
                    Phase::Computing { path }
                } else {
                    Phase::Updating { path }
                },
                _ => Phase::CommitCheck { path },
            },
            Phase::Updating { path } => match event {
                Event::UpdateFinished { success } => if success {
                    Phase::CommitRecheck { path }
                } else {
                    Phase::Unlocking { path, result: Err(EngineError::CommitNotFound) }
                },
                _ => Phase::Updating { path },
            },
            Phase::CommitRecheck { path } => match event {
                Event::CommitChecked { present } => if present {
                    Phase::Computing { path }
                } else {
                    Phase::Unlocking { path, result: Err(EngineError::CommitNotFound) }
                },
                _ => Phase::CommitRecheck { path },
            },
            Phase::Computing { path } => match event {
                Event::BlameFinished { output } => match output {
                    Some(o) => {
                        let n = count_lines(&o.content);
                        let result = expand_hunks(&o.hunks, n);
                        Phase::Unlocking { path, result }
                    },
                    None => Phase::Unlocking { path, result: Err(EngineError::BlameFailed) },
                },
                _ => Phase::Computing { path },
            },
            Phase::Unlocking { path, result } => match event {
                Event::LockReleased => match result {
                    Ok(lines) => Phase::CacheWrite { lines },
                    Err(e) => Phase::Done { outcome: Err(e) },
                },
                _ => Phase::Unlocking { path, result },
            },
            Phase::CacheWrite { lines } => match event {
                Event::CacheWritten { .. } => Phase::Done {
                    outcome: Ok(Resolved { lines, cache_hit: false }),
                },
                _ => Phase::CacheWrite { lines },
            },
            Phase::Done { outcome } => Phase::Done { outcome },
        };
        Resolver {
            mirrors_dir: self.mirrors_dir,
            repo_id: self.repo_id,
            commit: self.commit,
            file_path: self.file_path,
            phase,
        }
    }
}

} // verus!
