//! The reconciliation driver: a state machine over one run.
//!
//! The driver holds no connections and performs no I/O.  Each call to
//! [`Driver::step`] consumes the outcome of the previous action (an
//! [`Event`]) and decides the next [`Action`]; the embedding program
//! performs the action and feeds the outcome back, until the action is
//! [`Action::Finish`].
//!
//! A run is atomic with respect to the checkpoint: the driver asks for a
//! checkpoint write only after every record of the run has been processed
//! (or, for a full resync, after the head commit has been resolved), and a
//! transport or decode failure fails the run without ever asking for one.
//! Records addressed to another host are skipped before any content is
//! fetched for them.  Identity operations that fail are absorbed: the run
//! continues and the checkpoint still advances, accepting at-most-once
//! delivery per record.

use vstd::prelude::*;

use crate::checkpoint::normalize_checkpoint;
use crate::checkpoint::normalized_checkpoint;
use crate::diff::ChangeKind;
use crate::diff::ChangeRecord;
use crate::diff::RecordModel;
use crate::diff::extract_diff_parts;
use crate::diff::models_of;
use crate::diff::parsed_records;
use crate::fetcher::DecodeError;
use crate::fetcher::ref_for_kind;
use crate::fetcher::ref_for_kind_spec;
use crate::fetcher::tracked_ref;

verus! {

/// A transport-level failure: the call did not complete.
#[derive(Clone, Copy, PartialEq, Eq, Structural, Debug)]
pub struct TransportError;

/// Why a content lookup failed fatally.
#[derive(Clone, Copy, PartialEq, Eq, Structural, Debug)]
pub enum FetchError {
    Transport,
    Decode(DecodeError),
}

/// How a run ended.
#[derive(Clone, Copy, PartialEq, Eq, Structural, Debug)]
pub enum Outcome {
    /// The run completed and the checkpoint was advanced.
    Success,
    /// A transport failure aborted the run; the checkpoint is unchanged.
    TransportFailure,
    /// A payload could not be decoded; the checkpoint is unchanged.
    DecodeFailure,
    /// The checkpoint write itself failed.
    StoreFailure,
    /// An event arrived that does not answer the pending action.
    ProtocolError,
}

/// What the embedding program must do next.
#[derive(Debug)]
pub enum Action {
    /// List the providers at the top of the access tree, at the tracked ref.
    ListProviders,
    /// List the projects under one provider, at the tracked ref.
    ListProjects { provider: String },
    /// List the hashes under one provider/project pair, at the tracked ref.
    ListHashes { provider: String, project: String },
    /// Resolve the names-tree file for `hash` at `refname` and decode it.
    FetchContent { hash: String, refname: String },
    /// Add `user` to `group`, creating the user first if needed.
    ApplyAddToGroup { user: String, group: String },
    /// Remove `user` from `group`.
    ApplyRemoveFromGroup { user: String, group: String },
    /// Delete `user` from the host.
    ApplyDeleteUser { user: String },
    /// Resolve the newest commit on the tracked branch.
    FetchHead,
    /// Resolve the tracked branch's current commit for the final checkpoint.
    FetchLatestCommit,
    /// Fetch the diff text spanning `base..head`.
    FetchDiff { base: String, head: String },
    /// Persist `commit` as the new checkpoint.
    SaveCheckpoint { commit: String },
    /// The run is over.
    Finish { outcome: Outcome },
}

/// The outcome of the previous action, reported by the embedding program.
#[derive(Debug)]
pub enum Event {
    /// The raw stored checkpoint, `None` when no record exists.
    CheckpointLoaded { value: Option<String> },
    ProvidersListed { result: Result<Vec<String>, TransportError> },
    ProjectsListed { result: Result<Vec<String>, TransportError> },
    /// `Ok(None)` models a listing response that reported non-success:
    /// the project is skipped, not fatal.
    HashesListed { result: Result<Option<Vec<String>>, TransportError> },
    /// `Ok(None)` models a missing file or a response without content.
    ContentFetched { result: Result<Option<String>, FetchError> },
    /// Whether the identity operation succeeded.  Failures are absorbed.
    Applied { ok: bool },
    HeadFetched { result: Result<String, TransportError> },
    LatestCommitFetched { result: Result<String, TransportError> },
    DiffFetched { result: Result<String, TransportError> },
    CheckpointSaved { ok: bool },
}

/// Where a run stands.
#[derive(Debug)]
pub enum Phase {
    /// Nothing has happened yet; the first event is the loaded checkpoint.
    Start,
    AwaitProviders,
    AwaitProjects { provider: String, rest_providers: Vec<String> },
    AwaitHashes {
        provider: String,
        project: String,
        rest_projects: Vec<String>,
        rest_providers: Vec<String>,
    },
    AwaitFullContent {
        provider: String,
        project: String,
        hash: String,
        rest_hashes: Vec<String>,
        rest_projects: Vec<String>,
        rest_providers: Vec<String>,
    },
    AwaitFullApply {
        provider: String,
        project: String,
        rest_hashes: Vec<String>,
        rest_projects: Vec<String>,
        rest_providers: Vec<String>,
    },
    AwaitLatestCommit,
    AwaitHead { base: String },
    AwaitDiff { base: String, head: String },
    AwaitContent { base: String, head: String, current: ChangeRecord, pending: Vec<ChangeRecord> },
    AwaitApply { base: String, head: String, pending: Vec<ChangeRecord> },
    AwaitSave { head: String },
    Done,
    Failed,
}

/// One reconciliation run for one host.
pub struct Driver {
    pub hostname: String,
    pub phase: Phase,
}

pub open spec fn views_of(ss: Seq<String>) -> Seq<Seq<char>> {
    Seq::new(ss.len(), |i: int| ss[i]@)
}

/// An event that does not answer the pending action fails the run.
pub open spec fn mismatch(post: Driver, a: Action) -> bool {
    post.phase is Failed && a matches Action::Finish { outcome: Outcome::ProtocolError }
}

/// The full-resync walk: work through remaining hashes, then remaining
/// projects, then remaining providers; when all are done, resolve the head
/// commit for the final checkpoint.
pub open spec fn full_advance_rel(
    provider: Seq<char>,
    project: Seq<char>,
    hashes: Seq<Seq<char>>,
    projects: Seq<Seq<char>>,
    providers: Seq<Seq<char>>,
    post: Driver,
    a: Action,
) -> bool {
    if hashes.len() > 0 {
        &&& post.phase matches Phase::AwaitFullContent {
            provider: pv,
            project: pj,
            hash: h,
            rest_hashes: rh,
            rest_projects: rp,
            rest_providers: rv,
        } && pv@ == provider && pj@ == project && h@ == hashes[0] && views_of(rh@)
            == hashes.drop_first() && views_of(rp@) == projects && views_of(rv@) == providers
        &&& a matches Action::FetchContent { hash: ah, refname: ar } && ah@ == hashes[0] && ar@
            == tracked_ref()
    } else if projects.len() > 0 {
        &&& post.phase matches Phase::AwaitHashes {
            provider: pv,
            project: pj,
            rest_projects: rp,
            rest_providers: rv,
        } && pv@ == provider && pj@ == projects[0] && views_of(rp@) == projects.drop_first()
            && views_of(rv@) == providers
        &&& a matches Action::ListHashes { provider: av, project: aj } && av@ == provider && aj@
            == projects[0]
    } else if providers.len() > 0 {
        &&& post.phase matches Phase::AwaitProjects { provider: pv, rest_providers: rv } && pv@
            == providers[0] && views_of(rv@) == providers.drop_first()
        &&& a matches Action::ListProjects { provider: av } && av@ == providers[0]
    } else {
        post.phase is AwaitLatestCommit && a is FetchLatestCommit
    }
}

/// Drops the leading records whose provider is not this host: they are
/// skipped before any content is fetched for them.
pub open spec fn skip_foreign(hostname: Seq<char>, pending: Seq<RecordModel>) -> Seq<RecordModel>
    decreases pending.len(),
{
    if pending.len() == 0 {
        pending
    } else if pending[0].provider != hostname {
        skip_foreign(hostname, pending.drop_first())
    } else {
        pending
    }
}

/// The incremental walk: skip records addressed to other hosts, fetch
/// content for the first remaining record; when none remain, persist the
/// head resolved at the start of the run.
pub open spec fn records_advance_rel(
    hostname: Seq<char>,
    base: Seq<char>,
    head: Seq<char>,
    pending: Seq<RecordModel>,
    post: Driver,
    a: Action,
) -> bool {
    let rest = skip_foreign(hostname, pending);
    if rest.len() == 0 {
        &&& post.phase matches Phase::AwaitSave { head: h } && h@ == head
        &&& a matches Action::SaveCheckpoint { commit } && commit@ == head
    } else {
        &&& post.phase matches Phase::AwaitContent { base: b, head: h, current, pending: rem }
            && b@ == base && h@ == head && current@ == rest[0] && models_of(rem@)
            == rest.drop_first()
        &&& a matches Action::FetchContent { hash, refname } && hash@ == rest[0].hash
            && refname@ == ref_for_kind_spec(rest[0].kind, base)
    }
}

/// What one incremental record demands once its content is known (the
/// record has already passed the host filter): records without content and
/// the modified kinds are skipped; the others map to their identity
/// operation.
pub open spec fn content_decision_rel(
    hostname: Seq<char>,
    base: Seq<char>,
    head: Seq<char>,
    current: RecordModel,
    pending: Seq<RecordModel>,
    content: Option<Seq<char>>,
    post: Driver,
    a: Action,
) -> bool {
    match content {
        None => records_advance_rel(hostname, base, head, pending, post, a),
        Some(user) => {
            if current.kind == ChangeKind::Added || current.kind == ChangeKind::UserAdded {
                &&& post.phase matches Phase::AwaitApply { base: b, head: h, pending: rest } && b@
                    == base && h@ == head && models_of(rest@) == pending
                &&& a matches Action::ApplyAddToGroup { user: u, group: g } && u@ == user && g@
                    == current.project
            } else if current.kind == ChangeKind::Deleted {
                &&& post.phase matches Phase::AwaitApply { base: b, head: h, pending: rest } && b@
                    == base && h@ == head && models_of(rest@) == pending
                &&& a matches Action::ApplyRemoveFromGroup { user: u, group: g } && u@ == user && g@
                    == current.project
            } else if current.kind == ChangeKind::UserDeleted {
                &&& post.phase matches Phase::AwaitApply { base: b, head: h, pending: rest } && b@
                    == base && h@ == head && models_of(rest@) == pending
                &&& a matches Action::ApplyDeleteUser { user: u } && u@ == user
            } else {
                records_advance_rel(hostname, base, head, pending, post, a)
            }
        },
    }
}

/// The transition relation of the driver: what `step` guarantees of the
/// next phase and the action it hands back, for every phase and event.
pub open spec fn step_ok(pre: Driver, e: Event, post: Driver, a: Action) -> bool {
    match pre.phase {
        Phase::Start => match e {
            Event::CheckpointLoaded { value } => match normalized_checkpoint(value.deep_view()) {
                None => post.phase is AwaitProviders && a is ListProviders,
                Some(base) => post.phase matches Phase::AwaitHead { base: b } && b@ == base
                    && a is FetchHead,
            },
            _ => mismatch(post, a),
        },
        Phase::AwaitProviders => match e {
            Event::ProvidersListed { result } => match result {
                Ok(prs) => full_advance_rel(
                    Seq::empty(),
                    Seq::empty(),
                    Seq::empty(),
                    Seq::empty(),
                    views_of(prs@),
                    post,
                    a,
                ),
                Err(_) => post.phase is Failed && a matches Action::Finish {
                    outcome: Outcome::TransportFailure,
                },
            },
            _ => mismatch(post, a),
        },
        Phase::AwaitProjects { provider, rest_providers } => match e {
            Event::ProjectsListed { result } => match result {
                Ok(pjs) => full_advance_rel(
                    provider@,
                    Seq::empty(),
                    Seq::empty(),
                    views_of(pjs@),
                    views_of(rest_providers@),
                    post,
                    a,
                ),
                Err(_) => post.phase is Failed && a matches Action::Finish {
                    outcome: Outcome::TransportFailure,
                },
            },
            _ => mismatch(post, a),
        },
        Phase::AwaitHashes { provider, project, rest_projects, rest_providers } => match e {
            Event::HashesListed { result } => match result {
                Ok(Some(hs)) => full_advance_rel(
                    provider@,
                    project@,
                    views_of(hs@),
                    views_of(rest_projects@),
                    views_of(rest_providers@),
                    post,
                    a,
                ),
                Ok(None) => full_advance_rel(
                    provider@,
                    project@,
                    Seq::empty(),
                    views_of(rest_projects@),
                    views_of(rest_providers@),
                    post,
                    a,
                ),
                Err(_) => post.phase is Failed && a matches Action::Finish {
                    outcome: Outcome::TransportFailure,
                },
            },
            _ => mismatch(post, a),
        },
        Phase::AwaitFullContent {
            provider,
            project,
            hash,
            rest_hashes,
            rest_projects,
            rest_providers,
        } => match e {
            Event::ContentFetched { result } => match result {
                Ok(Some(user)) => {
                    &&& post.phase matches Phase::AwaitFullApply {
                        provider: pv,
                        project: pj,
                        rest_hashes: rh,
                        rest_projects: rp,
                        rest_providers: rv,
                    } && pv@ == provider@ && pj@ == project@ && views_of(rh@) == views_of(
                        rest_hashes@,
                    ) && views_of(rp@) == views_of(rest_projects@) && views_of(rv@) == views_of(
                        rest_providers@,
                    )
                    &&& a matches Action::ApplyAddToGroup { user: u, group: g } && u@ == user@ && g@
                        == project@
                },
                Ok(None) => full_advance_rel(
                    provider@,
                    project@,
                    views_of(rest_hashes@),
                    views_of(rest_projects@),
                    views_of(rest_providers@),
                    post,
                    a,
                ),
                Err(FetchError::Transport) => post.phase is Failed && a matches Action::Finish {
                    outcome: Outcome::TransportFailure,
                },
                Err(FetchError::Decode(_)) => post.phase is Failed && a matches Action::Finish {
                    outcome: Outcome::DecodeFailure,
                },
            },
            _ => mismatch(post, a),
        },
        Phase::AwaitFullApply { provider, project, rest_hashes, rest_projects, rest_providers } => match e {
            Event::Applied { .. } => full_advance_rel(
                provider@,
                project@,
                views_of(rest_hashes@),
                views_of(rest_projects@),
                views_of(rest_providers@),
                post,
                a,
            ),
            _ => mismatch(post, a),
        },
        Phase::AwaitLatestCommit => match e {
            Event::LatestCommitFetched { result } => match result {
                Ok(sha) => {
                    &&& post.phase matches Phase::AwaitSave { head: h } && h@ == sha@
                    &&& a matches Action::SaveCheckpoint { commit } && commit@ == sha@
                },
                Err(_) => post.phase is Failed && a matches Action::Finish {
                    outcome: Outcome::TransportFailure,
                },
            },
            _ => mismatch(post, a),
        },
        Phase::AwaitHead { base } => match e {
            Event::HeadFetched { result } => match result {
                Ok(head) => {
                    &&& post.phase matches Phase::AwaitDiff { base: b, head: h } && b@ == base@
                        && h@ == head@
                    &&& a matches Action::FetchDiff { base: ab, head: ah } && ab@ == base@ && ah@
                        == head@
                },
                Err(_) => post.phase is Failed && a matches Action::Finish {
                    outcome: Outcome::TransportFailure,
                },
            },
            _ => mismatch(post, a),
        },
        Phase::AwaitDiff { base, head } => match e {
            Event::DiffFetched { result } => match result {
                Ok(text) => records_advance_rel(pre.hostname@, base@, head@, parsed_records(text@), post, a),
                Err(_) => post.phase is Failed && a matches Action::Finish {
                    outcome: Outcome::TransportFailure,
                },
            },
            _ => mismatch(post, a),
        },
        Phase::AwaitContent { base, head, current, pending } => match e {
            Event::ContentFetched { result } => match result {
                Ok(content) => content_decision_rel(
                    pre.hostname@,
                    base@,
                    head@,
                    current@,
                    models_of(pending@),
                    content.deep_view(),
                    post,
                    a,
                ),
                Err(FetchError::Transport) => post.phase is Failed && a matches Action::Finish {
                    outcome: Outcome::TransportFailure,
                },
                Err(FetchError::Decode(_)) => post.phase is Failed && a matches Action::Finish {
                    outcome: Outcome::DecodeFailure,
                },
            },
            _ => mismatch(post, a),
        },
        Phase::AwaitApply { base, head, pending } => match e {
            Event::Applied { .. } => records_advance_rel(pre.hostname@, base@, head@, models_of(pending@), post, a),
            _ => mismatch(post, a),
        },
        Phase::AwaitSave { .. } => match e {
            Event::CheckpointSaved { ok } => if ok {
                post.phase is Done && a matches Action::Finish { outcome: Outcome::Success }
            } else {
                post.phase is Failed && a matches Action::Finish { outcome: Outcome::StoreFailure }
            },
            _ => mismatch(post, a),
        },
        Phase::Done => mismatch(post, a),
        Phase::Failed => mismatch(post, a),
    }
}

proof fn lemma_views_remove0(ss: Seq<String>)
    requires
        ss.len() > 0,
    ensures
        views_of(ss.remove(0)) == views_of(ss).drop_first(),
        views_of(ss)[0] == ss[0]@,
{
    assert(views_of(ss.remove(0)) =~= views_of(ss).drop_first());
}

proof fn lemma_models_remove0(rs: Seq<ChangeRecord>)
    requires
        rs.len() > 0,
    ensures
        models_of(rs.remove(0)) == models_of(rs).drop_first(),
        models_of(rs)[0] == rs[0]@,
{
    assert(models_of(rs.remove(0)) =~= models_of(rs).drop_first());
}

proof fn lemma_views_empty()
    ensures
        views_of(Seq::<String>::empty()) == Seq::<Seq<char>>::empty(),
{
    assert(views_of(Seq::<String>::empty()) =~= Seq::<Seq<char>>::empty());
}

fn full_advance(
    hostname: String,
    provider: String,
    project: String,
    hashes: Vec<String>,
    projects: Vec<String>,
    providers: Vec<String>,
) -> (r: (Driver, Action))
    ensures
        full_advance_rel(
            provider@,
            project@,
            views_of(hashes@),
            views_of(projects@),
            views_of(providers@),
            r.0,
            r.1,
        ),
        r.0.hostname@ == hostname@,
{
    let mut hashes = hashes;
    let mut projects = projects;
    let mut providers = providers;
    if hashes.len() > 0 {
        proof {
            lemma_views_remove0(hashes@);
        }
        let h = hashes.remove(0);
        let ah = h.clone();
        let d = Driver {
            hostname,
            phase: Phase::AwaitFullContent {
                provider,
                project,
                hash: h,
                rest_hashes: hashes,
                rest_projects: projects,
                rest_providers: providers,
            },
        };
        (d, Action::FetchContent { hash: ah, refname: "build".to_owned() })
    } else if projects.len() > 0 {
        proof {
            lemma_views_remove0(projects@);
        }
        let p = projects.remove(0);
        let av = provider.clone();
        let aj = p.clone();
        let d = Driver {
            hostname,
            phase: Phase::AwaitHashes {
                provider,
                project: p,
                rest_projects: projects,
                rest_providers: providers,
            },
        };
        (d, Action::ListHashes { provider: av, project: aj })
    } else if providers.len() > 0 {
        proof {
            lemma_views_remove0(providers@);
        }
        let pr = providers.remove(0);
        let av = pr.clone();
        let d = Driver {
            hostname,
            phase: Phase::AwaitProjects { provider: pr, rest_providers: providers },
        };
        (d, Action::ListProjects { provider: av })
    } else {
        (Driver { hostname, phase: Phase::AwaitLatestCommit }, Action::FetchLatestCommit)
    }
}

#[verifier::loop_isolation(false)]
fn records_advance(hostname: String, base: String, head: String, pending: Vec<ChangeRecord>) -> (r:
    (Driver, Action))
    ensures
        records_advance_rel(hostname@, base@, head@, models_of(pending@), r.0, r.1),
        r.0.hostname@ == hostname@,
{
    let mut pending = pending;
    let ghost all = models_of(pending@);
    loop
        invariant
            skip_foreign(hostname@, models_of(pending@)) == skip_foreign(hostname@, all),
        decreases pending@.len(),
    {
        if pending.len() == 0 {
            break;
        }
        if pending[0].provider == hostname {
            break;
        }
        proof {
            lemma_models_remove0(pending@);
        }
        pending.remove(0);
    }
    if pending.len() == 0 {
        let commit = head.clone();
        (Driver { hostname, phase: Phase::AwaitSave { head } }, Action::SaveCheckpoint { commit })
    } else {
        proof {
            assert(skip_foreign(hostname@, models_of(pending@)) == models_of(pending@));
            lemma_models_remove0(pending@);
        }
        let current = pending.remove(0);
        let refname = ref_for_kind(current.kind, base.as_str());
        let hash = current.hash.clone();
        let d = Driver {
            hostname,
            phase: Phase::AwaitContent { base, head, current, pending },
        };
        (d, Action::FetchContent { hash, refname })
    }
}

impl Driver {
    /// A fresh run for the host named `hostname`.  The first event to feed
    /// is the loaded checkpoint.
    pub fn new(hostname: String) -> (r: Driver)
        ensures
            r.phase is Start,
            r.hostname@ == hostname@,
    {
        Driver { hostname, phase: Phase::Start }
    }

    /// Consumes the outcome of the previous action and decides the next
    /// one, exactly as [`step_ok`] states.
    pub fn step(self, event: Event) -> (r: (Driver, Action))
        ensures
            step_ok(self, event, r.0, r.1),
            r.0.hostname@ == self.hostname@,
    {
        let Driver { hostname, phase } = self;
        match (phase, event) {
            (Phase::Start, Event::CheckpointLoaded { value }) => {
                match normalize_checkpoint(value) {
                    None => (
                        Driver { hostname, phase: Phase::AwaitProviders },
                        Action::ListProviders,
                    ),
                    Some(base) => (
                        Driver { hostname, phase: Phase::AwaitHead { base } },
                        Action::FetchHead,
                    ),
                }
            },
            (Phase::AwaitProviders, Event::ProvidersListed { result }) => {
                match result {
                    Ok(prs) => {
                        proof {
                            lemma_views_empty();
                        }
                        full_advance(
                            hostname,
                            String::new(),
                            String::new(),
                            Vec::new(),
                            Vec::new(),
                            prs,
                        )
                    },
                    Err(_) => (
                        Driver { hostname, phase: Phase::Failed },
                        Action::Finish { outcome: Outcome::TransportFailure },
                    ),
                }
            },
            (Phase::AwaitProjects { provider, rest_providers }, Event::ProjectsListed { result }) => {
                match result {
                    Ok(pjs) => {
                        proof {
                            lemma_views_empty();
                        }
                        full_advance(hostname, provider, String::new(), Vec::new(), pjs, rest_providers)
                    },
                    Err(_) => (
                        Driver { hostname, phase: Phase::Failed },
                        Action::Finish { outcome: Outcome::TransportFailure },
                    ),
                }
            },
            (
                Phase::AwaitHashes { provider, project, rest_projects, rest_providers },
                Event::HashesListed { result },
            ) => {
                match result {
                    Ok(Some(hs)) => full_advance(
                        hostname,
                        provider,
                        project,
                        hs,
                        rest_projects,
                        rest_providers,
                    ),
                    Ok(None) => {
                        proof {
                            lemma_views_empty();
                        }
                        full_advance(
                            hostname,
                            provider,
                            project,
                            Vec::new(),
                            rest_projects,
                            rest_providers,
                        )
                    },
                    Err(_) => (
                        Driver { hostname, phase: Phase::Failed },
                        Action::Finish { outcome: Outcome::TransportFailure },
                    ),
                }
            },
            (
                Phase::AwaitFullContent {
                    provider,
                    project,
                    hash: _,
                    rest_hashes,
                    rest_projects,
                    rest_providers,
                },
                Event::ContentFetched { result },
            ) => {
                match result {
                    Ok(Some(user)) => {
                        let group = project.clone();
                        let d = Driver {
                            hostname,
                            phase: Phase::AwaitFullApply {
                                provider,
                                project,
                                rest_hashes,
                                rest_projects,
                                rest_providers,
                            },
                        };
                        (d, Action::ApplyAddToGroup { user, group })
                    },
                    Ok(None) => full_advance(
                        hostname,
                        provider,
                        project,
                        rest_hashes,
                        rest_projects,
                        rest_providers,
                    ),
                    Err(FetchError::Transport) => (
                        Driver { hostname, phase: Phase::Failed },
                        Action::Finish { outcome: Outcome::TransportFailure },
                    ),
                    Err(FetchError::Decode(_)) => (
                        Driver { hostname, phase: Phase::Failed },
                        Action::Finish { outcome: Outcome::DecodeFailure },
                    ),
                }
            },
            (
                Phase::AwaitFullApply { provider, project, rest_hashes, rest_projects, rest_providers },
                Event::Applied { .. },
            ) => {
                full_advance(hostname, provider, project, rest_hashes, rest_projects, rest_providers)
            },
            (Phase::AwaitLatestCommit, Event::LatestCommitFetched { result }) => {
                match result {
                    Ok(sha) => {
                        let commit = sha.clone();
                        (
                            Driver { hostname, phase: Phase::AwaitSave { head: sha } },
                            Action::SaveCheckpoint { commit },
                        )
                    },
                    Err(_) => (
                        Driver { hostname, phase: Phase::Failed },
                        Action::Finish { outcome: Outcome::TransportFailure },
                    ),
                }
            },
            (Phase::AwaitHead { base }, Event::HeadFetched { result }) => {
                match result {
                    Ok(head) => {
                        let ab = base.clone();
                        let ah = head.clone();
                        (
                            Driver { hostname, phase: Phase::AwaitDiff { base, head } },
                            Action::FetchDiff { base: ab, head: ah },
                        )
                    },
                    Err(_) => (
                        Driver { hostname, phase: Phase::Failed },
                        Action::Finish { outcome: Outcome::TransportFailure },
                    ),
                }
            },
            (Phase::AwaitDiff { base, head }, Event::DiffFetched { result }) => {
                match result {
                    Ok(text) => {
                        let records = extract_diff_parts(text.as_str());
                        records_advance(hostname, base, head, records)
                    },
                    Err(_) => (
                        Driver { hostname, phase: Phase::Failed },
                        Action::Finish { outcome: Outcome::TransportFailure },
                    ),
                }
            },
            (
                Phase::AwaitContent { base, head, current, pending },
                Event::ContentFetched { result },
            ) => {
                match result {
                    Ok(Some(user)) => {
                        match current.kind {
                            ChangeKind::Added | ChangeKind::UserAdded => {
                                let group = current.project.clone();
                                let d = Driver {
                                    hostname,
                                    phase: Phase::AwaitApply { base, head, pending },
                                };
                                (d, Action::ApplyAddToGroup { user, group })
                            },
                            ChangeKind::Deleted => {
                                let group = current.project.clone();
                                let d = Driver {
                                    hostname,
                                    phase: Phase::AwaitApply { base, head, pending },
                                };
                                (d, Action::ApplyRemoveFromGroup { user, group })
                            },
                            ChangeKind::UserDeleted => {
                                let d = Driver {
                                    hostname,
                                    phase: Phase::AwaitApply { base, head, pending },
                                };
                                (d, Action::ApplyDeleteUser { user })
                            },
                            _ => records_advance(hostname, base, head, pending),
                        }
                    },
                    Ok(None) => records_advance(hostname, base, head, pending),
                    Err(FetchError::Transport) => (
                        Driver { hostname, phase: Phase::Failed },
                        Action::Finish { outcome: Outcome::TransportFailure },
                    ),
                    Err(FetchError::Decode(_)) => (
                        Driver { hostname, phase: Phase::Failed },
                        Action::Finish { outcome: Outcome::DecodeFailure },
                    ),
                }
            },
            (Phase::AwaitApply { base, head, pending }, Event::Applied { .. }) => {
                records_advance(hostname, base, head, pending)
            },
            (Phase::AwaitSave { head: _ }, Event::CheckpointSaved { ok }) => {
                if ok {
                    (Driver { hostname, phase: Phase::Done }, Action::Finish {
                        outcome: Outcome::Success,
                    })
                } else {
                    (Driver { hostname, phase: Phase::Failed }, Action::Finish {
                        outcome: Outcome::StoreFailure,
                    })
                }
            },
            (_, _) => (
                Driver { hostname, phase: Phase::Failed },
                Action::Finish { outcome: Outcome::ProtocolError },
            ),
        }
    }
}

/// The head commit of a fetched commit listing: its first entry, or
/// nothing when the listing is empty (which aborts the run).
pub fn pick_first_commit(shas: &Vec<String>) -> (r: Option<String>)
    ensures
        shas@.len() == 0 ==> r is None,
        shas@.len() > 0 ==> (r matches Some(s) && s@ == shas@[0]@),
{
    if shas.len() == 0 {
        None
    } else {
        Some(shas[0].clone())
    }
}

// ---------------------------------------------------------------------------
// Laws of the driver
// ---------------------------------------------------------------------------

/// Law: a transport failure while fetching the diff fails the run at once:
/// the next phase is `Failed` and the action is a failure `Finish`, never a
/// checkpoint write, so the checkpoint is unchanged across the run.
pub proof fn lemma_diff_transport_failure(pre: Driver, e: Event, post: Driver, a: Action)
    requires
        pre.phase is AwaitDiff,
        e matches Event::DiffFetched { result: Err(_) },
        step_ok(pre, e, post, a),
    ensures
        post.phase is Failed,
        !(a matches Action::SaveCheckpoint { .. }),
        a matches Action::Finish { outcome: Outcome::TransportFailure },
{
}

/// Law: a transport failure while resolving the head commit of an
/// incremental run likewise fails the run without a checkpoint write.
pub proof fn lemma_head_transport_failure(pre: Driver, e: Event, post: Driver, a: Action)
    requires
        pre.phase is AwaitHead,
        e matches Event::HeadFetched { result: Err(_) },
        step_ok(pre, e, post, a),
    ensures
        post.phase is Failed,
        !(a matches Action::SaveCheckpoint { .. }),
        a matches Action::Finish { outcome: Outcome::TransportFailure },
{
}

proof fn lemma_skip_all_foreign(hostname: Seq<char>, pending: Seq<RecordModel>)
    requires
        forall|i: int| 0 <= i < pending.len() ==> (#[trigger] pending[i]).provider != hostname,
    ensures
        skip_foreign(hostname, pending).len() == 0,
    decreases pending.len(),
{
    if pending.len() > 0 {
        assert(forall|i: int| 0 <= i < pending.drop_first().len()
            ==> (#[trigger] pending.drop_first()[i]).provider != hostname);
        lemma_skip_all_foreign(hostname, pending.drop_first());
    }
}

/// Law: when every pending record is addressed to another host, the driver
/// fetches no content and applies nothing: it goes straight to persisting
/// the head, so the checkpoint still advances.
pub proof fn lemma_foreign_records_make_no_calls(
    hostname: Seq<char>,
    base: Seq<char>,
    head: Seq<char>,
    pending: Seq<RecordModel>,
    post: Driver,
    a: Action,
)
    requires
        forall|i: int| 0 <= i < pending.len() ==> (#[trigger] pending[i]).provider != hostname,
        records_advance_rel(hostname, base, head, pending, post, a),
    ensures
        post.phase is AwaitSave,
        a matches Action::SaveCheckpoint { commit } && commit@ == head,
{
    lemma_skip_all_foreign(hostname, pending);
}

/// Law: the full-resync walk only grants: no step taken from any of its
/// phases asks for a membership removal or a user deletion.
pub proof fn lemma_full_resync_only_adds(pre: Driver, e: Event, post: Driver, a: Action)
    requires
        pre.phase is AwaitProviders || pre.phase is AwaitProjects || pre.phase is AwaitHashes
            || pre.phase is AwaitFullContent || pre.phase is AwaitFullApply
            || pre.phase is AwaitLatestCommit,
        step_ok(pre, e, post, a),
    ensures
        !(a matches Action::ApplyRemoveFromGroup { .. }),
        !(a matches Action::ApplyDeleteUser { .. }),
{
}

/// Law: a failed run is terminal: no later event makes it ask for a
/// checkpoint write or leave the `Failed` phase.
pub proof fn lemma_failed_terminal(pre: Driver, e: Event, post: Driver, a: Action)
    requires
        pre.phase is Failed,
        step_ok(pre, e, post, a),
    ensures
        post.phase is Failed,
        !(a matches Action::SaveCheckpoint { .. }),
{
}

} // verus!
