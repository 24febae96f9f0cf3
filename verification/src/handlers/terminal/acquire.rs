//! Getting a lease for a terminal, and giving it back.
//!
//! A terminal of a job runs in a managed checkout that is brought to the head of
//! the job's branch before the shell starts. Where that fails the lease is
//! released again, so that no terminal is left behind on stale source.
use vstd::prelude::*;
use vstd::string::*;
use crate::handlers::terminal::lease::{
    clone_fence, CellState, FenceModel, LeaseFence, LeaseOwner, LeaseState, OwnerModel,
};
use crate::handlers::terminal::resource::{
    CellOwnerRef, OwnerRefModel, TargetModel, TerminalOwner, TerminalResourceTarget,
};
use crate::scan::{trim, trimmed};
use crate::text::{clone_opt, opt_text, same_text, string_from_utf8_lossy, text2, text3, utf8_lossy};

verus! {

/// How long an executor may take to grant a lease, in milliseconds.
pub const ACQUIRE_DEADLINE_MS: u64 = 30_000;

/// The memory that a terminal reserves.
pub const MEMORY_BYTES: u64 = 67_108_864;

/// The disk that a terminal in a checkout of its own reserves.
pub const DISK_GROWTH_BYTES: u64 = 1_073_741_824;

/// What the version control says of the head that a terminal starts from.
#[derive(Debug)]
pub enum HeadAnswer {
    /// The lookup itself broke down.
    Broken(String),
    /// The commit of the job's branch.
    Branch(Option<String>),
    /// The program that names the commit of the checkout could not be run.
    NotRun(String),
    /// What that program printed.
    Printed { success: bool, stdout: Vec<u8>, stderr: Vec<u8> },
}

/// The repository that a lease is for.
#[derive(Debug)]
pub enum Repository {
    /// A checkout is made from the repository at this path.
    Colocated { project_id: String, repository_id: String, absolute_path: String },
    /// The checkout at this path is used as it is.
    Existing { project_id: String, repository_id: String, absolute_path: String },
}

/// How urgent a request for a cell is.
#[derive(Clone, Copy, Debug, PartialEq, Eq, Structural)]
pub enum CellPriority {
    /// Someone waits for it at work.
    AgentInteractive,
}

/// Where the numbers of a reservation come from.
#[derive(Clone, Copy, Debug, PartialEq, Eq, Structural)]
pub enum ReservationSource {
    /// The request names them.
    Declared,
}

/// What a lease is asked for.
#[derive(Debug)]
pub struct LeaseRequest {
    pub lease_id: String,
    pub owner: LeaseOwner,
    pub owner_ref: Option<CellOwnerRef>,
    pub name: String,
    pub purpose: String,
    pub repository: Repository,
    pub initial_base_commit: String,
    pub memory_bytes: u64,
    pub disk_growth_bytes: u64,
    pub concurrency_units: u32,
    pub reservation_source: ReservationSource,
    pub heartbeat_timeout_ms: u64,
    pub reclaim_grace_ms: u64,
    pub priority: CellPriority,
    pub deadline_unix_ms: u64,
}

/// What a request says.
#[verifier::ext_equal]
pub struct RequestModel {
    pub lease_id: Seq<char>,
    pub owner: OwnerModel,
    pub owner_ref: Option<OwnerRefModel>,
    pub name: Seq<char>,
    pub purpose: Seq<char>,
    /// Whether the checkout is used as it is, and its project and path.
    pub existing: bool,
    pub project_id: Seq<char>,
    pub repository_id: Seq<char>,
    pub absolute_path: Seq<char>,
    pub initial_base_commit: Seq<char>,
    pub memory_bytes: u64,
    pub disk_growth_bytes: u64,
    pub concurrency_units: u32,
    pub reservation_source: ReservationSource,
    pub heartbeat_timeout_ms: u64,
    pub reclaim_grace_ms: u64,
    pub priority: CellPriority,
    pub deadline_unix_ms: u64,
}

impl Repository {
    /// Whether the checkout is used as it is.
    pub open spec fn existing(self) -> bool {
        self is Existing
    }

    /// The project of the repository.
    pub open spec fn project(self) -> Seq<char> {
        match self {
            Repository::Colocated { project_id, .. } => project_id@,
            Repository::Existing { project_id, .. } => project_id@,
        }
    }

    /// The name of the repository.
    pub open spec fn repository(self) -> Seq<char> {
        match self {
            Repository::Colocated { repository_id, .. } => repository_id@,
            Repository::Existing { repository_id, .. } => repository_id@,
        }
    }

    /// Where the repository is.
    pub open spec fn path(self) -> Seq<char> {
        match self {
            Repository::Colocated { absolute_path, .. } => absolute_path@,
            Repository::Existing { absolute_path, .. } => absolute_path@,
        }
    }
}

impl View for LeaseRequest {
    type V = RequestModel;

    open spec fn view(&self) -> RequestModel {
        RequestModel {
            lease_id: self.lease_id@,
            owner: self.owner@,
            owner_ref: match self.owner_ref {
                Some(owner) => Some(owner@),
                None => None,
            },
            name: self.name@,
            purpose: self.purpose@,
            existing: self.repository.existing(),
            project_id: self.repository.project(),
            repository_id: self.repository.repository(),
            absolute_path: self.repository.path(),
            initial_base_commit: self.initial_base_commit@,
            memory_bytes: self.memory_bytes,
            disk_growth_bytes: self.disk_growth_bytes,
            concurrency_units: self.concurrency_units,
            reservation_source: self.reservation_source,
            heartbeat_timeout_ms: self.heartbeat_timeout_ms,
            reclaim_grace_ms: self.reclaim_grace_ms,
            priority: self.priority,
            deadline_unix_ms: self.deadline_unix_ms,
        }
    }
}

/// Why a branch has no head to start from.
pub open spec fn no_head(branch: Seq<char>) -> Seq<char> {
    "agent terminal branch `"@ + branch + "` does not resolve to a committed head"@
}

/// Renders why a branch has no head to start from.
fn render_no_head(branch: &str) -> (error: String)
    ensures
        error@ == no_head(branch@),
{
    text3("agent terminal branch `", branch, "` does not resolve to a committed head")
}

/// The commit that a terminal starts from, or why there is none. A job's branch
/// decides where there is one, else the checkout's head. An answer to the other
/// question is a broken lookup.
pub open spec fn base_commit(branch: Option<Seq<char>>, head: HeadAnswer) -> Result<
    Seq<char>,
    Seq<char>,
> {
    match (branch, head) {
        (_, HeadAnswer::Broken(error)) => Err(
            "terminal VCS resolution task failed: "@ + error@,
        ),
        (Some(name), HeadAnswer::Branch(commit)) => match commit {
            Some(found) => Ok(found@),
            None => Err(no_head(name)),
        },
        (None, HeadAnswer::NotRun(error)) => Err("resolve project checkout head: "@ + error@),
        (None, HeadAnswer::Printed { success, stdout, stderr }) => if success {
            Ok(trimmed(utf8_lossy(stdout@)))
        } else {
            Err("resolve project checkout head: "@ + trimmed(utf8_lossy(stderr@)))
        },
        (Some(name), _) => Err(no_head(name)),
        (None, HeadAnswer::Branch(_)) => Err("resolve project checkout head: "@),
    }
}

/// The commit that a terminal starts from, or why there is none.
pub fn terminal_base_commit(branch: &Option<String>, head: HeadAnswer) -> (commit: Result<
    String,
    String,
>)
    ensures
        match (commit, base_commit(opt_text(*branch), head)) {
            (Ok(found), Ok(model)) => found@ == model,
            (Err(error), Err(reason)) => error@ == reason,
            _ => false,
        },
{
    match (branch, head) {
        (_, HeadAnswer::Broken(error)) => Err(
            text2("terminal VCS resolution task failed: ", error.as_str()),
        ),
        (Some(name), HeadAnswer::Branch(commit)) => match commit {
            Some(found) => Ok(found),
            None => Err(render_no_head(name.as_str())),
        },
        (None, HeadAnswer::NotRun(error)) => Err(
            text2("resolve project checkout head: ", error.as_str()),
        ),
        (None, HeadAnswer::Printed { success, stdout, stderr }) => {
            if success {
                let text = string_from_utf8_lossy(stdout.as_slice());
                Ok(trim(text.as_str()))
            } else {
                let text = string_from_utf8_lossy(stderr.as_slice());
                let said = trim(text.as_str());
                Err(text2("resolve project checkout head: ", said.as_str()))
            }
        },
        (Some(name), _) => Err(render_no_head(name.as_str())),
        (None, HeadAnswer::Branch(_)) => Err("resolve project checkout head: ".to_owned()),
    }
}

/// Whether this is the commit that the branch of a target is at.
pub open spec fn is_tip(
    target: &TerminalResourceTarget,
    commit: Result<Option<String>, String>,
    tip: Result<Option<String>, String>,
) -> bool {
    match target.branch {
        None => tip == Ok::<Option<String>, String>(None),
        Some(branch) => match commit {
            Err(error) => tip matches Err(reason) && reason@
                == "terminal branch resolution task failed: "@ + error@,
            Ok(None) => tip matches Err(reason) && reason@ == no_head(branch@),
            Ok(Some(found)) => tip == Ok::<Option<String>, String>(Some(found)),
        },
    }
}

/// The current head of a job terminal's branch. A terminal without a branch runs
/// in the live checkout and has none to be brought to.
pub fn resolve_job_terminal_tip(
    target: &TerminalResourceTarget,
    commit: Result<Option<String>, String>,
) -> (tip: Result<Option<String>, String>)
    ensures
        is_tip(target, commit, tip),
{
    match &target.branch {
        None => Ok(None),
        Some(branch) => match commit {
            Err(error) => Err(text2("terminal branch resolution task failed: ", error.as_str())),
            Ok(None) => Err(render_no_head(branch.as_str())),
            Ok(Some(found)) => Ok(Some(found)),
        },
    }
}

/// The owner of a target's terminals: its job, or else its project.
pub open spec fn owner_of(target: TargetModel) -> Seq<char> {
    match target.job_id {
        Some(job) => job,
        None => target.project_id,
    }
}

/// The lease under which the terminals of an owner run.
pub open spec fn lease_of(target: TargetModel) -> Seq<char> {
    "terminal:"@ + owner_of(target)
}

/// What a lease for a target's terminals is asked for. All terminals of one owner
/// share a lease. Only a terminal without a branch uses the checkout as it is, and
/// then no disk is reserved.
pub open spec fn lease_request(
    target: TargetModel,
    commit: Seq<char>,
    heartbeat_timeout_ms: u64,
    reclaim_grace_ms: u64,
    now_ms: u64,
) -> RequestModel {
    RequestModel {
        lease_id: lease_of(target),
        owner: OwnerModel { kind: "terminal"@, owner_id: owner_of(target) },
        owner_ref: target.owner_ref,
        name: "terminals"@,
        purpose: if target.branch is Some || target.job_id is Some {
            "agent terminals"@
        } else {
            "project terminals"@
        },
        existing: target.branch is None,
        project_id: target.project_id,
        repository_id: target.project_id,
        absolute_path: target.repo_path,
        initial_base_commit: commit,
        memory_bytes: MEMORY_BYTES,
        disk_growth_bytes: if target.branch is None {
            0
        } else {
            DISK_GROWTH_BYTES
        },
        concurrency_units: 1,
        reservation_source: ReservationSource::Declared,
        heartbeat_timeout_ms,
        reclaim_grace_ms,
        priority: CellPriority::AgentInteractive,
        deadline_unix_ms: (now_ms + ACQUIRE_DEADLINE_MS) as u64,
    }
}

/// A copy of an optional owner reference.
fn clone_owner_ref(owner: &Option<CellOwnerRef>) -> (copy: Option<CellOwnerRef>)
    ensures
        match (*owner, copy) {
            (Some(from), Some(to)) => to@ == from@,
            (None, None) => true,
            _ => false,
        },
{
    match owner {
        None => None,
        Some(found) => Some(
            CellOwnerRef {
                project_id: found.project_id.clone(),
                project_key: clone_opt(&found.project_key),
                issue_number: found.issue_number,
                job_id: clone_opt(&found.job_id),
                execution_seq: found.execution_seq,
                node_kind: clone_opt(&found.node_kind),
            },
        ),
    }
}

/// A copy of a target.
pub fn clone_target(target: &TerminalResourceTarget) -> (copy: TerminalResourceTarget)
    ensures
        copy@ == target@,
{
    let lease = match &target.lease {
        Some(fence) => Some(clone_fence(fence)),
        None => None,
    };
    TerminalResourceTarget {
        slug: target.slug.clone(),
        job_id: clone_opt(&target.job_id),
        project_id: target.project_id.clone(),
        run_id: clone_opt(&target.run_id),
        cwd: target.cwd.clone(),
        branch: clone_opt(&target.branch),
        repo_path: target.repo_path.clone(),
        owner_ref: clone_owner_ref(&target.owner_ref),
        lease,
    }
}

/// What to ask a lease for, for the terminals of a target, or why no commit to
/// start from is known.
pub fn terminal_lease_acquisition(
    target: &TerminalResourceTarget,
    head: HeadAnswer,
    heartbeat_timeout_ms: u64,
    reclaim_grace_ms: u64,
    now_ms: u64,
) -> (request: Result<LeaseRequest, String>)
    requires
        now_ms + ACQUIRE_DEADLINE_MS <= u64::MAX,
    ensures
        match (request, base_commit(opt_text(target.branch), head)) {
            (Ok(asked), Ok(commit)) => asked@ == lease_request(
                target@,
                commit,
                heartbeat_timeout_ms,
                reclaim_grace_ms,
                now_ms,
            ),
            (Err(error), Err(reason)) => error@ == reason,
            _ => false,
        },
{
    let commit = match terminal_base_commit(&target.branch, head) {
        Ok(commit) => commit,
        Err(error) => return Err(error),
    };
    let owner_id = match &target.job_id {
        Some(job) => job.clone(),
        None => target.project_id.clone(),
    };
    let purpose = if target.branch.is_some() || target.job_id.is_some() {
        "agent terminals".to_owned()
    } else {
        "project terminals".to_owned()
    };
    let existing = target.branch.is_none();
    let repository = if existing {
        Repository::Existing {
            project_id: target.project_id.clone(),
            repository_id: target.project_id.clone(),
            absolute_path: target.repo_path.clone(),
        }
    } else {
        Repository::Colocated {
            project_id: target.project_id.clone(),
            repository_id: target.project_id.clone(),
            absolute_path: target.repo_path.clone(),
        }
    };
    let disk_growth_bytes: u64 = if existing {
        0
    } else {
        DISK_GROWTH_BYTES
    };
    Ok(
        LeaseRequest {
            lease_id: text2("terminal:", owner_id.as_str()),
            owner: LeaseOwner { kind: "terminal".to_owned(), owner_id },
            owner_ref: clone_owner_ref(&target.owner_ref),
            name: "terminals".to_owned(),
            purpose,
            repository,
            initial_base_commit: commit,
            memory_bytes: MEMORY_BYTES,
            disk_growth_bytes,
            concurrency_units: 1,
            reservation_source: ReservationSource::Declared,
            heartbeat_timeout_ms,
            reclaim_grace_ms,
            priority: CellPriority::AgentInteractive,
            deadline_unix_ms: now_ms + ACQUIRE_DEADLINE_MS,
        },
    )
}

/// What an executor answers to an operation on a lease.
#[derive(Debug)]
pub enum AnswerKind {
    State(CellState),
    Released,
    Other,
}

/// An executor's answer, and how it reads in a message.
#[derive(Debug)]
pub struct LeaseAnswer {
    pub kind: AnswerKind,
    pub shown: String,
}

/// Whether an answer gives this cell.
pub open spec fn is_state(
    answer: LeaseAnswer,
    failure: &str,
    cell: Result<CellState, String>,
) -> bool {
    match answer.kind {
        AnswerKind::State(state) => cell == Ok::<CellState, String>(state),
        _ => cell matches Err(error) && error@ == failure@ + ": "@ + answer.shown@,
    }
}

/// Accepts an answer that gives the state of the cell, or says what failed.
pub fn expect_state(answer: LeaseAnswer, failure: &str) -> (cell: Result<CellState, String>)
    ensures
        is_state(answer, failure, cell),
{
    match answer.kind {
        AnswerKind::State(state) => Ok(state),
        _ => Err(text3(failure, ": ", answer.shown.as_str())),
    }
}

/// Whether a job terminal's checkout was brought to `tip`.
pub fn ensure_terminal_checkout_current(tip: &str, answer: LeaseAnswer) -> (done: Result<
    (),
    String,
>)
    ensures
        match answer.kind {
            AnswerKind::State(_) => done is Ok,
            _ => done matches Err(error) && error@ == "failed to refresh terminal checkout to "@
                + tip@ + ": "@ + answer.shown@,
        },
{
    let failure = text2("failed to refresh terminal checkout to ", tip);
    match expect_state(answer, failure.as_str()) {
        Ok(_) => Ok(()),
        Err(error) => Err(error),
    }
}

/// What comes after a lease was granted.
#[derive(Debug)]
pub enum Materialized {
    /// The target with its lease and directory: the terminal can be started.
    Ready(TerminalResourceTarget),
    /// The checkout must first be brought to `tip`.
    Refresh { target: TerminalResourceTarget, tip: String },
}

/// The target with the lease that was granted for it.
pub open spec fn leased_target(
    target: TargetModel,
    request: RequestModel,
    cell: CellState,
    lease: LeaseState,
) -> TargetModel {
    TargetModel {
        cwd: cell.path@,
        lease: Some(
            FenceModel {
                lease_id: request.lease_id,
                owner: request.owner,
                incarnation_id: lease.incarnation_id@,
                lease_epoch: cell.lease_epoch,
            },
        ),
        ..target
    }
}

/// Whether a target is leased like this.
pub open spec fn materializes(
    target: TerminalResourceTarget,
    request: LeaseRequest,
    answer: LeaseAnswer,
    next: Result<Materialized, String>,
) -> bool {
    match answer.kind {
        AnswerKind::State(cell) => match cell.lease {
            Some(lease) => match next {
                Ok(Materialized::Ready(leased)) => target.branch is None && leased@
                    == leased_target(target@, request@, cell, lease),
                Ok(Materialized::Refresh { target: leased, tip }) => target.branch is Some
                    && leased@ == leased_target(target@, request@, cell, lease) && tip@
                    == request.initial_base_commit@,
                Err(_) => false,
            },
            None => next matches Err(error) && error@
                == "terminal lease acquisition returned no lifetime occupant"@,
        },
        _ => next matches Err(error) && error@ == "failed to acquire terminal lease: "@
            + answer.shown@,
    }
}

/// Takes up the answer to the request for a lease. A terminal of a managed
/// checkout waits until that stands at the commit that was asked for.
pub fn materialize_terminal_lease(
    target: TerminalResourceTarget,
    request: LeaseRequest,
    answer: LeaseAnswer,
) -> (next: Result<Materialized, String>)
    ensures
        materializes(target, request, answer, next),
{
    let cell = match answer.kind {
        AnswerKind::State(cell) => cell,
        _ => {
            return Err(text2("failed to acquire terminal lease: ", answer.shown.as_str()));
        },
    };
    let lease = match cell.lease {
        Some(lease) => lease,
        None => {
            return Err("terminal lease acquisition returned no lifetime occupant".to_owned());
        },
    };
    let mut leased = target;
    let managed = leased.branch.is_some();
    leased.cwd = cell.path;
    leased.lease = Some(
        LeaseFence {
            lease_id: request.lease_id,
            owner: request.owner,
            incarnation_id: lease.incarnation_id,
            lease_epoch: cell.lease_epoch,
        },
    );
    if managed {
        Ok(Materialized::Refresh { target: leased, tip: request.initial_base_commit })
    } else {
        Ok(Materialized::Ready(leased))
    }
}

/// A terminal that must not start: its lease is to be released first.
#[derive(Debug)]
pub struct ReleaseFirst {
    pub fence: Option<LeaseFence>,
    pub error: String,
}

/// Whether a target is ready like this after its checkout was refreshed.
pub open spec fn is_refreshed(
    target: TerminalResourceTarget,
    tip: &str,
    answer: LeaseAnswer,
    ready: Result<TerminalResourceTarget, ReleaseFirst>,
) -> bool {
    match answer.kind {
        AnswerKind::State(_) => ready == Ok::<TerminalResourceTarget, ReleaseFirst>(target),
        _ => ready matches Err(failed) && failed.fence == target.lease && failed.error@
            == "failed to refresh terminal checkout to "@ + tip@ + ": "@ + answer.shown@,
    }
}

/// Takes up the answer to the refresh of a managed checkout: the target is ready,
/// or its fresh lease is released and the failure reported.
pub fn checkout_refreshed(target: TerminalResourceTarget, tip: &str, answer: LeaseAnswer) -> (ready:
    Result<TerminalResourceTarget, ReleaseFirst>)
    ensures
        is_refreshed(target, tip, answer, ready),
{
    match ensure_terminal_checkout_current(tip, answer) {
        Ok(()) => Ok(target),
        Err(error) => Err(ReleaseFirst { fence: target.lease, error }),
    }
}

/// Terminals of different jobs never share a lease, nor do those of different
/// projects outside any job.
pub proof fn law_leases_tell_owners_apart(a: TargetModel, b: TargetModel)
    ensures
        lease_of(a) == lease_of(b) <==> owner_of(a) == owner_of(b),
{
    let prefix = "terminal:"@;
    if lease_of(a) == lease_of(b) {
        assert((prefix + owner_of(a)).skip(prefix.len() as int) =~= owner_of(a));
        assert((prefix + owner_of(b)).skip(prefix.len() as int) =~= owner_of(b));
    }
}

/// The cell that holds a lease in the life that a fence names; with `owned`, only
/// where the fence names its owner too.
pub open spec fn fenced_cell(
    cells: Seq<CellState>,
    fence: FenceModel,
    owned: bool,
    from: int,
) -> Option<CellState>
    decreases cells.len() - from,
{
    if from >= cells.len() {
        None
    } else if cells[from].lease_epoch == fence.lease_epoch && (cells[from].lease matches Some(lease)
        && lease.lease_id@ == fence.lease_id && lease.incarnation_id@ == fence.incarnation_id && (
    owned ==> lease.owner@ == fence.owner)) {
        Some(cells[from])
    } else {
        fenced_cell(cells, fence, owned, from + 1)
    }
}

/// Finds the cell that holds a lease in the life that a fence names.
pub fn find_fenced_cell<'a>(cells: &'a Vec<CellState>, fence: &LeaseFence, owned: bool) -> (cell:
    Option<&'a CellState>)
    ensures
        match cell {
            Some(found) => fenced_cell(cells@, fence@, owned, 0) == Some(*found),
            None => fenced_cell(cells@, fence@, owned, 0) is None,
        },
{
    let mut i: usize = 0;
    while i < cells.len()
        invariant
            i <= cells@.len(),
            fenced_cell(cells@, fence@, owned, i as int) == fenced_cell(cells@, fence@, owned, 0),
        decreases cells.len() - i,
    {
        let cell = &cells[i];
        if let Some(lease) = &cell.lease {
            if cell.lease_epoch == fence.lease_epoch && same_text(
                lease.lease_id.as_str(),
                fence.lease_id.as_str(),
            ) && same_text(lease.incarnation_id.as_str(), fence.incarnation_id.as_str()) {
                let same_owner = same_text(lease.owner.kind.as_str(), fence.owner.kind.as_str())
                    && same_text(lease.owner.owner_id.as_str(), fence.owner.owner_id.as_str());
                if !owned || same_owner {
                    return Some(cell);
                }
            }
        }
        i += 1;
    }
    None
}

/// Whether no process of a cell's lease is alive, in a cell that has a lease.
pub open spec fn lease_is_idle(cell: CellState) -> bool {
    cell.lease matches Some(lease) && forall|i: int|
        0 <= i < lease.processes@.len() ==> !(#[trigger] lease.processes@[i]).status.is_live()
}

/// Whether no process of a cell's lease is alive.
pub fn idle(cell: &CellState) -> (idle: bool)
    ensures
        idle == lease_is_idle(*cell),
{
    match &cell.lease {
        None => false,
        Some(lease) => {
            let mut i: usize = 0;
            while i < lease.processes.len()
                invariant
                    i <= lease.processes@.len(),
                    cell.lease == Some(*lease),
                    forall|j: int|
                        0 <= j < i ==> !(#[trigger] lease.processes@[j]).status.is_live(),
                decreases lease.processes.len() - i,
            {
                if lease.processes[i].status.live() {
                    assert(lease.processes@[i as int].status.is_live());
                    return false;
                }
                i += 1;
            }
            true
        },
    }
}

/// Whether the lease is released like this after a stop.
pub open spec fn releases(
    fence: &LeaseFence,
    stop: LeaseAnswer,
    cells: &Vec<CellState>,
    release: Result<bool, String>,
) -> bool {
    match stop.kind {
        AnswerKind::State(cell) => release == Ok::<bool, String>(lease_is_idle(cell)),
        _ => match fenced_cell(cells@, fence@, false, 0) {
            Some(cell) => release == Ok::<bool, String>(lease_is_idle(cell)),
            None => release matches Err(error) && error@
                == "Failed to stop terminal before release: "@ + stop.shown@,
        },
    }
}

/// Whether the lease is released after a process of it was stopped: where none of
/// its processes is alive any more. The cell is the one that the executor answered
/// with, or else the one that still holds the lease.
pub fn release_terminal_process(fence: &LeaseFence, stop: LeaseAnswer, cells: &Vec<CellState>) -> (
    release: Result<bool, String>)
    ensures
        releases(fence, stop, cells, release),
{
    match &stop.kind {
        AnswerKind::State(cell) => Ok(idle(cell)),
        _ => match find_fenced_cell(cells, fence, false) {
            Some(cell) => Ok(idle(cell)),
            None => Err(text2("Failed to stop terminal before release: ", stop.shown.as_str())),
        },
    }
}

/// Whether a release is taken like this.
pub open spec fn is_released(answer: LeaseAnswer, done: Result<(), String>) -> bool {
    match answer.kind {
        AnswerKind::Released => done is Ok,
        _ => done matches Err(error) && error@ == "Failed to release terminal lease: "@
            + answer.shown@,
    }
}

/// Whether a release was answered as one.
pub fn lease_released(answer: LeaseAnswer) -> (done: Result<(), String>)
    ensures
        is_released(answer, done),
{
    match answer.kind {
        AnswerKind::Released => Ok(()),
        _ => Err(text2("Failed to release terminal lease: ", answer.shown.as_str())),
    }
}

/// Whether a rollback gives its lease back.
pub open spec fn gives_back(has_siblings: Result<bool, String>, release: bool) -> bool {
    release == (has_siblings == Ok::<bool, String>(false))
}

/// Whether taking back a terminal that did not start also releases its lease: only
/// where it is known that no other terminal runs under it.
pub fn rollback_releases_lease(has_siblings: Result<bool, String>) -> (release: bool)
    ensures
        gives_back(has_siblings, release),
{
    match has_siblings {
        Ok(found) => !found,
        Err(_) => false,
    }
}

/// The row that a terminal is restarted from.
#[derive(Debug)]
pub struct RestartRow {
    pub job_id: Option<String>,
    pub project_id: Option<String>,
    pub slug: String,
    pub command: String,
    pub title: Option<String>,
    pub lease_id: Option<String>,
}

/// How a terminal is restarted.
#[derive(Debug)]
pub enum RestartPlan {
    /// It is not: the executor may still come back with the old process.
    Wait(String),
    /// Under a new lease, after the lost one is written off where the row names it.
    Fresh { write_off: bool },
    /// Under the lease that it had, in the directory of its cell.
    Rejoin { cwd: String, reclaim: bool },
}

/// Whether a restart is planned like this.
pub open spec fn plans(
    row: &RestartRow,
    fence: &LeaseFence,
    cells: &Vec<CellState>,
    window_elapsed: bool,
    plan: RestartPlan,
) -> bool {
    match fenced_cell(cells@, fence@, true, 0) {
        Some(cell) => plan matches RestartPlan::Rejoin { cwd, reclaim } && cwd@ == cell.path@
            && reclaim == (cell.lease matches Some(lease) && lease.awaiting_reclaim),
        None => if window_elapsed {
            plan == (RestartPlan::Fresh { write_off: row.lease_id is Some })
        } else {
            plan matches RestartPlan::Wait(error) && error@
                == "terminal lease fence is stale while its executor may still reclaim it"@
        },
    }
}

/// How a terminal is restarted under a fence: in the cell that still holds the
/// lease, or, once no executor can come back with it, under a new one.
pub fn plan_restart(
    row: &RestartRow,
    fence: &LeaseFence,
    cells: &Vec<CellState>,
    window_elapsed: bool,
) -> (plan: RestartPlan)
    ensures
        plans(row, fence, cells, window_elapsed, plan),
{
    match find_fenced_cell(cells, fence, true) {
        Some(cell) => {
            let reclaim = match &cell.lease {
                Some(lease) => lease.awaiting_reclaim,
                None => false,
            };
            RestartPlan::Rejoin { cwd: cell.path.clone(), reclaim }
        },
        None => {
            if window_elapsed {
                RestartPlan::Fresh { write_off: row.lease_id.is_some() }
            } else {
                RestartPlan::Wait(
                    "terminal lease fence is stale while its executor may still reclaim it".to_owned(),
                )
            }
        },
    }
}

/// Whether this is who owns the terminal of a row.
pub open spec fn owns(row: &RestartRow, owner: Result<TerminalOwner, String>) -> bool {
    match (row.job_id, row.project_id) {
        (Some(job), _) => owner matches Ok(TerminalOwner::Job(id)) && id@ == job@,
        (None, Some(project)) => owner matches Ok(TerminalOwner::Project(id)) && id@ == project@,
        (None, None) => owner matches Err(error) && error@
            == "project terminal row has no project"@,
    }
}

/// The job, or else the project, whose terminal is restarted.
pub fn restart_owner(row: &RestartRow) -> (owner: Result<TerminalOwner, String>)
    ensures
        owns(row, owner),
{
    match (&row.job_id, &row.project_id) {
        (Some(job), _) => Ok(TerminalOwner::Job(job.clone())),
        (None, Some(project)) => Ok(TerminalOwner::Project(project.clone())),
        (None, None) => Err("project terminal row has no project".to_owned()),
    }
}

/// Whether the terminal of a row is launched like this.
pub open spec fn launches(row: &RestartRow, launch: (String, bool)) -> bool {
    &&& launch.1 == row.title is None
    &&& launch.0@ == if row.title is Some {
        Seq::empty()
    } else {
        row.command@
    }
}

/// The command that a restart runs, and whether the terminal ends with it. A
/// terminal with a title is interactive: it starts as an empty shell.
pub fn restart_launch(row: &RestartRow) -> (launch: (String, bool))
    ensures
        launches(row, launch),
{
    if row.title.is_some() {
        (String::new(), false)
    } else {
        (row.command.clone(), true)
    }
}

/// Whether a target goes on like this in its cell.
pub open spec fn is_rejoined(
    target: TerminalResourceTarget,
    cwd: String,
    fence: &LeaseFence,
    rejoined: TerminalResourceTarget,
) -> bool {
    rejoined@ == (TargetModel { cwd: cwd@, lease: Some(fence@), ..target@ })
}

/// The target of a terminal that rejoins its lease.
pub fn rejoin_target(target: TerminalResourceTarget, cwd: String, fence: &LeaseFence) -> (rejoined:
    TerminalResourceTarget)
    ensures
        is_rejoined(target, cwd, fence, rejoined),
{
    let mut rejoined = target;
    rejoined.cwd = cwd;
    rejoined.lease = Some(clone_fence(fence));
    rejoined
}

/// Whether a reclaim is taken like this.
pub open spec fn is_reclaimed(answer: LeaseAnswer, done: Result<(), String>) -> bool {
    match answer.kind {
        AnswerKind::State(_) => done is Ok,
        _ => done matches Err(error) && error@ == "failed to reclaim terminal lease: "@
            + answer.shown@,
    }
}

/// Whether a lease that awaited it was reclaimed.
pub fn lease_reclaimed(answer: LeaseAnswer) -> (done: Result<(), String>)
    ensures
        is_reclaimed(answer, done),
{
    match answer.kind {
        AnswerKind::State(_) => Ok(()),
        _ => Err(text2("failed to reclaim terminal lease: ", answer.shown.as_str())),
    }
}

/// The cell found for a fence holds the lease in exactly the life that the fence
/// names.
pub proof fn law_fenced_cell_is_the_same_life(
    cells: Seq<CellState>,
    fence: FenceModel,
    owned: bool,
    from: int,
)
    ensures
        fenced_cell(cells, fence, owned, from) matches Some(cell) ==> cell.lease_epoch
            == fence.lease_epoch && (cell.lease matches Some(lease) && lease.lease_id@
            == fence.lease_id && lease.incarnation_id@ == fence.incarnation_id && (owned
            ==> lease.owner@ == fence.owner)),
    decreases cells.len() - from,
{
    if from < cells.len() {
        law_fenced_cell_is_the_same_life(cells, fence, owned, from + 1);
    }
}

/// A terminal of a branch starts at the commit that its branch resolves to, and only if it
/// does; one of the project at what its checkout printed, without the space around it, and
/// only if that succeeded.
pub proof fn law_terminal_starts_at_its_head(
    branch: Option<Seq<char>>,
    name: Seq<char>,
    commit: String,
    error: String,
    stdout: Vec<u8>,
    stderr: Vec<u8>,
)
    ensures
        base_commit(branch, HeadAnswer::Broken(error)) is Err,
        base_commit(Some(name), HeadAnswer::Branch(Some(commit))) == Ok::<Seq<char>, Seq<char>>(
            commit@,
        ),
        base_commit(Some(name), HeadAnswer::Branch(None)) == Err::<Seq<char>, Seq<char>>(
            "agent terminal branch `"@ + name + "` does not resolve to a committed head"@,
        ),
        base_commit(None, HeadAnswer::NotRun(error)) is Err,
        base_commit(None, HeadAnswer::Printed { success: true, stdout, stderr }) == Ok::<
            Seq<char>,
            Seq<char>,
        >(trimmed(utf8_lossy(stdout@))),
        base_commit(None, HeadAnswer::Printed { success: false, stdout, stderr }) == Err::<
            Seq<char>,
            Seq<char>,
        >("resolve project checkout head: "@ + trimmed(utf8_lossy(stderr@))),
{
}

/// The request for a lease is made in the name of the job, or of the project where there is
/// no job, for the repository and commit of the terminal, with the stated limits and with
/// half a minute to answer.
pub proof fn law_lease_is_asked_for_the_terminal(
    target: TargetModel,
    commit: Seq<char>,
    heartbeat: u64,
    grace: u64,
    now: u64,
)
    requires
        now + 30_000 <= u64::MAX,
    ensures
        ({
            let asked = lease_request(target, commit, heartbeat, grace, now);
            let owner = if target.job_id is Some {
                target.job_id->Some_0
            } else {
                target.project_id
            };
            &&& asked.lease_id == "terminal:"@ + owner
            &&& asked.owner.kind == "terminal"@
            &&& asked.owner.owner_id == owner
            &&& asked.owner_ref == target.owner_ref
            &&& asked.project_id == target.project_id
            &&& asked.repository_id == target.project_id
            &&& asked.absolute_path == target.repo_path
            &&& asked.initial_base_commit == commit
            &&& asked.existing <==> target.branch is None
            &&& asked.disk_growth_bytes == if target.branch is Some {
                1_073_741_824u64
            } else {
                0u64
            }
            &&& asked.memory_bytes == 67_108_864
            &&& asked.concurrency_units == 1
            &&& asked.heartbeat_timeout_ms == heartbeat
            &&& asked.reclaim_grace_ms == grace
            &&& asked.deadline_unix_ms == now + 30_000
            &&& target.branch is Some || target.job_id is Some ==> asked.purpose
                == "agent terminals"@
            &&& target.branch is None && target.job_id is None ==> asked.purpose
                == "project terminals"@
            &&& asked.name == "terminals"@
        }),
{
}

/// A leased terminal runs in the directory of its cell, behind a fence made of the lease
/// that was asked for and the life that answered; all else stays as it was.
pub proof fn law_leased_terminal_runs_in_its_cell(
    target: TargetModel,
    request: RequestModel,
    cell: CellState,
    lease: LeaseState,
)
    ensures
        ({
            let leased = leased_target(target, request, cell, lease);
            &&& leased.cwd == cell.path@
            &&& leased.lease matches Some(fence) && fence.lease_id == request.lease_id
                && fence.owner == request.owner && fence.incarnation_id == lease.incarnation_id@
                && fence.lease_epoch == cell.lease_epoch
            &&& leased.slug == target.slug
            &&& leased.job_id == target.job_id
            &&& leased.project_id == target.project_id
            &&& leased.run_id == target.run_id
            &&& leased.branch == target.branch
            &&& leased.repo_path == target.repo_path
            &&& leased.owner_ref == target.owner_ref
        }),
{
}

/// The cell that a fence stands for is the first with its epoch, lease and life, and its
/// owner where that matters; there is none exactly if no cell has them.
pub proof fn law_first_fenced_cell_is_meant(
    cells: Seq<CellState>,
    fence: FenceModel,
    owned: bool,
    from: int,
)
    requires
        0 <= from <= cells.len(),
    ensures
        match fenced_cell(cells, fence, owned, from) {
            Some(cell) => exists|i: int|
                from <= i < cells.len() && #[trigger] cells[i] == cell && is_behind(
                    cell,
                    fence,
                    owned,
                ) && forall|j: int|
                    from <= j < i ==> !is_behind(#[trigger] cells[j], fence, owned),
            None => forall|j: int|
                from <= j < cells.len() ==> !is_behind(#[trigger] cells[j], fence, owned),
        },
    decreases cells.len() - from,
{
    if from < cells.len() {
        law_first_fenced_cell_is_meant(cells, fence, owned, from + 1);
        if is_behind(cells[from], fence, owned) {
            assert(cells[from] == cells[from]);
        } else if let Some(cell) = fenced_cell(cells, fence, owned, from) {
            let i = choose|i: int|
                from + 1 <= i < cells.len() && #[trigger] cells[i] == cell && is_behind(
                    cell,
                    fence,
                    owned,
                ) && forall|j: int|
                    from + 1 <= j < i ==> !is_behind(#[trigger] cells[j], fence, owned);
            assert(cells[i] == cell);
        }
    }
}

/// Whether a cell is held by the lease and the life that a fence names.
pub open spec fn is_behind(cell: CellState, fence: FenceModel, owned: bool) -> bool {
    &&& cell.lease_epoch == fence.lease_epoch
    &&& cell.lease matches Some(lease) && {
        &&& lease.lease_id@ == fence.lease_id
        &&& lease.incarnation_id@ == fence.incarnation_id
        &&& owned ==> lease.owner.kind@ == fence.owner.kind && lease.owner.owner_id@
            == fence.owner.owner_id
    }
}

/// A lease is idle exactly if it is there and none of its processes starts or runs.
pub proof fn law_idle_lease_has_no_live_process(cell: CellState, lease: LeaseState, at: int)
    ensures
        cell.lease is None ==> !lease_is_idle(cell),
        cell.lease == Some(lease) && 0 <= at < lease.processes@.len() && (lease.processes@[at].status
            is Starting || lease.processes@[at].status is Running) ==> !lease_is_idle(cell),
        cell.lease == Some(lease) && lease.processes@.len() == 0 ==> lease_is_idle(cell),
        cell.lease == Some(lease) && (forall|i: int|
            0 <= i < lease.processes@.len() ==> (#[trigger] lease.processes@[i]).status is Exited)
            ==> lease_is_idle(cell),
{
    if cell.lease == Some(lease) && 0 <= at < lease.processes@.len() && (
    lease.processes@[at].status is Starting || lease.processes@[at].status is Running) {
        assert(lease.processes@[at].status.is_live());
    }
    if cell.lease == Some(lease) && (forall|i: int|
        0 <= i < lease.processes@.len() ==> (#[trigger] lease.processes@[i]).status is Exited) {
        assert forall|i: int| 0 <= i < lease.processes@.len() implies !(
        #[trigger] lease.processes@[i]).status.is_live() by {
        }
    }
}

/// A target without a branch has no tip; one with a branch has the commit that the branch
/// is at, and must have one.
pub proof fn law_tip_is_that_of_the_branch(
    target: &TerminalResourceTarget,
    commit: Result<Option<String>, String>,
    tip: Result<Option<String>, String>,
)
    requires
        is_tip(target, commit, tip),
    ensures
        target.branch is None ==> tip == Ok::<Option<String>, String>(None),
        target.branch is Some ==> (tip is Ok <==> (commit matches Ok(Some(_)))),
        target.branch is Some && tip is Ok ==> tip == commit,
{
}

/// A lease that was acquired makes the target ready, or asks first for the checkout of its
/// branch at the commit that was asked for; without an occupant or an answer there is none.
pub proof fn law_acquired_lease_makes_ready(
    target: TerminalResourceTarget,
    request: LeaseRequest,
    answer: LeaseAnswer,
    next: Result<Materialized, String>,
)
    requires
        materializes(target, request, answer, next),
    ensures
        next is Ok <==> (answer.kind matches AnswerKind::State(cell) && cell.lease is Some),
        next matches Ok(Materialized::Ready(leased)) ==> target.branch is None,
        next matches Ok(Materialized::Refresh { target: leased, tip }) ==> target.branch is Some
            && tip@ == request.initial_base_commit@,
        answer.kind matches AnswerKind::State(cell) ==> (next matches Ok(Materialized::Ready(
            leased,
        )) ==> leased@.cwd == cell.path@),
{
}

/// A checkout that was not refreshed gives the lease back first.
pub proof fn law_stale_checkout_gives_the_lease_back(
    target: TerminalResourceTarget,
    tip: &str,
    answer: LeaseAnswer,
    ready: Result<TerminalResourceTarget, ReleaseFirst>,
)
    requires
        is_refreshed(target, tip, answer, ready),
    ensures
        ready is Ok <==> answer.kind is State,
        ready matches Ok(kept) ==> kept == target,
        ready matches Err(failed) ==> failed.fence == target.lease,
{
}

/// After a stop the lease is released exactly if it is idle: by the answer, or else by what
/// the executor still shows of it.
pub proof fn law_idle_lease_is_released(
    fence: &LeaseFence,
    stop: LeaseAnswer,
    cells: &Vec<CellState>,
    release: Result<bool, String>,
)
    requires
        releases(fence, stop, cells, release),
    ensures
        stop.kind matches AnswerKind::State(cell) ==> release == Ok::<bool, String>(
            lease_is_idle(cell),
        ),
        !(stop.kind is State) ==> (release is Ok <==> fenced_cell(cells@, fence@, false, 0)
            is Some),
        !(stop.kind is State) ==> (fenced_cell(cells@, fence@, false, 0) matches Some(cell)
            ==> release == Ok::<bool, String>(lease_is_idle(cell))),
{
}

/// A restart goes back to the cell that its fence stands for, reclaiming it where that is
/// awaited; without one it waits until the executor's time is over, and only then starts
/// afresh, writing off the lease of the row.
pub proof fn law_restart_goes_back_to_its_cell(
    row: &RestartRow,
    fence: &LeaseFence,
    cells: &Vec<CellState>,
    elapsed: bool,
    plan: RestartPlan,
)
    requires
        plans(row, fence, cells, elapsed, plan),
    ensures
        plan is Rejoin <==> fenced_cell(cells@, fence@, true, 0) is Some,
        fenced_cell(cells@, fence@, true, 0) matches Some(cell) ==> plan->Rejoin_cwd@ == cell.path@
            && (cell.lease matches Some(lease) ==> plan->Rejoin_reclaim == lease.awaiting_reclaim),
        fenced_cell(cells@, fence@, true, 0) is None ==> (plan is Wait <==> !elapsed),
        plan matches RestartPlan::Fresh { write_off } ==> elapsed && (write_off <==> row.lease_id
            is Some),
{
}

/// The terminal of a row belongs to its job, or else to its project, and to one of them.
pub proof fn law_terminal_belongs_to_job_or_project(
    row: &RestartRow,
    owner: Result<TerminalOwner, String>,
)
    requires
        owns(row, owner),
    ensures
        owner is Ok <==> row.job_id is Some || row.project_id is Some,
        row.job_id matches Some(job) ==> (owner matches Ok(TerminalOwner::Job(id)) && id@ == job@),
        row.job_id is None ==> (row.project_id matches Some(project) ==> (owner
            matches Ok(TerminalOwner::Project(id)) && id@ == project@)),
{
}

/// A terminal with a title is an interactive shell and is launched without a command; any
/// other runs its command once more.
pub proof fn law_titled_terminal_is_launched_bare(row: &RestartRow, launch: (String, bool))
    requires
        launches(row, launch),
    ensures
        row.title is Some ==> launch.0@.len() == 0 && !launch.1,
        row.title is None ==> launch.0@ == row.command@ && launch.1,
{
}

/// An answer is taken for what it is: a cell where one was asked for, a release where that
/// was; any other answer is a fault that shows it.
pub proof fn law_answers_are_taken_for_what_they_are(
    answer: LeaseAnswer,
    failure: &str,
    cell: Result<CellState, String>,
    released: Result<(), String>,
    reclaimed: Result<(), String>,
)
    requires
        is_state(answer, failure, cell),
        is_released(answer, released),
        is_reclaimed(answer, reclaimed),
    ensures
        cell is Ok <==> answer.kind is State,
        cell matches Ok(state) ==> answer.kind == AnswerKind::State(state),
        cell matches Err(error) ==> error@ == failure@ + ": "@ + answer.shown@,
        released is Ok <==> answer.kind is Released,
        reclaimed is Ok <==> answer.kind is State,
{
}

/// A lease is given back exactly if it is known that no other terminal needs it.
pub proof fn law_shared_lease_is_kept(has_siblings: Result<bool, String>, release: bool)
    requires
        gives_back(has_siblings, release),
    ensures
        has_siblings is Err ==> !release,
        has_siblings matches Ok(shared) ==> release == !shared,
{
}

/// A target that rejoins its cell runs in the cell's directory and behind its fence; all else
/// stays as it was.
pub proof fn law_rejoined_target_runs_in_its_cell(
    target: TerminalResourceTarget,
    cwd: String,
    fence: &LeaseFence,
    rejoined: TerminalResourceTarget,
)
    requires
        is_rejoined(target, cwd, fence, rejoined),
    ensures
        rejoined@.cwd == cwd@ && rejoined@.lease == Some(fence@),
        rejoined@.slug == target@.slug && rejoined@.job_id == target@.job_id
            && rejoined@.project_id == target@.project_id && rejoined@.run_id == target@.run_id
            && rejoined@.branch == target@.branch && rejoined@.repo_path == target@.repo_path,
{
}

} // verus!
