//! Starting a terminal again under the lease that it had, and creating a new one.
//!
//! Both go through the same steps in the same order: what the resource stands for,
//! whether its slug is free, a lease whose checkout is current, and only then the
//! process.
use vstd::prelude::*;
use vstd::string::*;
use crate::handlers::terminal::acquire::{
    ensure_terminal_checkout_current, fenced_cell, lease_reclaimed, plan_restart, rejoin_target,
    restart_owner, AnswerKind, LeaseAnswer, RestartPlan, RestartRow,
};
use crate::handlers::terminal::exit::{
    created_message, wake_message, wake_subscriber, wake_subscriber_of,
    TerminalWakeSubscriptionOutcome,
};
use crate::handlers::terminal::lease::{CellState, FenceModel, LeaseFence};
use crate::handlers::terminal::output::TerminalWakeSpec;
use crate::handlers::terminal::resource::{TargetModel, TerminalResourceTarget};
use crate::text::{opt_text, text2};

verus! {

/// Where the restart of a terminal stands: what is to be done next.
#[derive(Debug)]
pub enum RestartState {
    /// Read the row of the terminal.
    FindRow,
    /// Resolve what the row's owner and slug stand for.
    Resolve(RestartRow),
    /// See whether the slug is free.
    CheckSlug(RestartRow, TerminalResourceTarget),
    /// Look for the cell that holds the lease.
    Locate(RestartRow, TerminalResourceTarget),
    /// Write the lost lease off.
    WriteOff(RestartRow, TerminalResourceTarget),
    /// Get a new lease for the target.
    Lease(RestartRow, TerminalResourceTarget),
    /// Reclaim the lease.
    Reclaim(RestartRow, TerminalResourceTarget),
    /// Find the head of the target's branch.
    FindTip(RestartRow, TerminalResourceTarget),
    /// Bring the checkout to the head.
    Refresh(RestartRow, TerminalResourceTarget, String),
    /// Start the terminal on the target, with the row's command.
    Spawn(RestartRow, TerminalResourceTarget),
    Failed(String),
}

/// What a step of a restart came to.
#[derive(Debug)]
pub enum RestartEvent {
    Row(Result<Option<RestartRow>, String>),
    Resolved(Result<TerminalResourceTarget, String>),
    SlugChecked(Result<(), String>),
    Cells { cells: Vec<CellState>, window_elapsed: bool },
    WrittenOff(Result<(), String>),
    Leased(Result<TerminalResourceTarget, String>),
    Answered(LeaseAnswer),
    Tip(Result<Option<String>, String>),
}

/// Whether a restart failed with this text.
pub open spec fn failed_with(state: RestartState, text: Seq<char>) -> bool {
    state matches RestartState::Failed(error) && error@ == text
}

/// What follows once the cells are known.
pub open spec fn located(
    row: RestartRow,
    target: TerminalResourceTarget,
    fence: FenceModel,
    cells: Seq<CellState>,
    window_elapsed: bool,
    next: RestartState,
) -> bool {
    match fenced_cell(cells, fence, true, 0) {
        Some(cell) => {
            let rejoined = TargetModel { cwd: cell.path@, lease: Some(fence), ..target@ };
            if cell.lease matches Some(lease) && lease.awaiting_reclaim {
                next matches RestartState::Reclaim(kept, at) && kept == row && at@ == rejoined
            } else {
                next matches RestartState::FindTip(kept, at) && kept == row && at@ == rejoined
            }
        },
        None => if !window_elapsed {
            failed_with(
                next,
                "terminal lease fence is stale while its executor may still reclaim it"@,
            )
        } else if row.lease_id is Some {
            next == RestartState::WriteOff(row, target)
        } else {
            next == RestartState::Lease(row, target)
        },
    }
}

/// Whether `next` follows a step of a restart. An event that does not belong to the
/// step leaves it to be done.
pub open spec fn restart_follows(
    fence: LeaseFence,
    state: RestartState,
    event: RestartEvent,
    next: RestartState,
) -> bool {
    match (state, event) {
        (RestartState::FindRow, RestartEvent::Row(Err(error))) => failed_with(next, error@),
        (RestartState::FindRow, RestartEvent::Row(Ok(None))) => failed_with(
            next,
            "No terminal row is bound to lease "@ + fence.lease_id@,
        ),
        (RestartState::FindRow, RestartEvent::Row(Ok(Some(row)))) => if row.job_id is None
            && row.project_id is None {
            failed_with(next, "project terminal row has no project"@)
        } else {
            next == RestartState::Resolve(row)
        },
        (RestartState::Resolve(row), RestartEvent::Resolved(Ok(target))) => next
            == RestartState::CheckSlug(row, target),
        (RestartState::Resolve(_), RestartEvent::Resolved(Err(error))) => failed_with(next, error@),
        (RestartState::CheckSlug(row, target), RestartEvent::SlugChecked(Ok(()))) => next
            == RestartState::Locate(row, target),
        (RestartState::CheckSlug(..), RestartEvent::SlugChecked(Err(error))) => failed_with(
            next,
            error@,
        ),
        (RestartState::Locate(row, target), RestartEvent::Cells { cells, window_elapsed }) => located(
            row,
            target,
            fence@,
            cells@,
            window_elapsed,
            next,
        ),
        (RestartState::WriteOff(row, target), RestartEvent::WrittenOff(Ok(()))) => next
            == RestartState::Lease(row, target),
        (RestartState::WriteOff(..), RestartEvent::WrittenOff(Err(error))) => failed_with(
            next,
            error@,
        ),
        (RestartState::Lease(row, _), RestartEvent::Leased(Ok(target))) => next
            == RestartState::Spawn(row, target),
        (RestartState::Lease(..), RestartEvent::Leased(Err(error))) => failed_with(next, error@),
        (RestartState::Reclaim(row, target), RestartEvent::Answered(answer)) => match answer.kind {
            AnswerKind::State(_) => next == RestartState::FindTip(row, target),
            _ => failed_with(next, "failed to reclaim terminal lease: "@ + answer.shown@),
        },
        (RestartState::FindTip(row, target), RestartEvent::Tip(Ok(None))) => next
            == RestartState::Spawn(row, target),
        (RestartState::FindTip(row, target), RestartEvent::Tip(Ok(Some(tip)))) => next
            == RestartState::Refresh(row, target, tip),
        (RestartState::FindTip(..), RestartEvent::Tip(Err(error))) => failed_with(next, error@),
        (RestartState::Refresh(row, target, tip), RestartEvent::Answered(answer)) => {
            match answer.kind {
                AnswerKind::State(_) => next == RestartState::Spawn(row, target),
                _ => failed_with(
                    next,
                    "failed to refresh terminal checkout to "@ + tip@ + ": "@ + answer.shown@,
                ),
            }
        },
        _ => next == state,
    }
}

/// What follows once the cells are known.
fn locate(
    row: RestartRow,
    target: TerminalResourceTarget,
    fence: &LeaseFence,
    cells: &Vec<CellState>,
    window_elapsed: bool,
) -> (next: RestartState)
    ensures
        located(row, target, fence@, cells@, window_elapsed, next),
{
    match plan_restart(&row, fence, cells, window_elapsed) {
        RestartPlan::Wait(error) => RestartState::Failed(error),
        RestartPlan::Fresh { write_off } => {
            if write_off {
                RestartState::WriteOff(row, target)
            } else {
                RestartState::Lease(row, target)
            }
        },
        RestartPlan::Rejoin { cwd, reclaim } => {
            let rejoined = rejoin_target(target, cwd, fence);
            if reclaim {
                RestartState::Reclaim(row, rejoined)
            } else {
                RestartState::FindTip(row, rejoined)
            }
        },
    }
}

/// What follows a step of the restart of a terminal under a fence.
pub fn restart_terminal_process(fence: &LeaseFence, state: RestartState, event: RestartEvent) -> (
    next: RestartState)
    ensures
        restart_follows(*fence, state, event, next),
{
    match (state, event) {
        (RestartState::FindRow, RestartEvent::Row(found)) => match found {
            Err(error) => RestartState::Failed(error),
            Ok(None) => RestartState::Failed(
                text2("No terminal row is bound to lease ", fence.lease_id.as_str()),
            ),
            Ok(Some(row)) => match restart_owner(&row) {
                Err(error) => RestartState::Failed(error),
                Ok(_) => RestartState::Resolve(row),
            },
        },
        (RestartState::Resolve(row), RestartEvent::Resolved(resolved)) => match resolved {
            Ok(target) => RestartState::CheckSlug(row, target),
            Err(error) => RestartState::Failed(error),
        },
        (RestartState::CheckSlug(row, target), RestartEvent::SlugChecked(checked)) => match checked {
            Ok(()) => RestartState::Locate(row, target),
            Err(error) => RestartState::Failed(error),
        },
        (RestartState::Locate(row, target), RestartEvent::Cells { cells, window_elapsed }) => {
            locate(row, target, fence, &cells, window_elapsed)
        },
        (RestartState::WriteOff(row, target), RestartEvent::WrittenOff(done)) => match done {
            Ok(()) => RestartState::Lease(row, target),
            Err(error) => RestartState::Failed(error),
        },
        (RestartState::Lease(row, _), RestartEvent::Leased(leased)) => match leased {
            Ok(target) => RestartState::Spawn(row, target),
            Err(error) => RestartState::Failed(error),
        },
        (RestartState::Reclaim(row, target), RestartEvent::Answered(answer)) => {
            match lease_reclaimed(answer) {
                Ok(()) => RestartState::FindTip(row, target),
                Err(error) => RestartState::Failed(error),
            }
        },
        (RestartState::FindTip(row, target), RestartEvent::Tip(tip)) => match tip {
            Ok(None) => RestartState::Spawn(row, target),
            Ok(Some(tip)) => RestartState::Refresh(row, target, tip),
            Err(error) => RestartState::Failed(error),
        },
        (RestartState::Refresh(row, target, tip), RestartEvent::Answered(answer)) => {
            match ensure_terminal_checkout_current(tip.as_str(), answer) {
                Ok(()) => RestartState::Spawn(row, target),
                Err(error) => RestartState::Failed(error),
            }
        },
        (other, _) => other,
    }
}

/// While the executor may still come back with the old process, a terminal is
/// never started anew: without the cell of its lease the restart fails.
pub proof fn law_restart_waits_for_the_executor(
    fence: LeaseFence,
    row: RestartRow,
    target: TerminalResourceTarget,
    cells: Vec<CellState>,
    next: RestartState,
)
    requires
        fenced_cell(cells@, fence@, true, 0) is None,
        restart_follows(
            fence,
            RestartState::Locate(row, target),
            RestartEvent::Cells { cells, window_elapsed: false },
            next,
        ),
    ensures
        next is Failed,
{
}

/// A terminal that rejoins its lease is started only on a checkout that was brought
/// to the head of its branch, where it has one.
pub proof fn law_restart_runs_on_a_current_checkout(
    fence: LeaseFence,
    state: RestartState,
    event: RestartEvent,
    next: RestartState,
)
    requires
        restart_follows(fence, state, event, next),
        next is Spawn,
    ensures
        match state {
            RestartState::Spawn(..) => next == state,
            RestartState::Lease(..) => event matches RestartEvent::Leased(Ok(_)),
            RestartState::FindTip(..) => event == RestartEvent::Tip(Ok(None)),
            RestartState::Refresh(..) => event matches RestartEvent::Answered(answer)
                && answer.kind is State,
            _ => false,
        },
{
}

/// Where the creation of a terminal stands: what is to be done next.
#[derive(Debug)]
pub enum CreateState {
    /// Resolve what the resource stands for.
    Resolve,
    /// Find the job of the calling run.
    FindCaller(TerminalResourceTarget),
    /// See whether the slug is free.
    CheckSlug(TerminalResourceTarget, Option<String>),
    /// Get a lease for the target.
    Lease(TerminalResourceTarget, Option<String>),
    /// Start the terminal.
    Spawn(TerminalResourceTarget, Option<String>),
    /// Subscribe the job to the wake of the session.
    Subscribe { session_id: String, job_id: String },
    Done(String),
    Failed(String),
}

/// What a step of a creation came to.
#[derive(Debug)]
pub enum CreateEvent {
    Resolved(Result<TerminalResourceTarget, String>),
    Caller(Result<Option<String>, String>),
    SlugChecked(Result<(), String>),
    Leased(Result<TerminalResourceTarget, String>),
    Spawned(Result<String, String>),
    Subscribed(Result<TerminalWakeSubscriptionOutcome, String>),
}

/// What a creation depends on.
#[derive(Debug)]
pub struct CreatePlan {
    pub slug: String,
    pub uri: String,
    pub wake: Option<TerminalWakeSpec>,
    pub caller_run_id: Option<String>,
}

/// Whether a creation failed with this text.
pub open spec fn creation_failed(state: CreateState, text: Seq<char>) -> bool {
    state matches CreateState::Failed(error) && error@ == text
}

/// Whether `next` follows once it is known who the wake is for.
pub open spec fn with_subscriber(
    subscriber: Result<Option<Seq<char>>, Seq<char>>,
    target: TerminalResourceTarget,
    next: CreateState,
) -> bool {
    match subscriber {
        Err(reason) => creation_failed(next, reason),
        Ok(job) => next matches CreateState::CheckSlug(kept, found) && kept == target && opt_text(
            found,
        ) == job,
    }
}

/// Whether the job of the calling run is needed to know who the wake is for.
pub open spec fn needs_caller(plan: CreatePlan, target: TerminalResourceTarget) -> bool {
    plan.wake is Some && target.job_id is None && plan.caller_run_id is Some
}

/// Whether `next` follows a step of a creation. An event that does not belong to
/// the step leaves it to be done.
pub open spec fn create_follows(
    plan: CreatePlan,
    state: CreateState,
    event: CreateEvent,
    next: CreateState,
) -> bool {
    match (state, event) {
        (CreateState::Resolve, CreateEvent::Resolved(Err(error))) => creation_failed(next, error@),
        (CreateState::Resolve, CreateEvent::Resolved(Ok(target))) => if needs_caller(plan, target) {
            next == CreateState::FindCaller(target)
        } else {
            with_subscriber(
                wake_subscriber_of(
                    plan.wake is Some,
                    opt_text(target.job_id),
                    opt_text(plan.caller_run_id),
                    Ok(None),
                ),
                target,
                next,
            )
        },
        (CreateState::FindCaller(target), CreateEvent::Caller(found)) => with_subscriber(
            wake_subscriber_of(
                plan.wake is Some,
                opt_text(target.job_id),
                opt_text(plan.caller_run_id),
                found,
            ),
            target,
            next,
        ),
        (CreateState::CheckSlug(target, job), CreateEvent::SlugChecked(Ok(()))) => next
            == CreateState::Lease(target, job),
        (CreateState::CheckSlug(..), CreateEvent::SlugChecked(Err(error))) => creation_failed(
            next,
            error@,
        ),
        (CreateState::Lease(_, job), CreateEvent::Leased(Ok(target))) => next == CreateState::Spawn(
            target,
            job,
        ),
        (CreateState::Lease(..), CreateEvent::Leased(Err(error))) => creation_failed(next, error@),
        (CreateState::Spawn(_, job), CreateEvent::Spawned(Ok(session_id))) => match job {
            Some(job_id) => next == (CreateState::Subscribe { session_id, job_id }),
            None => next matches CreateState::Done(message) && message@ == "Started terminal "@
                + plan.slug@,
        },
        (CreateState::Spawn(..), CreateEvent::Spawned(Err(error))) => creation_failed(next, error@),
        (CreateState::Subscribe { .. }, CreateEvent::Subscribed(result)) => {
            next matches CreateState::Done(message) && message@ == match plan.wake {
                None => "Started terminal "@ + plan.slug@,
                Some(wake) => wake_message(plan.slug@, plan.uri@, wake, result),
            }
        },
        _ => next == state,
    }
}

/// What follows once it is known who the wake is for.
fn subscribe_for(
    plan: &CreatePlan,
    target: TerminalResourceTarget,
    found: Result<Option<String>, String>,
) -> (next: CreateState)
    ensures
        with_subscriber(
            wake_subscriber_of(
                plan.wake is Some,
                opt_text(target.job_id),
                opt_text(plan.caller_run_id),
                found,
            ),
            target,
            next,
        ),
{
    let caller = match &plan.caller_run_id {
        Some(run) => Some(run.as_str()),
        None => None,
    };
    match wake_subscriber(&plan.wake, &target.job_id, caller, found) {
        Err(error) => CreateState::Failed(error),
        Ok(job) => CreateState::CheckSlug(target, job),
    }
}

/// What follows a step of the creation of a terminal. What cannot be subscribed to
/// does not undo the terminal: its creator is told.
pub fn create_terminal_from_resource(plan: &CreatePlan, state: CreateState, event: CreateEvent) -> (
    next: CreateState)
    ensures
        create_follows(*plan, state, event, next),
{
    match (state, event) {
        (CreateState::Resolve, CreateEvent::Resolved(resolved)) => match resolved {
            Err(error) => CreateState::Failed(error),
            Ok(target) => {
                if plan.wake.is_some() && target.job_id.is_none() && plan.caller_run_id.is_some() {
                    CreateState::FindCaller(target)
                } else {
                    subscribe_for(plan, target, Ok(None))
                }
            },
        },
        (CreateState::FindCaller(target), CreateEvent::Caller(found)) => subscribe_for(
            plan,
            target,
            found,
        ),
        (CreateState::CheckSlug(target, job), CreateEvent::SlugChecked(checked)) => match checked {
            Ok(()) => CreateState::Lease(target, job),
            Err(error) => CreateState::Failed(error),
        },
        (CreateState::Lease(_, job), CreateEvent::Leased(leased)) => match leased {
            Ok(target) => CreateState::Spawn(target, job),
            Err(error) => CreateState::Failed(error),
        },
        (CreateState::Spawn(_, job), CreateEvent::Spawned(spawned)) => match spawned {
            Err(error) => CreateState::Failed(error),
            Ok(session_id) => match job {
                Some(job_id) => CreateState::Subscribe { session_id, job_id },
                None => CreateState::Done(text2("Started terminal ", plan.slug.as_str())),
            },
        },
        (CreateState::Subscribe { .. }, CreateEvent::Subscribed(result)) => CreateState::Done(
            created_message(plan.slug.as_str(), plan.uri.as_str(), &plan.wake, result),
        ),
        (other, _) => other,
    }
}

/// A creation goes on with a job to subscribe exactly where it asks for a wake.
pub proof fn law_wake_has_a_subscriber(
    plan: CreatePlan,
    state: CreateState,
    event: CreateEvent,
    next: CreateState,
)
    requires
        create_follows(plan, state, event, next),
        state is Resolve || state is FindCaller,
    ensures
        next matches CreateState::CheckSlug(_, job) ==> (job is Some <==> plan.wake is Some),
        next is Resolve || next is FindCaller || next is CheckSlug || next is Failed,
{
}

/// The terminal is started before its wake is subscribed to, and whatever becomes
/// of the subscription, the creation does not fail any more.
pub proof fn law_started_terminal_is_reported(
    plan: CreatePlan,
    session_id: String,
    job_id: String,
    result: Result<TerminalWakeSubscriptionOutcome, String>,
    next: CreateState,
)
    requires
        create_follows(
            plan,
            CreateState::Subscribe { session_id, job_id },
            CreateEvent::Subscribed(result),
            next,
        ),
    ensures
        next is Done,
{
}

/// A restart that reaches a process has gone through all that comes before: the row, the
/// target and the slug; and then through a new lease, or through a current checkout of the
/// old one. It never changes the row it restarts.
pub proof fn law_restart_keeps_its_row(
    fence: LeaseFence,
    state: RestartState,
    event: RestartEvent,
    next: RestartState,
    row: RestartRow,
)
    requires
        restart_follows(fence, state, event, next),
        next != state,
    ensures
        next == RestartState::Resolve(row) ==> state is FindRow && event == RestartEvent::Row(
            Ok::<Option<RestartRow>, String>(Some(row)),
        ),
        next matches RestartState::CheckSlug(kept, target) ==> state == RestartState::Resolve(kept)
            && event == RestartEvent::Resolved(Ok::<TerminalResourceTarget, String>(target)),
        next matches RestartState::Locate(kept, target) ==> state == RestartState::CheckSlug(
            kept,
            target,
        ),
        next matches RestartState::Spawn(kept, target) ==> ((state matches RestartState::Lease(
            had,
            _,
        ) && had == kept && event == RestartEvent::Leased(
            Ok::<TerminalResourceTarget, String>(target),
        )) || (state == RestartState::FindTip(kept, target)) || (state
            matches RestartState::Refresh(had, at, _) && had == kept && at == target)),
        next matches RestartState::Refresh(kept, target, tip) ==> state == RestartState::FindTip(
            kept,
            target,
        ) && event == RestartEvent::Tip(Ok::<Option<String>, String>(Some(tip))),
        next matches RestartState::WriteOff(kept, target) ==> state == RestartState::Locate(
            kept,
            target,
        ) && kept.lease_id is Some,
{
}

/// A step of a restart that fails ends it with the fault itself.
pub proof fn law_failed_restart_says_why(
    fence: LeaseFence,
    state: RestartState,
    event: RestartEvent,
    next: RestartState,
    error: String,
)
    requires
        restart_follows(fence, state, event, next),
    ensures
        (state is FindRow && event == RestartEvent::Row(Err::<Option<RestartRow>, String>(error)))
            || (state is Resolve && event == RestartEvent::Resolved(
            Err::<TerminalResourceTarget, String>(error),
        )) || (state is CheckSlug && event == RestartEvent::SlugChecked(Err::<(), String>(error)))
            || (state is WriteOff && event == RestartEvent::WrittenOff(Err::<(), String>(error)))
            || (state is Lease && event == RestartEvent::Leased(
            Err::<TerminalResourceTarget, String>(error),
        )) || (state is FindTip && event == RestartEvent::Tip(
            Err::<Option<String>, String>(error),
        )) ==> (next matches RestartState::Failed(said) && said@ == error@),
{
}

/// A creation goes from its target to a free slug, a lease, a process and, where the caller
/// is to be woken, a subscription; a step that fails ends it with the fault.
pub proof fn law_creation_goes_step_by_step(
    plan: CreatePlan,
    state: CreateState,
    event: CreateEvent,
    next: CreateState,
    error: String,
)
    requires
        create_follows(plan, state, event, next),
    ensures
        next != state ==> {
            &&& next is FindCaller ==> state is Resolve && plan.wake is Some
                && plan.caller_run_id is Some
            &&& next is CheckSlug ==> state is Resolve || state is FindCaller
            &&& next matches CreateState::Lease(target, job) ==> state == CreateState::CheckSlug(
                target,
                job,
            ) && (event matches CreateEvent::SlugChecked(Ok(_)))
            &&& next matches CreateState::Spawn(target, job) ==> (state
                matches CreateState::Lease(_, had) && had == job) && event == CreateEvent::Leased(
                Ok::<TerminalResourceTarget, String>(target),
            )
            &&& next matches CreateState::Subscribe { session_id, job_id } ==> (state
                matches CreateState::Spawn(_, Some(had)) && had == job_id) && event
                == CreateEvent::Spawned(Ok::<String, String>(session_id))
        },
        (state is CheckSlug && event == CreateEvent::SlugChecked(Err::<(), String>(error))) || (
        state is Lease && event == CreateEvent::Leased(
            Err::<TerminalResourceTarget, String>(error),
        )) || (state is Spawn && event == CreateEvent::Spawned(Err::<String, String>(error))) || (
        state is Resolve && event == CreateEvent::Resolved(
            Err::<TerminalResourceTarget, String>(error),
        )) ==> (next matches CreateState::Failed(said) && said@ == error@),
{
}

} // verus!
