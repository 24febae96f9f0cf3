//! The end of a terminal, and the wakes that wait for it.
//!
//! A terminal is finalized once: only the step of its row from running to exited
//! sends the exit on. A wake is stored before the row is read again, so that an
//! exit between the start and the subscription is not missed.
use std::collections::VecDeque;
use vstd::prelude::*;
use vstd::string::*;
use crate::handlers::terminal::lease::LeaseFence;
use crate::handlers::terminal::output::{
    exit_context, terminal_exit_context, OutputWatchRegistration, PtyExitPayload, TerminalWakeSpec,
};
use crate::text::{
    clone_opt, opt_str, opt_text, same_text, string_from_utf8_lossy, text2, text3, utf8_lossy,
};

verus! {

/// What a spawned terminal prints when its executor is gone.
pub const EXECUTOR_LOST_NOTICE: &'static str =
    "\r\nExecutor disconnected; restart reuses the retained terminal lease.\r\n";

/// The row of a terminal, as far as its end is concerned.
#[derive(Debug)]
pub struct TerminalWakeRow {
    pub status: String,
    pub exit_code: Option<i32>,
    pub created_at: i64,
    pub exited_at: Option<i64>,
    pub output_tail: Option<String>,
    pub session_id: Option<String>,
}

/// What a row says.
#[verifier::ext_equal]
pub struct WakeRowModel {
    pub status: Seq<char>,
    pub exit_code: Option<i32>,
    pub created_at: i64,
    pub exited_at: Option<i64>,
    pub output_tail: Option<Seq<char>>,
    pub session_id: Option<Seq<char>>,
}

impl View for TerminalWakeRow {
    type V = WakeRowModel;

    open spec fn view(&self) -> WakeRowModel {
        WakeRowModel {
            status: self.status@,
            exit_code: self.exit_code,
            created_at: self.created_at,
            exited_at: self.exited_at,
            output_tail: opt_text(self.output_tail),
            session_id: opt_text(self.session_id),
        }
    }
}

/// What an optional row says.
pub open spec fn row_model(row: Option<TerminalWakeRow>) -> Option<WakeRowModel> {
    match row {
        Some(found) => Some(found@),
        None => None,
    }
}

/// The row of a terminal after it exited, where it was running.
pub open spec fn marked_exited(
    row: WakeRowModel,
    exit_code: Option<i32>,
    output_tail: Option<Seq<char>>,
    now: i64,
) -> Option<WakeRowModel> {
    if row.status == "running"@ {
        Some(
            WakeRowModel {
                status: "exited"@,
                exit_code,
                exited_at: Some(now),
                output_tail,
                ..row
            },
        )
    } else {
        None
    }
}

/// Marks a running terminal as exited; leaves any other row as it is. Returns
/// whether the row was marked.
pub fn mark_terminal_exited(
    row: &mut TerminalWakeRow,
    exit_code: Option<i32>,
    output_tail: Option<String>,
    now: i64,
) -> (transitioned: bool)
    ensures
        match marked_exited(old(row)@, exit_code, opt_text(output_tail), now) {
            Some(exited) => transitioned && final(row)@ == exited,
            None => !transitioned && *final(row) == *old(row),
        },
{
    if same_text(row.status.as_str(), "running") {
        row.status = "exited".to_owned();
        row.exit_code = exit_code;
        row.exited_at = Some(now);
        row.output_tail = output_tail;
        true
    } else {
        false
    }
}

/// A terminal is marked as exited at most once, whoever tries again and with
/// whatever exit code.
pub proof fn law_exit_is_recorded_once(
    row: WakeRowModel,
    exit_code: Option<i32>,
    output_tail: Option<Seq<char>>,
    now: i64,
    other_code: Option<i32>,
    other_tail: Option<Seq<char>>,
    later: i64,
)
    ensures
        marked_exited(row, exit_code, output_tail, now) matches Some(exited) ==> marked_exited(
            exited,
            other_code,
            other_tail,
            later,
        ) is None,
{
    reveal_strlit("running");
    reveal_strlit("exited");
    assert("exited"@.len() != "running"@.len());
}

/// Who is told that a terminal exited: the current session of its job, where the
/// exit was a failure.
pub open spec fn injection_target(
    job_id: Option<Seq<char>>,
    exit_code: Option<i32>,
    current_session: Option<Seq<char>>,
) -> Option<(Seq<char>, i32)> {
    match (job_id, exit_code, current_session) {
        (Some(_), Some(code), Some(session)) => if code != 0 {
            Some((session, code))
        } else {
            None
        },
        _ => None,
    }
}

/// What finalizing needs of a terminal that was marked as exited.
#[derive(Debug)]
pub struct TerminalExitContext {
    pub created_at: Option<i64>,
    pub injection: Option<(String, i32)>,
}

/// Whether `context` is what finalizing needs: there is one exactly where the row was
/// marked now.
pub open spec fn is_exit_context(
    context: Option<TerminalExitContext>,
    transitioned: bool,
    created_at: Option<i64>,
    job_id: Option<Seq<char>>,
    exit_code: Option<i32>,
    current_session: Option<Seq<char>>,
) -> bool {
    match context {
        Some(loaded) => transitioned && loaded.created_at == created_at && match (
            loaded.injection,
            injection_target(job_id, exit_code, current_session),
        ) {
            (Some((session, code)), Some(target)) => session@ == target.0 && code == target.1,
            (None, None) => true,
            _ => false,
        },
        None => !transitioned,
    }
}

/// What finalizing needs, where the row was marked now.
pub fn load_exit_context(
    transitioned: bool,
    created_at: Option<i64>,
    job_id: &Option<String>,
    exit_code: Option<i32>,
    current_session: Option<String>,
) -> (context: Option<TerminalExitContext>)
    ensures
        is_exit_context(
            context,
            transitioned,
            created_at,
            opt_text(*job_id),
            exit_code,
            opt_text(current_session),
        ),
{
    if !transitioned {
        return None;
    }
    let injection = match (job_id, exit_code, current_session) {
        (Some(_), Some(code), Some(session)) => {
            if code != 0 {
                Some((session, code))
            } else {
                None
            }
        },
        _ => None,
    };
    Some(TerminalExitContext { created_at, injection })
}

/// The seconds from `from` to `to`, none where `to` is earlier.
pub open spec fn seconds_between(from: i64, to: i64) -> int {
    if to > from {
        to - from
    } else {
        0
    }
}

/// The seconds from `from` to `to`, none where `to` is earlier.
fn elapsed(from: i64, to: i64) -> (seconds: i64)
    requires
        to - from <= i64::MAX,
    ensures
        seconds == seconds_between(from, to),
{
    if to > from {
        to - from
    } else {
        0
    }
}

/// What the exit of a terminal leads to: the event, the wake and, for a failure,
/// the message to the agent's session.
#[derive(Debug)]
pub struct ExitEffects {
    pub payload: PtyExitPayload,
    pub runtime_secs: Option<i64>,
    pub output_tail: Option<String>,
    pub injection: Option<(String, String)>,
}

/// Whether finalizing leads to `effects`. Only a row that was marked now leads to
/// anything.
pub open spec fn finalizes(
    session_id: Seq<char>,
    exit_code: Option<i32>,
    output_tail: Option<String>,
    context: Result<Option<TerminalExitContext>, String>,
    now: i64,
    buffer: Seq<u8>,
    command: Seq<char>,
    effects: Option<ExitEffects>,
) -> bool {
    match (context, effects) {
        (Ok(Some(loaded)), Some(sent)) => {
            &&& sent.payload.session_id@ == session_id
            &&& sent.payload.exit_code == exit_code
            &&& sent.output_tail == output_tail
            &&& match (loaded.created_at, sent.runtime_secs) {
                (Some(created), Some(seconds)) => seconds == seconds_between(created, now),
                (None, None) => true,
                _ => false,
            }
            &&& match (loaded.injection, sent.injection) {
                (Some((session, code)), Some((to, message))) => to@ == session@ && message@
                    == exit_context(command, code, buffer),
                (None, None) => true,
                _ => false,
            }
        },
        (Ok(Some(_)), None) => false,
        (Ok(None), sent) => sent is None,
        (Err(_), sent) => sent is None,
    }
}

/// Finalizes a terminal. Only a row that was marked now leads to anything; in
/// every other case the session is dropped and nothing is sent again.
pub fn finalize_terminal_session(
    session_id: &str,
    exit_code: Option<i32>,
    output_tail: Option<String>,
    context: Result<Option<TerminalExitContext>, String>,
    now: i64,
    buffer: &VecDeque<u8>,
    command: &str,
) -> (effects: Option<ExitEffects>)
    requires
        context matches Ok(Some(loaded)) ==> loaded.created_at matches Some(created) ==> now
            - created <= i64::MAX,
    ensures
        finalizes(
            session_id@,
            exit_code,
            output_tail,
            context,
            now,
            buffer@,
            command@,
            effects,
        ),
{
    let loaded = match context {
        Ok(Some(loaded)) => loaded,
        _ => return None,
    };
    let runtime_secs = match loaded.created_at {
        Some(created) => Some(elapsed(created, now)),
        None => None,
    };
    let injection = match loaded.injection {
        Some((session, code)) => Some((session, terminal_exit_context(command, code, buffer))),
        None => None,
    };
    Some(
        ExitEffects {
            payload: PtyExitPayload { session_id: session_id.to_owned(), exit_code },
            runtime_secs,
            output_tail,
            injection,
        },
    )
}

/// Finalizing a terminal again changes nothing and sends nothing, whoever tries and
/// with whatever exit code: a row that exited is left as it is, so there is no context
/// to finalize it with.
pub proof fn law_second_finalizing_sends_nothing(
    row: WakeRowModel,
    first: (Option<i32>, Option<Seq<char>>, i64),
    exit_code: Option<i32>,
    output_tail: Option<String>,
    now: i64,
    created_at: Option<i64>,
    job_id: Option<Seq<char>>,
    current_session: Option<Seq<char>>,
    context: Option<TerminalExitContext>,
    session_id: Seq<char>,
    buffer: Seq<u8>,
    command: Seq<char>,
    effects: Option<ExitEffects>,
)
    requires
        marked_exited(row, first.0, first.1, first.2) is Some,
        is_exit_context(
            context,
            marked_exited(
                marked_exited(row, first.0, first.1, first.2)->Some_0,
                exit_code,
                opt_text(output_tail),
                now,
            ) is Some,
            created_at,
            job_id,
            exit_code,
            current_session,
        ),
        finalizes(
            session_id,
            exit_code,
            output_tail,
            Ok(context),
            now,
            buffer,
            command,
            effects,
        ),
    ensures
        effects is None,
        marked_exited(
            marked_exited(row, first.0, first.1, first.2)->Some_0,
            exit_code,
            opt_text(output_tail),
            now,
        ) is None,
{
    law_exit_is_recorded_once(
        row,
        first.0,
        first.1,
        first.2,
        exit_code,
        opt_text(output_tail),
        now,
    );
}

/// What an executor reports of a process.
#[derive(Debug)]
pub enum ProcessEventKind {
    Output(Vec<u8>),
    Exited { exit_code: Option<i32>, executor_lost: bool },
    Other,
}

/// A report of an executor on a process.
#[derive(Debug)]
pub struct ProcessEvent {
    pub incarnation_id: String,
    pub lease_epoch: u64,
    pub process_key: String,
    pub process_generation: u64,
    pub kind: ProcessEventKind,
}

/// What a report leads to.
#[derive(Debug)]
pub enum EventEffect {
    Ignore,
    /// The text is shown, kept and searched for the phrases that are waited for.
    Show(String),
    /// The terminal is finalized; where its executor was lost it says so first.
    Finish { exit_code: Option<i32>, notice: bool },
}

/// Whether a report is of the life of the lease that a fence names.
pub open spec fn of_this_life(fence: LeaseFence, event: ProcessEvent) -> bool {
    event.incarnation_id@ == fence.incarnation_id@ && event.lease_epoch == fence.lease_epoch
}

/// What a report of the right process leads to.
pub open spec fn effect_of(kind: ProcessEventKind, notices: bool, effect: EventEffect) -> bool {
    match kind {
        ProcessEventKind::Output(bytes) => effect matches EventEffect::Show(text) && text@
            == utf8_lossy(bytes@),
        ProcessEventKind::Exited { exit_code, executor_lost } => effect == (EventEffect::Finish {
            exit_code,
            notice: notices && executor_lost,
        }),
        ProcessEventKind::Other => effect is Ignore,
    }
}

/// What a report of the right process leads to.
fn take_up(kind: ProcessEventKind, notices: bool) -> (effect: EventEffect)
    ensures
        effect_of(kind, notices, effect),
{
    match kind {
        ProcessEventKind::Output(bytes) => EventEffect::Show(
            string_from_utf8_lossy(bytes.as_slice()),
        ),
        ProcessEventKind::Exited { exit_code, executor_lost } => EventEffect::Finish {
            exit_code,
            notice: notices && executor_lost,
        },
        ProcessEventKind::Other => EventEffect::Ignore,
    }
}

/// Whether a report reaches a terminal that was started here: it is of the same
/// life of the lease, and of the generation that the session is bound to, where it
/// knows it already. Generation zero stands for a process whose start was not
/// answered yet.
pub open spec fn reaches_started(fence: LeaseFence, bound: Option<u64>, event: ProcessEvent) -> bool {
    of_this_life(fence, event) && (bound matches Some(generation) && (generation == 0 || generation
        == event.process_generation))
}

/// Whether an event of a started terminal has this effect.
pub open spec fn takes_up_started(
    fence: &LeaseFence,
    bound: Option<u64>,
    event: ProcessEvent,
    effect: EventEffect,
) -> bool {
    if reaches_started(*fence, bound, event) {
        effect_of(event.kind, true, effect)
    } else {
        effect is Ignore
    }
}

/// Takes up a report for a terminal that was started here.
pub fn on_terminal_event(fence: &LeaseFence, bound: Option<u64>, event: ProcessEvent) -> (effect:
    EventEffect)
    ensures
        takes_up_started(fence, bound, event, effect),
{
    let ours = same_text(event.incarnation_id.as_str(), fence.incarnation_id.as_str())
        && event.lease_epoch == fence.lease_epoch && match bound {
        Some(generation) => generation == 0 || generation == event.process_generation,
        None => false,
    };
    if ours {
        take_up(event.kind, true)
    } else {
        EventEffect::Ignore
    }
}

/// Whether a report reaches a terminal that took over a running process: it is of
/// exactly that process.
pub open spec fn reaches_promoted(
    fence: LeaseFence,
    process_key: Seq<char>,
    generation: u64,
    event: ProcessEvent,
) -> bool {
    of_this_life(fence, event) && event.process_key@ == process_key && event.process_generation
        == generation
}

/// Whether an event of a promoted terminal has this effect.
pub open spec fn takes_up_promoted(
    fence: &LeaseFence,
    process_key: &str,
    generation: u64,
    event: ProcessEvent,
    effect: EventEffect,
) -> bool {
    if reaches_promoted(*fence, process_key@, generation, event) {
        effect_of(event.kind, false, effect)
    } else {
        effect is Ignore
    }
}

/// Takes up a report for a terminal that took over a running process.
pub fn on_promoted_event(
    fence: &LeaseFence,
    process_key: &str,
    generation: u64,
    event: ProcessEvent,
) -> (effect: EventEffect)
    ensures
        takes_up_promoted(fence, process_key, generation, event, effect),
{
    let ours = same_text(event.incarnation_id.as_str(), fence.incarnation_id.as_str())
        && event.lease_epoch == fence.lease_epoch && same_text(
        event.process_key.as_str(),
        process_key,
    ) && event.process_generation == generation;
    if ours {
        take_up(event.kind, false)
    } else {
        EventEffect::Ignore
    }
}

/// The row of a terminal that has exited: as read after the subscription, or else
/// as known before it.
pub open spec fn settled_exit(fresh: Option<WakeRowModel>, row: Option<WakeRowModel>) -> Option<
    WakeRowModel,
> {
    match fresh {
        Some(read) => if read.status == "exited"@ {
            Some(read)
        } else {
            known_exit(row)
        },
        None => known_exit(row),
    }
}

/// The row where it has exited.
pub open spec fn known_exit(row: Option<WakeRowModel>) -> Option<WakeRowModel> {
    match row {
        Some(known) => if known.status == "exited"@ {
            Some(known)
        } else {
            None
        },
        None => None,
    }
}

/// What an exit is reported with.
#[derive(Debug)]
pub struct ExitNotice {
    pub exit_code: Option<i32>,
    pub runtime_secs: Option<i64>,
    pub output_tail: Option<String>,
}

/// Whether a notice reports the exit of a row.
pub open spec fn reports(notice: ExitNotice, row: WakeRowModel) -> bool {
    &&& notice.exit_code == row.exit_code
    &&& opt_text(notice.output_tail) == row.output_tail
    &&& match (row.exited_at, notice.runtime_secs) {
        (Some(exited), Some(seconds)) => seconds == seconds_between(row.created_at, exited),
        (None, None) => true,
        _ => false,
    }
}

/// Whether the runtime that a row records can be counted in seconds.
pub open spec fn runtime_fits(row: Option<WakeRowModel>) -> bool {
    row matches Some(found) ==> found.exited_at matches Some(exited) ==> exited - found.created_at
        <= i64::MAX
}

/// The notice of a row that has exited.
fn notice_of(row: &TerminalWakeRow) -> (notice: ExitNotice)
    requires
        runtime_fits(Some(row@)),
    ensures
        reports(notice, row@),
{
    let runtime_secs = match row.exited_at {
        Some(exited) => Some(elapsed(row.created_at, exited)),
        None => None,
    };
    ExitNotice { exit_code: row.exit_code, runtime_secs, output_tail: clone_opt(&row.output_tail) }
}

/// The notice of an exit that came before the subscription.
pub fn missed_exit(fresh: &Option<TerminalWakeRow>, row: &Option<TerminalWakeRow>) -> (notice:
    Option<ExitNotice>)
    requires
        runtime_fits(row_model(*fresh)),
        runtime_fits(row_model(*row)),
    ensures
        match (notice, settled_exit(row_model(*fresh), row_model(*row))) {
            (Some(sent), Some(exited)) => reports(sent, exited),
            (None, None) => true,
            _ => false,
        },
{
    if let Some(read) = fresh {
        if same_text(read.status.as_str(), "exited") {
            return Some(notice_of(read));
        }
    }
    if let Some(known) = row {
        if same_text(known.status.as_str(), "exited") {
            return Some(notice_of(known));
        }
    }
    None
}

/// How a wake was subscribed to.
#[derive(Clone, Copy, Debug)]
pub enum TerminalWakeSubscriptionOutcome {
    ExitSubscribed,
    ExitAlreadyQueued,
    OutputRegistered,
    OutputAlreadyQueued,
    OutputPersisted,
}

/// What comes after a wake was stored and the row read again.
#[derive(Debug)]
pub enum WakeStep {
    /// The exit is already there: it is sent on, and the wake is queued.
    RouteExit(ExitNotice),
    /// The output of this session is watched for the phrase.
    Watch(String),
    /// Nothing more is to be done.
    Done(TerminalWakeSubscriptionOutcome),
}

/// Whether a wake on exit goes on like this.
pub open spec fn wakes_on_exit(
    stored: Result<(), String>,
    fresh: Result<Option<TerminalWakeRow>, String>,
    row: &Option<TerminalWakeRow>,
    step: Result<WakeStep, String>,
) -> bool {
    match (stored, fresh) {
        (Err(error), _) => step == Err::<WakeStep, String>(error),
        (Ok(()), Err(error)) => step == Err::<WakeStep, String>(error),
        (Ok(()), Ok(read)) => match settled_exit(row_model(read), row_model(*row)) {
            Some(exited) => step matches Ok(WakeStep::RouteExit(notice)) && reports(
                notice,
                exited,
            ),
            None => step == Ok::<WakeStep, String>(
                WakeStep::Done(TerminalWakeSubscriptionOutcome::ExitSubscribed),
            ),
        },
    }
}

/// Goes on with a wake on exit once it is stored. A row that cannot be read again
/// is a failure: the exit could have been missed.
pub fn subscribe_terminal_exit_wake_once(
    stored: Result<(), String>,
    fresh: Result<Option<TerminalWakeRow>, String>,
    row: &Option<TerminalWakeRow>,
) -> (step: Result<WakeStep, String>)
    requires
        fresh matches Ok(read) ==> runtime_fits(row_model(read)),
        runtime_fits(row_model(*row)),
    ensures
        wakes_on_exit(stored, fresh, row, step),
{
    match stored {
        Err(error) => return Err(error),
        Ok(()) => {},
    }
    let read = match fresh {
        Err(error) => return Err(error),
        Ok(read) => read,
    };
    match missed_exit(&read, row) {
        Some(notice) => Ok(WakeStep::RouteExit(notice)),
        None => Ok(WakeStep::Done(TerminalWakeSubscriptionOutcome::ExitSubscribed)),
    }
}

/// The session whose output is watched: the one given, or else the row's.
pub open spec fn watched_session(
    session_id: Option<Seq<char>>,
    row: Option<WakeRowModel>,
) -> Option<Seq<char>> {
    match (session_id, row) {
        (Some(id), _) => Some(id),
        (None, Some(known)) => known.session_id,
        (None, None) => None,
    }
}

/// Whether a wake on output goes on like this.
pub open spec fn wakes_on_output(
    stored: Result<(), String>,
    fresh: Result<Option<TerminalWakeRow>, String>,
    row: &Option<TerminalWakeRow>,
    session_id: Option<&str>,
    step: Result<WakeStep, String>,
) -> bool {
    match (stored, fresh) {
        (Err(error), _) => step == Err::<WakeStep, String>(error),
        (Ok(()), Err(error)) => step == Err::<WakeStep, String>(error),
        (Ok(()), Ok(read)) => match settled_exit(row_model(read), row_model(*row)) {
            Some(exited) => step matches Ok(WakeStep::RouteExit(notice)) && reports(
                notice,
                exited,
            ),
            None => match watched_session(opt_str(session_id), row_model(*row)) {
                Some(session) => step matches Ok(WakeStep::Watch(id)) && id@ == session,
                None => step == Ok::<WakeStep, String>(
                    WakeStep::Done(TerminalWakeSubscriptionOutcome::OutputPersisted),
                ),
            },
        },
    }
}

/// Goes on with a wake on output once it is stored. A terminal that has exited
/// wakes for that; else its output is watched, where a session is known.
pub fn subscribe_terminal_output_wake_once(
    stored: Result<(), String>,
    fresh: Result<Option<TerminalWakeRow>, String>,
    row: &Option<TerminalWakeRow>,
    session_id: Option<&str>,
) -> (step: Result<WakeStep, String>)
    requires
        fresh matches Ok(read) ==> runtime_fits(row_model(read)),
        runtime_fits(row_model(*row)),
    ensures
        wakes_on_output(stored, fresh, row, session_id, step),
{
    match stored {
        Err(error) => return Err(error),
        Ok(()) => {},
    }
    let read = match fresh {
        Err(error) => return Err(error),
        Ok(read) => read,
    };
    match missed_exit(&read, row) {
        Some(notice) => return Ok(WakeStep::RouteExit(notice)),
        None => {},
    }
    let session = match session_id {
        Some(id) => Some(id.to_owned()),
        None => match row {
            Some(known) => clone_opt(&known.session_id),
            None => None,
        },
    };
    match session {
        Some(id) => Ok(WakeStep::Watch(id)),
        None => Ok(WakeStep::Done(TerminalWakeSubscriptionOutcome::OutputPersisted)),
    }
}

/// Whether a registration comes to this.
pub open spec fn is_watch_outcome(
    registration: &OutputWatchRegistration,
    outcome: TerminalWakeSubscriptionOutcome,
) -> bool {
    outcome == match *registration {
        OutputWatchRegistration::AlreadyPresent { .. } => {
            TerminalWakeSubscriptionOutcome::OutputAlreadyQueued
        },
        OutputWatchRegistration::Registered => {
            TerminalWakeSubscriptionOutcome::OutputRegistered
        },
        OutputWatchRegistration::NotLive => TerminalWakeSubscriptionOutcome::OutputPersisted,
    }
}

/// How the wake on output stands once its session was asked to watch for it.
pub fn watch_outcome(registration: &OutputWatchRegistration) -> (outcome:
    TerminalWakeSubscriptionOutcome)
    ensures
        is_watch_outcome(registration, outcome),
{
    match registration {
        OutputWatchRegistration::AlreadyPresent { .. } => {
            TerminalWakeSubscriptionOutcome::OutputAlreadyQueued
        },
        OutputWatchRegistration::Registered => TerminalWakeSubscriptionOutcome::OutputRegistered,
        OutputWatchRegistration::NotLive => TerminalWakeSubscriptionOutcome::OutputPersisted,
    }
}

/// An exit that the row shows once the wake is stored is always sent on, whatever
/// the row said before.
pub proof fn law_exit_is_never_missed(fresh: WakeRowModel, row: Option<WakeRowModel>)
    ensures
        fresh.status == "exited"@ ==> settled_exit(Some(fresh), row) == Some(fresh),
        settled_exit(Some(fresh), row) is None ==> fresh.status != "exited"@,
{
}

/// The job that a wake on a new terminal is for, or why there is none. A terminal
/// of a job wakes that job; one of a project wakes the job of the calling run.
pub open spec fn wake_subscriber_of(
    wakes: bool,
    job_id: Option<Seq<char>>,
    caller: Option<Seq<char>>,
    job_of_caller: Result<Option<String>, String>,
) -> Result<Option<Seq<char>>, Seq<char>> {
    if !wakes {
        Ok(None)
    } else {
        match (job_id, caller) {
            (Some(job), _) => Ok(Some(job)),
            (None, None) => Err(
                "payload.wake requires an agent caller when creating a project terminal"@,
            ),
            (None, Some(run)) => match job_of_caller {
                Err(error) => Err(error@),
                Ok(None) => Err(
                    "payload.wake requires an agent caller; no job found for run "@ + run,
                ),
                Ok(Some(job)) => Ok(Some(job@)),
            },
        }
    }
}

/// The job that a wake on a new terminal is for, or why there is none.
pub fn wake_subscriber(
    wake: &Option<TerminalWakeSpec>,
    job_id: &Option<String>,
    caller_run_id: Option<&str>,
    job_of_caller: Result<Option<String>, String>,
) -> (subscriber: Result<Option<String>, String>)
    ensures
        match (
            subscriber,
            wake_subscriber_of(
                *wake is Some,
                opt_text(*job_id),
                opt_str(caller_run_id),
                job_of_caller,
            ),
        ) {
            (Ok(job), Ok(model)) => opt_text(job) == model,
            (Err(error), Err(reason)) => error@ == reason,
            _ => false,
        },
{
    if wake.is_none() {
        return Ok(None);
    }
    match job_id {
        Some(job) => Ok(Some(job.clone())),
        None => match caller_run_id {
            None => Err(
                "payload.wake requires an agent caller when creating a project terminal".to_owned(),
            ),
            Some(run) => match job_of_caller {
                Err(error) => Err(error),
                Ok(None) => Err(
                    text2("payload.wake requires an agent caller; no job found for run ", run),
                ),
                Ok(Some(job)) => Ok(Some(job)),
            },
        },
    }
}

/// Whether the answer tells if a shell runs one command.
pub open spec fn is_once(wake: &Option<TerminalWakeSpec>, one_shot: bool) -> bool {
    one_shot == (*wake matches Some(TerminalWakeSpec::Exit))
}

/// Whether a new terminal ends with its command: only where its exit is waited
/// for.
pub fn is_one_shot(wake: &Option<TerminalWakeSpec>) -> (one_shot: bool)
    ensures
        is_once(wake, one_shot),
{
    match wake {
        Some(TerminalWakeSpec::Exit) => true,
        _ => false,
    }
}

/// How a subscription to the wake is written.
pub open spec fn wake_member(wake: TerminalWakeSpec) -> Seq<char> {
    match wake {
        TerminalWakeSpec::Exit => "\"exit\""@,
        TerminalWakeSpec::Output(phrase) => "\"output\",phrase:\""@ + phrase@ + "\""@,
    }
}

/// What the creator of a terminal with a wake is told.
pub open spec fn wake_message(
    slug: Seq<char>,
    uri: Seq<char>,
    wake: TerminalWakeSpec,
    result: Result<TerminalWakeSubscriptionOutcome, String>,
) -> Seq<char> {
    let started = "Started terminal "@ + slug;
    match (wake, result) {
        (_, Err(error)) => started + "; automatic wake could not be registered ("@ + error@
            + "). Subscribe via cairn:~/wakes: {subscribe:{kind:\"terminal\",ref:\""@ + uri
            + "\",on:"@ + wake_member(wake) + "}}"@,
        (TerminalWakeSpec::Exit, Ok(TerminalWakeSubscriptionOutcome::ExitSubscribed)) => started
            + "; subscribed to exit — end your turn to resume when it finishes ("@ + uri + ")"@,
        (TerminalWakeSpec::Exit, Ok(TerminalWakeSubscriptionOutcome::ExitAlreadyQueued)) => started
            + "; subscribed to exit — end your turn to resume when it finishes ("@ + uri + ")"@,
        (
            TerminalWakeSpec::Output(phrase),
            Ok(TerminalWakeSubscriptionOutcome::ExitAlreadyQueued),
        ) => started + "; it already exited before \""@ + phrase@
            + "\" appeared, so resume is queued for turn end ("@ + uri + ")"@,
        (
            TerminalWakeSpec::Output(phrase),
            Ok(TerminalWakeSubscriptionOutcome::OutputRegistered),
        ) => started + "; watching output for \""@ + phrase@
            + "\" (also wakes on exit) — end your turn to resume when it appears ("@ + uri + ")"@,
        (
            TerminalWakeSpec::Output(phrase),
            Ok(TerminalWakeSubscriptionOutcome::OutputPersisted),
        ) => started + "; watching output for \""@ + phrase@
            + "\" (also wakes on exit) — end your turn to resume when it appears ("@ + uri + ")"@,
        (
            TerminalWakeSpec::Output(phrase),
            Ok(TerminalWakeSubscriptionOutcome::OutputAlreadyQueued),
        ) => started + "; output \""@ + phrase@
            + "\" already appeared, so resume is queued for turn end ("@ + uri + ")"@,
        _ => started + "; automatic wake registered ("@ + uri + ")"@,
    }
}

/// A message that ends in the terminal's address.
fn with_uri(started: &str, said: &str, uri: &str) -> (message: String)
    ensures
        message@ == started@ + said@ + uri@ + ")"@,
{
    let mut message = text3(started, said, uri);
    message.append(")");
    message
}

/// A message that names the phrase and ends in the terminal's address.
fn with_phrase(started: &str, before: &str, phrase: &str, after: &str, uri: &str) -> (message:
    String)
    ensures
        message@ == started@ + before@ + phrase@ + after@ + uri@ + ")"@,
{
    let mut message = text3(started, before, phrase);
    message.append(after);
    message.append(uri);
    message.append(")");
    message
}

/// How a subscription to the wake is written.
fn render_wake_member(wake: &TerminalWakeSpec) -> (member: String)
    ensures
        member@ == wake_member(*wake),
{
    match wake {
        TerminalWakeSpec::Exit => "\"exit\"".to_owned(),
        TerminalWakeSpec::Output(phrase) => text3("\"output\",phrase:\"", phrase.as_str(), "\""),
    }
}

/// What the creator of a terminal is told.
pub fn created_message(
    slug: &str,
    uri: &str,
    wake: &Option<TerminalWakeSpec>,
    result: Result<TerminalWakeSubscriptionOutcome, String>,
) -> (message: String)
    ensures
        message@ == match *wake {
            None => "Started terminal "@ + slug@,
            Some(spec) => wake_message(slug@, uri@, spec, result),
        },
{
    let started = text2("Started terminal ", slug);
    let wake = match wake {
        None => return started,
        Some(wake) => wake,
    };
    let outcome = match result {
        Err(error) => {
            let mut message = text3(
                started.as_str(),
                "; automatic wake could not be registered (",
                error.as_str(),
            );
            message.append("). Subscribe via cairn:~/wakes: {subscribe:{kind:\"terminal\",ref:\"");
            message.append(uri);
            message.append("\",on:");
            message.append(render_wake_member(wake).as_str());
            message.append("}}");
            return message;
        },
        Ok(outcome) => outcome,
    };
    match (wake, outcome) {
        (TerminalWakeSpec::Exit, TerminalWakeSubscriptionOutcome::ExitSubscribed) => with_uri(
            started.as_str(),
            "; subscribed to exit — end your turn to resume when it finishes (",
            uri,
        ),
        (TerminalWakeSpec::Exit, TerminalWakeSubscriptionOutcome::ExitAlreadyQueued) => with_uri(
            started.as_str(),
            "; subscribed to exit — end your turn to resume when it finishes (",
            uri,
        ),
        (TerminalWakeSpec::Output(phrase), TerminalWakeSubscriptionOutcome::ExitAlreadyQueued) => {
            with_phrase(
                started.as_str(),
                "; it already exited before \"",
                phrase.as_str(),
                "\" appeared, so resume is queued for turn end (",
                uri,
            )
        },
        (TerminalWakeSpec::Output(phrase), TerminalWakeSubscriptionOutcome::OutputRegistered) => {
            with_phrase(
                started.as_str(),
                "; watching output for \"",
                phrase.as_str(),
                "\" (also wakes on exit) — end your turn to resume when it appears (",
                uri,
            )
        },
        (TerminalWakeSpec::Output(phrase), TerminalWakeSubscriptionOutcome::OutputPersisted) => {
            with_phrase(
                started.as_str(),
                "; watching output for \"",
                phrase.as_str(),
                "\" (also wakes on exit) — end your turn to resume when it appears (",
                uri,
            )
        },
        (TerminalWakeSpec::Output(phrase), TerminalWakeSubscriptionOutcome::OutputAlreadyQueued) => {
            with_phrase(
                started.as_str(),
                "; output \"",
                phrase.as_str(),
                "\" already appeared, so resume is queued for turn end (",
                uri,
            )
        },
        _ => with_uri(started.as_str(), "; automatic wake registered (", uri),
    }
}

/// A terminal that runs is marked as exited now, with the code and the end of its output;
/// one that does not run is left alone. Nothing else changes.
pub proof fn law_only_running_terminals_exit(
    row: WakeRowModel,
    exit_code: Option<i32>,
    tail: Option<Seq<char>>,
    now: i64,
)
    ensures
        marked_exited(row, exit_code, tail, now) is Some <==> row.status == "running"@,
        marked_exited(row, exit_code, tail, now) matches Some(after) ==> {
            &&& after.status == "exited"@
            &&& after.exit_code == exit_code
            &&& after.exited_at == Some(now)
            &&& after.output_tail == tail
            &&& after.created_at == row.created_at
            &&& after.session_id == row.session_id
        },
{
}

/// An exit is told to the agent exactly if a job's terminal failed while the job has a
/// session: to that session, with that code.
pub proof fn law_failed_exit_is_told_to_the_agent(
    job_id: Option<Seq<char>>,
    exit_code: Option<i32>,
    session: Option<Seq<char>>,
)
    ensures
        injection_target(job_id, exit_code, session) is Some <==> job_id is Some && session is Some
            && (exit_code matches Some(code) && code != 0),
        injection_target(job_id, exit_code, session) matches Some((to, code)) ==> session == Some(
            to,
        ) && exit_code == Some(code),
{
}

/// What is sent of an exit is what is known of it: its session, its code, how long it ran
/// and the end of its output, each as it was; and nothing is sent where the exit was
/// recorded before or cannot be read.
pub proof fn law_exit_is_sent_as_it_was(
    session_id: Seq<char>,
    exit_code: Option<i32>,
    tail: Option<String>,
    context: Result<Option<TerminalExitContext>, String>,
    now: i64,
    buffer: Seq<u8>,
    command: Seq<char>,
    effects: Option<ExitEffects>,
)
    requires
        finalizes(session_id, exit_code, tail, context, now, buffer, command, effects),
    ensures
        effects is Some <==> (context matches Ok(Some(_))),
        effects matches Some(sent) ==> {
            let loaded = context->Ok_0->Some_0;
            &&& sent.payload.session_id@ == session_id
            &&& sent.payload.exit_code == exit_code
            &&& sent.output_tail == tail
            &&& sent.runtime_secs is Some <==> loaded.created_at is Some
            &&& loaded.created_at matches Some(created) ==> created <= now
                ==> sent.runtime_secs->Some_0 == now - created
            &&& sent.injection is Some <==> loaded.injection is Some
            &&& sent.injection matches Some((to, message)) ==> to@ == loaded.injection->Some_0.0@
                && message@ == exit_context(command, loaded.injection->Some_0.1, buffer)
        },
{
    if let Some(sent) = effects {
        let loaded = context->Ok_0->Some_0;
        if let Some(created) = loaded.created_at {
            let seconds = sent.runtime_secs->Some_0;
            assert(seconds == seconds_between(created, now));
        }
    }
}

/// The time between two moments is their difference, and none where the second is not
/// later.
pub proof fn law_time_runs_forward(from: i64, to: i64)
    ensures
        to >= from ==> seconds_between(from, to) == to - from,
        to <= from ==> seconds_between(from, to) == 0,
{
}

/// An event reaches a terminal exactly if it comes from its lease's life and from its
/// process: any process before the first is known, and that one from then on. It reaches a
/// promoted terminal only from the process that was promoted.
pub proof fn law_events_of_other_lives_are_ignored(
    fence: LeaseFence,
    bound: Option<u64>,
    key: Seq<char>,
    generation: u64,
    event: ProcessEvent,
)
    ensures
        reaches_started(fence, bound, event) <==> {
            &&& event.incarnation_id@ == fence.incarnation_id@
            &&& event.lease_epoch == fence.lease_epoch
            &&& bound == Some(0u64) || bound == Some(event.process_generation)
        },
        reaches_promoted(fence, key, generation, event) <==> {
            &&& event.incarnation_id@ == fence.incarnation_id@
            &&& event.lease_epoch == fence.lease_epoch
            &&& event.process_key@ == key
            &&& event.process_generation == generation
        },
{
}

/// Output is shown as text, an exit ends the terminal with its code and with a notice
/// exactly if notices are given and the executor was lost, and nothing else has an effect.
pub proof fn law_events_do_what_they_say(
    kind: ProcessEventKind,
    notices: bool,
    effect: EventEffect,
)
    requires
        effect_of(kind, notices, effect),
    ensures
        effect is Ignore <==> kind is Other,
        effect is Show <==> kind is Output,
        effect is Finish <==> kind is Exited,
        effect matches EventEffect::Show(text) ==> (kind matches ProcessEventKind::Output(bytes)
            && text@ == utf8_lossy(bytes@)),
        effect matches EventEffect::Finish { exit_code, notice } ==> (kind
            matches ProcessEventKind::Exited { exit_code: code, executor_lost } && exit_code == code
            && notice == (notices && executor_lost)),
{
}

/// The exit that is reported is that of the row as it is now, or else of the row as it was;
/// none is reported exactly if neither has exited.
pub proof fn law_newest_exit_is_reported(fresh: Option<WakeRowModel>, row: Option<WakeRowModel>)
    ensures
        fresh matches Some(read) ==> (read.status == "exited"@ ==> settled_exit(fresh, row) == Some(
            read,
        )),
        (fresh matches Some(read) ==> read.status != "exited"@) ==> (row matches Some(known) ==> (
        known.status == "exited"@ ==> settled_exit(fresh, row) == Some(known))),
        settled_exit(fresh, row) is None <==> (fresh matches Some(read) ==> read.status
            != "exited"@) && (row matches Some(known) ==> known.status != "exited"@),
{
}

/// A notice of an exit gives the code and the end of the output, and how long the terminal
/// ran where that is known.
pub proof fn law_notice_tells_of_the_exit(notice: ExitNotice, row: WakeRowModel)
    requires
        reports(notice, row),
    ensures
        notice.exit_code == row.exit_code,
        opt_text(notice.output_tail) == row.output_tail,
        notice.runtime_secs is Some <==> row.exited_at is Some,
        row.exited_at matches Some(exited) ==> exited >= row.created_at
            ==> notice.runtime_secs->Some_0 == exited - row.created_at,
{
}

/// The session that is watched is the one that is named, or else the one of the row.
pub proof fn law_named_session_is_watched(session: Seq<char>, row: Option<WakeRowModel>)
    ensures
        watched_session(Some(session), row) == Some(session),
        row matches Some(known) ==> watched_session(None, row) == known.session_id,
        row is None ==> watched_session(None, row) is None,
{
}

/// Who is woken is the job of the terminal, or else the job of the caller; a wake without
/// either is refused, and without a wake nobody is woken.
pub proof fn law_wake_goes_to_the_job(
    job: Option<Seq<char>>,
    caller: Option<Seq<char>>,
    found: Result<Option<String>, String>,
)
    ensures
        wake_subscriber_of(false, job, caller, found) == Ok::<Option<Seq<char>>, Seq<char>>(None),
        job is Some ==> wake_subscriber_of(true, job, caller, found) == Ok::<
            Option<Seq<char>>,
            Seq<char>,
        >(job),
        job is None && caller is None ==> wake_subscriber_of(true, job, caller, found) is Err,
        job is None && caller is Some ==> match found {
            Ok(Some(id)) => wake_subscriber_of(true, job, caller, found) == Ok::<
                Option<Seq<char>>,
                Seq<char>,
            >(Some(id@)),
            Ok(None) => wake_subscriber_of(true, job, caller, found) is Err,
            Err(error) => wake_subscriber_of(true, job, caller, found) == Err::<
                Option<Seq<char>>,
                Seq<char>,
            >(error@),
        },
{
}

/// The message on a started terminal names it; with a wake it gives the address, the phrase
/// that is waited for where there is one, and the fault where the wake could not be set up.
pub proof fn law_message_names_the_terminal(
    slug: Seq<char>,
    uri: Seq<char>,
    phrase: String,
    error: String,
)
    ensures
        forall|wake: TerminalWakeSpec, result: Result<TerminalWakeSubscriptionOutcome, String>|
            ("Started terminal "@ + slug).is_prefix_of(
                #[trigger] wake_message(slug, uri, wake, result),
            ),
        wake_message(
            slug,
            uri,
            TerminalWakeSpec::Exit,
            Ok::<TerminalWakeSubscriptionOutcome, String>(
                TerminalWakeSubscriptionOutcome::ExitSubscribed,
            ),
        ) == "Started terminal "@ + slug
            + "; subscribed to exit — end your turn to resume when it finishes ("@ + uri + ")"@,
        wake_message(
            slug,
            uri,
            TerminalWakeSpec::Output(phrase),
            Ok::<TerminalWakeSubscriptionOutcome, String>(
                TerminalWakeSubscriptionOutcome::OutputRegistered,
            ),
        ) == "Started terminal "@ + slug + "; watching output for \""@ + phrase@
            + "\" (also wakes on exit) — end your turn to resume when it appears ("@ + uri + ")"@,
        wake_message(
            slug,
            uri,
            TerminalWakeSpec::Output(phrase),
            Ok::<TerminalWakeSubscriptionOutcome, String>(
                TerminalWakeSubscriptionOutcome::OutputAlreadyQueued,
            ),
        ) == "Started terminal "@ + slug + "; output \""@ + phrase@
            + "\" already appeared, so resume is queued for turn end ("@ + uri + ")"@,
        wake_message(
            slug,
            uri,
            TerminalWakeSpec::Output(phrase),
            Ok::<TerminalWakeSubscriptionOutcome, String>(
                TerminalWakeSubscriptionOutcome::ExitAlreadyQueued,
            ),
        ) == "Started terminal "@ + slug + "; it already exited before \""@ + phrase@
            + "\" appeared, so resume is queued for turn end ("@ + uri + ")"@,
        wake_message(
            slug,
            uri,
            TerminalWakeSpec::Output(phrase),
            Err::<TerminalWakeSubscriptionOutcome, String>(error),
        ) == "Started terminal "@ + slug + "; automatic wake could not be registered ("@ + error@
            + "). Subscribe via cairn:~/wakes: {subscribe:{kind:\"terminal\",ref:\""@ + uri
            + "\",on:"@ + ("\"output\",phrase:\""@ + phrase@ + "\""@) + "}}"@,
{
    let started = "Started terminal "@ + slug;
    assert forall|wake: TerminalWakeSpec, result: Result<TerminalWakeSubscriptionOutcome, String>|
        started.is_prefix_of(#[trigger] wake_message(slug, uri, wake, result)) by {
        let message = wake_message(slug, uri, wake, result);
        assert(started =~= message.subrange(0, started.len() as int));
    }
}

/// A wake that was stored tells an exit that came before it; otherwise it waits: for the
/// exit, or for the output of the session that is known. A fault on the way is passed on.
pub proof fn law_stored_wake_tells_an_early_exit(
    stored: Result<(), String>,
    fresh: Result<Option<TerminalWakeRow>, String>,
    row: &Option<TerminalWakeRow>,
    session: Option<&str>,
    on_exit: Result<WakeStep, String>,
    on_output: Result<WakeStep, String>,
)
    requires
        wakes_on_exit(stored, fresh, row, on_exit),
        wakes_on_output(stored, fresh, row, session, on_output),
    ensures
        on_exit is Ok <==> stored is Ok && fresh is Ok,
        on_output is Ok <==> stored is Ok && fresh is Ok,
        stored is Ok ==> (fresh matches Ok(read) ==> {
            let exited = settled_exit(row_model(read), row_model(*row));
            &&& exited is Some <==> on_exit->Ok_0 is RouteExit
            &&& exited is Some <==> on_output->Ok_0 is RouteExit
            &&& exited is None ==> on_exit->Ok_0 == WakeStep::Done(
                TerminalWakeSubscriptionOutcome::ExitSubscribed,
            )
            &&& exited is None ==> (on_output->Ok_0 is Watch <==> watched_session(
                opt_str(session),
                row_model(*row),
            ) is Some)
            &&& exited matches Some(known) ==> (on_exit->Ok_0 matches WakeStep::RouteExit(notice)
                && notice.exit_code == known.exit_code)
        }),
{
}

/// An event from another life or process has no effect; one that reaches its terminal has
/// the effect of what it is.
pub proof fn law_only_own_events_have_effects(
    fence: &LeaseFence,
    bound: Option<u64>,
    key: &str,
    generation: u64,
    event: ProcessEvent,
    started: EventEffect,
    promoted: EventEffect,
)
    requires
        takes_up_started(fence, bound, event, started),
        takes_up_promoted(fence, key, generation, event, promoted),
    ensures
        event.incarnation_id@ != fence.incarnation_id@ || event.lease_epoch != fence.lease_epoch
            ==> started is Ignore && promoted is Ignore,
        bound is None ==> started is Ignore,
        reaches_started(*fence, bound, event) ==> effect_of(event.kind, true, started),
        reaches_promoted(*fence, key@, generation, event) ==> effect_of(
            event.kind,
            false,
            promoted,
        ),
        promoted matches EventEffect::Finish { notice, .. } ==> !notice,
{
}

/// A watcher that was registered waits, one whose phrase already appeared is queued, and one
/// of a terminal that does not run is kept; only a wake on exit runs its command once.
pub proof fn law_registration_comes_to_its_outcome(
    registration: &OutputWatchRegistration,
    outcome: TerminalWakeSubscriptionOutcome,
    wake: &Option<TerminalWakeSpec>,
    one_shot: bool,
)
    requires
        is_watch_outcome(registration, outcome),
        is_once(wake, one_shot),
    ensures
        *registration is Registered <==> outcome is OutputRegistered,
        *registration is AlreadyPresent <==> outcome is OutputAlreadyQueued,
        *registration is NotLive <==> outcome is OutputPersisted,
        one_shot <==> *wake == Some(TerminalWakeSpec::Exit),
{
}

} // verus!
