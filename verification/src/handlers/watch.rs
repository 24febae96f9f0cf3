//! Waiting until an issue needs attention or is done, without polling.
//!
//! A watch first looks at the issue as it stands, and only then waits for events.
//! It is subscribed to the events before that look, so that a change between two
//! calls, or during one, is not missed. The cursor of the caller is the time of
//! the newest change that it has seen.
use std::collections::VecDeque;
use vstd::prelude::*;
use vstd::string::*;
use crate::text::{render_i32, same_text, signed_decimal, text2, text3, to_uppercase, uppercase};

verus! {

/// How long one call waits, in seconds.
pub const SERVER_WATCH_BUDGET_SECS: u64 = 290;

/// What an issue needs of the one who drives it.
#[derive(Clone, Copy, Debug, PartialEq, Eq, Structural)]
pub enum IssueAttention {
    Nothing,
    NeedsInput,
    NeedsApproval,
    /// Any other need.
    Needed,
}

/// Where an issue stands.
#[derive(Clone, Copy, Debug, PartialEq, Eq, Structural)]
pub enum IssueStatus {
    Backlog,
    Active,
    Waiting,
    Complete,
    Merged,
    Closed,
    Failed,
}

impl IssueStatus {
    /// Whether there is no more work on the issue.
    pub open spec fn is_over(self) -> bool {
        self is Merged || self is Closed || self is Failed
    }

    /// Whether there is no more work on the issue.
    pub fn is_terminal(&self) -> (over: bool)
        ensures
            over == self.is_over(),
    {
        match self {
            IssueStatus::Merged => true,
            IssueStatus::Closed => true,
            IssueStatus::Failed => true,
            _ => false,
        }
    }
}

/// What a message from outside says.
#[derive(Debug)]
pub struct ExternalMessageReplyContent {
    pub sender: String,
    pub body: String,
}

/// What happened to an issue.
#[derive(Debug)]
pub enum AttentionFact {
    /// The issue is done.
    Resolved { detail_uri: String },
    /// An agent went idle and left work behind.
    AgentIdleWithWork { detail_uri: String },
    /// An agent answered a message from outside.
    ExternalMessageReply {
        detail_uri: String,
        message_id: String,
        content: ExternalMessageReplyContent,
    },
    /// Anything else, with its kind.
    Other { kind: String, detail_uri: String },
}

/// A change of an issue.
#[derive(Debug)]
pub struct AttentionEvent {
    pub issue_id: String,
    pub issue_uri: String,
    pub fact: AttentionFact,
    pub attention: IssueAttention,
    pub status: IssueStatus,
    pub updated_at: i64,
}

/// An issue as it stands.
#[derive(Clone, Copy, Debug)]
pub struct IssueState {
    pub attention: IssueAttention,
    pub status: IssueStatus,
    pub updated_at: i64,
}

/// The issue that is watched.
#[derive(Debug)]
pub struct IssueRef {
    pub project_key: String,
    pub number: i32,
    pub issue_id: String,
}

/// Whether a change is newer than what the caller has seen.
pub open spec fn is_fresh(updated_at: i64, since: Option<i64>) -> bool {
    since matches Some(seen) ==> updated_at > seen
}

/// Whether a change is newer than what the caller has seen.
fn fresh(updated_at: i64, since: Option<i64>) -> (fresh: bool)
    ensures
        fresh == is_fresh(updated_at, since),
{
    match since {
        Some(seen) => updated_at > seen,
        None => true,
    }
}

/// Whether an issue needs its driver, and that since the cursor.
pub fn is_actionable(attention: &IssueAttention, updated_at: i64, since: Option<i64>) -> (due: bool)
    ensures
        due == (*attention != IssueAttention::Nothing && is_fresh(updated_at, since)),
{
    *attention != IssueAttention::Nothing && fresh(updated_at, since)
}

/// Whether an event ends the watch. The end of the issue always does. Idle work
/// and an answer to a message do where they are fresh, whatever attention the
/// issue shows; all else goes by that attention.
pub open spec fn event_due(event: AttentionEvent, since: Option<i64>) -> bool {
    match event.fact {
        AttentionFact::Resolved { .. } => true,
        AttentionFact::AgentIdleWithWork { .. } => is_fresh(event.updated_at, since),
        AttentionFact::ExternalMessageReply { .. } => is_fresh(event.updated_at, since),
        AttentionFact::Other { .. } => event.attention != IssueAttention::Nothing && is_fresh(
            event.updated_at,
            since,
        ),
    }
}

/// Whether an event ends the watch.
pub fn event_is_actionable(event: &AttentionEvent, since: Option<i64>) -> (due: bool)
    ensures
        due == event_due(*event, since),
{
    match &event.fact {
        AttentionFact::Resolved { .. } => true,
        AttentionFact::AgentIdleWithWork { .. } => fresh(event.updated_at, since),
        AttentionFact::ExternalMessageReply { .. } => fresh(event.updated_at, since),
        AttentionFact::Other { .. } => is_actionable(&event.attention, event.updated_at, since),
    }
}

/// What a look at an issue says.
#[derive(Clone, Copy, Debug, PartialEq, Eq, Structural)]
pub enum WatchOutcome {
    /// The issue is done.
    Resolved,
    /// The issue needs its driver.
    Actionable,
    /// Nothing yet.
    NotYet,
}

/// What an issue as it stands says to a watch. That it is done comes first, and
/// does not depend on the cursor.
pub open spec fn outcome_of(state: IssueState, since: Option<i64>) -> WatchOutcome {
    if state.status.is_over() {
        WatchOutcome::Resolved
    } else if state.attention != IssueAttention::Nothing && is_fresh(state.updated_at, since) {
        WatchOutcome::Actionable
    } else {
        WatchOutcome::NotYet
    }
}

/// What an issue as it stands says to a watch.
pub fn evaluate(
    attention: IssueAttention,
    status: IssueStatus,
    updated_at: i64,
    since: Option<i64>,
) -> (outcome: WatchOutcome)
    ensures
        outcome == outcome_of(IssueState { attention, status, updated_at }, since),
{
    if status.is_terminal() {
        WatchOutcome::Resolved
    } else if is_actionable(&attention, updated_at, since) {
        WatchOutcome::Actionable
    } else {
        WatchOutcome::NotYet
    }
}

/// A finished issue ends every watch, whatever its attention and the cursor.
pub proof fn law_finished_issue_ends_the_watch(state: IssueState, since: Option<i64>)
    ensures
        state.status.is_over() <==> outcome_of(state, since) == WatchOutcome::Resolved,
{
}

/// What the caller has seen does not end its watch again: a change is returned
/// only if it is newer than the cursor, unless the issue is done. A change that is
/// newer than the cursor is also newer than every earlier one.
pub proof fn law_cursor_is_strict(event: AttentionEvent, state: IssueState, seen: i64, earlier: i64)
    ensures
        event_due(event, Some(seen)) && !(event.fact is Resolved) ==> event.updated_at > seen,
        outcome_of(state, Some(seen)) == WatchOutcome::Actionable ==> state.updated_at > seen,
        event_due(event, Some(seen)) && earlier <= seen ==> event_due(event, Some(earlier))
            && event_due(event, None),
{
}

/// The answer to a watch.
#[derive(Debug)]
pub enum WatchReply {
    Error(String),
    Event(AttentionEvent),
    /// Nothing happened in time; the cursor to go on with.
    Pending { updated_at: i64 },
}

/// Whether this is the issue that a watch is asked for.
pub open spec fn watches(
    issue_uri: Option<&str>,
    parsed: Option<(Option<String>, Option<i32>)>,
    issue: Result<(String, i32), String>,
) -> bool {
    match (issue_uri, parsed) {
        (None, _) => issue matches Err(error) && error@
            == "watch requires payload.issue_uri"@,
        (Some(_), Some((Some(project), Some(number)))) => issue == Ok::<(String, i32), String>(
            (project, number),
        ),
        (Some(uri), _) => issue matches Err(error) && error@ == "Not an issue URI: "@ + uri@,
    }
}

/// The project and number of the issue that a call names, or why it names none.
/// `parsed` is what the address says.
pub fn watched_issue(issue_uri: Option<&str>, parsed: Option<(Option<String>, Option<i32>)>) -> (
    issue: Result<(String, i32), String>)
    ensures
        watches(issue_uri, parsed, issue),
{
    let uri = match issue_uri {
        None => return Err("watch requires payload.issue_uri".to_owned()),
        Some(uri) => uri,
    };
    match parsed {
        Some((Some(project), Some(number))) => Ok((project, number)),
        _ => Err(text2("Not an issue URI: ", uri)),
    }
}

/// The key under which a project is looked up: its upper case.
pub fn issue_lookup_key(project_key: &str) -> (key: String)
    ensures
        key@ == uppercase(project_key@),
{
    to_uppercase(project_key)
}

/// Whether this is the issue that was found.
pub open spec fn is_issue_ref(
    key: String,
    number: i32,
    found: Result<Option<String>, String>,
    issue: Result<IssueRef, String>,
) -> bool {
    match found {
        Err(error) => issue == Err::<IssueRef, String>(error),
        Ok(Some(issue_id)) => issue == Ok::<IssueRef, String>(
            IssueRef { project_key: key, number, issue_id },
        ),
        Ok(None) => issue matches Err(error) && error@ == "Issue "@ + key@ + "-"@
            + signed_decimal(number as int) + " not found"@,
    }
}

/// The issue that is watched, or that there is none. `key` is the key under which
/// its project was looked up.
pub fn resolve_issue_ref(key: String, number: i32, found: Result<Option<String>, String>) -> (issue:
    Result<IssueRef, String>)
    ensures
        is_issue_ref(key, number, found, issue),
{
    match found {
        Err(error) => Err(error),
        Ok(Some(issue_id)) => Ok(IssueRef { project_key: key, number, issue_id }),
        Ok(None) => {
            let mut error = text3("Issue ", key.as_str(), "-");
            error.append(render_i32(number).as_str());
            error.append(" not found");
            Err(error)
        },
    }
}

/// Whether this is the state that the parts of a row give.
pub open spec fn is_read_state(
    attention: Option<IssueAttention>,
    status: Option<IssueStatus>,
    updated_at: Option<i64>,
    state: IssueState,
) -> bool {
    &&& state.attention == match attention {
        Some(known) => known,
        None => IssueAttention::Nothing,
    }
    &&& state.status == match status {
        Some(known) => known,
        None => IssueStatus::Backlog,
    }
    &&& state.updated_at == match updated_at {
        Some(time) => time,
        None => 0,
    }
}

/// An issue as its row has it. What the row says in words unknown here stands for
/// no need and for the backlog.
pub fn read_issue_state(
    attention: Option<IssueAttention>,
    status: Option<IssueStatus>,
    updated_at: Option<i64>,
) -> (state: IssueState)
    ensures
        is_read_state(attention, status, updated_at, state),
{
    let attention = match attention {
        Some(known) => known,
        None => IssueAttention::Nothing,
    };
    let status = match status {
        Some(known) => known,
        None => IssueStatus::Backlog,
    };
    let updated_at: i64 = match updated_at {
        Some(time) => time,
        None => 0,
    };
    IssueState { attention, status, updated_at }
}

/// The first event from `from` on that is of the issue and ends its watch.
pub open spec fn first_due(
    events: Seq<AttentionEvent>,
    target: Seq<char>,
    since: Option<i64>,
    from: int,
) -> Option<int>
    decreases events.len() - from,
{
    if from >= events.len() {
        None
    } else if ends_watch(events[from], target, since) {
        Some(from)
    } else {
        first_due(events, target, since, from + 1)
    }
}

/// Whether an event is of the issue and ends its watch.
pub open spec fn ends_watch(event: AttentionEvent, target: Seq<char>, since: Option<i64>) -> bool {
    event.issue_id@ == target && event_due(event, since)
}

/// Whether an event is of the issue and ends its watch.
pub fn event_ends_watch(event: &AttentionEvent, target: &str, since: Option<i64>) -> (ends: bool)
    ensures
        ends == ends_watch(*event, target@, since),
{
    same_text(event.issue_id.as_str(), target) && event_is_actionable(event, since)
}

/// Whether this event is taken from those that wait.
pub open spec fn pops(
    waiting: VecDeque<AttentionEvent>,
    after: VecDeque<AttentionEvent>,
    target: &str,
    since: Option<i64>,
    event: Option<AttentionEvent>,
) -> bool {
    match first_due(waiting@, target@, since, 0) {
        Some(at) => event == Some(waiting@[at]) && after@ == waiting@.skip(
            at + 1,
        ),
        None => event is None && after@.len() == 0,
    }
}

/// Takes the first event that ends the watch out of those that wait; those before
/// it are dropped, those behind it stay.
pub fn try_pop_actionable_for(
    waiting: &mut VecDeque<AttentionEvent>,
    target: &str,
    since: Option<i64>,
) -> (event: Option<AttentionEvent>)
    ensures
        pops(*old(waiting), *final(waiting), target, since, event),
{
    let ghost all = waiting@;
    let ghost mut gone: int = 0;
    assert(all.skip(0) =~= all);
    while waiting.len() > 0
        invariant
            0 <= gone <= all.len(),
            waiting@ == all.skip(gone),
            all == old(waiting)@,
            first_due(all, target@, since, gone) == first_due(all, target@, since, 0),
        decreases waiting@.len(),
    {
        let next = waiting.pop_front();
        assert(waiting@ =~= all.skip(gone + 1));
        proof {
            gone = gone + 1;
        }
        if let Some(event) = next {
            assert(event == all[gone - 1]);
            if event_ends_watch(&event, target, since) {
                return Some(event);
            }
        }
    }
    None
}

/// The address of an issue.
pub open spec fn issue_address(issue: IssueRef) -> Seq<char> {
    "cairn://p/"@ + issue.project_key@ + "/"@ + signed_decimal(issue.number as int)
}

/// The address of an issue.
pub fn issue_uri(issue: &IssueRef) -> (uri: String)
    ensures
        uri@ == issue_address(*issue),
{
    let mut uri = text3("cairn://p/", issue.project_key.as_str(), "/");
    uri.append(render_i32(issue.number).as_str());
    uri
}

/// Whether this is where the answers to an issue come in.
pub open spec fn is_reply_channel(issue: &IssueRef, place: (String, String)) -> bool {
    &&& place.0@ == issue.project_key@ + "/"@ + signed_decimal(issue.number as int)
    &&& place.1@ == issue_address(*issue) + "/"@
}

/// Where the answers to messages about an issue are found: their channel, and how
/// the names of their senders begin.
pub fn reply_channel(issue: &IssueRef) -> (place: (String, String))
    ensures
        is_reply_channel(issue, place),
{
    let number = render_i32(issue.number);
    let channel = text3(issue.project_key.as_str(), "/", number.as_str());
    let mut prefix = issue_uri(issue);
    prefix.append("/");
    (channel, prefix)
}

/// The newest answer to a message about an issue, behind the cursor.
#[derive(Debug)]
pub struct ReplyRow {
    pub message_id: String,
    pub sender: String,
    pub body: String,
    pub created_at: i64,
    pub attention: Option<IssueAttention>,
    pub status: Option<IssueStatus>,
}

/// Whether this is the event of a reply that was found.
pub open spec fn is_reply_event(
    issue: &IssueRef,
    row: Option<ReplyRow>,
    event: Option<AttentionEvent>,
) -> bool {
    match (row, event) {
        (None, None) => true,
        (Some(found), Some(reply)) => {
            &&& reply.issue_id@ == issue.issue_id@
            &&& reply.issue_uri@ == issue_address(*issue)
            &&& reply.fact matches AttentionFact::ExternalMessageReply {
                detail_uri,
                message_id,
                content,
            } && detail_uri@ == issue_address(*issue) + "/messages"@ && message_id
                == found.message_id && content == (ExternalMessageReplyContent {
                sender: found.sender,
                body: found.body,
            })
            &&& reply.attention == match found.attention {
                Some(known) => known,
                None => IssueAttention::Nothing,
            }
            &&& reply.status == match found.status {
                Some(known) => known,
                None => IssueStatus::Active,
            }
            &&& reply.updated_at == found.created_at
        },
        _ => false,
    }
}

/// The event of an answer to a message. It is as old as the answer. What the row
/// of the issue says in words unknown here stands for no need and for work.
pub fn latest_external_reply_event(issue: &IssueRef, row: Option<ReplyRow>) -> (event: Option<
    AttentionEvent,
>)
    ensures
        is_reply_event(issue, row, event),
{
    let found = match row {
        None => return None,
        Some(found) => found,
    };
    let issue_uri = issue_uri(issue);
    let detail_uri = text2(issue_uri.as_str(), "/messages");
    let attention = match found.attention {
        Some(known) => known,
        None => IssueAttention::Nothing,
    };
    let status = match found.status {
        Some(known) => known,
        None => IssueStatus::Active,
    };
    Some(
        AttentionEvent {
            issue_id: issue.issue_id.clone(),
            issue_uri,
            fact: AttentionFact::ExternalMessageReply {
                detail_uri,
                message_id: found.message_id,
                content: ExternalMessageReplyContent { sender: found.sender, body: found.body },
            },
            attention,
            status,
            updated_at: found.created_at,
        },
    )
}

/// Builds the event of an issue as it stands, with the fact that is known of it.
/// Without one it is idle work, at the address of the issue.
pub fn synthesize_event(issue: &IssueRef, state: IssueState, fact: Option<AttentionFact>) -> (event:
    AttentionEvent)
    ensures
        is_built(event, *issue, state, fact),
{
    let issue_uri = issue_uri(issue);
    let fact = match fact {
        Some(known) => known,
        None => AttentionFact::AgentIdleWithWork { detail_uri: issue_uri.clone() },
    };
    AttentionEvent {
        issue_id: issue.issue_id.clone(),
        issue_uri,
        fact,
        attention: state.attention,
        status: state.status,
        updated_at: state.updated_at,
    }
}

/// What to look at next before the watch waits.
#[derive(Debug)]
pub enum Look {
    /// The issue could not be read.
    Fail(String),
    /// The issue ends the watch: with an event that waits already, or else with
    /// one built from the issue as it stands.
    Now(IssueState),
    /// The newest answer to a message is looked for, and then idle work.
    Further(IssueState),
}

/// Whether this is what a first look at the state says.
pub open spec fn looks(
    state: Result<IssueState, String>,
    since: Option<i64>,
    look: Look,
) -> bool {
    match state {
        Err(error) => look == Look::Fail(error),
        Ok(found) => if outcome_of(found, since) == WatchOutcome::NotYet {
            look == Look::Further(found)
        } else {
            look == Look::Now(found)
        },
    }
}

/// Takes up the issue as it stands at the start of a watch.
pub fn first_look(state: Result<IssueState, String>, since: Option<i64>) -> (look: Look)
    ensures
        looks(state, since, look),
{
    match state {
        Err(error) => Look::Fail(error),
        Ok(found) => match evaluate(found.attention, found.status, found.updated_at, since) {
            WatchOutcome::NotYet => Look::Further(found),
            _ => Look::Now(found),
        },
    }
}

/// Whether the watch is answered with this event.
pub open spec fn replies_with(
    waiting: VecDeque<AttentionEvent>,
    after: VecDeque<AttentionEvent>,
    built: AttentionEvent,
    target: &str,
    since: Option<i64>,
    event: AttentionEvent,
) -> bool {
    event == match first_due(waiting@, target@, since, 0) {
        Some(at) => waiting@[at],
        None => built,
    }
}

/// The reply of a watch whose issue needs an answer at once: an event that waits
/// already tells more than the one built from the issue.
pub fn reply_now(
    waiting: &mut VecDeque<AttentionEvent>,
    built: AttentionEvent,
    target: &str,
    since: Option<i64>,
) -> (event: AttentionEvent)
    ensures
        replies_with(*old(waiting), *final(waiting), built, target, since, event),
{
    match try_pop_actionable_for(waiting, target, since) {
        Some(event) => event,
        None => built,
    }
}

/// Whether this is the reply that ends the watch.
pub open spec fn is_reply_due(
    found: Result<Option<AttentionEvent>, String>,
    since: Option<i64>,
    event: Option<AttentionEvent>,
) -> bool {
    event == match found {
        Ok(Some(reply)) => if event_due(reply, since) {
            Some(reply)
        } else {
            None
        },
        _ => None,
    }
}

/// The answer to a message that ends the watch, where one was read and is due.
pub fn reply_due(found: Result<Option<AttentionEvent>, String>, since: Option<i64>) -> (event:
    Option<AttentionEvent>)
    ensures
        is_reply_due(found, since, event),
{
    match found {
        Ok(Some(reply)) => {
            if event_is_actionable(&reply, since) {
                Some(reply)
            } else {
                None
            }
        },
        _ => None,
    }
}

/// What is known of work that an idle agent left, and since when.
#[derive(Debug)]
pub struct IdleFact {
    pub fact: AttentionFact,
    pub updated_at: i64,
}

/// Whether this is the idle work that ends the watch.
pub open spec fn is_idle_due(
    issue: &IssueRef,
    state: IssueState,
    idle: Option<IdleFact>,
    since: Option<i64>,
    event: Option<AttentionEvent>,
) -> bool {
    match (idle, event) {
        (None, found) => found is None,
        (Some(work), Some(found)) => {
            &&& event_due(found, since)
            &&& found.issue_id@ == issue.issue_id@
            &&& found.issue_uri@ == issue_address(*issue)
            &&& found.fact == work.fact
            &&& found.attention == state.attention
            &&& found.status == state.status
            &&& found.updated_at == work.updated_at
        },
        (Some(work), None) => match work.fact {
            AttentionFact::Resolved { .. } => false,
            AttentionFact::Other { .. } => state.attention == IssueAttention::Nothing
                || !is_fresh(work.updated_at, since),
            _ => !is_fresh(work.updated_at, since),
        },
    }
}

/// The idle work that ends the watch, where there is some and it is due. Without
/// work nothing is made up.
pub fn idle_due(issue: &IssueRef, state: IssueState, idle: Option<IdleFact>, since: Option<i64>) -> (
    event: Option<AttentionEvent>)
    ensures
        is_idle_due(issue, state, idle, since, event),
{
    let work = match idle {
        None => return None,
        Some(work) => work,
    };
    let dated = IssueState { updated_at: work.updated_at, ..state };
    let event = synthesize_event(issue, dated, Some(work.fact));
    if event_is_actionable(&event, since) {
        Some(event)
    } else {
        None
    }
}

/// What a watch that missed events goes on with.
#[derive(Debug)]
pub enum Caught {
    /// The answer to a message ends it.
    Reply(AttentionEvent),
    /// The issue as it stands ends it.
    Built(IssueState),
    /// It waits on.
    Wait,
}

/// Whether this is what is caught up on after events were missed.
pub open spec fn catches_up(
    reply: Result<Option<AttentionEvent>, String>,
    state: Result<IssueState, String>,
    since: Option<i64>,
    caught: Caught,
) -> bool {
    match (reply, state) {
        (Ok(Some(found)), _) => caught == Caught::Reply(found),
        (_, Ok(found)) => if outcome_of(found, since) == WatchOutcome::NotYet {
            caught is Wait
        } else {
            caught == Caught::Built(found)
        },
        (_, Err(_)) => caught is Wait,
    }
}

/// Takes up the newest answer and the issue as it stands after events were missed.
pub fn after_lag(
    reply: Result<Option<AttentionEvent>, String>,
    state: Result<IssueState, String>,
    since: Option<i64>,
) -> (caught: Caught)
    ensures
        catches_up(reply, state, since, caught),
{
    if let Ok(Some(found)) = reply {
        return Caught::Reply(found);
    }
    match state {
        Ok(found) => match evaluate(found.attention, found.status, found.updated_at, since) {
            WatchOutcome::NotYet => Caught::Wait,
            _ => Caught::Built(found),
        },
        Err(_) => Caught::Wait,
    }
}

/// Whether an event was built from an issue as it stands, with the fact that is
/// known of it.
pub open spec fn is_built(
    event: AttentionEvent,
    issue: IssueRef,
    state: IssueState,
    fact: Option<AttentionFact>,
) -> bool {
    &&& event.issue_id@ == issue.issue_id@
    &&& event.issue_uri@ == issue_address(issue)
    &&& event.attention == state.attention
    &&& event.status == state.status
    &&& event.updated_at == state.updated_at
    &&& match fact {
        Some(known) => event.fact == known,
        None => event.fact matches AttentionFact::AgentIdleWithWork { detail_uri } && detail_uri@
            == issue_address(issue),
    }
}

/// The next thing to do in a watch.
#[derive(Debug)]
pub enum WatchStep {
    /// Read the issue as it stands.
    Read,
    /// Find the fact that is known of the issue, to answer at once.
    Build(IssueState),
    /// Find the newest answer to a message.
    FindReply(IssueState),
    /// Find work that an idle agent left.
    FindIdle(IssueState),
    /// Wait for an event.
    Await,
    /// Find the fact that is known of the issue, after events were missed.
    BuildLate(IssueState),
    /// Read the issue for the cursor to go on with.
    ReadCursor,
    Done(WatchReply),
}

/// What a step came to.
#[derive(Debug)]
pub enum WatchInput {
    State(Result<IssueState, String>),
    Fact(Option<AttentionFact>),
    Reply(Result<Option<AttentionEvent>, String>),
    Idle(Option<IdleFact>),
    Arrived(AttentionEvent),
    /// Events were missed: the newest answer and the issue as they stand now.
    Lagged(Result<Option<AttentionEvent>, String>, Result<IssueState, String>),
    /// The time is up, or no more events can come.
    Over,
}

/// Whether an event answers a watch that could answer with `built`: it is the first
/// of those that wait already, or else `built` itself.
pub open spec fn answers(
    event: AttentionEvent,
    built: AttentionEvent,
    waiting: Seq<AttentionEvent>,
    target: Seq<char>,
    since: Option<i64>,
) -> bool {
    match first_due(waiting, target, since, 0) {
        Some(at) => event == waiting[at],
        None => event == built,
    }
}

/// Whether `next` follows a step of a watch. An input that does not belong to the
/// step leaves it to be done.
pub open spec fn watch_follows(
    issue: IssueRef,
    since: Option<i64>,
    waiting: Seq<AttentionEvent>,
    step: WatchStep,
    input: WatchInput,
    next: WatchStep,
) -> bool {
    match (step, input) {
        (WatchStep::Read, WatchInput::State(Err(error))) => next == WatchStep::Done(
            WatchReply::Error(error),
        ),
        (WatchStep::Read, WatchInput::State(Ok(state))) => next == if outcome_of(state, since)
            == WatchOutcome::NotYet {
            WatchStep::FindReply(state)
        } else {
            WatchStep::Build(state)
        },
        (WatchStep::Build(state), WatchInput::Fact(fact)) => {
            next matches WatchStep::Done(WatchReply::Event(event)) && match first_due(
                waiting,
                issue.issue_id@,
                since,
                0,
            ) {
                Some(at) => event == waiting[at],
                None => is_built(event, issue, state, fact),
            }
        },
        (WatchStep::FindReply(state), WatchInput::Reply(found)) => match found {
            Ok(Some(reply)) => if event_due(reply, since) {
                next matches WatchStep::Done(WatchReply::Event(event)) && answers(
                    event,
                    reply,
                    waiting,
                    issue.issue_id@,
                    since,
                )
            } else {
                next == WatchStep::FindIdle(state)
            },
            _ => next == WatchStep::FindIdle(state),
        },
        (WatchStep::FindIdle(state), WatchInput::Idle(idle)) => match idle {
            None => next is Await,
            Some(work) => {
                let dated = IssueState { updated_at: work.updated_at, ..state };
                let due = match work.fact {
                    AttentionFact::Resolved { .. } => true,
                    AttentionFact::Other { .. } => state.attention != IssueAttention::Nothing
                        && is_fresh(work.updated_at, since),
                    _ => is_fresh(work.updated_at, since),
                };
                if due {
                    next matches WatchStep::Done(WatchReply::Event(event)) && match first_due(
                        waiting,
                        issue.issue_id@,
                        since,
                        0,
                    ) {
                        Some(at) => event == waiting[at],
                        None => is_built(event, issue, dated, Some(work.fact)),
                    }
                } else {
                    next is Await
                }
            },
        },
        (WatchStep::Await, WatchInput::Arrived(event)) => if ends_watch(
            event,
            issue.issue_id@,
            since,
        ) {
            next == WatchStep::Done(WatchReply::Event(event))
        } else {
            next is Await
        },
        (WatchStep::Await, WatchInput::Lagged(reply, state)) => match (reply, state) {
            (Ok(Some(found)), _) => next == WatchStep::Done(WatchReply::Event(found)),
            (_, Ok(found)) => if outcome_of(found, since) == WatchOutcome::NotYet {
                next is Await
            } else {
                next == WatchStep::BuildLate(found)
            },
            (_, Err(_)) => next is Await,
        },
        (WatchStep::Await, WatchInput::Over) => next is ReadCursor,
        (WatchStep::BuildLate(state), WatchInput::Fact(fact)) => {
            next matches WatchStep::Done(WatchReply::Event(event)) && is_built(
                event,
                issue,
                state,
                fact,
            )
        },
        (WatchStep::ReadCursor, WatchInput::State(state)) => next == WatchStep::Done(
            WatchReply::Pending {
                updated_at: match state {
                    Ok(found) => found.updated_at,
                    Err(_) => 0,
                },
            },
        ),
        _ => next == step,
    }
}

/// What follows a step of a watch. `waiting` holds the events that arrived since
/// the watch was subscribed to them; none of them is lost while the watch goes on.
pub fn handle_watch(
    issue: &IssueRef,
    since: Option<i64>,
    waiting: &mut VecDeque<AttentionEvent>,
    step: WatchStep,
    input: WatchInput,
) -> (next: WatchStep)
    ensures
        watch_follows(*issue, since, old(waiting)@, step, input, next),
        !(next is Done) ==> final(waiting)@ == old(waiting)@,
{
    let target = issue.issue_id.as_str();
    match (step, input) {
        (WatchStep::Read, WatchInput::State(state)) => match first_look(state, since) {
            Look::Fail(error) => WatchStep::Done(WatchReply::Error(error)),
            Look::Now(found) => WatchStep::Build(found),
            Look::Further(found) => WatchStep::FindReply(found),
        },
        (WatchStep::Build(state), WatchInput::Fact(fact)) => {
            let built = synthesize_event(issue, state, fact);
            WatchStep::Done(WatchReply::Event(reply_now(waiting, built, target, since)))
        },
        (WatchStep::FindReply(state), WatchInput::Reply(found)) => match reply_due(found, since) {
            Some(reply) => WatchStep::Done(
                WatchReply::Event(reply_now(waiting, reply, target, since)),
            ),
            None => WatchStep::FindIdle(state),
        },
        (WatchStep::FindIdle(state), WatchInput::Idle(idle)) => match idle_due(
            issue,
            state,
            idle,
            since,
        ) {
            Some(event) => WatchStep::Done(
                WatchReply::Event(reply_now(waiting, event, target, since)),
            ),
            None => WatchStep::Await,
        },
        (WatchStep::Await, WatchInput::Arrived(event)) => {
            if event_ends_watch(&event, target, since) {
                WatchStep::Done(WatchReply::Event(event))
            } else {
                WatchStep::Await
            }
        },
        (WatchStep::Await, WatchInput::Lagged(reply, state)) => match after_lag(
            reply,
            state,
            since,
        ) {
            Caught::Reply(event) => WatchStep::Done(WatchReply::Event(event)),
            Caught::Built(found) => WatchStep::BuildLate(found),
            Caught::Wait => WatchStep::Await,
        },
        (WatchStep::Await, WatchInput::Over) => WatchStep::ReadCursor,
        (WatchStep::BuildLate(state), WatchInput::Fact(fact)) => WatchStep::Done(
            WatchReply::Event(synthesize_event(issue, state, fact)),
        ),
        (WatchStep::ReadCursor, WatchInput::State(state)) => {
            let updated_at: i64 = match state {
                Ok(found) => found.updated_at,
                Err(_) => 0,
            };
            WatchStep::Done(WatchReply::Pending { updated_at })
        },
        (other, _) => other,
    }
}

/// A watch never waits on a finished issue: the first look leads straight to an
/// answer. A watch that waits has found neither a need, nor a fresh answer, nor
/// fresh work at its first look.
pub proof fn law_finished_issue_is_answered_at_once(
    issue: IssueRef,
    since: Option<i64>,
    waiting: Seq<AttentionEvent>,
    state: IssueState,
    next: WatchStep,
)
    requires
        watch_follows(
            issue,
            since,
            waiting,
            WatchStep::Read,
            WatchInput::State(Ok(state)),
            next,
        ),
    ensures
        state.status.is_over() ==> next == WatchStep::Build(state),
        next is FindReply ==> !state.status.is_over() && outcome_of(state, since)
            == WatchOutcome::NotYet,
        !(next is Await),
{
}

/// An issue that is not over and needs anything of its driver is actionable as soon as its
/// change is newer than the cursor, or there is none. Nothing is said yet only of an issue
/// that is not over and needs nothing or has not changed since the cursor.
pub proof fn law_needs_are_actionable_once_they_are_new(state: IssueState, since: Option<i64>)
    ensures
        ({
            let over = state.status == IssueStatus::Merged || state.status == IssueStatus::Closed
                || state.status == IssueStatus::Failed;
            let seen = match since {
                Some(cursor) => state.updated_at <= cursor,
                None => false,
            };
            &&& over <==> outcome_of(state, since) == WatchOutcome::Resolved
            &&& !over && !seen && state.attention == IssueAttention::NeedsInput ==> outcome_of(
                state,
                since,
            ) == WatchOutcome::Actionable
            &&& !over && !seen && state.attention == IssueAttention::NeedsApproval ==> outcome_of(
                state,
                since,
            ) == WatchOutcome::Actionable
            &&& !over && !seen && state.attention == IssueAttention::Needed ==> outcome_of(
                state,
                since,
            ) == WatchOutcome::Actionable
            &&& outcome_of(state, since) == WatchOutcome::NotYet ==> !over && (seen
                || state.attention == IssueAttention::Nothing)
            &&& outcome_of(state, since) == WatchOutcome::Actionable ==> !over && !seen
                && state.attention != IssueAttention::Nothing
        }),
{
}

/// The end of an issue always ends its watch; idle work and answers do where they are
/// newer than the cursor; any other event does where it is newer and the issue needs
/// something. No other event does.
pub proof fn law_events_end_the_watch_once_they_are_new(event: AttentionEvent, since: Option<i64>)
    ensures
        ({
            let seen = match since {
                Some(cursor) => event.updated_at <= cursor,
                None => false,
            };
            match event.fact {
                AttentionFact::Resolved { .. } => event_due(event, since),
                AttentionFact::AgentIdleWithWork { .. } => event_due(event, since) == !seen,
                AttentionFact::ExternalMessageReply { .. } => event_due(event, since) == !seen,
                AttentionFact::Other { .. } => event_due(event, since) == (!seen
                    && event.attention != IssueAttention::Nothing),
            }
        }),
{
}

/// Of the events that wait, the first one of the issue that ends its watch is taken: none
/// before it is of the issue and ends it, and none is passed over where one does.
pub proof fn law_first_due_event_is_taken(
    events: Seq<AttentionEvent>,
    target: Seq<char>,
    since: Option<i64>,
    from: int,
)
    requires
        0 <= from <= events.len(),
    ensures
        match first_due(events, target, since, from) {
            Some(at) => {
                &&& from <= at < events.len()
                &&& events[at].issue_id@ == target && event_due(events[at], since)
                &&& forall|i: int|
                    from <= i < at ==> (#[trigger] events[i]).issue_id@ != target || !event_due(
                        events[i],
                        since,
                    )
            },
            None => forall|i: int|
                from <= i < events.len() ==> (#[trigger] events[i]).issue_id@ != target
                    || !event_due(events[i], since),
        },
    decreases events.len() - from,
{
    if from < events.len() && !ends_watch(events[from], target, since) {
        law_first_due_event_is_taken(events, target, since, from + 1);
    }
}

/// A watch answers with an event of its issue only, and only with one that is due; what it
/// has not answered it goes on waiting for. An event that ends the watch is answered with
/// as soon as it arrives.
pub proof fn law_watch_answers_with_its_issue(
    issue: IssueRef,
    since: Option<i64>,
    waiting: Seq<AttentionEvent>,
    step: WatchStep,
    input: WatchInput,
    next: WatchStep,
)
    requires
        watch_follows(issue, since, waiting, step, input, next),
    ensures
        (step, input) matches (WatchStep::Await, WatchInput::Arrived(event)) ==> {
            &&& event.issue_id@ == issue.issue_id@ && event_due(event, since) ==> next
                == WatchStep::Done(WatchReply::Event(event))
            &&& !(event.issue_id@ == issue.issue_id@ && event_due(event, since)) ==> next is Await
        },
        (step, input) matches (WatchStep::Await, WatchInput::Over) ==> next is ReadCursor,
        (step, input) matches (WatchStep::Read, WatchInput::State(Ok(state))) ==> {
            &&& outcome_of(state, since) == WatchOutcome::NotYet ==> next == WatchStep::FindReply(
                state,
            )
            &&& outcome_of(state, since) != WatchOutcome::NotYet ==> next == WatchStep::Build(
                state,
            )
        },
        (step, input) matches (WatchStep::Build(state), WatchInput::Fact(fact)) ==> {
            &&& next matches WatchStep::Done(WatchReply::Event(event))
            &&& event.issue_id@ == issue.issue_id@
            &&& waiting.contains(event) || {
                &&& event.status == state.status
                &&& event.attention == state.attention
                &&& event.updated_at == state.updated_at
                &&& event.issue_uri@ == "cairn://p/"@ + issue.project_key@ + "/"@ + signed_decimal(
                    issue.number as int,
                )
                &&& fact matches Some(known) ==> event.fact == known
            }
        },
        (step, input) matches (WatchStep::FindReply(state), WatchInput::Reply(Ok(Some(reply))))
            ==> {
            &&& event_due(reply, since) ==> (next matches WatchStep::Done(WatchReply::Event(event))
                && (event == reply || waiting.contains(event)))
            &&& !event_due(reply, since) ==> next == WatchStep::FindIdle(state)
        },
        (step, input) matches (WatchStep::ReadCursor, WatchInput::State(Ok(state))) ==> next
            == WatchStep::Done(WatchReply::Pending { updated_at: state.updated_at }),
{
    law_first_due_event_is_taken(waiting, issue.issue_id@, since, 0);
    if let Some(at) = first_due(waiting, issue.issue_id@, since, 0) {
        assert(waiting.contains(waiting[at]));
    }
}

/// A watch is of the issue that its address names, and refused exactly if it names none.
pub proof fn law_watch_names_its_issue(
    uri: Option<&str>,
    parsed: Option<(Option<String>, Option<i32>)>,
    issue: Result<(String, i32), String>,
)
    requires
        watches(uri, parsed, issue),
    ensures
        issue is Ok <==> uri is Some && (parsed matches Some((Some(_), Some(_)))),
        issue matches Ok((project, number)) ==> parsed == Some((Some(project), Some(number))),
{
}

/// What a row says of an issue is taken as it is; what it does not say in known words stands
/// for no need, the backlog and the beginning of time.
pub proof fn law_unknown_words_call_for_nothing(
    attention: Option<IssueAttention>,
    status: Option<IssueStatus>,
    updated_at: Option<i64>,
    state: IssueState,
)
    requires
        is_read_state(attention, status, updated_at, state),
    ensures
        attention is Some ==> attention == Some(state.attention),
        attention is None ==> state.attention is Nothing,
        status is Some ==> status == Some(state.status),
        status is None ==> state.status is Backlog,
        updated_at is Some ==> updated_at == Some(state.updated_at),
        updated_at is None ==> state.updated_at == 0,
{
}

/// The event of an answer is of the issue, as old as the answer, and holds its message,
/// sender and text.
pub proof fn law_reply_is_told_as_it_came(
    issue: &IssueRef,
    row: Option<ReplyRow>,
    event: Option<AttentionEvent>,
)
    requires
        is_reply_event(issue, row, event),
    ensures
        event is Some <==> row is Some,
        event matches Some(reply) ==> {
            let found = row->Some_0;
            &&& reply.issue_id@ == issue.issue_id@
            &&& reply.updated_at == found.created_at
            &&& reply.fact is ExternalMessageReply
            &&& reply.fact->message_id == found.message_id
            &&& reply.fact->content.sender == found.sender
            &&& reply.fact->content.body == found.body
            &&& found.attention matches Some(known) ==> reply.attention == known
            &&& found.status matches Some(known) ==> reply.status == known
        },
{
}

/// A first look ends the watch exactly if the issue is over, or needs anything and that since
/// the cursor; otherwise the watch goes on with the issue as it was seen.
pub proof fn law_first_look_ends_the_watch_iff_it_is_due(
    state: Result<IssueState, String>,
    since: Option<i64>,
    look: Look,
)
    requires
        looks(state, since, look),
    ensures
        look is Fail <==> state is Err,
        state matches Ok(found) ==> {
            let due = found.status.is_over() || (!(found.attention is Nothing) && (match since {
                Some(cursor) => found.updated_at > cursor,
                None => true,
            }));
            &&& due ==> look == Look::Now(found)
            &&& !due ==> look == Look::Further(found)
        },
{
}

/// An answer ends the watch exactly if it was read and is newer than the cursor.
pub proof fn law_new_replies_end_the_watch(
    found: Result<Option<AttentionEvent>, String>,
    since: Option<i64>,
    event: Option<AttentionEvent>,
)
    requires
        is_reply_due(found, since, event),
    ensures
        event is Some <==> (found matches Ok(Some(reply)) && event_due(reply, since)),
        event is Some ==> found == Ok::<Option<AttentionEvent>, String>(event),
{
}

/// Idle work ends the watch exactly if there is some and it is newer than the cursor; it is
/// told of the issue as it stands, and is as old as the work.
pub proof fn law_new_idle_work_ends_the_watch(
    issue: &IssueRef,
    state: IssueState,
    work: IdleFact,
    since: Option<i64>,
    event: Option<AttentionEvent>,
)
    requires
        is_idle_due(issue, state, Some(work), since, event),
        work.fact is AgentIdleWithWork,
    ensures
        event is Some <==> (match since {
            Some(cursor) => work.updated_at > cursor,
            None => true,
        }),
        event matches Some(found) ==> found.issue_id@ == issue.issue_id@ && found.fact == work.fact
            && found.attention == state.attention && found.status == state.status
            && found.updated_at == work.updated_at,
{
}

/// After events were missed an answer comes first, then the issue as it stands where that
/// ends the watch; nothing else ends it.
pub proof fn law_missed_events_are_made_up_for(
    reply: Result<Option<AttentionEvent>, String>,
    state: Result<IssueState, String>,
    since: Option<i64>,
    caught: Caught,
)
    requires
        catches_up(reply, state, since, caught),
    ensures
        reply matches Ok(Some(found)) ==> caught == Caught::Reply(found),
        !(reply matches Ok(Some(_))) ==> (caught is Built <==> (state matches Ok(found) && outcome_of(
            found,
            since,
        ) != WatchOutcome::NotYet)),
        caught matches Caught::Built(found) ==> state == Ok::<IssueState, String>(found),
{
}

/// An event that ends the watch is taken with all that came before it; what came behind it
/// stays. Where none does, nothing is left, and the watch is answered with what was built.
pub proof fn law_due_event_is_taken_with_all_before_it(
    waiting: VecDeque<AttentionEvent>,
    after: VecDeque<AttentionEvent>,
    target: &str,
    since: Option<i64>,
    built: AttentionEvent,
    event: Option<AttentionEvent>,
    answer: AttentionEvent,
    left: VecDeque<AttentionEvent>,
)
    requires
        pops(waiting, after, target, since, event),
        replies_with(waiting, left, built, target, since, answer),
    ensures
        event is Some <==> exists|i: int|
            0 <= i < waiting@.len() && (#[trigger] waiting@[i]).issue_id@ == target@ && event_due(
                waiting@[i],
                since,
            ),
        event matches Some(found) ==> found.issue_id@ == target@ && event_due(found, since)
            && answer == found && after@.len() < waiting@.len() && after@ == waiting@.skip(
            waiting@.len() - after@.len(),
        ),
        event is None ==> after@.len() == 0 && answer == built,
{
    law_first_due_event_is_taken(waiting@, target@, since, 0);
    if let Some(at) = first_due(waiting@, target@, since, 0) {
        assert(waiting@[at].issue_id@ == target@);
    }
}

/// An issue is addressed by its project and its number, and its answers come in below that.
pub proof fn law_issue_is_addressed_by_its_number(issue: &IssueRef, place: (String, String))
    requires
        is_reply_channel(issue, place),
    ensures
        issue_address(*issue) == "cairn://p/"@ + issue.project_key@ + "/"@ + signed_decimal(
            issue.number as int,
        ),
        place.0@ == issue.project_key@ + "/"@ + signed_decimal(issue.number as int),
        place.1@ == "cairn://p/"@ + issue.project_key@ + "/"@ + signed_decimal(issue.number as int)
            + "/"@,
{
}

/// An event that is built is of the issue as it stands: its need, its status and its time are
/// those of the state, and its fact the one that is known, or else idle work at its address.
pub proof fn law_built_event_shows_the_state(
    event: AttentionEvent,
    issue: IssueRef,
    state: IssueState,
    fact: Option<AttentionFact>,
)
    requires
        is_built(event, issue, state, fact),
    ensures
        event.issue_id@ == issue.issue_id@ && event.issue_uri@ == issue_address(issue),
        event.attention == state.attention && event.status == state.status && event.updated_at
            == state.updated_at,
        fact is Some ==> fact == Some(event.fact),
        fact is None ==> event.fact is AgentIdleWithWork,
{
}

/// An issue that is watched is the one that was found, under its project and number.
pub proof fn law_found_issue_keeps_its_number(
    key: String,
    number: i32,
    found: Result<Option<String>, String>,
    issue: Result<IssueRef, String>,
)
    requires
        is_issue_ref(key, number, found, issue),
    ensures
        issue is Ok <==> (found matches Ok(Some(_))),
        issue matches Ok(known) ==> known.project_key == key && known.number == number && found
            == Ok::<Option<String>, String>(Some(known.issue_id)),
        found matches Ok(None) ==> issue->Err_0@ == "Issue "@ + key@ + "-"@ + signed_decimal(
            number as int,
        ) + " not found"@,
{
}

} // verus!
