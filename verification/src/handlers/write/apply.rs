//! Concluding a preview, and applying one that was concluded.
use vstd::prelude::*;
use vstd::string::*;
use crate::handlers::tool_use_correlation::read_id;
use crate::handlers::write::preview::{event_tools, is_preview_call, ChangePreviewEvent, EventModel};
use crate::handlers::write::preview_run::{
    hash_models, HashModel, PreviewRun, TargetHash, PREVIEW_OF_APPLY,
};
use crate::handlers::write::types::{
    applied_models, failure_models, AppliedChange, AppliedModel, ChangeFailure, ChangeMode,
    ChangeReport, FailureModel, ReportModel,
};
use crate::json::{json_value, models, parse_json, Json, JsonModel};
use crate::text::{
    clone_opt, join, joined, opt_text, render_i32, render_i64, same_text, signed_decimal, text2,
    text3, texts,
};

verus! {

/// Where the call of a run stands: what its rows say.
#[derive(Debug)]
pub struct EventPlace {
    pub project: String,
    pub number: Option<i64>,
    pub exec_seq: Option<i64>,
    pub segment: Option<String>,
    pub job_id: String,
    /// The segment of the parent job, where the job is a task; `Some(None)` where
    /// the parent cannot be found.
    pub parent: Option<Option<String>>,
    pub task_index: Option<i64>,
    pub run_seq: Option<i64>,
}

/// The number, or one.
pub open spec fn or_one(number: Option<i64>) -> int {
    match number {
        Some(found) => found as int,
        None => 1,
    }
}

/// The address of an event in the transcript of a node or a task. A job outside
/// any issue has none.
pub open spec fn event_uri(place: EventPlace, event_seq: int) -> Option<Seq<char>> {
    match place.number {
        None => None,
        Some(number) => {
            let segment = match place.segment {
                Some(segment) => segment@,
                None => place.job_id@,
            };
            let head = "cairn://p/"@ + place.project@ + "/"@ + signed_decimal(number as int) + "/"@
                + signed_decimal(or_one(place.exec_seq)) + "/"@;
            let tail = "/chat/"@ + signed_decimal(or_one(place.run_seq)) + "/"@ + signed_decimal(
                event_seq,
            );
            match place.parent {
                None => Some(head + segment + tail),
                Some(parent) => {
                    let parent_segment = match parent {
                        Some(segment) => segment@,
                        None => "parent"@,
                    };
                    let task = if segment.len() > 0 {
                        segment
                    } else {
                        match place.task_index {
                            Some(index) => "task-"@ + signed_decimal(index + 1),
                            None => "task"@,
                        }
                    };
                    Some(head + parent_segment + "/task/"@ + task + tail)
                },
            }
        },
    }
}

/// The number, or one.
fn number_or_one(number: Option<i64>) -> (out: i64)
    ensures
        out == or_one(number),
{
    match number {
        Some(found) => found,
        None => 1,
    }
}

/// The address of an event in the transcript of a node or a task.
pub fn build_current_event_uri(place: &EventPlace, event_seq: i32) -> (uri: Option<String>)
    requires
        place.task_index matches Some(index) ==> index < i64::MAX,
    ensures
        opt_text(uri) == event_uri(*place, event_seq as int),
{
    let number: i64 = match place.number {
        Some(number) => number,
        None => return None,
    };
    let segment = match &place.segment {
        Some(segment) => segment.as_str(),
        None => place.job_id.as_str(),
    };
    let mut uri = text3("cairn://p/", place.project.as_str(), "/");
    uri.append(render_i64(number).as_str());
    uri.append("/");
    uri.append(render_i64(number_or_one(place.exec_seq)).as_str());
    uri.append("/");
    let mut tail = text2("/chat/", render_i64(number_or_one(place.run_seq)).as_str());
    tail.append("/");
    tail.append(render_i32(event_seq).as_str());
    match &place.parent {
        None => {
            uri.append(segment);
        },
        Some(parent) => {
            match parent {
                Some(parent_segment) => uri.append(parent_segment.as_str()),
                None => uri.append("parent"),
            }
            uri.append("/task/");
            if segment.is_empty() {
                let task = match place.task_index {
                    Some(index) => text2("task-", render_i64(index + 1).as_str()),
                    None => "task".to_owned(),
                };
                uri.append(task.as_str());
            } else {
                uri.append(segment);
            }
        },
    }
    uri.append(tail.as_str());
    Some(uri)
}

/// What came of tying a preview to its transcript event.
#[derive(Debug)]
pub enum PreviewMark {
    /// The call came without a run.
    NoRun,
    /// The event is not in the transcript yet.
    NotVisible,
    /// Looking for the event, or marking it, failed.
    Failed(String),
    /// The event is marked as pending.
    Pending(Option<String>),
}

/// Why a preview could not be tied to its event; `None` where it was.
pub open spec fn mark_error(mark: PreviewMark) -> Option<Seq<char>> {
    match mark {
        PreviewMark::NoRun => Some(
            "preview=true requires run_id so the transcript event can be marked pending"@,
        ),
        PreviewMark::NotVisible => Some(
            "Preview event is not yet visible in the transcript; retry after the tool call is persisted"@,
        ),
        PreviewMark::Failed(error) => Some(error@),
        PreviewMark::Pending(_) => None,
    }
}

/// A preview that can be applied: what it showed, the event that it is applied
/// through, and the hashes that must still hold.
#[derive(Debug)]
pub struct PreviewReport {
    pub applied: Vec<AppliedChange>,
    pub event_uri: Option<String>,
    pub apply_uri: Option<String>,
    pub target_hashes: Vec<TargetHash>,
}

/// What a preview that is not tied to an event reports.
pub open spec fn untied_report(applied: Seq<AppliedModel>, error: Seq<char>) -> ReportModel {
    ReportModel {
        applied,
        failures: seq![
            FailureModel {
                index: 0,
                target: "change preview event"@,
                mode: "preview"@,
                kind: "event"@,
                error,
            },
        ],
        commit: None,
        partial_success: false,
        transactional: true,
    }
}

/// Whether a preview that was marked in this way ends like this.
pub open spec fn concludes(
    run: PreviewRun,
    mark: PreviewMark,
    concluded: Result<PreviewReport, ChangeReport>,
) -> bool {
    match concluded {
        Ok(report) => {
            &&& mark matches PreviewMark::Pending(uri)
            &&& applied_models(report.applied@) == run@.applied
            &&& hash_models(report.target_hashes@) == run@.hashes
            &&& opt_text(report.event_uri) == opt_text(uri)
            &&& opt_text(report.apply_uri) == opt_text(uri)
        },
        Err(report) => {
            &&& mark_error(mark) matches Some(error)
            &&& report@ == untied_report(run@.applied, error)
        },
    }
}

/// Concludes a preview.
pub fn preview_change(run: PreviewRun, mark: PreviewMark) -> (concluded: Result<
    PreviewReport,
    ChangeReport,
>)
    ensures
        concludes(run, mark, concluded),
{
    let error = match mark {
        PreviewMark::Pending(uri) => {
            return Ok(
                PreviewReport {
                    applied: run.applied,
                    event_uri: clone_opt(&uri),
                    apply_uri: uri,
                    target_hashes: run.hashes,
                },
            );
        },
        PreviewMark::NoRun => "preview=true requires run_id so the transcript event can be marked pending".to_owned(),
        PreviewMark::NotVisible => "Preview event is not yet visible in the transcript; retry after the tool call is persisted".to_owned(),
        PreviewMark::Failed(error) => error,
    };
    let failure = ChangeFailure {
        index: 0,
        target: "change preview event".to_owned(),
        mode: "preview".to_owned(),
        kind: "event".to_owned(),
        error,
    };
    let ghost said = failure@;
    let mut failures: Vec<ChangeFailure> = Vec::new();
    failures.push(failure);
    assert(failure_models(failures@) =~= seq![said]);
    Err(
        ChangeReport {
            applied: run.applied,
            failures,
            commit: None,
            partial_success: false,
            transactional: true,
        },
    )
}

/// What a call means for applying a preview.
#[derive(Debug)]
pub enum ApplyCheck {
    /// The call applies no preview.
    Unrelated,
    /// The call cannot apply a preview, for this reason.
    Refused(String),
    /// The preview of the event at this place is to be applied.
    Load(i32),
}

/// The refusal of a target that names no event.
pub const NO_EVENT: &'static str = "mode=apply target must be a node or task transcript event URI";

/// What a call means for applying a preview: the first thing that is wrong with
/// it, if anything. `event_seq` is the place of the transcript event that the target
/// names, if it names one.
pub open spec fn apply_check(
    modes: Seq<ChangeMode>,
    preview: Option<bool>,
    has_run: bool,
    has_message: bool,
    event_seq: Option<i32>,
) -> Result<Option<i32>, Seq<char>> {
    if !modes.contains(ChangeMode::Apply) {
        Ok(None)
    } else if preview == Some(true) {
        Err(PREVIEW_OF_APPLY@)
    } else if modes.len() != 1 {
        Err("Invalid payload: mode=apply must be the only change item"@)
    } else if !has_run {
        Err("Invalid payload: mode=apply requires current run_id"@)
    } else if !has_message {
        Err(
            "Invalid payload: mode=apply requires a commit_msg so the landed edits are committed"@,
        )
    } else {
        match event_seq {
            Some(sequence) => Ok(Some(sequence)),
            None => Err(NO_EVENT@),
        }
    }
}

/// Decides whether a call applies a preview.
pub fn check_apply(
    modes: &Vec<ChangeMode>,
    preview: Option<bool>,
    has_run: bool,
    has_message: bool,
    event_seq: Option<i32>,
) -> (check: ApplyCheck)
    ensures
        match (check, apply_check(modes@, preview, has_run, has_message, event_seq)) {
            (ApplyCheck::Unrelated, Ok(None)) => true,
            (ApplyCheck::Load(sequence), Ok(Some(found))) => sequence == found,
            (ApplyCheck::Refused(error), Err(reason)) => error@ == reason,
            _ => false,
        },
{
    let mut applies = false;
    let mut i: usize = 0;
    while i < modes.len()
        invariant
            i <= modes@.len(),
            applies <==> modes@.take(i as int).contains(ChangeMode::Apply),
        decreases modes.len() - i,
    {
        let ghost before = modes@.take(i as int);
        proof {
            let next = modes@.take(i + 1);
            assert(next =~= before.push(modes@[i as int]));
            if modes@[i as int] == ChangeMode::Apply {
                assert(next[i as int] == ChangeMode::Apply);
            }
            if before.contains(ChangeMode::Apply) {
                let k = choose|k: int| 0 <= k < before.len() && before[k] == ChangeMode::Apply;
                assert(next[k] == ChangeMode::Apply);
            }
            if next.contains(ChangeMode::Apply) {
                let k = choose|k: int| 0 <= k < next.len() && next[k] == ChangeMode::Apply;
                if k < i {
                    assert(before[k] == ChangeMode::Apply);
                }
            }
        }
        if modes[i] == ChangeMode::Apply {
            applies = true;
        }
        i += 1;
    }
    assert(modes@.take(i as int) =~= modes@);
    if !applies {
        return ApplyCheck::Unrelated;
    }
    if let Some(wanted) = preview {
        if wanted {
            return ApplyCheck::Refused(PREVIEW_OF_APPLY.to_owned());
        }
    }
    if modes.len() != 1 {
        return ApplyCheck::Refused(
            "Invalid payload: mode=apply must be the only change item".to_owned(),
        );
    }
    if !has_run {
        return ApplyCheck::Refused(
            "Invalid payload: mode=apply requires current run_id".to_owned(),
        );
    }
    if !has_message {
        return ApplyCheck::Refused(
            "Invalid payload: mode=apply requires a commit_msg so the landed edits are committed".to_owned(),
        );
    }
    match event_seq {
        Some(sequence) => ApplyCheck::Load(sequence),
        None => ApplyCheck::Refused(NO_EVENT.to_owned()),
    }
}

/// The first of the given items from `from` on that asked for a preview.
pub open spec fn first_preview(tools: Seq<JsonModel>, from: int) -> Option<Seq<char>>
    decreases tools.len() - from,
{
    if from >= tools.len() {
        None
    } else if is_preview_call(tools[from], None) {
        crate::handlers::tool_use_correlation::use_id(tools[from])
    } else {
        first_preview(tools, from + 1)
    }
}

/// The preview that is to be applied, or why there is none. `row` is the event at
/// the place that the target names: its data and what became of its preview.
pub open spec fn loaded_event(
    run_id: Seq<char>,
    sequence: i32,
    row: Result<Option<(String, Option<String>)>, String>,
) -> Result<EventModel, Seq<char>> {
    let missing = "No pending change preview found for apply target"@;
    match row {
        Err(error) => Err("Failed to load preview event: "@ + error@),
        Ok(None) => Err(missing),
        Ok(Some((data, status))) => match json_value(data@) {
            Err(error) => Err("Failed to load preview event: "@ + error),
            Ok(event) => match event_tools(data@) {
                None => Err(missing),
                Some(tools) => match first_preview(tools, 0) {
                    None => Err(missing),
                    Some(id) => if opt_text(status) == Some("pending"@) {
                        Ok(
                            EventModel {
                                run_id,
                                sequence,
                                tool_use_id: id,
                                data: event,
                                status: opt_text(status),
                            },
                        )
                    } else {
                        Err(
                            "Preview is not pending (status: "@ + match opt_text(status) {
                                Some(said) => said,
                                None => "none"@,
                            } + ")"@,
                        )
                    },
                },
            },
        },
    }
}

/// The first call of an event that asked for a preview.
fn find_first_preview(tools: &Vec<Json>) -> (id: Option<String>)
    ensures
        opt_text(id) == first_preview(models(tools@), 0),
{
    let ghost items = models(tools@);
    let mut i: usize = 0;
    while i < tools.len()
        invariant
            i <= tools@.len(),
            items == models(tools@),
            first_preview(items, i as int) == first_preview(items, 0),
        decreases tools.len() - i,
    {
        assert(items[i as int] == tools@[i as int].model());
        let is_change = match tools[i].get("name") {
            Some(name) => match name.as_str() {
                Some(name) => crate::handlers::write::preview::is_change_tool_name(name),
                None => false,
            },
            None => false,
        };
        let is_preview = match tools[i].get("input") {
            Some(input) => crate::handlers::write::preview::input_is_preview_shaped(input),
            None => false,
        };
        if is_change && is_preview {
            if let Some(id) = read_id(&tools[i]) {
                return Some(id.to_owned());
            }
        }
        i += 1;
    }
    None
}

/// Finds the preview that is to be applied. It has to be pending still.
pub fn load_apply_event(
    run_id: &str,
    sequence: i32,
    row: Result<Option<(String, Option<String>)>, String>,
) -> (event: Result<ChangePreviewEvent, String>)
    ensures
        match (event, loaded_event(run_id@, sequence, row)) {
            (Ok(found), Ok(model)) => found@ == model,
            (Err(error), Err(reason)) => error@ == reason,
            _ => false,
        },
{
    let (data, status) = match row {
        Err(error) => return Err(text2("Failed to load preview event: ", error.as_str())),
        Ok(None) => return Err("No pending change preview found for apply target".to_owned()),
        Ok(Some((data, status))) => (data, status),
    };
    let event = match parse_json(data.as_str()) {
        Ok(event) => event,
        Err(error) => return Err(text2("Failed to load preview event: ", error.as_str())),
    };
    let id = match event.get("toolUses") {
        Some(uses) => match uses.as_array() {
            Some(tools) => find_first_preview(tools),
            None => None,
        },
        None => None,
    };
    let tool_use_id = match id {
        Some(id) => id,
        None => return Err("No pending change preview found for apply target".to_owned()),
    };
    let pending = match &status {
        Some(said) => same_text(said.as_str(), "pending"),
        None => false,
    };
    if !pending {
        let said = match &status {
            Some(said) => said.as_str(),
            None => "none",
        };
        return Err(text3("Preview is not pending (status: ", said, ")"));
    }
    Ok(ChangePreviewEvent { run_id: run_id.to_owned(), sequence, tool_use_id, data: event, status })
}

/// A target as it is now.
#[derive(Debug)]
pub enum ActualTarget {
    Found(TargetHash),
    Failed(String),
    /// No change of the preview is left to hash it by.
    NoChange,
}

/// A truth value as text.
pub open spec fn flag_text(flag: bool) -> Seq<char> {
    if flag {
        "true"@
    } else {
        "false"@
    }
}

/// What is said of a target that is no longer as it was; `None` where it is.
pub open spec fn stale_line(expected: HashModel, actual: ActualTarget) -> Option<Seq<char>> {
    match actual {
        ActualTarget::Found(found) => if found@ == expected {
            None
        } else {
            Some(
                expected.target + ": expected "@ + expected.hash + " (exists="@ + flag_text(
                    expected.exists,
                ) + "), found "@ + found.hash@ + " (exists="@ + flag_text(found.exists) + ")"@,
            )
        },
        ActualTarget::Failed(error) => Some(expected.target + ": "@ + error@),
        ActualTarget::NoChange => Some(expected.target + ": missing original change"@),
    }
}

/// What is said of the first `k` targets that are no longer as they were.
pub open spec fn stale_lines(
    expected: Seq<HashModel>,
    actual: Seq<ActualTarget>,
    k: int,
) -> Seq<Seq<char>>
    decreases k,
{
    if k <= 0 {
        Seq::empty()
    } else {
        let before = stale_lines(expected, actual, k - 1);
        match stale_line(expected[k - 1], actual[k - 1]) {
            Some(line) => before.push(line),
            None => before,
        }
    }
}

/// A truth value as text.
fn render_flag(flag: bool) -> (text: &'static str)
    ensures
        text@ == flag_text(flag),
{
    if flag {
        "true"
    } else {
        "false"
    }
}

/// What is said of a target that is no longer as it was.
fn compare_target(expected: &TargetHash, actual: &ActualTarget) -> (line: Option<String>)
    ensures
        opt_text(line) == stale_line(expected@, *actual),
{
    match actual {
        ActualTarget::Found(found) => {
            if same_text(found.target.as_str(), expected.target.as_str()) && same_text(
                found.kind.as_str(),
                expected.kind.as_str(),
            ) && found.exists == expected.exists && same_text(
                found.hash.as_str(),
                expected.hash.as_str(),
            ) {
                assert(found@ == expected@);
                return None;
            }
            let mut line = text3(
                expected.target.as_str(),
                ": expected ",
                expected.hash.as_str(),
            );
            line.append(" (exists=");
            line.append(render_flag(expected.exists));
            line.append("), found ");
            line.append(found.hash.as_str());
            line.append(" (exists=");
            line.append(render_flag(found.exists));
            line.append(")");
            Some(line)
        },
        ActualTarget::Failed(error) => Some(
            text3(expected.target.as_str(), ": ", error.as_str()),
        ),
        ActualTarget::NoChange => Some(
            text2(expected.target.as_str(), ": missing original change"),
        ),
    }
}

/// Whether a preview may be applied: every target is as it was, or the call is
/// answered with what has changed.
pub open spec fn staleness(expected: Seq<HashModel>, actual: Seq<ActualTarget>) -> Option<
    Seq<char>,
> {
    let stale = stale_lines(expected, actual, expected.len() as int);
    if stale.len() == 0 {
        None
    } else {
        Some("Preview is stale; no changes applied:\n"@ + joined(stale, "\n"@))
    }
}

/// Checks that every target of a preview is as it was.
pub fn check_fresh(expected: &Vec<TargetHash>, actual: &Vec<ActualTarget>) -> (refusal: Option<
    String,
>)
    requires
        expected@.len() == actual@.len(),
    ensures
        opt_text(refusal) == staleness(hash_models(expected@), actual@),
{
    let ghost wanted = hash_models(expected@);
    let mut stale: Vec<String> = Vec::new();
    assert(texts(stale@) =~= Seq::empty());
    let mut k: usize = 0;
    while k < expected.len()
        invariant
            k <= expected@.len(),
            expected@.len() == actual@.len(),
            wanted == hash_models(expected@),
            texts(stale@) == stale_lines(wanted, actual@, k as int),
        decreases expected.len() - k,
    {
        let ghost before = texts(stale@);
        assert(wanted[k as int] == expected@[k as int]@);
        if let Some(line) = compare_target(&expected[k], &actual[k]) {
            let ghost said = line@;
            stale.push(line);
            assert(texts(stale@) =~= before.push(said));
        }
        k += 1;
    }
    assert(texts(stale@).len() == stale@.len());
    if stale.len() == 0 {
        None
    } else {
        Some(text2("Preview is stale; no changes applied:\n", join(&stale, "\n").as_str()))
    }
}

/// A preview is applied exactly where every target is found as it was.
pub proof fn law_apply_needs_unchanged_targets(
    expected: Seq<HashModel>,
    actual: Seq<ActualTarget>,
)
    requires
        expected.len() == actual.len(),
    ensures
        staleness(expected, actual) is None <==> forall|i: int|
            0 <= i < expected.len() ==> ((#[trigger] actual[i]) matches ActualTarget::Found(found)
                && found@ == expected[i]),
{
    lemma_stale_lines(expected, actual, expected.len() as int);
}

proof fn lemma_stale_lines(expected: Seq<HashModel>, actual: Seq<ActualTarget>, k: int)
    requires
        0 <= k <= expected.len(),
        expected.len() == actual.len(),
    ensures
        stale_lines(expected, actual, k).len() == 0 <==> forall|i: int|
            0 <= i < k ==> ((#[trigger] actual[i]) matches ActualTarget::Found(found) && found@
                == expected[i]),
    decreases k,
{
    if k > 0 {
        lemma_stale_lines(expected, actual, k - 1);
    }
}

/// The address of an event names its project, issue, execution, node, run and place in this
/// order, each number that is not known being one. An event of a task stands below the node
/// that the task belongs to. Without an issue there is no address.
pub proof fn law_event_is_addressed_by_its_place(place: EventPlace, event_seq: int)
    ensures
        event_uri(place, event_seq) is Some <==> place.number is Some,
        event_uri(place, event_seq) matches Some(uri) ==> {
            let number = place.number->Some_0 as int;
            let execution: int = if place.exec_seq is Some {
                place.exec_seq->Some_0 as int
            } else {
                1
            };
            let run: int = if place.run_seq is Some {
                place.run_seq->Some_0 as int
            } else {
                1
            };
            let head = "cairn://p/"@ + place.project@ + "/"@ + signed_decimal(number) + "/"@
                + signed_decimal(execution) + "/"@;
            let tail = "/chat/"@ + signed_decimal(run) + "/"@ + signed_decimal(event_seq);
            &&& place.parent is None ==> (place.segment matches Some(segment) ==> uri == head
                + segment@ + tail)
            &&& place.parent is None && place.segment is None ==> uri == head + place.job_id@ + tail
            &&& place.parent matches Some(Some(parent)) ==> (place.segment matches Some(segment)
                ==> segment@.len() > 0 ==> uri == head + parent@ + "/task/"@ + segment@ + tail)
            &&& place.parent matches Some(None) ==> (place.segment matches Some(segment)
                ==> segment@.len() > 0 ==> uri == head + "parent"@ + "/task/"@ + segment@ + tail)
            &&& place.parent matches Some(Some(parent)) ==> (place.segment matches Some(segment)
                ==> (place.task_index matches Some(task) ==> segment@.len() == 0 ==> uri == head
                + parent@ + "/task/"@ + ("task-"@ + signed_decimal(task as int + 1)) + tail))
        },
{
}

/// A preview that could not be marked as pending is a failure that says so; one that was is
/// none.
pub proof fn law_only_pending_previews_stand(mark: PreviewMark, applied: Seq<AppliedModel>)
    ensures
        mark_error(mark) is None <==> mark is Pending,
        mark matches PreviewMark::Failed(error) ==> mark_error(mark) == Some(error@),
        mark_error(mark) matches Some(error) ==> {
            let report = untied_report(applied, error);
            &&& report.applied == applied
            &&& report.failures.len() == 1
            &&& report.failures[0].error == error
            &&& report.failures[0].kind == "event"@
            &&& report.failures[0].mode == "preview"@
            &&& report.commit is None
            &&& !report.partial_success
            &&& report.transactional
        },
{
}

/// An apply goes ahead exactly if it is the only change of the call, is no preview, has a
/// run and a message, and names an event, whose place is then loaded; a call without an
/// apply has nothing to do with it.
pub proof fn law_apply_stands_alone(
    modes: Seq<ChangeMode>,
    preview: Option<bool>,
    has_run: bool,
    has_message: bool,
    event_seq: Option<i32>,
)
    ensures
        ({
            let check = apply_check(modes, preview, has_run, has_message, event_seq);
            &&& check == Ok::<Option<i32>, Seq<char>>(None) <==> forall|i: int|
                0 <= i < modes.len() ==> #[trigger] modes[i] != ChangeMode::Apply
            &&& check is Ok && check->Ok_0 is Some <==> modes == seq![ChangeMode::Apply] && preview
                != Some(true) && has_run && has_message && event_seq is Some
            &&& check matches Ok(Some(sequence)) ==> event_seq == Some(sequence)
        }),
{
    let check = apply_check(modes, preview, has_run, has_message, event_seq);
    if modes == seq![ChangeMode::Apply] {
        assert(modes[0] == ChangeMode::Apply);
        assert(modes.contains(ChangeMode::Apply));
    }
    if modes.contains(ChangeMode::Apply) && modes.len() == 1 {
        assert(modes =~= seq![ChangeMode::Apply]);
    }
    if forall|i: int| 0 <= i < modes.len() ==> #[trigger] modes[i] != ChangeMode::Apply {
        assert(!modes.contains(ChangeMode::Apply));
    }
}

/// The preview of an event is its first call that is one.
pub proof fn law_first_preview_of_an_event_counts(tools: Seq<JsonModel>, from: int)
    requires
        0 <= from <= tools.len(),
    ensures
        match first_preview(tools, from) {
            Some(id) => exists|i: int|
                from <= i < tools.len() && is_preview_call(#[trigger] tools[i], None)
                    && crate::handlers::tool_use_correlation::use_id(tools[i]) == Some(id)
                    && forall|j: int|
                    from <= j < i ==> !is_preview_call(#[trigger] tools[j], None),
            None => forall|i: int|
                from <= i < tools.len() ==> !is_preview_call(#[trigger] tools[i], None),
        },
    decreases tools.len() - from,
{
    if from < tools.len() {
        if is_preview_call(tools[from], None) {
            assert(is_preview_call(tools[from], None));
        } else {
            law_first_preview_of_an_event_counts(tools, from + 1);
            if first_preview(tools, from) is Some {
                let i = choose|i: int|
                    from + 1 <= i < tools.len() && is_preview_call(#[trigger] tools[i], None)
                        && crate::handlers::tool_use_correlation::use_id(tools[i])
                        == first_preview(tools, from) && forall|j: int|
                        from + 1 <= j < i ==> !is_preview_call(#[trigger] tools[j], None);
                assert(is_preview_call(tools[i], None));
            }
        }
    }
}

/// An event that is loaded keeps the run and the place it was asked for, holds what its row
/// holds, and is pending.
pub proof fn law_loaded_event_is_pending(
    run_id: Seq<char>,
    sequence: i32,
    row: Result<Option<(String, Option<String>)>, String>,
)
    ensures
        loaded_event(run_id, sequence, row) matches Ok(event) ==> {
            &&& row matches Ok(Some((data, status)))
            &&& event.run_id == run_id
            &&& event.sequence == sequence
            &&& json_value(data@) == Ok::<JsonModel, Seq<char>>(event.data)
            &&& status matches Some(said) && said@ == "pending"@
            &&& event.status == Some("pending"@)
            &&& event_tools(data@) matches Some(tools) && first_preview(tools, 0) == Some(
                event.tool_use_id,
            )
        },
        row matches Ok(Some((data, Some(status)))) ==> (status@ == "pending"@ ==> (event_tools(
            data@,
        ) matches Some(tools) ==> (first_preview(tools, 0) is Some ==> loaded_event(
            run_id,
            sequence,
            row,
        ) is Ok))),
{
}

/// A target is fresh exactly if it was found with the hash that is expected of it; of a
/// stale one the line names the target, and both hashes where one was found.
pub proof fn law_target_is_fresh_iff_it_is_as_expected(expected: HashModel, actual: ActualTarget)
    ensures
        stale_line(expected, actual) is None <==> (actual matches ActualTarget::Found(found)
            && found.target@ == expected.target && found.kind@ == expected.kind && found.exists
            == expected.exists && found.hash@ == expected.hash),
        stale_line(expected, actual) matches Some(line) ==> expected.target.is_prefix_of(line),
        stale_line(expected, actual) matches Some(line) ==> (actual matches ActualTarget::Found(
            found,
        ) ==> expected.exists && !found.exists ==> line == expected.target + ": expected "@
            + expected.hash + " (exists="@ + "true"@ + "), found "@ + found.hash@ + " (exists="@
            + "false"@ + ")"@),
        actual matches ActualTarget::Failed(error) ==> stale_line(expected, actual) == Some(
            expected.target + ": "@ + error@,
        ),
{
    if let Some(line) = stale_line(expected, actual) {
        assert(expected.target =~= line.subrange(0, expected.target.len() as int));
    }
}

/// Each stale target has its line, in the order of the targets.
pub proof fn law_stale_targets_are_listed(
    expected: Seq<HashModel>,
    actual: Seq<ActualTarget>,
    k: int,
)
    requires
        0 <= k <= expected.len(),
        expected.len() == actual.len(),
    ensures
        stale_lines(expected, actual, k).len() == 0 <==> forall|i: int|
            0 <= i < k ==> stale_line(#[trigger] expected[i], actual[i]) is None,
        forall|i: int|
            0 <= i < k ==> (stale_line(#[trigger] expected[i], actual[i]) matches Some(line)
                ==> stale_lines(expected, actual, k).contains(line)),
        k > 0 ==> stale_lines(expected, actual, k - 1).is_prefix_of(
            stale_lines(expected, actual, k),
        ),
    decreases k,
{
    if k > 0 {
        law_stale_targets_are_listed(expected, actual, k - 1);
        let before = stale_lines(expected, actual, k - 1);
        let after = stale_lines(expected, actual, k);
        assert(before =~= after.subrange(0, before.len() as int));
        assert forall|i: int| 0 <= i < k implies (stale_line(
            #[trigger] expected[i],
            actual[i],
        ) matches Some(line) ==> after.contains(line)) by {
            if let Some(line) = stale_line(expected[i], actual[i]) {
                if i == k - 1 {
                    assert(after[before.len() as int] == line);
                } else {
                    assert(before.contains(line));
                    let j = choose|j: int| 0 <= j < before.len() && before[j] == line;
                    assert(after[j] == line);
                }
            }
        }
        if after.len() == 0 {
            assert(stale_line(expected[k - 1], actual[k - 1]) is None);
        }
    }
}

/// A preview that is pending tells all that was shown and hashed, and the address to apply
/// it by; any other is a failure.
pub proof fn law_pending_preview_tells_all(
    run: PreviewRun,
    mark: PreviewMark,
    concluded: Result<PreviewReport, ChangeReport>,
)
    requires
        concludes(run, mark, concluded),
    ensures
        concluded is Ok <==> mark is Pending,
        concluded matches Ok(report) ==> applied_models(report.applied@) == run@.applied
            && hash_models(report.target_hashes@) == run@.hashes && (mark
            matches PreviewMark::Pending(uri) && opt_text(report.event_uri) == opt_text(uri)
            && opt_text(report.apply_uri) == opt_text(uri)),
        concluded matches Err(report) ==> report@.applied == run@.applied && report@.failures.len()
            == 1,
{
}

} // verus!
