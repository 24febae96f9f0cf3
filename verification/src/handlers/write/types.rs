//! The vocabulary of the `write` tool: what a change asks for and what is
//! reported of it.
use vstd::prelude::*;
use crate::text::{clone_opt, opt_text};

verus! {

/// How a change acts on its target.
#[derive(Clone, Copy, Debug, PartialEq, Eq, Structural)]
pub enum ChangeMode {
    Create,
    Replace,
    Append,
    Patch,
    UnifiedPatch,
    Rename,
    Delete,
    Apply,
}

/// The name of a mode in payloads and reports.
pub open spec fn mode_text(mode: ChangeMode) -> Seq<char> {
    match mode {
        ChangeMode::Create => "create"@,
        ChangeMode::Replace => "replace"@,
        ChangeMode::Append => "append"@,
        ChangeMode::Patch => "patch"@,
        ChangeMode::UnifiedPatch => "unified_patch"@,
        ChangeMode::Rename => "rename"@,
        ChangeMode::Delete => "delete"@,
        ChangeMode::Apply => "apply"@,
    }
}

/// The name of a mode in payloads and reports.
pub fn mode_name(mode: ChangeMode) -> (name: String)
    ensures
        name@ == mode_text(mode),
{
    match mode {
        ChangeMode::Create => "create".to_owned(),
        ChangeMode::Replace => "replace".to_owned(),
        ChangeMode::Append => "append".to_owned(),
        ChangeMode::Patch => "patch".to_owned(),
        ChangeMode::UnifiedPatch => "unified_patch".to_owned(),
        ChangeMode::Rename => "rename".to_owned(),
        ChangeMode::Delete => "delete".to_owned(),
        ChangeMode::Apply => "apply".to_owned(),
    }
}

/// The keys that a file target reads from the payload of its change.
#[derive(Debug)]
pub struct FileChangePayload {
    pub content: Option<String>,
    pub diff: Option<String>,
    pub patch: Option<String>,
    pub old_string: Option<String>,
    pub new_string: Option<String>,
    pub replace_all: Option<bool>,
}

impl Default for FileChangePayload {
    fn default() -> (payload: Self)
        ensures
            payload.content is None,
            payload.diff is None,
            payload.patch is None,
            payload.old_string is None,
            payload.new_string is None,
            payload.replace_all is None,
    {
        FileChangePayload {
            content: None,
            diff: None,
            patch: None,
            old_string: None,
            new_string: None,
            replace_all: None,
        }
    }
}

/// One change of a batch. `payload` holds the file keys, or why they do not parse.
#[derive(Debug)]
pub struct ChangeItem {
    pub target: String,
    pub mode: ChangeMode,
    pub payload: Result<FileChangePayload, String>,
}

/// A change that did not happen, and why.
#[derive(Debug)]
pub struct ChangeFailure {
    pub index: usize,
    pub target: String,
    pub mode: String,
    pub kind: String,
    pub error: String,
}

/// What a failure says.
pub struct FailureModel {
    pub index: nat,
    pub target: Seq<char>,
    pub mode: Seq<char>,
    pub kind: Seq<char>,
    pub error: Seq<char>,
}

impl View for ChangeFailure {
    type V = FailureModel;

    open spec fn view(&self) -> FailureModel {
        FailureModel {
            index: self.index as nat,
            target: self.target@,
            mode: self.mode@,
            kind: self.kind@,
            error: self.error@,
        }
    }
}

/// What a list of failures says.
pub open spec fn failure_models(failures: Seq<ChangeFailure>) -> Seq<FailureModel> {
    failures.map_values(|failure: ChangeFailure| failure@)
}

/// A change that happened. `data` is what it returns beyond the summary, as JSON
/// text.
#[derive(Debug)]
pub struct AppliedChange {
    pub index: usize,
    pub target: String,
    pub mode: String,
    pub kind: String,
    pub summary: String,
    pub data: Option<String>,
}

/// What is reported of an applied change.
pub struct AppliedModel {
    pub index: nat,
    pub target: Seq<char>,
    pub mode: Seq<char>,
    pub kind: Seq<char>,
    pub summary: Seq<char>,
    pub data: Option<Seq<char>>,
}

impl View for AppliedChange {
    type V = AppliedModel;

    open spec fn view(&self) -> AppliedModel {
        AppliedModel {
            index: self.index as nat,
            target: self.target@,
            mode: self.mode@,
            kind: self.kind@,
            summary: self.summary@,
            data: opt_text(self.data),
        }
    }
}

/// What is reported of a list of applied changes.
pub open spec fn applied_models(applied: Seq<AppliedChange>) -> Seq<AppliedModel> {
    applied.map_values(|change: AppliedChange| change@)
}

/// What became of the commit of a batch.
#[derive(Debug)]
pub struct CommitReport {
    pub status: String,
    pub sha: Option<String>,
    pub pr_number: Option<i32>,
    pub message: Option<String>,
}

/// What a commit report says.
pub struct CommitModel {
    pub status: Seq<char>,
    pub sha: Option<Seq<char>>,
    pub pr_number: Option<i32>,
    pub message: Option<Seq<char>>,
}

impl View for CommitReport {
    type V = CommitModel;

    open spec fn view(&self) -> CommitModel {
        CommitModel {
            status: self.status@,
            sha: opt_text(self.sha),
            pr_number: self.pr_number,
            message: opt_text(self.message),
        }
    }
}

/// What an optional commit report says.
pub open spec fn commit_model(commit: Option<CommitReport>) -> Option<CommitModel> {
    match commit {
        Some(report) => Some(report@),
        None => None,
    }
}

/// What is reported of a batch.
#[derive(Debug)]
pub struct ChangeReport {
    pub applied: Vec<AppliedChange>,
    pub failures: Vec<ChangeFailure>,
    pub commit: Option<CommitReport>,
    pub partial_success: bool,
    pub transactional: bool,
}

/// What a report says.
pub struct ReportModel {
    pub applied: Seq<AppliedModel>,
    pub failures: Seq<FailureModel>,
    pub commit: Option<CommitModel>,
    pub partial_success: bool,
    pub transactional: bool,
}

impl View for ChangeReport {
    type V = ReportModel;

    open spec fn view(&self) -> ReportModel {
        ReportModel {
            applied: applied_models(self.applied@),
            failures: failure_models(self.failures@),
            commit: commit_model(self.commit),
            partial_success: self.partial_success,
            transactional: self.transactional,
        }
    }
}

/// A failure together with what it says of the commit.
#[derive(Debug)]
pub struct IndexedFailure {
    pub failure: ChangeFailure,
    pub commit: Option<CommitReport>,
}

/// What is said of a change to a file that failed with `error`.
pub open spec fn file_failure(
    index: nat,
    target: Seq<char>,
    mode: ChangeMode,
    error: Seq<char>,
) -> FailureModel {
    FailureModel { index, target, mode: mode_text(mode), kind: "file"@, error }
}

/// The failure of the change `item` at `index`.
pub fn build_failure(index: usize, item: &ChangeItem, error: String) -> (failure: ChangeFailure)
    ensures
        failure@ == file_failure(index as nat, item.target@, item.mode, error@),
{
    ChangeFailure {
        index,
        target: item.target.clone(),
        mode: mode_name(item.mode),
        kind: "file".to_owned(),
        error,
    }
}

/// What is reported of a batch: it succeeded in part where some changes were
/// applied and some failed.
pub open spec fn report_model(
    applied: Seq<AppliedModel>,
    failures: Seq<FailureModel>,
    commit: Option<CommitModel>,
    transactional: bool,
) -> ReportModel {
    ReportModel {
        applied,
        failures,
        commit,
        partial_success: applied.len() > 0 && failures.len() > 0,
        transactional,
    }
}

/// The report of a batch.
pub fn change_report(
    applied: Vec<AppliedChange>,
    failures: Vec<ChangeFailure>,
    commit: Option<CommitReport>,
    transactional: bool,
) -> (report: ChangeReport)
    ensures
        report@ == report_model(
            applied_models(applied@),
            failure_models(failures@),
            commit_model(commit),
            transactional,
        ),
{
    let partial_success = applied.len() > 0 && failures.len() > 0;
    ChangeReport { applied, failures, commit, partial_success, transactional }
}

/// A copy of a change.
pub fn clone_item(item: &ChangeItem) -> (copy: ChangeItem)
    ensures
        copy == *item,
{
    ChangeItem {
        target: item.target.clone(),
        mode: item.mode,
        payload: match &item.payload {
            Ok(payload) => Ok(
                FileChangePayload {
                    content: clone_opt(&payload.content),
                    diff: clone_opt(&payload.diff),
                    patch: clone_opt(&payload.patch),
                    old_string: clone_opt(&payload.old_string),
                    new_string: clone_opt(&payload.new_string),
                    replace_all: payload.replace_all,
                },
            ),
            Err(error) => Err(error.clone()),
        },
    }
}

/// A report holds what was applied, what failed and the commit as they are; it is a partial
/// success exactly if something was applied and something failed.
pub proof fn law_report_holds_what_came_of_the_changes(
    applied: Seq<AppliedModel>,
    failures: Seq<FailureModel>,
    commit: Option<CommitModel>,
    transactional: bool,
)
    ensures
        ({
            let report = report_model(applied, failures, commit, transactional);
            &&& report.applied == applied
            &&& report.failures == failures
            &&& report.commit == commit
            &&& report.transactional == transactional
            &&& report.partial_success <==> applied.len() > 0 && failures.len() > 0
        }),
{
}

/// A failure is charged to the change that it came of, with the name of its mode and its
/// reason.
pub proof fn law_failure_is_charged_to_its_change(
    index: nat,
    target: Seq<char>,
    mode: ChangeMode,
    error: Seq<char>,
)
    ensures
        ({
            let failure = file_failure(index, target, mode, error);
            &&& failure.index == index
            &&& failure.target == target
            &&& failure.error == error
            &&& failure.kind == "file"@
            &&& failure.mode == mode_text(mode)
        }),
        mode_text(ChangeMode::Create) == "create"@,
        mode_text(ChangeMode::Replace) == "replace"@,
        mode_text(ChangeMode::Append) == "append"@,
        mode_text(ChangeMode::Patch) == "patch"@,
        mode_text(ChangeMode::UnifiedPatch) == "unified_patch"@,
        mode_text(ChangeMode::Rename) == "rename"@,
        mode_text(ChangeMode::Delete) == "delete"@,
        mode_text(ChangeMode::Apply) == "apply"@,
{
}

} // verus!
