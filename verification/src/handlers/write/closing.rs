//! Closing a `write` call: its commit, what has to follow the commit, and the
//! answer.
//!
//! As before the changes, each step is a type of its own that only the step before
//! it hands out: the commit comes before the push, the push before the pack, and
//! the blocking group last of all.
use vstd::prelude::*;
use vstd::string::*;
use crate::handlers::write::batch::{IndexedChange, RecordFileChange};
use crate::handlers::write::call::{WriteCall, WriteItem};
use crate::handlers::write::commit::{
    commit_plan, plan_commit, CommitPlan, CompletedCommit, PublicationRequirement,
};
use crate::handlers::write::progress::{
    or_commit, promoted_models, Applied, ChangeLog, LogModel, Promoted, PromotedModel,
};
use crate::handlers::write::types::{
    applied_models, change_report, clone_item, commit_model, failure_models, mode_name, mode_text,
    report_model, AppliedChange, AppliedModel, ChangeFailure, ChangeReport, CommitModel,
    CommitReport, FailureModel, IndexedFailure, ReportModel,
};
use crate::text::{decimal, join, joined, opt_text, render_usize, text2, text3, texts};

verus! {

/// What is known of a call behind its changes.
#[verifier::ext_equal]
pub struct TailModel {
    pub log: LogModel,
    pub requirement: PublicationRequirement,
    pub publish_pack: bool,
    pub summary: Option<Seq<char>>,
}

/// What is known of a call behind its changes.
struct Tail {
    call: WriteCall,
    log: ChangeLog,
    runs_group: bool,
    requirement: PublicationRequirement,
    publish_pack: bool,
    summary: Option<String>,
}

impl Tail {
    spec fn model(self) -> TailModel {
        TailModel {
            log: self.log@,
            requirement: self.requirement,
            publish_pack: self.publish_pack,
            summary: opt_text(self.summary),
        }
    }
}

/// The commit of a call has a hash.
pub open spec fn is_sealed(log: LogModel) -> bool {
    log.commit matches Some(report) && report.sha is Some
}

/// Whether the commit of a log has a hash.
fn sealed(log: &ChangeLog) -> (is: bool)
    ensures
        is == is_sealed(log@),
{
    match &log.commit {
        Some(report) => report.sha.is_some(),
        None => false,
    }
}

/// The call before its commit.
pub struct AtCommit {
    tail: Tail,
}

/// What the step behind the commit is.
pub enum CommitPassage {
    /// The call ends; the decisions on these memories are taken back.
    Ended { report: ChangeReport, roll_back: Vec<String> },
    Open(AtPush),
}

/// The ids of promoted memories.
pub open spec fn memory_ids(promoted: Seq<PromotedModel>) -> Seq<Seq<char>> {
    promoted.map_values(|memory: PromotedModel| memory.memory_id)
}

/// The addresses of promoted memories.
pub open spec fn memory_uris(promoted: Seq<PromotedModel>) -> Seq<Seq<char>> {
    promoted.map_values(|memory: PromotedModel| memory.memory_uri)
}

/// The ids of promoted memories.
fn collect_ids(promoted: &Vec<Promoted>) -> (ids: Vec<String>)
    ensures
        texts(ids@) == memory_ids(promoted_models(promoted@)),
{
    let mut ids: Vec<String> = Vec::new();
    let mut i: usize = 0;
    while i < promoted.len()
        invariant
            i <= promoted@.len(),
            ids@.len() == i,
            forall|k: int| 0 <= k < i ==> (#[trigger] ids@[k]) == promoted@[k].memory_id,
        decreases promoted.len() - i,
    {
        ids.push(promoted[i].memory_id.clone());
        i += 1;
    }
    assert(texts(ids@) =~= memory_ids(promoted_models(promoted@)));
    ids
}

/// The addresses of promoted memories.
fn collect_uris(promoted: &Vec<Promoted>) -> (uris: Vec<String>)
    ensures
        texts(uris@) == memory_uris(promoted_models(promoted@)),
{
    let mut uris: Vec<String> = Vec::new();
    let mut i: usize = 0;
    while i < promoted.len()
        invariant
            i <= promoted@.len(),
            uris@.len() == i,
            forall|k: int| 0 <= k < i ==> (#[trigger] uris@[k]) == promoted@[k].memory_uri,
        decreases promoted.len() - i,
    {
        uris.push(promoted[i].memory_uri.clone());
        i += 1;
    }
    assert(texts(uris@) =~= memory_uris(promoted_models(promoted@)));
    uris
}

/// The change that stands for the files of the call.
pub open spec fn file_change(log: LogModel, items: Seq<WriteItem>) -> Option<int> {
    match log.first_file {
        Some(index) => if index < items.len() {
            Some(index as int)
        } else {
            None
        },
        None => None,
    }
}

/// A log whose commit is replaced.
pub open spec fn with_commit(log: LogModel, commit: Option<CommitModel>) -> LogModel {
    LogModel { commit, ..log }
}

impl AtCommit {
    /// The call at this step.
    pub closed spec fn call(self) -> WriteCall {
        self.tail.call
    }

    /// What is known of the call.
    pub closed spec fn model(self) -> TailModel {
        self.tail.model()
    }

    /// Whether a group of blocking appends runs behind the changes.
    pub closed spec fn runs_group(self) -> bool {
        self.tail.runs_group
    }

    /// Starts to close a call.
    pub fn start(applied: Applied) -> (step: Self)
        ensures
            step.call() == applied.call(),
            step.runs_group() == applied.runs_group(),
            step.model() == (TailModel {
                log: applied.log(),
                requirement: PublicationRequirement::DeferredUntilPublication,
                publish_pack: false,
                summary: None,
            }),
    {
        let (call, log, runs_group) = applied.into_parts();
        AtCommit {
            tail: Tail {
                call,
                log,
                runs_group,
                requirement: PublicationRequirement::DeferredUntilPublication,
                publish_pack: false,
                summary: None,
            },
        }
    }

    /// The change that stands for the files of the call, where there is one.
    pub fn change(&self) -> (change: Option<IndexedChange>)
        ensures
            match (change, file_change(self.model().log, self.call().items@)) {
                (Some(found), Some(index)) => found.index == index && found.item
                    == self.call().items@[index].item,
                (None, None) => true,
                _ => false,
            },
    {
        match self.tail.log.first_file {
            Some(index) => {
                if index < self.tail.call.items.len() {
                    Some(
                        IndexedChange { index, item: clone_item(&self.tail.call.items[index].item) },
                    )
                } else {
                    None
                }
            },
            None => None,
        }
    }

    /// What is to be committed, where the call changed files.
    pub fn plan(&self, agent_prefix: &str) -> (plan: Option<CommitPlan>)
        ensures
            match (plan, file_change(self.model().log, self.call().items@)) {
                (Some(found), Some(index)) => found@ == commit_plan(
                    index as nat,
                    self.call().items@[index].item,
                    self.model().log.affected_paths.len(),
                    opt_text(self.call().commit_msg),
                    memory_uris(self.model().log.promoted),
                    agent_prefix@,
                ),
                (None, None) => true,
                _ => false,
            },
    {
        match self.tail.log.first_file {
            Some(index) => {
                if index < self.tail.call.items.len() {
                    let message = match &self.tail.call.commit_msg {
                        Some(message) => Some(message.as_str()),
                        None => None,
                    };
                    let uris = collect_uris(&self.tail.log.promoted);
                    assert(texts(self.tail.log.affected_paths@).len()
                        == self.tail.log.affected_paths@.len());
                    Some(
                        plan_commit(
                            index,
                            &self.tail.call.items[index].item,
                            &self.tail.log.affected_paths,
                            message,
                            &uris,
                            agent_prefix,
                        ),
                    )
                } else {
                    None
                }
            },
            None => None,
        }
    }

    /// The tree mutations that the commit makes.
    pub fn mutations(&self) -> (mutations: &Vec<crate::handlers::write::batch::LogicalMutation>)
        ensures
            crate::handlers::write::batch::mutation_models(mutations@)
                == self.model().log.logical_mutations,
    {
        &self.tail.log.logical_mutations
    }

    /// Whether the call goes on like this after its commit.
    pub open spec fn is_committed(
        self,
        settled: Option<Result<CompletedCommit, IndexedFailure>>,
        passage: CommitPassage,
    ) -> bool {
        match settled {
            None => passage matches CommitPassage::Open(next) && next.call() == self.call()
                && next.runs_group() == self.runs_group() && next.model() == self.model(),
            Some(Ok(done)) => {
                &&& passage matches CommitPassage::Open(next)
                &&& next.call() == self.call()
                &&& next.runs_group() == self.runs_group()
                &&& next.model() == (TailModel {
                    log: with_commit(self.model().log, commit_model(done.report)),
                    requirement: done.publication_requirement,
                    publish_pack: done.publish_pack,
                    ..self.model()
                })
            },
            Some(Err(failed)) => if self.call().atomic {
                &&& passage matches CommitPassage::Ended { report, roll_back }
                &&& report@ == report_model(
                    self.model().log.applied,
                    seq![failed.failure@],
                    commit_model(failed.commit),
                    true,
                )
                &&& texts(roll_back@) == memory_ids(self.model().log.promoted)
            } else {
                &&& passage matches CommitPassage::Open(next)
                &&& next.call() == self.call()
                &&& next.runs_group() == self.runs_group()
                &&& next.model() == (TailModel {
                    log: LogModel {
                        failures: self.model().log.failures.push(failed.failure@),
                        commit: or_commit(
                            commit_model(failed.commit),
                            self.model().log.commit,
                        ),
                        ..self.model().log
                    },
                    ..self.model()
                })
            },
        }
    }

    /// Takes up what came of the commit; `None` where there was none to make.
    pub fn committed(
        self,
        settled: Option<Result<CompletedCommit, IndexedFailure>>,
    ) -> (passage: CommitPassage)
        ensures
            self.is_committed(settled, passage),
    {
        let ghost start = self.model();
        let mut tail = self.tail;
        match settled {
            None => CommitPassage::Open(AtPush { tail }),
            Some(Ok(done)) => {
                tail.log.commit = done.report;
                tail.requirement = done.publication_requirement;
                tail.publish_pack = done.publish_pack;
                CommitPassage::Open(AtPush { tail })
            },
            Some(Err(failed)) => {
                if tail.call.atomic {
                    let roll_back = collect_ids(&tail.log.promoted);
                    let ghost said = failed.failure@;
                    let mut failures: Vec<ChangeFailure> = Vec::new();
                    failures.push(failed.failure);
                    assert(failure_models(failures@) =~= seq![said]);
                    let report = change_report(tail.log.applied, failures, failed.commit, true);
                    return CommitPassage::Ended { report, roll_back };
                }
                let ghost said = failed.failure@;
                tail.log.failures.push(failed.failure);
                if let Some(report) = failed.commit {
                    tail.log.commit = Some(report);
                }
                assert(failure_models(tail.log.failures@) =~= start.log.failures.push(said));
                CommitPassage::Open(AtPush { tail })
            },
        }
    }
}

/// What the next step is, or the report of a call that ends here.
pub enum Step<T> {
    Ended(ChangeReport),
    Open(T),
}

/// The call behind its commit, before the push to the origin.
pub struct AtPush {
    tail: Tail,
}

/// A failure to publish, charged to the change that stands for the files.
pub open spec fn publication_failure(
    log: LogModel,
    items: Seq<WriteItem>,
    error: Seq<char>,
) -> FailureModel {
    let index = match log.first_file {
        Some(index) => index as int,
        None => 0,
    };
    FailureModel {
        index: index as nat,
        target: if index < items.len() {
            items[index].item.target@
        } else {
            "file:"@
        },
        mode: if index < items.len() {
            mode_text(items[index].item.mode)
        } else {
            "patch"@
        },
        kind: "publication"@,
        error,
    }
}

/// What is said of a commit that did not reach the origin.
pub open spec fn unpushed_message(log: LogModel, error: Seq<char>) -> Seq<char> {
    let sha = match log.commit {
        Some(report) => match report.sha {
            Some(sha) => sha,
            None => "(unknown)"@,
        },
        None => "(unknown)"@,
    };
    "Commit "@ + sha
        + " was sealed locally but remains unpublished because the required open-PR origin push failed: "@
        + error + ". Retry a file-touching write to publish the current bookmark."@
}

/// The report of a commit that did not reach the origin.
pub open spec fn unpushed_commit(log: LogModel, error: Seq<char>) -> CommitModel {
    CommitModel {
        status: "sealed locally; unpublished"@,
        sha: match log.commit {
            Some(report) => report.sha,
            None => None,
        },
        pr_number: match log.commit {
            Some(report) => report.pr_number,
            None => None,
        },
        message: Some(unpushed_message(log, error)),
    }
}

/// A failure to publish.
fn charge_publication(log: &ChangeLog, items: &Vec<WriteItem>, error: String) -> (failure:
    ChangeFailure)
    ensures
        failure@ == publication_failure(log@, items@, error@),
{
    let index: usize = match log.first_file {
        Some(index) => index,
        None => 0,
    };
    let (target, mode) = if index < items.len() {
        (items[index].item.target.clone(), mode_name(items[index].item.mode))
    } else {
        ("file:".to_owned(), "patch".to_owned())
    };
    ChangeFailure { index, target, mode, kind: "publication".to_owned(), error }
}

impl AtPush {
    /// The call at this step.
    pub closed spec fn call(self) -> WriteCall {
        self.tail.call
    }

    /// What is known of the call.
    pub closed spec fn model(self) -> TailModel {
        self.tail.model()
    }

    /// Whether a group of blocking appends runs behind the changes.
    pub closed spec fn runs_group(self) -> bool {
        self.tail.runs_group
    }

    /// The changes to record: those of a sealed commit.
    pub fn records(&self) -> (records: Option<&Vec<RecordFileChange>>)
        ensures
            match records {
                Some(found) => is_sealed(self.model().log)
                    && crate::handlers::write::batch::record_models(found@)
                    == self.model().log.recorded_changes,
                None => !is_sealed(self.model().log),
            },
    {
        if sealed(&self.tail.log) {
            Some(&self.tail.log.recorded_changes)
        } else {
            None
        }
    }

    /// Whether the commit has to reach the origin now.
    pub fn needs_push(&self) -> (needed: bool)
        ensures
            needed == (self.model().requirement == PublicationRequirement::RequiredForOpenPr),
    {
        self.tail.requirement == PublicationRequirement::RequiredForOpenPr
    }

    /// Whether the call goes on like this after its push.
    pub open spec fn is_pushed(self, push: Result<(), String>, step: Step<AtPack>) -> bool {
        match step {
            Step::Open(next) => {
                &&& self.model().requirement == PublicationRequirement::RequiredForOpenPr
                    ==> push is Ok
                &&& next.call() == self.call()
                &&& next.runs_group() == self.runs_group()
                &&& next.model() == self.model()
            },
            Step::Ended(report) => {
                &&& self.model().requirement == PublicationRequirement::RequiredForOpenPr
                &&& push matches Err(error)
                &&& report@ == report_model(
                    self.model().log.applied,
                    self.model().log.failures.push(
                        publication_failure(
                            self.model().log,
                            self.call().items@,
                            unpushed_message(self.model().log, error@),
                        ),
                    ),
                    Some(unpushed_commit(self.model().log, error@)),
                    self.call().atomic,
                )
            },
        }
    }

    /// Takes up what came of the push. It is read only where one was needed.
    pub fn pushed(self, push: Result<(), String>) -> (step: Step<AtPack>)
        ensures
            self.is_pushed(push, step),
    {
        let ghost start = self.model();
        if !self.needs_push() {
            return Step::Open(AtPack { tail: self.tail });
        }
        match push {
            Ok(_) => Step::Open(AtPack { tail: self.tail }),
            Err(error) => {
                let mut tail = self.tail;
                let (sha, pr_number) = match &tail.log.commit {
                    Some(report) => (crate::text::clone_opt(&report.sha), report.pr_number),
                    None => (None, None),
                };
                let mut message = text2(
                    "Commit ",
                    match &sha {
                        Some(sha) => sha.as_str(),
                        None => "(unknown)",
                    },
                );
                message.append(
                    " was sealed locally but remains unpublished because the required open-PR origin push failed: ",
                );
                message.append(error.as_str());
                message.append(". Retry a file-touching write to publish the current bookmark.");
                let failure = charge_publication(&tail.log, &tail.call.items, message.clone());
                let ghost said = failure@;
                tail.log.failures.push(failure);
                assert(failure_models(tail.log.failures@) =~= start.log.failures.push(said));
                let commit = CommitReport {
                    status: "sealed locally; unpublished".to_owned(),
                    sha,
                    pr_number,
                    message: Some(message),
                };
                Step::Ended(
                    change_report(
                        tail.log.applied,
                        tail.log.failures,
                        Some(commit),
                        tail.call.atomic,
                    ),
                )
            },
        }
    }
}

/// The call before the pack of its commit is published.
pub struct AtPack {
    tail: Tail,
}

/// A commit report with a warning behind what it says.
pub open spec fn with_warning(commit: Option<CommitModel>, warning: Seq<char>) -> Option<
    CommitModel,
> {
    match commit {
        None => None,
        Some(report) => Some(
            CommitModel {
                message: Some(
                    match report.message {
                        Some(message) => message + "; "@ + warning,
                        None => warning,
                    },
                ),
                ..report
            },
        ),
    }
}

impl AtPack {
    /// The call at this step.
    pub closed spec fn call(self) -> WriteCall {
        self.tail.call
    }

    /// What is known of the call.
    pub closed spec fn model(self) -> TailModel {
        self.tail.model()
    }

    /// Whether a group of blocking appends runs behind the changes.
    pub closed spec fn runs_group(self) -> bool {
        self.tail.runs_group
    }

    /// The commit whose pack is to be published, if any.
    pub fn pack(&self) -> (sha: Option<String>)
        ensures
            match sha {
                Some(found) => self.model().publish_pack && is_sealed(self.model().log)
                    && self.model().log.commit->Some_0.sha == Some(found@),
                None => !(self.model().publish_pack && is_sealed(self.model().log)),
            },
    {
        if self.tail.publish_pack {
            match &self.tail.log.commit {
                Some(report) => crate::text::clone_opt(&report.sha),
                None => None,
            }
        } else {
            None
        }
    }

    /// Whether the call goes on like this after its pack.
    pub open spec fn is_packed(self, pack: Result<(), String>, next: AtAcknowledge) -> bool {
        &&& next.call() == self.call()
        &&& next.runs_group() == self.runs_group()
        &&& next.model() == (TailModel {
            log: match pack {
                Ok(_) => self.model().log,
                Err(error) => if self.model().publish_pack {
                    with_commit(
                        self.model().log,
                        with_warning(
                            self.model().log.commit,
                            "sealed commit cloud publication failed: "@ + error@,
                        ),
                    )
                } else {
                    self.model().log
                },
            },
            ..self.model()
        })
    }

    /// Takes up what came of publishing the pack: a failure is a warning on the
    /// commit.
    pub fn packed(self, pack: Result<(), String>) -> (next: AtAcknowledge)
        ensures
            self.is_packed(pack, next),
    {
        let mut tail = self.tail;
        if tail.publish_pack {
            if let Err(error) = pack {
                let warning = text2("sealed commit cloud publication failed: ", error.as_str());
                let commit = tail.log.commit.take();
                tail.log.commit = match commit {
                    Some(report) => {
                        let message = match report.message {
                            Some(message) => text3(message.as_str(), "; ", warning.as_str()),
                            None => warning,
                        };
                        Some(
                            CommitReport {
                                status: report.status,
                                sha: report.sha,
                                pr_number: report.pr_number,
                                message: Some(message),
                            },
                        )
                    },
                    None => None,
                };
            }
        }
        AtAcknowledge { tail }
    }
}

/// The call before the advance of its branch is acknowledged.
pub struct AtAcknowledge {
    tail: Tail,
}

impl AtAcknowledge {
    /// The call at this step.
    pub closed spec fn call(self) -> WriteCall {
        self.tail.call
    }

    /// What is known of the call.
    pub closed spec fn model(self) -> TailModel {
        self.tail.model()
    }

    /// Whether a group of blocking appends runs behind the changes.
    pub closed spec fn runs_group(self) -> bool {
        self.tail.runs_group
    }

    /// Whether the call goes on like this after the branch was looked at.
    pub open spec fn is_acknowledged(self, outcome: Result<(), String>, next: AtChecks) -> bool {
        &&& next.call() == self.call()
        &&& next.runs_group() == self.runs_group()
        &&& next.model() == (TailModel {
            log: match outcome {
                Ok(_) => self.model().log,
                Err(error) => LogModel {
                    failures: self.model().log.failures.push(
                        publication_failure(
                            self.model().log,
                            self.call().items@,
                            "Managed branch advancement was committed, but logical bookmark validation failed: "@
                                + error@,
                        ),
                    ),
                    ..self.model().log
                },
            },
            ..self.model()
        })
    }

    /// Takes up the acknowledgement.
    pub fn acknowledged(self, outcome: Result<(), String>) -> (next: AtChecks)
        ensures
            self.is_acknowledged(outcome, next),
    {
        let ghost start = self.model();
        let mut tail = self.tail;
        if let Err(error) = outcome {
            let message = text2(
                "Managed branch advancement was committed, but logical bookmark validation failed: ",
                error.as_str(),
            );
            let failure = charge_publication(&tail.log, &tail.call.items, message);
            let ghost said = failure@;
            tail.log.failures.push(failure);
            assert(failure_models(tail.log.failures@) =~= start.log.failures.push(said));
        }
        AtChecks { tail }
    }
}

/// The call before the checks of its commit.
pub struct AtChecks {
    tail: Tail,
}

impl AtChecks {
    /// The call at this step.
    pub closed spec fn call(self) -> WriteCall {
        self.tail.call
    }

    /// What is known of the call.
    pub closed spec fn model(self) -> TailModel {
        self.tail.model()
    }

    /// Whether a group of blocking appends runs behind the changes.
    pub closed spec fn runs_group(self) -> bool {
        self.tail.runs_group
    }

    /// Whether the checks run: only on a commit that changed files.
    pub fn needs_checks(&self) -> (needed: bool)
        ensures
            needed == (self.model().log.first_file is Some && is_sealed(self.model().log)),
    {
        self.tail.log.first_file.is_some() && sealed(&self.tail.log)
    }

    /// Whether the call goes on like this after its checks.
    pub open spec fn is_checked(self, summary: Option<String>, next: AtPromotion) -> bool {
        &&& next.call() == self.call()
        &&& next.runs_group() == self.runs_group()
        &&& next.model() == (TailModel {
            summary: if self.model().log.first_file is Some && is_sealed(self.model().log) {
                opt_text(summary)
            } else {
                None
            },
            ..self.model()
        })
    }

    /// Takes up the summary of the checks, where they ran.
    pub fn checked(self, summary: Option<String>) -> (next: AtPromotion)
        ensures
            self.is_checked(summary, next),
    {
        let needed = self.needs_checks();
        let mut tail = self.tail;
        tail.summary = if needed {
            summary
        } else {
            None
        };
        AtPromotion { tail }
    }
}


/// The call before its promoted memories are settled.
pub struct AtPromotion {
    tail: Tail,
}

/// What is to be done about promoted memories.
#[derive(Debug)]
pub enum Promotion {
    Nothing,
    /// The memories are recorded with the commit.
    Record { ids: Vec<String>, sha: String },
    /// The decisions on the memories are taken back.
    RollBack { ids: Vec<String> },
}

/// Whether a change is one of those that promoted a memory.
pub open spec fn promotes(promoted: Seq<PromotedModel>, index: nat) -> bool {
    exists|k: int| 0 <= k < promoted.len() && (#[trigger] promoted[k]).index == index
}

/// The failures of promotions without a commit.
pub open spec fn unpromoted_failures(promoted: Seq<PromotedModel>) -> Seq<FailureModel> {
    promoted.map_values(
        |memory: PromotedModel|
            FailureModel {
                index: memory.index,
                target: memory.target,
                mode: memory.mode,
                kind: "resource"@,
                error: "promote_memory requires a committed file change in the same write"@,
            },
    )
}

/// A log after the promoted memories are settled. Without a commit a promotion did
/// not happen after all.
pub open spec fn with_promotions(log: LogModel, recorded: Result<(), Seq<char>>) -> LogModel {
    if log.promoted.len() == 0 {
        log
    } else if is_sealed(log) {
        match recorded {
            Ok(_) => log,
            Err(error) => LogModel {
                failures: log.failures.push(
                    FailureModel {
                        index: log.promoted[0].index,
                        target: log.promoted[0].target,
                        mode: log.promoted[0].mode,
                        kind: "resource"@,
                        error: "Committed file changes but failed to record promoted memory SHA: "@
                            + error,
                    },
                ),
                ..log
            },
        }
    } else {
        LogModel {
            applied: log.applied.filter(
                |change: AppliedModel| !promotes(log.promoted, change.index),
            ),
            failures: log.failures + unpromoted_failures(log.promoted),
            ..log
        }
    }
}

/// Whether the change at `index` promoted a memory.
fn is_promoting(promoted: &Vec<Promoted>, index: usize) -> (is: bool)
    ensures
        is == promotes(promoted_models(promoted@), index as nat),
{
    let ghost models = promoted_models(promoted@);
    let mut k: usize = 0;
    while k < promoted.len()
        invariant
            k <= promoted@.len(),
            models == promoted_models(promoted@),
            forall|j: int| 0 <= j < k ==> (#[trigger] models[j]).index != index,
        decreases promoted.len() - k,
    {
        assert(models[k as int] == promoted@[k as int]@);
        if promoted[k].index == index {
            return true;
        }
        k += 1;
    }
    false
}

/// The changes that promoted no memory.
fn without_promoting(applied: Vec<AppliedChange>, promoted: &Vec<Promoted>) -> (kept: Vec<
    AppliedChange,
>)
    ensures
        applied_models(kept@) == applied_models(applied@).filter(
            |change: AppliedModel| !promotes(promoted_models(promoted@), change.index),
        ),
{
    let ghost all = applied_models(applied@);
    let ghost wanted = |change: AppliedModel| !promotes(promoted_models(promoted@), change.index);
    let ghost given = applied@;
    let mut kept: Vec<AppliedChange> = Vec::new();
    proof {
        reveal(Seq::filter);
        assert(all.take(0) =~= Seq::empty());
        assert(applied_models(kept@) =~= Seq::empty());
    }
    for change in it: applied
        invariant
            it.seq() == given,
            all == applied_models(given),
            wanted == (|change: AppliedModel| !promotes(
                promoted_models(promoted@),
                change.index,
            )),
            applied_models(kept@) == all.take(it.index() as int).filter(wanted),
    {
        let ghost place = it.index() as int;
        proof {
            assert(all[place] == change@);
            assert(all.take(place + 1) =~= all.take(place).push(change@));
            all.take(place).lemma_filter_push(change@, wanted);
        }
        let ghost done = applied_models(kept@);
        if !is_promoting(promoted, change.index) {
            let ghost said = change@;
            kept.push(change);
            assert(applied_models(kept@) =~= done.push(said));
        }
    }
    assert(all.take(given.len() as int) =~= all);
    kept
}

/// Adds the failures of promotions without a commit.
fn add_unpromoted(failures: &mut Vec<ChangeFailure>, promoted: &Vec<Promoted>)
    ensures
        failure_models(final(failures)@) == failure_models(old(failures)@) + unpromoted_failures(
            promoted_models(promoted@),
        ),
{
    let ghost start = failure_models(failures@);
    let ghost all = unpromoted_failures(promoted_models(promoted@));
    let mut k: usize = 0;
    assert(start + all.take(0) =~= start);
    while k < promoted.len()
        invariant
            k <= promoted@.len(),
            all == unpromoted_failures(promoted_models(promoted@)),
            failure_models(failures@) == start + all.take(k as int),
        decreases promoted.len() - k,
    {
        let ghost before = failures@;
        let memory = &promoted[k];
        assert(promoted_models(promoted@)[k as int] == memory@);
        let failure = ChangeFailure {
            index: memory.index,
            target: memory.target.clone(),
            mode: memory.mode.clone(),
            kind: "resource".to_owned(),
            error: "promote_memory requires a committed file change in the same write".to_owned(),
        };
        let ghost said = failure@;
        failures.push(failure);
        assert(failure_models(failures@) =~= failure_models(before).push(said));
        assert(all.take(k + 1) =~= all.take(k as int).push(said));
        k += 1;
        assert(failure_models(failures@) =~= start + all.take(k as int));
    }
    assert(all.take(k as int) =~= all);
}

impl AtPromotion {
    /// The call at this step.
    pub closed spec fn call(self) -> WriteCall {
        self.tail.call
    }

    /// What is known of the call.
    pub closed spec fn model(self) -> TailModel {
        self.tail.model()
    }

    /// Whether a group of blocking appends runs behind the changes.
    pub closed spec fn runs_group(self) -> bool {
        self.tail.runs_group
    }

    /// Whether this is what becomes of the memories of the call.
    pub open spec fn is_promotion(self, promotion: Promotion) -> bool {
    let log = self.model().log;
    match promotion {
        Promotion::Nothing => log.promoted.len() == 0,
        Promotion::Record { ids, sha } => log.promoted.len() > 0 && is_sealed(log)
            && texts(ids@) == memory_ids(log.promoted) && log.commit->Some_0.sha
            == Some(sha@),
        Promotion::RollBack { ids } => log.promoted.len() > 0 && !is_sealed(log)
            && texts(ids@) == memory_ids(log.promoted),
    }
    }

    /// What is to be done about the promoted memories.
    pub fn promotion(&self) -> (promotion: Promotion)
        ensures
            self.is_promotion(promotion),
    {
        assert(promoted_models(self.tail.log.promoted@).len() == self.tail.log.promoted@.len());
        if self.tail.log.promoted.len() == 0 {
            return Promotion::Nothing;
        }
        let ids = collect_ids(&self.tail.log.promoted);
        match &self.tail.log.commit {
            Some(report) => match &report.sha {
                Some(sha) => Promotion::Record { ids, sha: sha.clone() },
                None => Promotion::RollBack { ids },
            },
            None => Promotion::RollBack { ids },
        }
    }

    /// Whether the call goes on like this after its memories.
    pub open spec fn is_promoted(
        self,
        recorded: Result<(), String>,
        step: Step<AtReply>,
    ) -> bool {
    let log = self.model().log;
    let after = with_promotions(
        log,
        match recorded {
            Ok(done) => Ok(done),
            Err(error) => Err(error@),
        },
    );
    if log.promoted.len() > 0 && !is_sealed(log) && self.call().atomic {
        step matches Step::Ended(report) && report@ == report_model(
            after.applied,
            after.failures,
            after.commit,
            true,
        )
    } else {
        step matches Step::Open(next) && next.call() == self.call()
            && next.runs_group() == self.runs_group() && next.model() == (TailModel {
            log: after,
            ..self.model()
        })
    }
    }

    /// Takes up what came of recording the promotions. An atomic call that promoted
    /// without a commit ends here.
    pub fn promoted(self, recorded: Result<(), String>) -> (step: Step<AtReply>)
        ensures
            self.is_promoted(recorded, step),
    {
        let ghost start = self.model();
        let mut tail = self.tail;
        assert(promoted_models(tail.log.promoted@).len() == tail.log.promoted@.len());
        if tail.log.promoted.len() > 0 {
            if sealed(&tail.log) {
                if let Err(error) = recorded {
                    let memory = &tail.log.promoted[0];
                    assert(promoted_models(tail.log.promoted@)[0] == memory@);
                    let failure = ChangeFailure {
                        index: memory.index,
                        target: memory.target.clone(),
                        mode: memory.mode.clone(),
                        kind: "resource".to_owned(),
                        error: text2(
                            "Committed file changes but failed to record promoted memory SHA: ",
                            error.as_str(),
                        ),
                    };
                    let ghost said = failure@;
                    tail.log.failures.push(failure);
                    assert(failure_models(tail.log.failures@) =~= start.log.failures.push(said));
                }
            } else {
                tail.log.applied = without_promoting(tail.log.applied, &tail.log.promoted);
                add_unpromoted(&mut tail.log.failures, &tail.log.promoted);
                if tail.call.atomic {
                    return Step::Ended(
                        change_report(
                            tail.log.applied,
                            tail.log.failures,
                            tail.log.commit,
                            true,
                        ),
                    );
                }
            }
        }
        Step::Open(AtReply { tail })
    }
}

/// The call before it is answered.
pub struct AtReply {
    tail: Tail,
}

/// The answer to a call: a report with a text behind it, or a text.
#[derive(Debug)]
pub enum WriteReply {
    Report { report: ChangeReport, behind: String },
    Text(String),
}

/// What an answer says.
pub enum ReplyModel {
    Report { report: ReportModel, behind: Seq<char> },
    Text(Seq<char>),
}

impl View for WriteReply {
    type V = ReplyModel;

    open spec fn view(&self) -> ReplyModel {
        match *self {
            WriteReply::Report { report, behind } => ReplyModel::Report {
                report: report@,
                behind: behind@,
            },
            WriteReply::Text(text) => ReplyModel::Text(text@),
        }
    }
}

/// A text with the summary of the checks behind it.
pub open spec fn with_summary(text: Seq<char>, summary: Option<Seq<char>>) -> Seq<char> {
    match summary {
        Some(said) => text + "\n\n"@ + said,
        None => text,
    }
}

/// A text with the summary of the checks behind it.
pub fn append_check_summary(text: String, summary: &Option<String>) -> (out: String)
    ensures
        out@ == with_summary(text@, opt_text(*summary)),
{
    match summary {
        Some(said) => text3(text.as_str(), "\n\n", said.as_str()),
        None => text,
    }
}

/// What the applied changes say in short.
pub open spec fn applied_summaries(applied: Seq<AppliedModel>) -> Seq<Seq<char>> {
    applied.map_values(|change: AppliedModel| change.summary)
}

/// The answer to a call. What a blocking group brought is the answer where there
/// is one; failures before it are reported first.
pub open spec fn reply_model(
    model: TailModel,
    atomic: bool,
    group: Option<Seq<char>>,
) -> ReplyModel {
    let log = model.log;
    let report = report_model(log.applied, log.failures, log.commit, atomic);
    match group {
        None => ReplyModel::Report { report, behind: with_summary(Seq::empty(), model.summary) },
        Some(brought) => if log.failures.len() > 0 {
            ReplyModel::Report { report, behind: with_summary("\n\n"@ + brought, model.summary) }
        } else if log.applied.len() == 0 {
            ReplyModel::Text(with_summary(brought, model.summary))
        } else {
            ReplyModel::Text(
                with_summary(
                    "Applied "@ + decimal(log.applied.len()) + " change(s): "@ + joined(
                        applied_summaries(log.applied),
                        "; "@,
                    ) + "\n\n"@ + brought,
                    model.summary,
                ),
            )
        },
    }
}

/// What the applied changes say in short.
fn collect_summaries(applied: &Vec<AppliedChange>) -> (summaries: Vec<String>)
    ensures
        texts(summaries@) == applied_summaries(applied_models(applied@)),
{
    let mut summaries: Vec<String> = Vec::new();
    let mut i: usize = 0;
    while i < applied.len()
        invariant
            i <= applied@.len(),
            summaries@.len() == i,
            forall|k: int| 0 <= k < i ==> (#[trigger] summaries@[k]) == applied@[k].summary,
        decreases applied.len() - i,
    {
        summaries.push(applied[i].summary.clone());
        i += 1;
    }
    assert(texts(summaries@) =~= applied_summaries(applied_models(applied@)));
    summaries
}

impl AtReply {
    /// The call at this step.
    pub closed spec fn call(self) -> WriteCall {
        self.tail.call
    }

    /// What is known of the call.
    pub closed spec fn model(self) -> TailModel {
        self.tail.model()
    }

    /// Whether a group of blocking appends runs now.
    pub closed spec fn runs_group(self) -> bool {
        self.tail.runs_group
    }

    /// Whether a group of blocking appends runs now.
    pub fn needs_group(&self) -> (needed: bool)
        ensures
            needed == self.runs_group(),
    {
        self.tail.runs_group
    }

    /// Answers the call. `group` is what the blocking group brought, where it ran.
    pub fn reply(self, group: Option<String>) -> (reply: WriteReply)
        ensures
            reply@ == reply_model(self.model(), self.call().atomic, opt_text(group)),
    {
        let tail = self.tail;
        proof {
            assert(applied_models(tail.log.applied@).len() == tail.log.applied@.len());
            assert(failure_models(tail.log.failures@).len() == tail.log.failures@.len());
        }
        match group {
            None => {
                let behind = append_check_summary(String::new(), &tail.summary);
                let report = change_report(
                    tail.log.applied,
                    tail.log.failures,
                    tail.log.commit,
                    tail.call.atomic,
                );
                WriteReply::Report { report, behind }
            },
            Some(brought) => {
                if tail.log.failures.len() > 0 {
                    let behind = append_check_summary(
                        text2("\n\n", brought.as_str()),
                        &tail.summary,
                    );
                    let report = change_report(
                        tail.log.applied,
                        tail.log.failures,
                        tail.log.commit,
                        tail.call.atomic,
                    );
                    return WriteReply::Report { report, behind };
                }
                if tail.log.applied.len() == 0 {
                    return WriteReply::Text(append_check_summary(brought, &tail.summary));
                }
                let mut text = text3(
                    "Applied ",
                    render_usize(tail.log.applied.len()).as_str(),
                    " change(s): ",
                );
                let summaries = collect_summaries(&tail.log.applied);
                text.append(join(&summaries, "; ").as_str());
                text.append("\n\n");
                text.append(brought.as_str());
                WriteReply::Text(append_check_summary(text, &tail.summary))
            },
        }
    }
}

/// A memory is promoted only by a call that sealed a commit: without one no change
/// that promoted a memory is reported as applied, and each is reported as failed.
pub proof fn law_promotion_needs_a_commit(log: LogModel, recorded: Result<(), Seq<char>>)
    requires
        !is_sealed(log),
        log.promoted.len() > 0,
    ensures
        forall|k: int|
            0 <= k < with_promotions(log, recorded).applied.len() ==> !promotes(
                log.promoted,
                (#[trigger] with_promotions(log, recorded).applied[k]).index,
            ),
        with_promotions(log, recorded).failures.len() == log.failures.len() + log.promoted.len(),
{
    let wanted = |change: AppliedModel| !promotes(log.promoted, change.index);
    assert forall|k: int| 0 <= k < with_promotions(log, recorded).applied.len() implies !promotes(
        log.promoted,
        (#[trigger] with_promotions(log, recorded).applied[k]).index,
    ) by {
        log.applied.lemma_filter_pred(wanted, k);
    }
}

/// A commit is sealed exactly if it has a head.
pub proof fn law_sealed_commit_has_a_head(log: LogModel)
    ensures
        log.commit is None ==> !is_sealed(log),
        log.commit matches Some(report) ==> (is_sealed(log) <==> report.sha is Some),
{
}

/// A commit that could not be pushed where it had to be stays sealed: its head is reported,
/// as unpublished, with why; the failure is charged to the first file of the call, or to
/// its first change.
pub proof fn law_unpushed_commit_stays_sealed(
    log: LogModel,
    items: Seq<WriteItem>,
    report: CommitModel,
    head: Seq<char>,
    error: Seq<char>,
)
    requires
        log.commit == Some(report),
        report.sha == Some(head),
    ensures
        unpushed_commit(log, error).sha == Some(head),
        unpushed_commit(log, error).pr_number == report.pr_number,
        unpushed_commit(log, error).status == "sealed locally; unpublished"@,
        unpushed_commit(log, error).message == Some(unpushed_message(log, error)),
        unpushed_message(log, error) == "Commit "@ + head
            + " was sealed locally but remains unpublished because the required open-PR origin push failed: "@
            + error + ". Retry a file-touching write to publish the current bookmark."@,
        publication_failure(log, items, error).error == error,
        publication_failure(log, items, error).kind == "publication"@,
        publication_failure(log, items, error).index == match log.first_file {
            Some(index) => index as int,
            None => 0,
        },
        log.first_file matches Some(index) ==> index < items.len() ==> publication_failure(
            log,
            items,
            error,
        ).target == items[index as int].item.target@,
{
}

/// A warning is added behind what is said of a commit, and changes nothing else of it.
pub proof fn law_warning_keeps_the_commit(report: CommitModel, warning: Seq<char>)
    ensures
        with_warning(None, warning) is None,
        with_warning(Some(report), warning) matches Some(after) && {
            &&& after.sha == report.sha
            &&& after.status == report.status
            &&& after.pr_number == report.pr_number
            &&& report.message is None ==> after.message == Some(warning)
            &&& report.message matches Some(said) ==> after.message == Some(
                said + "; "@ + warning,
            )
        },
{
}

/// Memories that a sealed commit promotes stay promoted, and all that was applied stays
/// applied; that they could not be recorded is one failure more. Without such a commit
/// only the changes that promote a memory are taken back, each with its own failure.
pub proof fn law_promotions_stand_or_fall_with_the_commit(
    log: LogModel,
    recorded: Result<(), Seq<char>>,
)
    ensures
        ({
            let after = with_promotions(log, recorded);
            &&& after.commit == log.commit
            &&& after.logical_mutations == log.logical_mutations
            &&& after.promoted == log.promoted
            &&& log.failures.is_prefix_of(after.failures)
            &&& log.promoted.len() == 0 ==> after == log
            &&& log.promoted.len() > 0 && is_sealed(log) ==> {
                &&& after.applied == log.applied
                &&& recorded is Ok ==> after.failures == log.failures
                &&& recorded matches Err(error) ==> {
                    &&& after.failures.len() == log.failures.len() + 1
                    &&& after.failures.last().index == log.promoted[0].index
                    &&& after.failures.last().target == log.promoted[0].target
                    &&& after.failures.last().error
                        == "Committed file changes but failed to record promoted memory SHA: "@
                        + error
                }
            }
            &&& log.promoted.len() > 0 && !is_sealed(log) ==> {
                &&& after.failures.len() == log.failures.len() + log.promoted.len()
                &&& forall|k: int|
                    0 <= k < log.promoted.len() ==> {
                        let failure = after.failures[log.failures.len() + k];
                        failure.index == (#[trigger] log.promoted[k]).index && failure.target
                            == log.promoted[k].target
                    }
                &&& forall|change: AppliedModel|
                    log.applied.contains(change) && (forall|k: int|
                        0 <= k < log.promoted.len() ==> (#[trigger] log.promoted[k]).index
                            != change.index) ==> #[trigger] after.applied.contains(change)
            }
        }),
{
    let after = with_promotions(log, recorded);
    let wanted = |change: AppliedModel| !promotes(log.promoted, change.index);
    assert(log.failures =~= after.failures.subrange(0, log.failures.len() as int));
    if log.promoted.len() > 0 && !is_sealed(log) {
        assert forall|change: AppliedModel|
            log.applied.contains(change) && (forall|k: int|
                0 <= k < log.promoted.len() ==> (#[trigger] log.promoted[k]).index
                    != change.index) implies #[trigger] after.applied.contains(change) by {
            let i = choose|i: int| 0 <= i < log.applied.len() && log.applied[i] == change;
            log.applied.lemma_filter_contains(wanted, i);
        }
    }
}

/// The reply reports what was applied, what failed and the commit. What a group brought
/// stands behind it, or with a summary of the changes in its place where nothing failed;
/// what the checks say comes last.
pub proof fn law_reply_tells_what_came_of_the_call(
    model: TailModel,
    atomic: bool,
    group: Option<Seq<char>>,
)
    ensures
        ({
            let log = model.log;
            let said = match model.summary {
                Some(summary) => "\n\n"@ + summary,
                None => Seq::empty(),
            };
            match reply_model(model, atomic, group) {
                ReplyModel::Report { report, behind } => {
                    &&& group is None || log.failures.len() > 0
                    &&& report.applied == log.applied
                    &&& report.failures == log.failures
                    &&& report.commit == log.commit
                    &&& report.transactional == atomic
                    &&& group is None ==> behind == said
                    &&& group matches Some(brought) ==> behind == "\n\n"@ + brought + said
                },
                ReplyModel::Text(text) => {
                    &&& log.failures.len() == 0
                    &&& group matches Some(brought)
                    &&& log.applied.len() == 0 ==> text == brought + said
                    &&& log.applied.len() > 0 ==> text == "Applied "@ + decimal(log.applied.len())
                        + " change(s): "@ + joined(applied_summaries(log.applied), "; "@)
                        + "\n\n"@ + brought + said
                },
            }
        }),
{
    let log = model.log;
    let said = match model.summary {
        Some(summary) => "\n\n"@ + summary,
        None => Seq::empty(),
    };
    reveal_strlit("\n\n");
    match group {
        None => {
            assert(with_summary(Seq::empty(), model.summary) =~= said);
        },
        Some(brought) => {
            if log.failures.len() > 0 {
                assert(with_summary("\n\n"@ + brought, model.summary) =~= "\n\n"@ + brought + said);
            } else if log.applied.len() == 0 {
                assert(with_summary(brought, model.summary) =~= brought + said);
            } else {
                let front = "Applied "@ + decimal(log.applied.len()) + " change(s): "@ + joined(
                    applied_summaries(log.applied),
                    "; "@,
                ) + "\n\n"@;
                assert(with_summary(front + brought, model.summary) =~= front + brought + said);
            }
        },
    }
}

/// A commit that failed ends a call that must succeed as a whole, with what it applied, that
/// failure and the memories to take back; in any other call it is one more failure, and all
/// else is kept. One that succeeded is what the call goes on with.
pub proof fn law_failed_commit_ends_an_atomic_call(
    at: AtCommit,
    settled: Option<Result<CompletedCommit, IndexedFailure>>,
    passage: CommitPassage,
)
    requires
        at.is_committed(settled, passage),
    ensures
        passage is Ended <==> at.call().atomic && (settled matches Some(Err(_))),
        passage matches CommitPassage::Ended { report, roll_back } ==> (settled matches Some(
            Err(failed),
        ) && report@.applied == at.model().log.applied && report@.failures == seq![
            failed.failure@,
        ] && report@.transactional && texts(roll_back@).len() == at.model().log.promoted.len()),
        passage matches CommitPassage::Open(next) ==> {
            &&& next.call() == at.call() && next.runs_group() == at.runs_group()
            &&& next.model().log.applied == at.model().log.applied
            &&& next.model().log.promoted == at.model().log.promoted
            &&& next.model().log.recorded_changes == at.model().log.recorded_changes
            &&& settled is None ==> next.model() == at.model()
            &&& settled matches Some(Ok(done)) ==> next.model().log.commit == commit_model(
                done.report,
            ) && next.model().requirement == done.publication_requirement
                && next.model().publish_pack == done.publish_pack && next.model().log.failures
                == at.model().log.failures
            &&& settled matches Some(Err(failed)) ==> next.model().log.failures
                == at.model().log.failures.push(failed.failure@)
        },
{
}

/// A push that failed ends the call exactly if an open pull request needs it; the report
/// then keeps what was applied and has one more failure.
pub proof fn law_needed_push_must_succeed(
    at: AtPush,
    push: Result<(), String>,
    step: Step<AtPack>,
)
    requires
        at.is_pushed(push, step),
    ensures
        step is Ended <==> at.model().requirement == PublicationRequirement::RequiredForOpenPr
            && push is Err,
        step matches Step::Open(next) ==> next.call() == at.call() && next.model() == at.model()
            && next.runs_group() == at.runs_group(),
        step matches Step::Ended(report) ==> report@.applied == at.model().log.applied
            && report@.failures.len() == at.model().log.failures.len() + 1 && report@.commit
            is Some && report@.transactional == at.call().atomic,
{
}

/// A pack that failed is a warning on the commit where one was due, a branch that was not
/// found to have advanced is one more failure, and checks are told exactly if files were
/// sealed; none of these changes anything else.
pub proof fn law_late_faults_keep_the_commit(
    pack: AtPack,
    packed: Result<(), String>,
    behind_pack: AtAcknowledge,
    outcome: Result<(), String>,
    behind_branch: AtChecks,
    summary: Option<String>,
    behind_checks: AtPromotion,
)
    requires
        pack.is_packed(packed, behind_pack),
        behind_pack.is_acknowledged(outcome, behind_branch),
        behind_branch.is_checked(summary, behind_checks),
    ensures
        behind_checks.call() == pack.call() && behind_checks.runs_group() == pack.runs_group(),
        behind_checks.model().log.applied == pack.model().log.applied,
        behind_checks.model().log.promoted == pack.model().log.promoted,
        packed is Ok || !pack.model().publish_pack ==> behind_pack.model() == pack.model(),
        packed is Err && pack.model().publish_pack ==> (pack.model().log.commit matches Some(commit)
            ==> (behind_pack.model().log.commit matches Some(warned) && warned.sha == commit.sha
            && warned.status == commit.status)),
        outcome is Ok ==> behind_branch.model() == behind_pack.model(),
        outcome is Err ==> behind_branch.model().log.failures.len()
            == behind_pack.model().log.failures.len() + 1 && behind_branch.model().log.commit
            == behind_pack.model().log.commit,
        behind_checks.model().log == behind_branch.model().log,
        behind_checks.model().summary is Some ==> is_sealed(behind_branch.model().log),
        is_sealed(behind_branch.model().log) && behind_branch.model().log.first_file is Some
            ==> behind_checks.model().summary == opt_text(summary),
{
}

/// The memories of a call are recorded under the commit exactly if it was sealed, and taken
/// back otherwise, all of them.
pub proof fn law_memories_follow_the_commit(at: AtPromotion, promotion: Promotion)
    requires
        at.is_promotion(promotion),
    ensures
        promotion is Nothing <==> at.model().log.promoted.len() == 0,
        promotion is Record <==> at.model().log.promoted.len() > 0 && is_sealed(at.model().log),
        promotion matches Promotion::Record { ids, sha } ==> ids@.len()
            == at.model().log.promoted.len() && at.model().log.commit->Some_0.sha == Some(sha@),
        promotion matches Promotion::RollBack { ids } ==> ids@.len()
            == at.model().log.promoted.len(),
{
    let log = at.model().log;
    match promotion {
        Promotion::Record { ids, sha } => {
            assert(texts(ids@).len() == memory_ids(log.promoted).len());
        },
        Promotion::RollBack { ids } => {
            assert(texts(ids@).len() == memory_ids(log.promoted).len());
        },
        Promotion::Nothing => {},
    }
}

/// Memories that could not be kept end a call that must succeed as a whole, and no other.
pub proof fn law_lost_memories_end_an_atomic_call(
    at: AtPromotion,
    recorded: Result<(), String>,
    step: Step<AtReply>,
)
    requires
        at.is_promoted(recorded, step),
    ensures
        step is Ended <==> at.call().atomic && at.model().log.promoted.len() > 0 && !is_sealed(
            at.model().log,
        ),
        step matches Step::Open(next) ==> next.call() == at.call() && next.runs_group()
            == at.runs_group() && next.model().summary == at.model().summary
            && next.model().log.commit == at.model().log.commit,
        at.model().log.promoted.len() == 0 ==> (step matches Step::Open(next) && next.model()
            == at.model()),
{
}

/// The change that stands for the files of a call is the first that was applied, where the
/// call has it; the memories of a call are named in their order.
pub proof fn law_files_stand_behind_their_first_change(
    log: LogModel,
    items: Seq<WriteItem>,
    k: int,
)
    requires
        0 <= k < log.promoted.len(),
    ensures
        file_change(log, items) is Some <==> (log.first_file matches Some(index) && index
            < items.len()),
        file_change(log, items) matches Some(index) ==> log.first_file == Some(index as usize),
        memory_uris(log.promoted).len() == log.promoted.len(),
        memory_uris(log.promoted)[k] == log.promoted[k].memory_uri,
        memory_ids(log.promoted).len() == log.promoted.len(),
        memory_ids(log.promoted)[k] == log.promoted[k].memory_id,
        unpromoted_failures(log.promoted)[k].error
            == "promote_memory requires a committed file change in the same write"@,
{
}

} // verus!
