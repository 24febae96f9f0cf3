//! Applying the changes of an admitted call, one after the other.
//!
//! Files that follow each other form one batch. Resources are dispatched one by
//! one. Blocking appends are left for the end. Where the call is atomic the first
//! failure ends it; otherwise failures are collected and the rest goes on.
use vstd::prelude::*;
use vstd::string::*;
use crate::handlers::write::batch::{
    apply_prepared_logical, apply_snapshot_mutations, effects_of, mutated, mutation_models,
    record_models, FileBatchSuccess, IndexedChange, LogicalMutation, RecordFileChange, RecordModel,
};
use crate::handlers::write::call::{Admitted, TargetFamily, WriteCall, WriteItem};
use crate::handlers::write::file_mutations::{contents, prepared_models, FileStage, StageModel};
use crate::handlers::write::rename::{
    law_rename_reports_each_file_once, prepare_rename_changes, rename_effects, RenameEdit,
};
use crate::handlers::write::types::{
    applied_models, build_failure, change_report, clone_item, commit_model, failure_models,
    file_failure, report_model, AppliedChange, AppliedModel, ChangeFailure, ChangeMode,
    ChangeReport, CommitModel, CommitReport, FailureModel, IndexedFailure, ReportModel,
};
use crate::text::texts;
use crate::textmap::{copy_texts, TextMap};

verus! {

/// A memory that a change promoted, with the place, target and mode of the change.
#[derive(Debug)]
pub struct Promoted {
    pub index: usize,
    pub target: String,
    pub mode: String,
    pub memory_id: String,
    pub memory_uri: String,
}

/// What a promotion says.
pub struct PromotedModel {
    pub index: nat,
    pub target: Seq<char>,
    pub mode: Seq<char>,
    pub memory_id: Seq<char>,
    pub memory_uri: Seq<char>,
}

impl View for Promoted {
    type V = PromotedModel;

    open spec fn view(&self) -> PromotedModel {
        PromotedModel {
            index: self.index as nat,
            target: self.target@,
            mode: self.mode@,
            memory_id: self.memory_id@,
            memory_uri: self.memory_uri@,
        }
    }
}

/// What promotions say.
pub open spec fn promoted_models(promoted: Seq<Promoted>) -> Seq<PromotedModel> {
    promoted.map_values(|memory: Promoted| memory@)
}

/// What a call has come to so far.
#[derive(Debug)]
pub struct ChangeLog {
    pub applied: Vec<AppliedChange>,
    pub failures: Vec<ChangeFailure>,
    pub commit: Option<CommitReport>,
    pub affected_paths: Vec<String>,
    pub recorded_changes: Vec<RecordFileChange>,
    pub logical_mutations: Vec<LogicalMutation>,
    pub first_file: Option<usize>,
    pub promoted: Vec<Promoted>,
}

/// What a log says.
#[verifier::ext_equal]
pub struct LogModel {
    pub applied: Seq<AppliedModel>,
    pub failures: Seq<FailureModel>,
    pub commit: Option<CommitModel>,
    pub affected_paths: Seq<Seq<char>>,
    pub recorded_changes: Seq<RecordModel>,
    pub logical_mutations: Seq<(Seq<char>, Option<Seq<char>>)>,
    pub first_file: Option<usize>,
    pub promoted: Seq<PromotedModel>,
}

impl View for ChangeLog {
    type V = LogModel;

    open spec fn view(&self) -> LogModel {
        LogModel {
            applied: applied_models(self.applied@),
            failures: failure_models(self.failures@),
            commit: commit_model(self.commit),
            affected_paths: texts(self.affected_paths@),
            recorded_changes: record_models(self.recorded_changes@),
            logical_mutations: mutation_models(self.logical_mutations@),
            first_file: self.first_file,
            promoted: promoted_models(self.promoted@),
        }
    }
}

/// A log of nothing.
pub open spec fn empty_log() -> LogModel {
    LogModel {
        applied: Seq::empty(),
        failures: Seq::empty(),
        commit: None,
        affected_paths: Seq::empty(),
        recorded_changes: Seq::empty(),
        logical_mutations: Seq::empty(),
        first_file: None,
        promoted: Seq::empty(),
    }
}

/// What is to be done next.
#[derive(Clone, Copy, Debug, PartialEq, Eq, Structural)]
pub enum Work {
    /// Nothing is left.
    Done,
    /// The target of the change cannot be read.
    BadTarget(usize),
    /// The change renames a symbol.
    Rename(usize),
    /// The change goes to a resource.
    Resource(usize),
    /// The change is a blocking append, which runs at the end.
    Deferred(usize),
    /// The changes from `start` up to `end` are to files.
    Files { start: usize, end: usize },
}

/// Where the run of file changes from `from` on ends. A rename ends it.
pub open spec fn run_end(items: Seq<WriteItem>, from: int) -> int
    decreases items.len() - from,
{
    if from < items.len() && items[from].is_file() && items[from].item.mode
        != ChangeMode::Rename {
        run_end(items, from + 1)
    } else {
        from
    }
}

/// What is to be done about the change at `index`.
pub open spec fn work_at(items: Seq<WriteItem>, index: int) -> Work {
    if index >= items.len() {
        Work::Done
    } else if items[index].item.mode == ChangeMode::Rename && items[index].is_file() {
        Work::Rename(index as usize)
    } else {
        match items[index].family {
            Err(_) => Work::BadTarget(index as usize),
            Ok(TargetFamily::Resource) => if items[index].blocking {
                Work::Deferred(index as usize)
            } else {
                Work::Resource(index as usize)
            },
            Ok(TargetFamily::File) => Work::Files {
                start: index as usize,
                end: run_end(items, index) as usize,
            },
        }
    }
}

/// The place behind the work at `index`.
pub open spec fn behind(items: Seq<WriteItem>, index: int) -> int {
    match work_at(items, index) {
        Work::Done => index,
        Work::Files { end, .. } => end as int,
        _ => index + 1,
    }
}

/// A run of file changes stays in the call and is not empty where it begins with
/// one.
pub proof fn lemma_run_end(items: Seq<WriteItem>, from: int)
    requires
        0 <= from <= items.len(),
    ensures
        from <= run_end(items, from) <= items.len(),
        from < items.len() && items[from].is_file() && items[from].item.mode != ChangeMode::Rename
            ==> from < run_end(items, from),
        forall|i: int|
            from <= i < run_end(items, from) ==> (#[trigger] items[i]).is_file()
                && items[i].item.mode != ChangeMode::Rename,
    decreases items.len() - from,
{
    if from < items.len() && items[from].is_file() && items[from].item.mode
        != ChangeMode::Rename {
        lemma_run_end(items, from + 1);
    }
}

/// Every step of the loop moves on, and no further than the end of the call.
pub proof fn law_work_moves_on(items: Seq<WriteItem>, index: int)
    requires
        0 <= index < items.len(),
        items.len() <= usize::MAX,
    ensures
        index < behind(items, index) <= items.len(),
{
    lemma_run_end(items, index);
}

/// Where a failure leaves the call.
pub enum FailOutcome {
    /// The call goes on with this log.
    Goes(LogModel),
    /// The call ends with this report.
    Ends(ReportModel),
}

/// The first commit report that there is.
pub open spec fn or_commit(first: Option<CommitModel>, second: Option<CommitModel>) -> Option<
    CommitModel,
> {
    match first {
        Some(report) => Some(report),
        None => second,
    }
}

/// Where a failure leaves the call: an atomic one ends with what was applied so
/// far and this failure alone, another one goes on.
pub open spec fn fail_outcome(
    log: LogModel,
    atomic: bool,
    failure: FailureModel,
    commit: Option<CommitModel>,
) -> FailOutcome {
    if atomic {
        FailOutcome::Ends(
            report_model(log.applied, seq![failure], or_commit(commit, log.commit), true),
        )
    } else {
        FailOutcome::Goes(
            LogModel {
                failures: log.failures.push(failure),
                commit: or_commit(commit, log.commit),
                ..log
            },
        )
    }
}

/// What applying a change comes to: whether the call goes on, and whether the
/// worktree has to be refreshed for those who watch it.
#[derive(Debug)]
pub enum Settled {
    Goes { refresh: bool },
    Ends { report: ChangeReport, refresh: bool },
}

/// Whether `settled` and the log it leaves are what a failure comes to.
pub open spec fn settled_is(
    settled: Settled,
    log: LogModel,
    outcome: FailOutcome,
    refreshes: bool,
) -> bool {
    match (settled, outcome) {
        (Settled::Goes { refresh }, FailOutcome::Goes(after)) => log == after && refresh
            == refreshes,
        (Settled::Ends { report, refresh }, FailOutcome::Ends(said)) => report@ == said && refresh
            == refreshes,
        _ => false,
    }
}

impl ChangeLog {
    /// A log of nothing.
    pub fn new() -> (log: Self)
        ensures
            log@ == empty_log(),
    {
        let log = ChangeLog {
            applied: Vec::new(),
            failures: Vec::new(),
            commit: None,
            affected_paths: Vec::new(),
            recorded_changes: Vec::new(),
            logical_mutations: Vec::new(),
            first_file: None,
            promoted: Vec::new(),
        };
        assert(log@ =~= empty_log());
        log
    }

    /// Takes up a failure. An atomic call gives up its log to the report.
    fn fail(
        &mut self,
        atomic: bool,
        failure: ChangeFailure,
        commit: Option<CommitReport>,
        refresh: bool,
    ) -> (settled: Settled)
        ensures
            settled_is(
                settled,
                final(self)@,
                fail_outcome(old(self)@, atomic, failure@, commit_model(commit)),
                refresh,
            ),
    {
        let ghost start = self@;
        if atomic {
            let mut failures: Vec<ChangeFailure> = Vec::new();
            let ghost said = failure@;
            failures.push(failure);
            assert(failure_models(failures@) =~= seq![said]);
            let mut applied: Vec<AppliedChange> = Vec::new();
            let ghost kept = self.applied@;
            applied.append(&mut self.applied);
            assert(applied@ =~= kept);
            let reported = match commit {
                Some(report) => Some(report),
                None => self.commit.take(),
            };
            return Settled::Ends {
                report: change_report(applied, failures, reported, true),
                refresh,
            };
        }
        self.failures.push(failure);
        if let Some(report) = commit {
            self.commit = Some(report);
        }
        assert(self@ =~= fail_outcome(start, atomic, failure@, commit_model(commit))->Goes_0);
        Settled::Goes { refresh }
    }
}

/// The batches in which a run of file changes is applied.
pub open spec fn batches_of(atomic: bool, start: usize, end: usize) -> Seq<(usize, usize)> {
    if atomic {
        seq![(start, end)]
    } else {
        Seq::new(
            if start < end {
                (end - start) as nat
            } else {
                0
            },
            |k: int| ((start + k) as usize, (start + k + 1) as usize),
        )
    }
}

/// The loop over the changes of a call.
pub struct Applying {
    call: WriteCall,
    allow_escape: bool,
    snapshot: TextMap<Option<String>>,
    runs_group: bool,
    log: ChangeLog,
    index: usize,
}

impl Applying {
    /// The call.
    pub closed spec fn call(self) -> WriteCall {
        self.call
    }

    /// Whether targets outside the worktree are permitted.
    pub closed spec fn allow_escape(self) -> bool {
        self.allow_escape
    }

    /// Whether targets outside the worktree are permitted.
    pub fn may_escape(&self) -> (permitted: bool)
        ensures
            permitted == self.allow_escape(),
    {
        self.allow_escape
    }

    /// The batches in which a run of file changes is applied: all at once where the
    /// call is atomic, else each change by itself.
    pub fn batches(&self, start: usize, end: usize) -> (batches: Vec<(usize, usize)>)
        ensures
            batches@ == batches_of(self.call().atomic, start, end),
    {
        let mut batches: Vec<(usize, usize)> = Vec::new();
        if self.call.atomic {
            batches.push((start, end));
            assert(batches@ =~= seq![(start, end)]);
            return batches;
        }
        let mut at: usize = start;
        while at < end
            invariant
                start <= at,
                start <= end ==> at <= end,
                at <= start || at <= end,
                batches@.len() == at - start,
                forall|k: int|
                    0 <= k < batches@.len() ==> #[trigger] batches@[k] == ((start + k) as usize, (
                    start + k + 1) as usize),
            decreases end - at,
        {
            batches.push((at, at + 1));
            at += 1;
        }
        assert(batches@ =~= batches_of(false, start, end));
        batches
    }

    /// The contents that the next change builds on.
    pub closed spec fn snapshot(self) -> Map<Seq<char>, Option<Seq<char>>> {
        contents(self.snapshot@)
    }

    /// Whether a group of blocking appends runs behind the changes.
    pub closed spec fn runs_group(self) -> bool {
        self.runs_group
    }

    /// What the call has come to so far.
    pub closed spec fn log(self) -> LogModel {
        self.log@
    }

    /// The place of the next change.
    pub closed spec fn index(self) -> int {
        self.index as int
    }

    /// Whether everything but the log and the snapshot is as in `other`.
    pub open spec fn same_place(self, other: Self) -> bool {
        &&& self.call() == other.call()
        &&& self.allow_escape() == other.allow_escape()
        &&& self.runs_group() == other.runs_group()
        &&& self.index() == other.index()
    }

    /// Starts the loop.
    pub fn start(admitted: Admitted) -> (applying: Self)
        ensures
            applying.call() == admitted.call(),
            applying.allow_escape() == admitted.allow_escape(),
            applying.snapshot() == admitted.snapshot(),
            applying.runs_group() == admitted.runs_group(),
            applying.log() == empty_log(),
            applying.index() == 0,
    {
        let (call, allow_escape, snapshot, runs_group) = admitted.into_parts();
        Applying { call, allow_escape, snapshot, runs_group, log: ChangeLog::new(), index: 0 }
    }

    /// Tells what is to be done next, and moves behind it.
    pub fn next(&mut self) -> (work: Work)
        ensures
            work == work_at(old(self).call().items@, old(self).index()),
            final(self).index() == behind(old(self).call().items@, old(self).index()),
            final(self).call() == old(self).call(),
            final(self).allow_escape() == old(self).allow_escape(),
            final(self).snapshot() == old(self).snapshot(),
            final(self).runs_group() == old(self).runs_group(),
            final(self).log() == old(self).log(),
    {
        let index: usize = self.index;
        let total: usize = self.call.items.len();
        if index >= total {
            return Work::Done;
        }
        let file = self.call.items[index].targets_file();
        let renames = self.call.items[index].item.mode == ChangeMode::Rename;
        if renames && file {
            self.index = index + 1;
            return Work::Rename(index);
        }
        if file {
            let mut end: usize = index;
            while end < total && self.call.items[end].targets_file()
                && self.call.items[end].item.mode != ChangeMode::Rename
                invariant
                    self.call == old(self).call,
                    self.allow_escape == old(self).allow_escape,
                    self.snapshot == old(self).snapshot,
                    self.runs_group == old(self).runs_group,
                    self.log == old(self).log,
                    total == self.call.items@.len(),
                    index <= end <= total,
                    run_end(self.call.items@, end as int) == run_end(
                        self.call.items@,
                        index as int,
                    ),
                decreases total - end,
            {
                end += 1;
            }
            self.index = end;
            return Work::Files { start: index, end };
        }
        self.index = index + 1;
        match &self.call.items[index].family {
            Err(_) => Work::BadTarget(index),
            Ok(_) => {
                if self.call.items[index].blocking {
                    Work::Deferred(index)
                } else {
                    Work::Resource(index)
                }
            },
        }
    }

    /// The change at `index` with its place in the call.
    pub fn change(&self, index: usize) -> (change: IndexedChange)
        requires
            index < self.call().items@.len(),
        ensures
            change.index == index,
            change.item == self.call().items@[index as int].item,
    {
        IndexedChange { index, item: clone_item(&self.call.items[index].item) }
    }

    /// A stage for the next batch of files.
    pub fn stage(&self) -> (stage: FileStage)
        ensures
            stage@ == (StageModel {
                in_flight: self.snapshot(),
                prepared: Seq::empty(),
                summaries: Seq::empty(),
            }),
    {
        FileStage::with_snapshot(copy_texts(&self.snapshot))
    }

    /// The contents that a rename looks through.
    pub fn files(&self) -> (entries: Vec<(String, String)>)
        ensures
            forall|k: int|
                0 <= k < entries@.len() ==> self.snapshot().contains_key(
                    (#[trigger] entries@[k]).0@,
                ) && self.snapshot()[entries@[k].0@] == Some(entries@[k].1@),
            forall|target: Seq<char>|
                self.snapshot().contains_key(target) && #[trigger] self.snapshot()[target] is Some
                    ==> exists|k: int|
                    0 <= k < entries@.len() && (#[trigger] entries@[k]).0@ == target,
            forall|j: int, k: int|
                0 <= j < k < entries@.len() ==> (#[trigger] entries@[j]).0@ != (
                #[trigger] entries@[k]).0@,
    {
        let entries = crate::textmap::present_texts(&self.snapshot);
        proof {
            assert forall|target: Seq<char>|
                self.snapshot().contains_key(target)
                    && #[trigger] self.snapshot()[target] is Some implies exists|k: int|
                0 <= k < entries@.len() && (#[trigger] entries@[k]).0@ == target by {
                assert(self.snapshot@[target] is Some);
            }
        }
        entries
    }

    /// Whether a change with a bad target is settled like this.
    pub open spec fn settles_bad_target(
        self,
        after: Self,
        index: usize,
        settled: Settled,
    ) -> bool {
        &&& after.same_place(self)
        &&& after.snapshot() == self.snapshot()
        &&& ({
            let item = self.call().items@[index as int];
            settled_is(
                settled,
                after.log(),
                fail_outcome(
                    self.log(),
                    self.call().atomic,
                    file_failure(
                        index as nat,
                        item.item.target@,
                        item.item.mode,
                        item.family->Err_0@,
                    ),
                    None,
                ),
                self.log().affected_paths.len() > 0,
            )
        })
    }

    /// Takes up a change whose target cannot be read.
    pub fn bad_target(&mut self, index: usize) -> (settled: Settled)
        requires
            index < old(self).call().items@.len(),
            old(self).call().items@[index as int].family is Err,
        ensures
            old(self).settles_bad_target(*final(self), index, settled),
    {
        let refresh = self.log.affected_paths.len() > 0;
        let error = match &self.call.items[index].family {
            Err(error) => error.clone(),
            Ok(_) => String::new(),
        };
        let failure = build_failure(index, &self.call.items[index].item, error);
        self.log.fail(self.call.atomic, failure, None, refresh)
    }

    /// Whether a resource is settled like this.
    pub open spec fn settles_resource(
        self,
        after: Self,
        outcome: Result<(AppliedChange, Option<Promoted>), IndexedFailure>,
        settled: Settled,
    ) -> bool {
        &&& after.same_place(self)
        &&& after.snapshot() == self.snapshot()
        &&& match outcome {
            Ok((change, promoted)) => {
                &&& settled == (Settled::Goes { refresh: false })
                &&& after.log() == (LogModel {
                    applied: self.log().applied.push(change@),
                    promoted: match promoted {
                        Some(memory) => self.log().promoted.push(memory@),
                        None => self.log().promoted,
                    },
                    ..self.log()
                })
            },
            Err(failed) => settled_is(
                settled,
                after.log(),
                fail_outcome(
                    self.log(),
                    self.call().atomic,
                    failed.failure@,
                    commit_model(failed.commit),
                ),
                self.log().affected_paths.len() > 0,
            ),
        }
    }

    /// Takes up what came of a change to a resource.
    pub fn resource_done(
        &mut self,
        outcome: Result<(AppliedChange, Option<Promoted>), IndexedFailure>,
    ) -> (settled: Settled)
        ensures
            old(self).settles_resource(*final(self), outcome, settled),
    {
        let ghost start = self.log@;
        match outcome {
            Ok((change, promoted)) => {
                let ghost said = change@;
                self.log.applied.push(change);
                assert(applied_models(self.log.applied@) =~= start.applied.push(said));
                if let Some(memory) = promoted {
                    let ghost promotion = memory@;
                    self.log.promoted.push(memory);
                    assert(promoted_models(self.log.promoted@) =~= start.promoted.push(promotion));
                }
                Settled::Goes { refresh: false }
            },
            Err(failed) => {
                let refresh = self.log.affected_paths.len() > 0;
                self.log.fail(self.call.atomic, failed.failure, failed.commit, refresh)
            },
        }
    }
}

/// A log after a batch of files that is reported as `applied`.
pub open spec fn with_batch(
    log: LogModel,
    applied: Seq<AppliedModel>,
    batch: crate::handlers::write::batch::SuccessModel,
    first_file: Option<usize>,
) -> LogModel {
    LogModel {
        applied: log.applied + applied,
        affected_paths: log.affected_paths + batch.affected_paths,
        recorded_changes: log.recorded_changes + batch.recorded_changes,
        logical_mutations: log.logical_mutations + batch.logical_mutations,
        first_file: match log.first_file {
            Some(index) => Some(index),
            None => first_file,
        },
        ..log
    }
}

/// The change that stands for the files of a call: the first that a batch reports,
/// where it belongs to the batch.
pub open spec fn batch_first(applied: Seq<AppliedModel>, start: int, end: int) -> Option<usize> {
    if applied.len() > 0 && start <= applied[0].index < end {
        Some(applied[0].index as usize)
    } else {
        None
    }
}

impl ChangeLog {
    /// Takes up a batch of files that is reported as `applied`.
    fn absorb(
        &mut self,
        applied: Vec<AppliedChange>,
        batch: FileBatchSuccess,
        first_file: Option<usize>,
    )
        ensures
            final(self)@ == with_batch(old(self)@, applied_models(applied@), batch@, first_file),
    {
        let ghost start = self@;
        let ghost reported = applied_models(applied@);
        let ghost said = batch@;
        let mut applied = applied;
        let mut batch = batch;
        self.applied.append(&mut applied);
        self.affected_paths.append(&mut batch.affected_paths);
        self.recorded_changes.append(&mut batch.recorded_changes);
        self.logical_mutations.append(&mut batch.logical_mutations);
        if self.first_file.is_none() {
            self.first_file = first_file;
        }
        assert(self@ =~= with_batch(start, reported, said, first_file));
    }
}

impl Applying {
    /// Whether a rename is settled like this.
    pub open spec fn settles_rename(
        self,
        after: Self,
        index: usize,
        plan: Result<Vec<RenameEdit>, String>,
        settled: Settled,
    ) -> bool {
        &&& after.same_place(self)
        &&& match plan {
            Ok(edits) => {
                let renamed = rename_effects(index as nat, edits@, edits@.len() as int);
                let batch = effects_of(
                    renamed.prepared,
                    self.snapshot(),
                    renamed.prepared.len() as int,
                );
                &&& settled == (Settled::Goes { refresh: false })
                &&& after.log() == with_batch(
                    self.log(),
                    renamed.applied,
                    batch,
                    Some(index),
                )
                &&& after.snapshot() == mutated(
                    self.snapshot(),
                    batch.logical_mutations,
                    batch.logical_mutations.len() as int,
                )
            },
            Err(error) => {
                let item = self.call().items@[index as int].item;
                &&& after.snapshot() == self.snapshot()
                &&& settled_is(
                    settled,
                    after.log(),
                    fail_outcome(
                        self.log(),
                        self.call().atomic,
                        file_failure(index as nat, item.target@, item.mode, error@),
                        None,
                    ),
                    false,
                )
            },
        }
    }

    /// Takes up the plan of a rename, or why there is none.
    pub fn rename_planned(
        &mut self,
        index: usize,
        plan: Result<Vec<RenameEdit>, String>,
    ) -> (settled: Settled)
        requires
            index < old(self).call().items@.len(),
        ensures
            old(self).settles_rename(*final(self), index, plan, settled),
    {
        match plan {
            Ok(edits) => {
                let outcome = prepare_rename_changes(index, &edits);
                let mut changes: Vec<IndexedChange> = Vec::new();
                changes.push(self.change(index));
                proof {
                    law_rename_reports_each_file_once(index as nat, edits@, edits@.len() as int);
                    assert forall|k: int| 0 <= k < outcome.prepared@.len() implies (
                    #[trigger] outcome.prepared@[k])@.pos() < changes@.len() by {
                        assert(prepared_models(outcome.prepared@)[k] == outcome.prepared@[k]@);
                    }
                    assert(prepared_models(outcome.prepared@).len() == outcome.prepared@.len());
                }
                let batch = apply_prepared_logical(
                    &changes,
                    &outcome.prepared,
                    &outcome.summaries,
                    &self.snapshot,
                );
                proof {
                    assert(mutation_models(batch.logical_mutations@).len()
                        == batch.logical_mutations@.len());
                }
                apply_snapshot_mutations(&mut self.snapshot, &batch.logical_mutations);
                self.log.absorb(outcome.applied, batch, Some(index));
                Settled::Goes { refresh: false }
            },
            Err(error) => {
                let failure = build_failure(index, &self.call.items[index].item, error);
                self.log.fail(self.call.atomic, failure, None, false)
            },
        }
    }

    /// Whether a batch of files is settled like this.
    pub open spec fn settles_files(
        self,
        after: Self,
        start: usize,
        end: usize,
        outcome: Result<FileBatchSuccess, IndexedFailure>,
        settled: Settled,
    ) -> bool {
        &&& after.same_place(self)
        &&& match outcome {
            Ok(batch) => {
                &&& settled == (Settled::Goes { refresh: false })
                &&& after.log() == with_batch(
                    self.log(),
                    batch@.applied,
                    batch@,
                    batch_first(batch@.applied, start as int, end as int),
                )
                &&& after.snapshot() == mutated(
                    self.snapshot(),
                    batch@.logical_mutations,
                    batch@.logical_mutations.len() as int,
                )
            },
            Err(failed) => {
                &&& after.snapshot() == self.snapshot()
                &&& settled_is(
                    settled,
                    after.log(),
                    fail_outcome(
                        self.log(),
                        self.call().atomic,
                        failed.failure@,
                        commit_model(failed.commit),
                    ),
                    self.log().affected_paths.len() > 0,
                )
            },
        }
    }

    /// Takes up what came of applying files from the run `start` to `end`.
    pub fn files_done(
        &mut self,
        start: usize,
        end: usize,
        outcome: Result<FileBatchSuccess, IndexedFailure>,
    ) -> (settled: Settled)
        ensures
            old(self).settles_files(*final(self), start, end, outcome, settled),
    {
        match outcome {
            Ok(batch) => {
                let ghost said = batch@;
                let mut batch = batch;
                proof {
                    assert(mutation_models(batch.logical_mutations@).len()
                        == batch.logical_mutations@.len());
                    assert(applied_models(batch.applied@).len() == batch.applied@.len());
                    if batch.applied@.len() > 0 {
                        assert(applied_models(batch.applied@)[0] == batch.applied@[0]@);
                    }
                }
                apply_snapshot_mutations(&mut self.snapshot, &batch.logical_mutations);
                let mut first: Option<usize> = None;
                if batch.applied.len() > 0 {
                    let index: usize = batch.applied[0].index;
                    if start <= index && index < end {
                        first = Some(index);
                    }
                }
                let mut applied: Vec<AppliedChange> = Vec::new();
                let ghost reported = batch.applied@;
                applied.append(&mut batch.applied);
                assert(applied@ =~= reported);
                self.log.absorb(applied, batch, first);
                Settled::Goes { refresh: false }
            },
            Err(failed) => {
                let refresh = self.log.affected_paths.len() > 0;
                self.log.fail(self.call.atomic, failed.failure, failed.commit, refresh)
            },
        }
    }

    /// Leaves the loop once nothing is left to be done.
    pub fn finish(self) -> (done: Result<Applied, Applying>)
        ensures
            match done {
                Ok(applied) => {
                    &&& work_at(self.call().items@, self.index()) == Work::Done
                    &&& applied.call() == self.call()
                    &&& applied.log() == self.log()
                    &&& applied.runs_group() == self.runs_group()
                },
                Err(same) => work_at(self.call().items@, self.index()) != Work::Done && same
                    == self,
            },
    {
        if self.index >= self.call.items.len() {
            Ok(Applied { call: self.call, log: self.log, runs_group: self.runs_group })
        } else {
            Err(self)
        }
    }
}

/// A call all of whose changes, apart from blocking appends, had their turn.
pub struct Applied {
    call: WriteCall,
    log: ChangeLog,
    runs_group: bool,
}

impl Applied {
    /// The call.
    pub closed spec fn call(self) -> WriteCall {
        self.call
    }

    /// What the call has come to.
    pub closed spec fn log(self) -> LogModel {
        self.log@
    }

    /// Whether a group of blocking appends runs behind the changes.
    pub closed spec fn runs_group(self) -> bool {
        self.runs_group
    }

    /// Takes the call apart.
    pub(crate) fn into_parts(self) -> (parts: (WriteCall, ChangeLog, bool))
        ensures
            parts.0 == self.call(),
            parts.1@ == self.log(),
            parts.2 == self.runs_group(),
    {
        (self.call, self.log, self.runs_group)
    }
}

/// An atomic call reports at most one failure, and exactly where it ends early; a
/// call that is not atomic never ends early.
pub proof fn law_failure_ends_only_atomic_calls(
    log: LogModel,
    atomic: bool,
    failure: FailureModel,
    commit: Option<CommitModel>,
)
    ensures
        atomic <==> fail_outcome(log, atomic, failure, commit) is Ends,
        atomic ==> fail_outcome(log, atomic, failure, commit)->Ends_0.failures == seq![failure]
            && fail_outcome(log, atomic, failure, commit)->Ends_0.applied == log.applied,
        !atomic ==> fail_outcome(log, atomic, failure, commit)->Goes_0.failures.drop_last()
            == log.failures && fail_outcome(log, atomic, failure, commit)->Goes_0.applied
            == log.applied,
{
    if !atomic {
        assert(fail_outcome(log, atomic, failure, commit)->Goes_0.failures.drop_last()
            =~= log.failures);
    }
}

/// Each item is worked on for what it is: a rename of a file as a rename, a target that
/// cannot be read as such, a resource on its own or with its group, and files together, up
/// to the first item that is no file or a rename.
pub proof fn law_items_are_worked_on_for_what_they_are(items: Seq<WriteItem>, index: int)
    requires
        0 <= index < items.len(),
        items.len() <= usize::MAX,
    ensures
        match items[index].family {
            Err(_) => work_at(items, index) == Work::BadTarget(index as usize),
            Ok(TargetFamily::Resource) => work_at(items, index) == if items[index].blocking {
                Work::Deferred(index as usize)
            } else {
                Work::Resource(index as usize)
            },
            Ok(TargetFamily::File) => if items[index].item.mode == ChangeMode::Rename {
                work_at(items, index) == Work::Rename(index as usize)
            } else {
                &&& work_at(items, index) matches Work::Files { start, end }
                &&& start == index
                &&& index < end <= items.len()
                &&& forall|i: int|
                    index <= i < end ==> (#[trigger] items[i]).family == Ok::<TargetFamily, String>(
                        TargetFamily::File,
                    ) && items[i].item.mode != ChangeMode::Rename
                &&& end < items.len() ==> !(items[end as int].family == Ok::<TargetFamily, String>(
                    TargetFamily::File,
                ) && items[end as int].item.mode != ChangeMode::Rename)
            },
        },
        work_at(items, items.len() as int) == Work::Done,
{
    lemma_run_end(items, index);
    lemma_run_is_whole(items, index);
}

/// A run of files holds files only, and ends at the first item that is none.
proof fn lemma_run_is_whole(items: Seq<WriteItem>, from: int)
    requires
        0 <= from <= items.len(),
    ensures
        forall|i: int|
            from <= i < run_end(items, from) ==> (#[trigger] items[i]).is_file()
                && items[i].item.mode != ChangeMode::Rename,
        from <= run_end(items, from) <= items.len(),
        run_end(items, from) < items.len() ==> !(items[run_end(items, from)].is_file()
            && items[run_end(items, from)].item.mode != ChangeMode::Rename),
    decreases items.len() - from,
{
    if from < items.len() && items[from].is_file() && items[from].item.mode
        != ChangeMode::Rename {
        lemma_run_is_whole(items, from + 1);
    }
}

/// The files of an atomic call are one batch, those of any other are one batch each; no
/// file is left out and none is in two.
pub proof fn law_batches_cover_the_files(atomic: bool, start: usize, end: usize)
    requires
        start < end,
    ensures
        atomic ==> batches_of(atomic, start, end) == seq![(start, end)],
        !atomic ==> {
            let batches = batches_of(atomic, start, end);
            &&& batches.len() == end - start
            &&& forall|k: int|
                0 <= k < batches.len() ==> (#[trigger] batches[k]).0 == start + k && batches[k].1
                    == start + k + 1
        },
{
}

/// A failure is kept with the log, or ends an atomic call with all that was applied before
/// it. Its own commit report comes before one that was there.
pub proof fn law_failure_is_reported(
    log: LogModel,
    atomic: bool,
    failure: FailureModel,
    commit: Option<CommitModel>,
)
    ensures
        match fail_outcome(log, atomic, failure, commit) {
            FailOutcome::Ends(report) => {
                &&& atomic
                &&& report.failures == seq![failure]
                &&& report.applied == log.applied
                &&& report.transactional
                &&& report.partial_success <==> log.applied.len() > 0
                &&& commit is Some ==> report.commit == commit
                &&& commit is None ==> report.commit == log.commit
            },
            FailOutcome::Goes(after) => {
                &&& !atomic
                &&& after.failures == log.failures.push(failure)
                &&& after.applied == log.applied
                &&& after.affected_paths == log.affected_paths
                &&& after.logical_mutations == log.logical_mutations
                &&& after.recorded_changes == log.recorded_changes
                &&& after.first_file == log.first_file
                &&& after.promoted == log.promoted
                &&& commit is Some ==> after.commit == commit
                &&& commit is None ==> after.commit == log.commit
            },
        },
{
}

/// A batch that went through is taken up whole, behind what was there: what it applied, the
/// paths that it touched, its mutations and its records. The first file of the call is
/// that of the first batch that has one.
pub proof fn law_batch_is_taken_up_whole(
    log: LogModel,
    applied: Seq<AppliedModel>,
    batch: crate::handlers::write::batch::SuccessModel,
    first_file: Option<usize>,
)
    ensures
        ({
            let after = with_batch(log, applied, batch, first_file);
            &&& after.applied == log.applied + applied
            &&& after.affected_paths == log.affected_paths + batch.affected_paths
            &&& after.recorded_changes == log.recorded_changes + batch.recorded_changes
            &&& after.logical_mutations == log.logical_mutations + batch.logical_mutations
            &&& after.failures == log.failures
            &&& after.commit == log.commit
            &&& after.promoted == log.promoted
            &&& log.first_file is Some ==> after.first_file == log.first_file
            &&& log.first_file is None ==> after.first_file == first_file
        }),
{
}

/// The first file of a batch is its first applied change, where that lies in the batch.
pub proof fn law_first_file_is_the_first_applied(applied: Seq<AppliedModel>, start: int, end: int)
    requires
        applied.len() > 0,
        start <= applied[0].index < end <= usize::MAX,
    ensures
        batch_first(applied, start, end) == Some(applied[0].index as usize),
        batch_first(Seq::<AppliedModel>::empty(), start, end) is None,
{
}

/// A call begins with nothing applied, nothing failed and nothing to commit.
pub proof fn law_log_begins_empty()
    ensures
        ({
            let log = empty_log();
            &&& log.applied.len() == 0
            &&& log.failures.len() == 0
            &&& log.commit is None
            &&& log.affected_paths.len() == 0
            &&& log.recorded_changes.len() == 0
            &&& log.logical_mutations.len() == 0
            &&& log.first_file is None
            &&& log.promoted.len() == 0
        }),
{
}

/// A change that succeeds is added to what was applied, with the memory that it promoted; a
/// change that fails ends a call that must succeed as a whole, and is one more failure of
/// any other. The tree of the call stays as it is.
pub proof fn law_resource_is_added_or_fails(
    before: Applying,
    after: Applying,
    outcome: Result<(AppliedChange, Option<Promoted>), IndexedFailure>,
    settled: Settled,
)
    requires
        before.settles_resource(after, outcome, settled),
    ensures
        after.call() == before.call() && after.index() == before.index() && after.snapshot()
            == before.snapshot(),
        settled is Ends <==> outcome is Err && before.call().atomic,
        outcome matches Ok((change, promoted)) ==> {
            &&& after.log().applied == before.log().applied.push(change@)
            &&& after.log().failures == before.log().failures
            &&& promoted is None ==> after.log().promoted == before.log().promoted
            &&& promoted matches Some(memory) ==> after.log().promoted
                == before.log().promoted.push(memory@)
        },
        outcome matches Err(failed) ==> if before.call().atomic {
            settled matches Settled::Ends { report, .. } && report@.failures == seq![
                failed.failure@,
            ] && report@.applied == before.log().applied
        } else {
            after.log().failures == before.log().failures.push(failed.failure@)
                && after.log().applied == before.log().applied
        },
{
}

/// A batch of files that succeeds is added whole, and the tree of the call is what the batch
/// leaves; a batch that fails leaves the tree as it was.
pub proof fn law_batch_is_added_or_fails(
    before: Applying,
    after: Applying,
    start: usize,
    end: usize,
    outcome: Result<FileBatchSuccess, IndexedFailure>,
    settled: Settled,
)
    requires
        before.settles_files(after, start, end, outcome, settled),
    ensures
        after.call() == before.call() && after.index() == before.index(),
        settled is Ends <==> outcome is Err && before.call().atomic,
        outcome matches Ok(batch) ==> {
            &&& after.log().applied == before.log().applied + batch@.applied
            &&& after.log().affected_paths == before.log().affected_paths + batch@.affected_paths
            &&& after.log().logical_mutations == before.log().logical_mutations
                + batch@.logical_mutations
            &&& after.log().failures == before.log().failures
            &&& after.snapshot() == mutated(
                before.snapshot(),
                batch@.logical_mutations,
                batch@.logical_mutations.len() as int,
            )
        },
        outcome matches Err(failed) ==> after.snapshot() == before.snapshot() && (
        !before.call().atomic ==> after.log().failures == before.log().failures.push(
            failed.failure@,
        )),
{
}

/// A rename that was planned is applied whole to the tree and reported under its own change;
/// one that was not is a failure of that change.
pub proof fn law_rename_is_added_or_fails(
    before: Applying,
    after: Applying,
    index: usize,
    plan: Result<Vec<RenameEdit>, String>,
    settled: Settled,
)
    requires
        index < before.call().items@.len(),
        before.settles_rename(after, index, plan, settled),
    ensures
        after.call() == before.call() && after.index() == before.index(),
        settled is Ends <==> plan is Err && before.call().atomic,
        plan matches Ok(edits) ==> after.log().applied == before.log().applied + rename_effects(
            index as nat,
            edits@,
            edits@.len() as int,
        ).applied && (before.log().first_file is None ==> after.log().first_file == Some(index)),
        plan matches Err(error) ==> after.snapshot() == before.snapshot() && (
        !before.call().atomic ==> after.log().failures.len() == before.log().failures.len() + 1
            && after.log().failures.last().error == error@ && after.log().failures.last().index
            == index),
{
}

/// A change whose target cannot be read is a failure of that change.
pub proof fn law_bad_target_is_a_failure(
    before: Applying,
    after: Applying,
    index: usize,
    settled: Settled,
)
    requires
        index < before.call().items@.len(),
        before.call().items@[index as int].family is Err,
        before.settles_bad_target(after, index, settled),
    ensures
        after.call() == before.call() && after.snapshot() == before.snapshot(),
        settled is Ends <==> before.call().atomic,
        !before.call().atomic ==> after.log().failures.len() == before.log().failures.len() + 1
            && after.log().failures.last().index == index && after.log().failures.last().error
            == before.call().items@[index as int].family->Err_0@,
{
}

} // verus!
