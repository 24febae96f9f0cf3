//! Batches of file changes: preparing one item after the other, and turning what
//! was prepared into a tree mutation and a report.
use vstd::prelude::*;
use vstd::string::*;
use crate::diff::{changed_line_counts, common_len, law_common_len_with_itself, lines_of_opt};
use crate::handlers::write::file_mutations::{
    contents, item_staging, prepared_models, stage_item, staging_model, with_delete, with_write,
    FileStage, PreparedChange, PreparedModel, ResolvedPath, StageModel, Staging, StagingModel,
    TargetFacts,
};
use crate::handlers::write::types::{
    applied_models, build_failure, file_failure, mode_name, mode_text, AppliedChange, AppliedModel,
    ChangeFailure, ChangeItem,
};
use crate::text::{opt_text, text2, text3, texts};
use crate::textmap::TextMap;

verus! {

/// A change and its place in the call.
#[derive(Debug)]
pub struct IndexedChange {
    pub index: usize,
    pub item: ChangeItem,
}

/// How far a batch has come: the stage, and the item that stopped it with the
/// reason.
pub open spec fn prepared_from(
    before: StageModel,
    changes: Seq<IndexedChange>,
    facts: Seq<TargetFacts>,
    from: int,
) -> (StageModel, Option<(int, StagingModel)>)
    decreases changes.len() - from,
{
    if from >= changes.len() {
        (before, None)
    } else {
        let staging = item_staging(
            before,
            from as nat,
            changes[from].index as nat,
            changes[from].item,
            facts[from],
        );
        match staging {
            StagingModel::Staged(after) => prepared_from(after, changes, facts, from + 1),
            _ => (before, Some((from, staging))),
        }
    }
}

/// The end of a stretch of a batch.
#[derive(Debug)]
pub enum Stretch {
    /// Every item is on the stage.
    Complete,
    /// The item at `pos` is not on the stage, for the given reason.
    Stopped { pos: usize, staging: Staging },
}

/// Prepares the items of a batch from place `from` on, up to the first that is
/// rejected or needs an answer from outside. The items before it are on the stage.
pub fn prepare_file_changes(
    stage: &mut FileStage,
    changes: &Vec<IndexedChange>,
    facts: &Vec<TargetFacts>,
    from: usize,
) -> (stretch: Stretch)
    requires
        facts@.len() == changes@.len(),
    ensures
        match stretch {
            Stretch::Complete => prepared_from(old(stage)@, changes@, facts@, from as int) == (
                final(stage)@,
                None::<(int, StagingModel)>,
            ),
            Stretch::Stopped { pos, staging } => {
                &&& !(staging is Staged)
                &&& prepared_from(old(stage)@, changes@, facts@, from as int) == (
                    final(stage)@,
                    Some((pos as int, staging_model(staging, final(stage)@))),
                )
            },
        },
{
    let mut pos: usize = from;
    while pos < changes.len()
        invariant
            from <= pos,
            facts@.len() == changes@.len(),
            prepared_from(stage@, changes@, facts@, pos as int) == prepared_from(
                old(stage)@,
                changes@,
                facts@,
                from as int,
            ),
        decreases changes.len() - pos,
    {
        let change = &changes[pos];
        let staging = stage_item(stage, pos, change.index, &change.item, &facts[pos]);
        match staging {
            Staging::Staged => {
                pos += 1;
            },
            _ => {
                return Stretch::Stopped { pos, staging };
            },
        }
    }
    Stretch::Complete
}

/// A batch is prepared as its front is: where the front is stopped the whole is stopped
/// at the same place for the same reason, and otherwise the whole goes on from what the
/// front has come to.
pub proof fn law_front_of_a_batch_is_prepared_the_same(
    before: StageModel,
    changes: Seq<IndexedChange>,
    facts: Seq<TargetFacts>,
    from: int,
    k: int,
)
    requires
        0 <= from <= k <= changes.len(),
        facts.len() == changes.len(),
    ensures
        ({
            let front = prepared_from(before, changes.take(k), facts.take(k), from);
            let whole = prepared_from(before, changes, facts, from);
            &&& front.1 is Some ==> whole == front
            &&& front.1 is None ==> whole == prepared_from(front.0, changes, facts, k)
            &&& front.0.prepared.is_prefix_of(whole.0.prepared)
            &&& front.0.summaries.is_prefix_of(whole.0.summaries)
        }),
    decreases k - from,
{
    let front = prepared_from(before, changes.take(k), facts.take(k), from);
    if from < k {
        assert(changes.take(k)[from] == changes[from]);
        assert(facts.take(k)[from] == facts[from]);
        let staging = item_staging(
            before,
            from as nat,
            changes[from].index as nat,
            changes[from].item,
            facts[from],
        );
        if let StagingModel::Staged(after) = staging {
            law_front_of_a_batch_is_prepared_the_same(after, changes, facts, from + 1, k);
        } else {
            lemma_whole_is_prefix(front.0.prepared);
            lemma_whole_is_prefix(front.0.summaries);
        }
    } else {
        lemma_batch_grows(before, changes, facts, from);
    }
}

/// A sequence is a prefix of itself.
proof fn lemma_whole_is_prefix<A>(s: Seq<A>)
    ensures
        s.is_prefix_of(s),
{
    assert(s.subrange(0, s.len() as int) =~= s);
}

/// A prefix of a prefix is a prefix.
proof fn lemma_prefix_of_prefix<A>(a: Seq<A>, b: Seq<A>, c: Seq<A>)
    requires
        a.is_prefix_of(b),
        b.is_prefix_of(c),
    ensures
        a.is_prefix_of(c),
{
    assert(c.subrange(0, a.len() as int) =~= b.subrange(0, a.len() as int));
}

/// Preparing adds to what is prepared, and takes nothing away.
proof fn lemma_batch_grows(
    before: StageModel,
    changes: Seq<IndexedChange>,
    facts: Seq<TargetFacts>,
    from: int,
)
    requires
        0 <= from <= changes.len(),
    ensures
        before.prepared.is_prefix_of(prepared_from(before, changes, facts, from).0.prepared),
        before.summaries.is_prefix_of(prepared_from(before, changes, facts, from).0.summaries),
    decreases changes.len() - from,
{
    lemma_whole_is_prefix(before.prepared);
    lemma_whole_is_prefix(before.summaries);
    if from < changes.len() {
        let staging = item_staging(
            before,
            from as nat,
            changes[from].index as nat,
            changes[from].item,
            facts[from],
        );
        if let StagingModel::Staged(after) = staging {
            lemma_item_adds_one(before, from as nat, changes[from], facts[from]);
            lemma_batch_grows(after, changes, facts, from + 1);
            let end = prepared_from(after, changes, facts, from + 1).0;
            lemma_prefix_of_prefix(before.prepared, after.prepared, end.prepared);
            lemma_prefix_of_prefix(before.summaries, after.summaries, end.summaries);
        }
    }
}

/// An item that is staged adds one change, at its place, and one summary.
proof fn lemma_item_adds_one(
    before: StageModel,
    pos: nat,
    change: IndexedChange,
    facts: TargetFacts,
)
    requires
        item_staging(before, pos, change.index as nat, change.item, facts) is Staged,
    ensures
        ({
            let after = item_staging(
                before,
                pos,
                change.index as nat,
                change.item,
                facts,
            )->Staged_0;
            &&& after.prepared.len() == before.prepared.len() + 1
            &&& after.summaries.len() == before.summaries.len() + 1
            &&& after.prepared.drop_last() == before.prepared
            &&& after.prepared.last().pos() == pos
            &&& before.prepared.is_prefix_of(after.prepared)
            &&& before.summaries.is_prefix_of(after.summaries)
        }),
{
    let after = item_staging(before, pos, change.index as nat, change.item, facts)->Staged_0;
    assert(after.prepared.drop_last() =~= before.prepared);
    assert(after.prepared.subrange(0, before.prepared.len() as int) =~= before.prepared);
    assert(after.summaries.subrange(0, before.summaries.len() as int) =~= before.summaries);
}

/// Whether a stage has a summary for each prepared change, and the changes in the order
/// of their places, all of them before `bound`.
pub open spec fn is_in_order(stage: StageModel, bound: int) -> bool {
    &&& stage.prepared.len() == stage.summaries.len()
    &&& forall|i: int, j: int|
        0 <= i <= j < stage.prepared.len() ==> (#[trigger] stage.prepared[i]).pos() <= (
        #[trigger] stage.prepared[j]).pos()
    &&& forall|i: int|
        0 <= i < stage.prepared.len() ==> (#[trigger] stage.prepared[i]).pos() < bound
}

/// What is prepared of a batch stands in the order of its changes, with a summary for
/// each, and ends before the change that stopped it.
pub proof fn law_batch_is_prepared_in_order(
    before: StageModel,
    changes: Seq<IndexedChange>,
    facts: Seq<TargetFacts>,
    from: int,
)
    requires
        0 <= from <= changes.len(),
        is_in_order(before, from),
    ensures
        ({
            let (after, stopped) = prepared_from(before, changes, facts, from);
            is_in_order(
                after,
                match stopped {
                    Some((pos, _)) => pos,
                    None => changes.len() as int,
                },
            )
        }),
    decreases changes.len() - from,
{
    if from < changes.len() {
        let staging = item_staging(
            before,
            from as nat,
            changes[from].index as nat,
            changes[from].item,
            facts[from],
        );
        if let StagingModel::Staged(after) = staging {
            lemma_item_adds_one(before, from as nat, changes[from], facts[from]);
            lemma_one_more_in_order(before, after, from as nat);
            law_batch_is_prepared_in_order(after, changes, facts, from + 1);
        }
    }
}

/// The answer to what stopped a batch, the content of an edit or a section of an
/// envelope, is put behind what was prepared and keeps the order.
pub proof fn law_answers_keep_the_order(
    before: StageModel,
    pos: nat,
    target: Seq<char>,
    path: ResolvedPath,
    content: Seq<char>,
    is_new: bool,
    mark: Seq<char>,
)
    requires
        is_in_order(before, pos as int + 1),
    ensures
        is_in_order(with_write(before, pos, target, path, content, is_new, mark), pos as int + 1),
        is_in_order(with_delete(before, pos, target, path), pos as int + 1),
{
    let written = with_write(before, pos, target, path, content, is_new, mark);
    let deleted = with_delete(before, pos, target, path);
    assert(written.prepared.drop_last() =~= before.prepared);
    assert(deleted.prepared.drop_last() =~= before.prepared);
    lemma_one_more_in_order(before, written, pos);
    lemma_one_more_in_order(before, deleted, pos);
}

/// One change more, at the last place, keeps the order.
proof fn lemma_one_more_in_order(before: StageModel, after: StageModel, pos: nat)
    requires
        is_in_order(before, pos as int + 1),
        after.prepared.len() == before.prepared.len() + 1,
        after.summaries.len() == before.summaries.len() + 1,
        after.prepared.drop_last() == before.prepared,
        after.prepared.last().pos() == pos,
    ensures
        is_in_order(after, pos as int + 1),
{
    let n = before.prepared.len() as int;
    assert forall|i: int| 0 <= i < n implies after.prepared[i] == #[trigger] before.prepared[i] by {
        assert(after.prepared.drop_last()[i] == after.prepared[i]);
    }
    assert forall|i: int, j: int| 0 <= i <= j < after.prepared.len() implies (
    #[trigger] after.prepared[i]).pos() <= (#[trigger] after.prepared[j]).pos() by {
        if i < n {
            assert(after.prepared[i] == before.prepared[i]);
        }
        if j < n {
            assert(after.prepared[j] == before.prepared[j]);
        }
    }
    assert forall|i: int| 0 <= i < after.prepared.len() implies (#[trigger] after.prepared[i]).pos()
        < pos + 1 by {
        if i < n {
            assert(after.prepared[i] == before.prepared[i]);
        }
    }
}

/// A change to one path of the committed tree; without content the path goes.
#[derive(Debug)]
pub struct LogicalMutation {
    pub path: String,
    pub content: Option<String>,
}

/// What a tree mutation says: the path, and its new content.
pub open spec fn mutation_models(mutations: Seq<LogicalMutation>) -> Seq<
    (Seq<char>, Option<Seq<char>>),
> {
    mutations.map_values(|mutation: LogicalMutation| (mutation.path@, opt_text(mutation.content)))
}

/// A change to a file as it is recorded for its job.
#[derive(Debug)]
pub struct RecordFileChange {
    pub path: String,
    pub status: String,
    pub additions: i32,
    pub deletions: i32,
}

/// What a recorded change says.
pub struct RecordModel {
    pub path: Seq<char>,
    pub status: Seq<char>,
    pub additions: i32,
    pub deletions: i32,
}

/// What recorded changes say.
pub open spec fn record_models(records: Seq<RecordFileChange>) -> Seq<RecordModel> {
    records.map_values(
        |record: RecordFileChange|
            RecordModel {
                path: record.path@,
                status: record.status@,
                additions: record.additions,
                deletions: record.deletions,
            },
    )
}

/// A write or removal outside the worktree, which goes to disk at once and is no
/// part of the commit. Without content the file goes.
#[derive(Debug)]
pub struct OutsideEffect {
    pub change_pos: usize,
    pub target_uri: String,
    pub full_path: String,
    pub content: Option<String>,
}

/// What an outside effect says.
pub struct OutsideModel {
    pub change_pos: nat,
    pub target_uri: Seq<char>,
    pub full_path: Seq<char>,
    pub content: Option<Seq<char>>,
}

/// What outside effects say.
pub open spec fn outside_models(effects: Seq<OutsideEffect>) -> Seq<OutsideModel> {
    effects.map_values(
        |effect: OutsideEffect|
            OutsideModel {
                change_pos: effect.change_pos as nat,
                target_uri: effect.target_uri@,
                full_path: effect.full_path@,
                content: opt_text(effect.content),
            },
    )
}

/// What applying a prepared batch comes to.
#[derive(Debug)]
pub struct FileBatchSuccess {
    pub applied: Vec<AppliedChange>,
    pub affected_paths: Vec<String>,
    pub recorded_changes: Vec<RecordFileChange>,
    pub logical_mutations: Vec<LogicalMutation>,
    pub outside_effects: Vec<OutsideEffect>,
}

/// What a batch success says.
#[verifier::ext_equal]
pub struct SuccessModel {
    pub applied: Seq<AppliedModel>,
    pub affected_paths: Seq<Seq<char>>,
    pub recorded_changes: Seq<RecordModel>,
    pub logical_mutations: Seq<(Seq<char>, Option<Seq<char>>)>,
    pub outside_effects: Seq<OutsideModel>,
}

impl View for FileBatchSuccess {
    type V = SuccessModel;

    open spec fn view(&self) -> SuccessModel {
        SuccessModel {
            applied: applied_models(self.applied@),
            affected_paths: texts(self.affected_paths@),
            recorded_changes: record_models(self.recorded_changes@),
            logical_mutations: mutation_models(self.logical_mutations@),
            outside_effects: outside_models(self.outside_effects@),
        }
    }
}

/// The content that the committed tree has for a target.
pub open spec fn committed_content(
    snapshot: Map<Seq<char>, Option<Seq<char>>>,
    target: Seq<char>,
) -> Option<Seq<char>> {
    if snapshot.contains_key(target) {
        snapshot[target]
    } else {
        None
    }
}

/// The record of a change of `path` from one content to another.
pub open spec fn record_of(
    path: Seq<char>,
    status: Seq<char>,
    before: Option<Seq<char>>,
    after: Option<Seq<char>>,
) -> RecordModel {
    let old_lines = lines_of_opt(before);
    let new_lines = lines_of_opt(after);
    let common = common_len(old_lines, new_lines);
    RecordModel {
        path,
        status,
        additions: (new_lines.len() - common) as i32,
        deletions: (old_lines.len() - common) as i32,
    }
}

/// What one prepared change adds to what a batch comes to.
pub open spec fn with_prepared(
    before: SuccessModel,
    prepared: PreparedModel,
    snapshot: Map<Seq<char>, Option<Seq<char>>>,
) -> SuccessModel {
    match prepared {
        PreparedModel::Write {
            change_pos,
            target_uri,
            repo_path,
            full_path,
            content,
            is_new,
            outside_worktree,
        } => if outside_worktree {
            SuccessModel {
                outside_effects: before.outside_effects.push(
                    OutsideModel { change_pos, target_uri, full_path, content: Some(content) },
                ),
                ..before
            }
        } else {
            SuccessModel {
                affected_paths: before.affected_paths.push(repo_path),
                recorded_changes: before.recorded_changes.push(
                    record_of(
                        repo_path,
                        if is_new {
                            "added"@
                        } else {
                            "modified"@
                        },
                        committed_content(snapshot, target_uri),
                        Some(content),
                    ),
                ),
                logical_mutations: before.logical_mutations.push((repo_path, Some(content))),
                ..before
            }
        },
        PreparedModel::Delete { change_pos, target_uri, repo_path, full_path, outside_worktree } =>
        if outside_worktree {
            SuccessModel {
                outside_effects: before.outside_effects.push(
                    OutsideModel { change_pos, target_uri, full_path, content: None },
                ),
                ..before
            }
        } else {
            SuccessModel {
                affected_paths: before.affected_paths.push(repo_path),
                recorded_changes: before.recorded_changes.push(
                    record_of(
                        repo_path,
                        "deleted"@,
                        committed_content(snapshot, target_uri),
                        None,
                    ),
                ),
                logical_mutations: before.logical_mutations.push((repo_path, None)),
                ..before
            }
        },
    }
}

/// What the first `k` prepared changes come to, without the report of them.
pub open spec fn effects_of(
    prepared: Seq<PreparedModel>,
    snapshot: Map<Seq<char>, Option<Seq<char>>>,
    k: int,
) -> SuccessModel
    decreases k,
{
    if k <= 0 {
        SuccessModel {
            applied: Seq::empty(),
            affected_paths: Seq::empty(),
            recorded_changes: Seq::empty(),
            logical_mutations: Seq::empty(),
            outside_effects: Seq::empty(),
        }
    } else {
        with_prepared(effects_of(prepared, snapshot, k - 1), prepared[k - 1], snapshot)
    }
}

/// What is reported of the prepared changes.
pub open spec fn applied_of(
    changes: Seq<IndexedChange>,
    prepared: Seq<PreparedModel>,
    summaries: Seq<Seq<char>>,
) -> Seq<AppliedModel> {
    Seq::new(
        if prepared.len() <= summaries.len() {
            prepared.len()
        } else {
            summaries.len()
        },
        |k: int|
            AppliedModel {
                index: changes[prepared[k].pos() as int].index as nat,
                target: prepared[k].target(),
                mode: mode_text(changes[prepared[k].pos() as int].item.mode),
                kind: "file"@,
                summary: summaries[k],
                data: None,
            },
    )
}

/// The content of a target in the committed tree.
fn committed<'a>(snapshot: &'a TextMap<Option<String>>, target: &str) -> (content: Option<&'a str>)
    ensures
        crate::text::opt_str(content) == committed_content(contents(snapshot@), target@),
{
    match snapshot.get(target) {
        Some(Some(content)) => Some(content.as_str()),
        _ => None,
    }
}

/// What one prepared change adds.
fn add_prepared(
    success: &mut FileBatchSuccess,
    prepared: &PreparedChange,
    snapshot: &TextMap<Option<String>>,
)
    ensures
        final(success)@ == with_prepared(old(success)@, prepared@, contents(snapshot@)),
{
    let ghost start = success@;
    match prepared {
        PreparedChange::Write {
            change_pos,
            target_uri,
            repo_path,
            full_path,
            content,
            is_new,
            outside_worktree,
        } => {
            if *outside_worktree {
                success.outside_effects.push(
                    OutsideEffect {
                        change_pos: *change_pos,
                        target_uri: target_uri.clone(),
                        full_path: full_path.clone(),
                        content: Some(content.clone()),
                    },
                );
            } else {
                let before = committed(snapshot, target_uri.as_str());
                let (additions, deletions) = changed_line_counts(before, Some(content.as_str()));
                success.affected_paths.push(repo_path.clone());
                success.recorded_changes.push(
                    RecordFileChange {
                        path: repo_path.clone(),
                        status: if *is_new {
                            "added".to_owned()
                        } else {
                            "modified".to_owned()
                        },
                        additions,
                        deletions,
                    },
                );
                success.logical_mutations.push(
                    LogicalMutation { path: repo_path.clone(), content: Some(content.clone()) },
                );
            }
        },
        PreparedChange::Delete {
            change_pos,
            target_uri,
            repo_path,
            full_path,
            outside_worktree,
        } => {
            if *outside_worktree {
                success.outside_effects.push(
                    OutsideEffect {
                        change_pos: *change_pos,
                        target_uri: target_uri.clone(),
                        full_path: full_path.clone(),
                        content: None,
                    },
                );
            } else {
                let before = committed(snapshot, target_uri.as_str());
                let (additions, deletions) = changed_line_counts(before, None);
                success.affected_paths.push(repo_path.clone());
                success.recorded_changes.push(
                    RecordFileChange {
                        path: repo_path.clone(),
                        status: "deleted".to_owned(),
                        additions,
                        deletions,
                    },
                );
                success.logical_mutations.push(
                    LogicalMutation { path: repo_path.clone(), content: None },
                );
            }
        },
    }
    assert(success@ =~= with_prepared(start, prepared@, contents(snapshot@)));
}

/// Turns prepared changes into the mutation of the committed tree, the records and
/// the report of the batch. Writes outside the worktree are listed apart.
pub fn apply_prepared_logical(
    changes: &Vec<IndexedChange>,
    prepared: &Vec<PreparedChange>,
    summaries: &Vec<String>,
    snapshot: &TextMap<Option<String>>,
) -> (success: FileBatchSuccess)
    requires
        forall|k: int|
            0 <= k < prepared@.len() ==> (#[trigger] prepared@[k])@.pos() < changes@.len(),
    ensures
        success@ == (SuccessModel {
            applied: applied_of(changes@, prepared_models(prepared@), texts(summaries@)),
            ..effects_of(
                prepared_models(prepared@),
                contents(snapshot@),
                prepared@.len() as int,
            )
        }),
{
    let ghost models = prepared_models(prepared@);
    let ghost report = applied_of(changes@, models, texts(summaries@));
    let mut success = FileBatchSuccess {
        applied: Vec::new(),
        affected_paths: Vec::new(),
        recorded_changes: Vec::new(),
        logical_mutations: Vec::new(),
        outside_effects: Vec::new(),
    };
    assert(success@ =~= effects_of(models, contents(snapshot@), 0));
    let mut k: usize = 0;
    while k < prepared.len()
        invariant
            k <= prepared@.len(),
            models == prepared_models(prepared@),
            success@ == effects_of(models, contents(snapshot@), k as int),
        decreases prepared.len() - k,
    {
        assert(models[k as int] == prepared@[k as int]@);
        add_prepared(&mut success, &prepared[k], snapshot);
        k += 1;
    }
    let ghost effects = success@;
    let mut applied: Vec<AppliedChange> = Vec::new();
    let mut i: usize = 0;
    while i < prepared.len() && i < summaries.len()
        invariant
            i <= prepared@.len(),
            i <= summaries@.len(),
            models == prepared_models(prepared@),
            report == applied_of(changes@, models, texts(summaries@)),
            applied_models(applied@) == report.take(i as int),
            forall|k: int|
                0 <= k < prepared@.len() ==> (#[trigger] prepared@[k])@.pos() < changes@.len(),
        decreases prepared.len() - i,
    {
        assert(models[i as int] == prepared@[i as int]@);
        assert(texts(summaries@)[i as int] == summaries@[i as int]@);
        let change = &changes[prepared[i].change_pos()];
        let entry = AppliedChange {
            index: change.index,
            target: prepared[i].target_uri().to_owned(),
            mode: mode_name(change.item.mode),
            kind: "file".to_owned(),
            summary: summaries[i].clone(),
            data: None,
        };
        let ghost done = applied_models(applied@);
        applied.push(entry);
        i += 1;
        assert(applied_models(applied@) =~= done.push(entry@));
        assert(report.take(i as int) =~= report.take(i - 1).push(report[i - 1]));
    }
    assert(report.take(i as int) =~= report);
    success.applied = applied;
    assert(success@ =~= (SuccessModel { applied: report, ..effects }));
    success
}

/// What the committed tree holds for the targets of the first `k` mutations once
/// they are made.
pub open spec fn mutated(
    snapshot: Map<Seq<char>, Option<Seq<char>>>,
    mutations: Seq<(Seq<char>, Option<Seq<char>>)>,
    k: int,
) -> Map<Seq<char>, Option<Seq<char>>>
    decreases k,
{
    if k <= 0 {
        snapshot
    } else {
        mutated(snapshot, mutations, k - 1).insert("file:"@ + mutations[k - 1].0, mutations[k - 1].1)
    }
}

/// Brings the snapshot of the committed tree up to the mutations of a batch, so
/// that the batches behind it build on them.
pub fn apply_snapshot_mutations(
    snapshot: &mut TextMap<Option<String>>,
    mutations: &Vec<LogicalMutation>,
)
    ensures
        contents(final(snapshot)@) == mutated(
            contents(old(snapshot)@),
            mutation_models(mutations@),
            mutations@.len() as int,
        ),
{
    let ghost models = mutation_models(mutations@);
    let mut k: usize = 0;
    while k < mutations.len()
        invariant
            k <= mutations@.len(),
            models == mutation_models(mutations@),
            contents(snapshot@) == mutated(contents(old(snapshot)@), models, k as int),
        decreases mutations.len() - k,
    {
        let ghost before = snapshot@;
        let mutation = &mutations[k];
        assert(models[k as int] == (mutation.path@, opt_text(mutation.content)));
        let content = crate::text::clone_opt(&mutation.content);
        let target = text2("file:", mutation.path.as_str());
        snapshot.insert(target, content);
        assert(contents(snapshot@) =~= contents(before).insert(target@, opt_text(content)));
        k += 1;
    }
}

/// The prepared changes inside the worktree.
pub open spec fn inside_worktree(prepared: Seq<PreparedModel>) -> Seq<PreparedModel> {
    prepared.filter(|change: PreparedModel| !is_outside(change))
}

/// Every prepared change inside the worktree is committed and recorded under its
/// path, and none outside it is.
pub proof fn law_commit_holds_the_worktree_changes(
    prepared: Seq<PreparedModel>,
    snapshot: Map<Seq<char>, Option<Seq<char>>>,
    k: int,
)
    requires
        0 <= k <= prepared.len(),
    ensures
        ({
            let effects = effects_of(prepared, snapshot, k);
            let inside = inside_worktree(prepared.take(k)).len();
            &&& effects.affected_paths.len() == inside
            &&& effects.recorded_changes.len() == inside
            &&& effects.logical_mutations.len() == inside
            &&& effects.outside_effects.len() == k - inside
        }),
        forall|i: int|
            0 <= i < effects_of(prepared, snapshot, k).affected_paths.len() ==> {
                &&& #[trigger] effects_of(prepared, snapshot, k).affected_paths[i] == effects_of(
                    prepared,
                    snapshot,
                    k,
                ).logical_mutations[i].0
                &&& effects_of(prepared, snapshot, k).affected_paths[i] == effects_of(
                    prepared,
                    snapshot,
                    k,
                ).recorded_changes[i].path
            },
    decreases k,
{
    let inside = |change: PreparedModel| !is_outside(change);
    if k > 0 {
        law_commit_holds_the_worktree_changes(prepared, snapshot, k - 1);
        assert(prepared.take(k) =~= prepared.take(k - 1).push(prepared[k - 1]));
        prepared.take(k - 1).lemma_filter_push(prepared[k - 1], inside);
        assert(inside_worktree(prepared.take(k)) == if is_outside(prepared[k - 1]) {
            inside_worktree(prepared.take(k - 1))
        } else {
            inside_worktree(prepared.take(k - 1)).push(prepared[k - 1])
        });
    } else {
        assert(prepared.take(0) =~= Seq::empty());
        reveal(Seq::filter);
    }
}

/// Whether a prepared change lies outside the worktree.
pub open spec fn is_outside(change: PreparedModel) -> bool {
    match change {
        PreparedModel::Write { outside_worktree, .. } => outside_worktree,
        PreparedModel::Delete { outside_worktree, .. } => outside_worktree,
    }
}

/// How an effect outside the worktree failed.
#[derive(Debug)]
pub enum OutsideFault {
    /// The directories above the file could not be made.
    Parents(String),
    /// The file could not be written.
    Write(String),
    /// The file could not be removed.
    Removal(String),
}

/// What is said of an effect outside the worktree that failed.
pub open spec fn outside_fault_text(target_uri: Seq<char>, fault: OutsideFault) -> Seq<char> {
    match fault {
        OutsideFault::Parents(error) => "Failed to create parent directories for '"@ + target_uri
            + "': "@ + error@,
        OutsideFault::Write(error) => "Failed to write '"@ + target_uri + "': "@ + error@,
        OutsideFault::Removal(error) => "Failed to delete '"@ + target_uri + "': "@ + error@,
    }
}

/// Reports an effect outside the worktree that failed, for the change that asked
/// for it.
pub fn outside_failure(effect: &OutsideEffect, change: &IndexedChange, fault: OutsideFault) -> (
    failure: ChangeFailure)
    ensures
        failure@ == file_failure(
            change.index as nat,
            change.item.target@,
            change.item.mode,
            outside_fault_text(effect.target_uri@, fault),
        ),
{
    let target = effect.target_uri.as_str();
    let mut text = match &fault {
        OutsideFault::Parents(_) => text3("Failed to create parent directories for '", target, "': "),
        OutsideFault::Write(_) => text3("Failed to write '", target, "': "),
        OutsideFault::Removal(_) => text3("Failed to delete '", target, "': "),
    };
    match &fault {
        OutsideFault::Parents(error) => text.append(error.as_str()),
        OutsideFault::Write(error) => text.append(error.as_str()),
        OutsideFault::Removal(error) => text.append(error.as_str()),
    }
    build_failure(change.index, &change.item, text)
}

/// A change inside the worktree becomes one mutation of the tree, at its path and with its
/// content or, where it removes the file, with none, and one record of it. A change
/// outside the worktree becomes one effect on its full path, and no mutation.
pub proof fn law_prepared_change_takes_effect(
    before: SuccessModel,
    prepared: PreparedModel,
    snapshot: Map<Seq<char>, Option<Seq<char>>>,
)
    ensures
        ({
            let after = with_prepared(before, prepared, snapshot);
            &&& after.applied == before.applied
            &&& match prepared {
                PreparedModel::Write {
                    change_pos,
                    target_uri,
                    repo_path,
                    full_path,
                    content,
                    is_new,
                    outside_worktree,
                } => if outside_worktree {
                    &&& after.outside_effects == before.outside_effects.push(
                        OutsideModel { change_pos, target_uri, full_path, content: Some(content) },
                    )
                    &&& after.logical_mutations == before.logical_mutations
                    &&& after.affected_paths == before.affected_paths
                    &&& after.recorded_changes == before.recorded_changes
                } else {
                    &&& after.outside_effects == before.outside_effects
                    &&& after.logical_mutations == before.logical_mutations.push(
                        (repo_path, Some(content)),
                    )
                    &&& after.affected_paths == before.affected_paths.push(repo_path)
                    &&& after.recorded_changes.drop_last() == before.recorded_changes
                    &&& after.recorded_changes.last().path == repo_path
                    &&& after.recorded_changes.last().status == if is_new {
                        "added"@
                    } else {
                        "modified"@
                    }
                },
                PreparedModel::Delete {
                    change_pos,
                    target_uri,
                    repo_path,
                    full_path,
                    outside_worktree,
                } => if outside_worktree {
                    &&& after.outside_effects == before.outside_effects.push(
                        OutsideModel { change_pos, target_uri, full_path, content: None },
                    )
                    &&& after.logical_mutations == before.logical_mutations
                    &&& after.affected_paths == before.affected_paths
                    &&& after.recorded_changes == before.recorded_changes
                } else {
                    &&& after.outside_effects == before.outside_effects
                    &&& after.logical_mutations == before.logical_mutations.push((repo_path, None))
                    &&& after.affected_paths == before.affected_paths.push(repo_path)
                    &&& after.recorded_changes.drop_last() == before.recorded_changes
                    &&& after.recorded_changes.last().path == repo_path
                    &&& after.recorded_changes.last().status == "deleted"@
                },
            }
        }),
{
    let after = with_prepared(before, prepared, snapshot);
    if after.recorded_changes.len() > before.recorded_changes.len() {
        assert(after.recorded_changes.drop_last() =~= before.recorded_changes);
    }
}

/// A record counts the lines that came and went since the committed content: their
/// difference is the difference in length, no more lines came than there are and no more
/// went than there were, and where nothing changed none are counted. Of a new file all
/// lines came, of a removed one all went.
pub proof fn law_record_counts_the_changed_lines(
    path: Seq<char>,
    status: Seq<char>,
    before: Option<Seq<char>>,
    after: Option<Seq<char>>,
)
    requires
        lines_of_opt(before).len() <= i32::MAX,
        lines_of_opt(after).len() <= i32::MAX,
    ensures
        ({
            let record = record_of(path, status, before, after);
            let was = lines_of_opt(before).len();
            let is = lines_of_opt(after).len();
            &&& record.path == path
            &&& record.status == status
            &&& record.additions - record.deletions == is - was
            &&& 0 <= record.additions <= is
            &&& 0 <= record.deletions <= was
            &&& before == after ==> record.additions == 0 && record.deletions == 0
            &&& before is None ==> record.deletions == 0 && record.additions == is
            &&& after is None ==> record.additions == 0 && record.deletions == was
            &&& was - record.deletions == common_len(lines_of_opt(before), lines_of_opt(after))
        }),
{
    let old_lines = lines_of_opt(before);
    let new_lines = lines_of_opt(after);
    lemma_common_is_short(old_lines, new_lines);
    if before == after {
        law_common_len_with_itself(old_lines);
    }
}

/// No more lines are common to two lists than either has.
proof fn lemma_common_is_short(a: Seq<Seq<char>>, b: Seq<Seq<char>>)
    ensures
        common_len(a, b) <= a.len(),
        common_len(a, b) <= b.len(),
    decreases a.len() + b.len(),
{
    if a.len() > 0 && b.len() > 0 {
        if a.last() == b.last() {
            lemma_common_is_short(a.drop_last(), b.drop_last());
        } else {
            lemma_common_is_short(a.drop_last(), b);
            lemma_common_is_short(a, b.drop_last());
        }
    }
}

/// Before the content of a file is counted it is taken from the committed tree; a file
/// that the tree does not have had none.
pub proof fn law_committed_content_is_that_of_the_tree(
    snapshot: Map<Seq<char>, Option<Seq<char>>>,
    target: Seq<char>,
)
    ensures
        snapshot.contains_key(target) ==> committed_content(snapshot, target) == snapshot[target],
        !snapshot.contains_key(target) ==> committed_content(snapshot, target) is None,
{
}

/// The effects of a batch are those of its changes, one after the other: the content that
/// the last change of a path gives it is what the tree has there in the end.
pub proof fn law_last_mutation_of_a_path_counts(
    snapshot: Map<Seq<char>, Option<Seq<char>>>,
    mutations: Seq<(Seq<char>, Option<Seq<char>>)>,
    k: int,
    i: int,
)
    requires
        0 <= i < k <= mutations.len(),
        forall|j: int| i < j < k ==> (#[trigger] mutations[j]).0 != mutations[i].0,
    ensures
        mutated(snapshot, mutations, k).contains_key("file:"@ + mutations[i].0),
        mutated(snapshot, mutations, k)["file:"@ + mutations[i].0] == mutations[i].1,
    decreases k,
{
    if i < k - 1 {
        law_last_mutation_of_a_path_counts(snapshot, mutations, k - 1, i);
        let here = "file:"@ + mutations[i].0;
        let last = "file:"@ + mutations[k - 1].0;
        if here == last {
            assert(here.skip("file:"@.len() as int) =~= mutations[i].0);
            assert(last.skip("file:"@.len() as int) =~= mutations[k - 1].0);
        }
    }
}

/// What no mutation touches stays as it was.
pub proof fn law_untouched_files_stay(
    snapshot: Map<Seq<char>, Option<Seq<char>>>,
    mutations: Seq<(Seq<char>, Option<Seq<char>>)>,
    k: int,
    target: Seq<char>,
)
    requires
        0 <= k <= mutations.len(),
        forall|j: int| 0 <= j < k ==> "file:"@ + (#[trigger] mutations[j]).0 != target,
    ensures
        mutated(snapshot, mutations, k).contains_key(target) <==> snapshot.contains_key(target),
        snapshot.contains_key(target) ==> mutated(snapshot, mutations, k)[target]
            == snapshot[target],
    decreases k,
{
    if k > 0 {
        law_untouched_files_stay(snapshot, mutations, k - 1, target);
    }
}

/// What is reported of a batch follows its changes: each prepared change is reported under
/// the index and the mode of the change that it came of, with its target and summary.
pub proof fn law_applied_changes_are_reported(
    changes: Seq<IndexedChange>,
    prepared: Seq<PreparedModel>,
    summaries: Seq<Seq<char>>,
    k: int,
)
    requires
        prepared.len() == summaries.len(),
        0 <= k < prepared.len(),
        prepared[k].pos() < changes.len(),
    ensures
        ({
            let applied = applied_of(changes, prepared, summaries);
            &&& applied.len() == prepared.len()
            &&& applied[k].index == changes[prepared[k].pos() as int].index
            &&& applied[k].mode == mode_text(changes[prepared[k].pos() as int].item.mode)
            &&& applied[k].target == match prepared[k] {
                PreparedModel::Write { target_uri, .. } => target_uri,
                PreparedModel::Delete { target_uri, .. } => target_uri,
            }
            &&& applied[k].summary == summaries[k]
            &&& applied[k].kind == "file"@
        }),
{
}

/// The effects of a batch begin with nothing and take up its prepared changes in order,
/// none of them left out.
pub proof fn law_effects_follow_the_batch(
    prepared: Seq<PreparedModel>,
    snapshot: Map<Seq<char>, Option<Seq<char>>>,
    k: int,
)
    requires
        0 <= k < prepared.len(),
    ensures
        effects_of(prepared, snapshot, k + 1) == with_prepared(
            effects_of(prepared, snapshot, k),
            prepared[k],
            snapshot,
        ),
        effects_of(prepared, snapshot, 0).logical_mutations.len() == 0,
        effects_of(prepared, snapshot, 0).outside_effects.len() == 0,
        effects_of(prepared, snapshot, 0).affected_paths.len() == 0,
        effects_of(prepared, snapshot, 0).recorded_changes.len() == 0,
{
}

/// Each item is prepared against the stage that the items before it have left, at its own
/// place and with what is known of its own target.
pub proof fn law_items_follow_one_another(
    before: StageModel,
    changes: Seq<IndexedChange>,
    facts: Seq<TargetFacts>,
    from: int,
)
    requires
        0 <= from < changes.len(),
        facts.len() == changes.len(),
    ensures
        ({
            let staging = item_staging(
                before,
                from as nat,
                changes[from].index as nat,
                changes[from].item,
                facts[from],
            );
            &&& staging matches StagingModel::Staged(after) ==> prepared_from(
                before,
                changes,
                facts,
                from,
            ) == prepared_from(after, changes, facts, from + 1)
            &&& !(staging is Staged) ==> prepared_from(before, changes, facts, from) == (
                before,
                Some((from, staging)),
            )
        }),
        prepared_from(before, changes, facts, changes.len() as int) == (
            before,
            None::<(int, StagingModel)>,
        ),
{
}

/// What failed outside the worktree names the target and the reason.
pub proof fn law_outside_fault_names_its_target(target: Seq<char>, fault: OutsideFault)
    ensures
        match fault {
            OutsideFault::Parents(error) => outside_fault_text(target, fault)
                == "Failed to create parent directories for '"@ + target + "': "@ + error@,
            OutsideFault::Write(error) => outside_fault_text(target, fault) == "Failed to write '"@
                + target + "': "@ + error@,
            OutsideFault::Removal(error) => outside_fault_text(target, fault)
                == "Failed to delete '"@ + target + "': "@ + error@,
        },
{
}

/// A prepared change is outside exactly if it says so.
pub proof fn law_outside_changes_say_so(
    pos: nat,
    target: Seq<char>,
    path: Seq<char>,
    full: Seq<char>,
    content: Seq<char>,
    is_new: bool,
    outside: bool,
)
    ensures
        is_outside(
            PreparedModel::Write {
                change_pos: pos,
                target_uri: target,
                repo_path: path,
                full_path: full,
                content,
                is_new,
                outside_worktree: outside,
            },
        ) <==> outside,
        is_outside(
            PreparedModel::Delete {
                change_pos: pos,
                target_uri: target,
                repo_path: path,
                full_path: full,
                outside_worktree: outside,
            },
        ) <==> outside,
{
}

} // verus!
