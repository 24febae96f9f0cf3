//! Going through a batch without applying it, and checking that what was shown
//! still holds.
use vstd::prelude::*;
use vstd::string::*;
use crate::handlers::write::batch::IndexedChange;
use crate::handlers::write::call::{has_mode, TargetFamily, WriteCall, WriteItem};
use crate::handlers::write::file_mutations::{
    prepared_models, PreparedChange, PreparedModel, ResolvedPath,
};
use crate::handlers::write::progress::{run_end, Work};
use crate::handlers::write::rename::{forward, RenameEdit};
use crate::handlers::write::types::{
    applied_models, build_failure, commit_model, failure_models, file_failure, mode_name,
    mode_text, AppliedChange, AppliedModel, ChangeFailure, ChangeMode, ChangeReport, CommitModel,
    CommitReport, FailureModel, IndexedFailure, ReportModel,
};
use crate::hashing::{hex, sha256, sha256_hex};
use crate::scan::replace_all;
use crate::text::{decimal, render_usize, text2, text3, texts};

verus! {

/// A target as it was: whether it existed, and a hash of its content.
#[derive(Debug)]
pub struct TargetHash {
    pub target: String,
    pub kind: String,
    pub exists: bool,
    pub hash: String,
}

/// What a target hash says.
pub struct HashModel {
    pub target: Seq<char>,
    pub kind: Seq<char>,
    pub exists: bool,
    pub hash: Seq<char>,
}

impl View for TargetHash {
    type V = HashModel;

    open spec fn view(&self) -> HashModel {
        HashModel {
            target: self.target@,
            kind: self.kind@,
            exists: self.exists,
            hash: self.hash@,
        }
    }
}

/// What target hashes say.
pub open spec fn hash_models(hashes: Seq<TargetHash>) -> Seq<HashModel> {
    hashes.map_values(|hash: TargetHash| hash@)
}

/// What the disk holds at a path, byte for byte.
#[derive(Debug)]
pub enum DiskBytes {
    Missing,
    Bytes(Vec<u8>),
    Unreadable(String),
}

/// The hash of a file target, or why there is none.
pub open spec fn file_hash(
    normalized: Result<String, String>,
    resolved: Result<ResolvedPath, String>,
    disk: DiskBytes,
) -> Result<HashModel, Seq<char>> {
    match (normalized, resolved) {
        (Err(error), _) => Err(error@),
        (Ok(_), Err(error)) => Err("Invalid file target: "@ + error@),
        (Ok(target), Ok(_)) => match disk {
            DiskBytes::Missing => Ok(
                HashModel { target: target@, kind: "file"@, exists: false, hash: "missing"@ },
            ),
            DiskBytes::Bytes(bytes) => Ok(
                HashModel {
                    target: target@,
                    kind: "file"@,
                    exists: true,
                    hash: hex(sha256(bytes@)),
                },
            ),
            DiskBytes::Unreadable(error) => Err(
                "Failed to read '"@ + target@ + "' for preview hash: "@ + error@,
            ),
        },
    }
}

/// The hash of a file target.
pub fn hash_file_target_uri(
    normalized: &Result<String, String>,
    resolved: &Result<ResolvedPath, String>,
    disk: &DiskBytes,
) -> (hash: Result<TargetHash, String>)
    ensures
        match (hash, file_hash(*normalized, *resolved, *disk)) {
            (Ok(found), Ok(model)) => found@ == model,
            (Err(error), Err(reason)) => error@ == reason,
            _ => false,
        },
{
    let target = match normalized {
        Ok(target) => target,
        Err(error) => return Err(error.clone()),
    };
    if let Err(error) = resolved {
        return Err(text2("Invalid file target: ", error.as_str()));
    }
    match disk {
        DiskBytes::Missing => Ok(
            TargetHash {
                target: target.clone(),
                kind: "file".to_owned(),
                exists: false,
                hash: "missing".to_owned(),
            },
        ),
        DiskBytes::Bytes(bytes) => Ok(
            TargetHash {
                target: target.clone(),
                kind: "file".to_owned(),
                exists: true,
                hash: sha256_hex(bytes.as_slice()),
            },
        ),
        DiskBytes::Unreadable(error) => {
            let mut message = text3("Failed to read '", target.as_str(), "' for preview hash: ");
            message.append(error.as_str());
            Err(message)
        },
    }
}

/// What has been shown so far: what would be applied, and the hashes of its
/// targets.
#[verifier::ext_equal]
pub struct ShownModel {
    pub applied: Seq<AppliedModel>,
    pub hashes: Seq<HashModel>,
}

/// The run through a batch that shows what it would do.
#[derive(Debug)]
pub struct PreviewRun {
    pub items: Vec<WriteItem>,
    pub applied: Vec<AppliedChange>,
    pub hashes: Vec<TargetHash>,
    pub index: usize,
}

impl View for PreviewRun {
    type V = ShownModel;

    open spec fn view(&self) -> ShownModel {
        ShownModel { applied: applied_models(self.applied@), hashes: hash_models(self.hashes@) }
    }
}

/// What a preview shows of the change at `index`. Every resource has its turn, a
/// blocking append too.
pub open spec fn preview_work(items: Seq<WriteItem>, index: int) -> Work {
    if index >= items.len() {
        Work::Done
    } else if items[index].item.mode == ChangeMode::Rename && items[index].is_file() {
        Work::Rename(index as usize)
    } else {
        match items[index].family {
            Err(_) => Work::BadTarget(index as usize),
            Ok(TargetFamily::Resource) => Work::Resource(index as usize),
            Ok(TargetFamily::File) => Work::Files {
                start: index as usize,
                end: run_end(items, index) as usize,
            },
        }
    }
}

/// What is reported of a preview that ends with a failure.
pub open spec fn preview_failure(
    applied: Seq<AppliedModel>,
    failure: FailureModel,
    commit: Option<CommitModel>,
) -> ReportModel {
    ReportModel {
        applied,
        failures: seq![failure],
        commit,
        partial_success: false,
        transactional: true,
    }
}

/// The report of a preview that ends with a failure.
fn end_preview(
    applied: Vec<AppliedChange>,
    failure: ChangeFailure,
    commit: Option<CommitReport>,
) -> (report: ChangeReport)
    ensures
        report@ == preview_failure(applied_models(applied@), failure@, commit_model(commit)),
{
    let ghost said = failure@;
    let mut failures: Vec<ChangeFailure> = Vec::new();
    failures.push(failure);
    assert(failure_models(failures@) =~= seq![said]);
    ChangeReport { applied, failures, commit, partial_success: false, transactional: true }
}

/// What is said of a preview of an apply.
pub const PREVIEW_OF_APPLY: &'static str =
    "Invalid payload: preview=true cannot be used with mode=apply";

/// Whether any change is of the given mode.
fn any_mode(items: &Vec<WriteItem>, mode: ChangeMode) -> (any: bool)
    ensures
        any == has_mode(items@, mode),
{
    let mut i: usize = 0;
    while i < items.len()
        invariant
            i <= items@.len(),
            forall|k: int| 0 <= k < i ==> (#[trigger] items@[k]).item.mode != mode,
        decreases items.len() - i,
    {
        if items[i].item.mode == mode {
            assert(items@[i as int].item.mode == mode);
            return true;
        }
        i += 1;
    }
    false
}

/// What a preview comes to: it goes on, or ends with a report.
#[derive(Debug)]
pub enum PreviewStep {
    Goes(PreviewRun),
    Ends(ChangeReport),
}

/// The hash that was asked for, or the failure of the change.
pub open spec fn hash_result(hash: Result<TargetHash, String>) -> Result<HashModel, Seq<char>> {
    match hash {
        Ok(found) => Ok(found@),
        Err(error) => Err(error@),
    }
}

/// A file of a rename plan with the hashes of the paths that it touches.
#[derive(Debug)]
pub struct HashedEdit {
    pub edit: RenameEdit,
    pub source_hash: Result<TargetHash, String>,
    pub dest_hash: Result<TargetHash, String>,
}

/// What a preview shows of one file of a rename: what would be applied and the
/// hashes, or why it ends.
pub open spec fn shown_edit(index: nat, edit: HashedEdit) -> Result<ShownModel, Seq<char>> {
    let src = "file:"@ + forward(edit.edit.source.relative@);
    let entry = |target: Seq<char>, summary: Seq<char>| AppliedModel {
        index,
        target,
        mode: "rename"@,
        kind: "file"@,
        summary: "Would apply "@ + summary,
        data: None,
    };
    let sites = " ("@ + decimal(edit.edit.site_count as nat) + " sites)"@;
    match hash_result(edit.source_hash) {
        Err(error) => Err(error),
        Ok(source) => match (edit.edit.new_content, edit.edit.move_to) {
            (Some(_), Some(place)) => match hash_result(edit.dest_hash) {
                Err(error) => Err(error),
                Ok(dest_hash) => {
                    let dest = "file:"@ + forward(place.relative@);
                    Ok(
                        ShownModel {
                            applied: seq![entry(dest, "R "@ + src + "→"@ + dest + sites)],
                            hashes: seq![source, dest_hash],
                        },
                    )
                },
            },
            (Some(_), None) => Ok(
                ShownModel {
                    applied: seq![entry(src, "~"@ + src + sites)],
                    hashes: seq![source],
                },
            ),
            (None, _) => Ok(
                ShownModel { applied: seq![entry(src, "-"@ + src)], hashes: seq![source] },
            ),
        },
    }
}

/// What has been shown, followed by `more`.
pub open spec fn shown_with(shown: ShownModel, more: ShownModel) -> ShownModel {
    ShownModel { applied: shown.applied + more.applied, hashes: shown.hashes + more.hashes }
}

/// What a preview shows of the first `k` files of a rename: what was shown and, if
/// it ends there, why.
pub open spec fn shown_edits(
    shown: ShownModel,
    index: nat,
    edits: Seq<HashedEdit>,
    k: int,
) -> (ShownModel, Option<Seq<char>>)
    decreases k,
{
    if k <= 0 {
        (shown, None)
    } else {
        match shown_edits(shown, index, edits, k - 1) {
            (before, Some(error)) => (before, Some(error)),
            (before, None) => match shown_edit(index, edits[k - 1]) {
                Ok(more) => (shown_with(before, more), None),
                Err(error) => (before, Some(error)),
            },
        }
    }
}

/// A reason to end settles the matter.
proof fn lemma_shown_edits_end(
    shown: ShownModel,
    index: nat,
    edits: Seq<HashedEdit>,
    k: int,
    n: int,
)
    requires
        0 <= k <= n,
        shown_edits(shown, index, edits, k).1 is Some,
    ensures
        shown_edits(shown, index, edits, n) == shown_edits(shown, index, edits, k),
    decreases n - k,
{
    if k < n {
        lemma_shown_edits_end(shown, index, edits, k, n - 1);
    }
}

/// What would be applied to one file of a rename.
fn edit_entry(index: usize, edit: &RenameEdit) -> (entry: AppliedChange)
    ensures
        ({
            let src = "file:"@ + forward(edit.source.relative@);
            let sites = " ("@ + decimal(edit.site_count as nat) + " sites)"@;
            let (target, summary) = match (edit.new_content, edit.move_to) {
                (Some(_), Some(place)) => {
                    let dest = "file:"@ + forward(place.relative@);
                    (dest, "R "@ + src + "→"@ + dest + sites)
                },
                (Some(_), None) => (src, "~"@ + src + sites),
                (None, _) => (src, "-"@ + src),
            };
            entry@ == (AppliedModel {
                index: index as nat,
                target,
                mode: "rename"@,
                kind: "file"@,
                summary: "Would apply "@ + summary,
                data: None,
            })
        }),
{
    let src = text2("file:", replace_all(edit.source.relative.as_str(), "\\", "/").as_str());
    let mut sites = text2(" (", render_usize(edit.site_count).as_str());
    sites.append(" sites)");
    let (target, summary) = match (&edit.new_content, &edit.move_to) {
        (Some(_), Some(place)) => {
            let dest = text2("file:", replace_all(place.relative.as_str(), "\\", "/").as_str());
            let mut summary = text3("R ", src.as_str(), "→");
            summary.append(dest.as_str());
            summary.append(sites.as_str());
            (dest, summary)
        },
        (Some(_), None) => {
            let summary = text3("~", src.as_str(), sites.as_str());
            (src, summary)
        },
        (None, _) => {
            let summary = text2("-", src.as_str());
            (src, summary)
        },
    };
    AppliedChange {
        index,
        target,
        mode: "rename".to_owned(),
        kind: "file".to_owned(),
        summary: text2("Would apply ", summary.as_str()),
        data: None,
    }
}

/// What would be applied to the files of a batch.
pub open spec fn would_apply(
    changes: Seq<IndexedChange>,
    prepared: Seq<PreparedModel>,
    summaries: Seq<Seq<char>>,
) -> Seq<AppliedModel> {
    Seq::new(
        if prepared.len() <= summaries.len() {
            prepared.len()
        } else {
            summaries.len()
        },
        |k: int|
            AppliedModel {
                index: changes[prepared[k].pos() as int].index as nat,
                target: prepared[k].target(),
                mode: mode_text(changes[prepared[k].pos() as int].item.mode),
                kind: "file"@,
                summary: "Would apply "@ + summaries[k],
                data: None,
            },
    )
}

/// The first prepared change from `from` on whose hash is not known.
pub open spec fn first_unhashed(hashes: Seq<Result<TargetHash, String>>, from: int) -> Option<int>
    decreases hashes.len() - from,
{
    if from >= hashes.len() {
        None
    } else if hashes[from] is Err {
        Some(from)
    } else {
        first_unhashed(hashes, from + 1)
    }
}

/// The hashes that are known.
pub open spec fn known_hashes(hashes: Seq<Result<TargetHash, String>>) -> Seq<HashModel> {
    hashes.map_values(|hash: Result<TargetHash, String>| hash->Ok_0@)
}

impl PreviewRun {
    /// Starts a preview. One of an apply makes no sense.
    pub fn start(call: WriteCall) -> (run: Result<PreviewRun, String>)
        ensures
            match run {
                Ok(started) => {
                    &&& !has_mode(call.items@, ChangeMode::Apply)
                    &&& started.items == call.items
                    &&& started.index == 0
                    &&& started@ == (ShownModel { applied: Seq::empty(), hashes: Seq::empty() })
                },
                Err(error) => has_mode(call.items@, ChangeMode::Apply) && error@
                    == PREVIEW_OF_APPLY@,
            },
    {
        if any_mode(&call.items, ChangeMode::Apply) {
            return Err(PREVIEW_OF_APPLY.to_owned());
        }
        let run = PreviewRun {
            items: call.items,
            applied: Vec::new(),
            hashes: Vec::new(),
            index: 0,
        };
        assert(run@ =~= (ShownModel { applied: Seq::empty(), hashes: Seq::empty() }));
        Ok(run)
    }

    /// Tells what is to be shown next, and moves behind it.
    pub fn next(&mut self) -> (work: Work)
        ensures
            work == preview_work(old(self).items@, old(self).index as int),
            final(self).items == old(self).items,
            final(self)@ == old(self)@,
            final(self).index == match work {
                Work::Done => old(self).index as int,
                Work::Files { end, .. } => end as int,
                _ => old(self).index + 1,
            },
    {
        let index: usize = self.index;
        let total: usize = self.items.len();
        if index >= total {
            return Work::Done;
        }
        let file = self.items[index].targets_file();
        if self.items[index].item.mode == ChangeMode::Rename && file {
            self.index = index + 1;
            return Work::Rename(index);
        }
        if file {
            let mut end: usize = index;
            while end < total && self.items[end].targets_file() && self.items[end].item.mode
                != ChangeMode::Rename
                invariant
                    *self == *old(self),
                    total == self.items@.len(),
                    index <= end <= total,
                    run_end(self.items@, end as int) == run_end(self.items@, index as int),
                decreases total - end,
            {
                end += 1;
            }
            self.index = end;
            return Work::Files { start: index, end };
        }
        self.index = index + 1;
        match &self.items[index].family {
            Err(_) => Work::BadTarget(index),
            Ok(_) => Work::Resource(index),
        }
    }

    /// Ends a preview at a change whose target cannot be read.
    pub fn bad_target(self, index: usize) -> (report: ChangeReport)
        requires
            index < self.items@.len(),
            self.items@[index as int].family is Err,
        ensures
            report@ == preview_failure(
                self@.applied,
                file_failure(
                    index as nat,
                    self.items@[index as int].item.target@,
                    self.items@[index as int].item.mode,
                    self.items@[index as int].family->Err_0@,
                ),
                None,
            ),
    {
        let error = match &self.items[index].family {
            Err(error) => error.clone(),
            Ok(_) => String::new(),
        };
        let failure = build_failure(index, &self.items[index].item, error);
        end_preview(self.applied, failure, None)
    }

    /// Whether a resource is shown like this.
    pub open spec fn shows_resource(
        self,
        index: usize,
        outcome: Result<AppliedChange, IndexedFailure>,
        hash: Result<TargetHash, String>,
        step: PreviewStep,
    ) -> bool {
        match (step, outcome, hash) {
            (PreviewStep::Ends(report), Err(failed), _) => report@ == preview_failure(
                self@.applied,
                failed.failure@,
                commit_model(failed.commit),
            ),
            (PreviewStep::Ends(report), Ok(change), Err(error)) => report@ == preview_failure(
                self@.applied.push(change@),
                file_failure(
                    index as nat,
                    self.items@[index as int].item.target@,
                    self.items@[index as int].item.mode,
                    error@,
                ),
                None,
            ),
            (PreviewStep::Goes(run), Ok(change), Ok(found)) => {
                &&& run.items == self.items
                &&& run.index == self.index
                &&& run@ == (ShownModel {
                    applied: self@.applied.push(change@),
                    hashes: self@.hashes.push(found@),
                })
            },
            _ => false,
        }
    }

    /// Takes up what a change to a resource would do, and the hash of its target.
    pub fn resource_shown(
        self,
        index: usize,
        outcome: Result<AppliedChange, IndexedFailure>,
        hash: Result<TargetHash, String>,
    ) -> (step: PreviewStep)
        requires
            index < self.items@.len(),
        ensures
            self.shows_resource(index, outcome, hash, step),
    {
        let ghost start = self@;
        let mut run = self;
        let change = match outcome {
            Ok(change) => change,
            Err(failed) => {
                return PreviewStep::Ends(end_preview(run.applied, failed.failure, failed.commit));
            },
        };
        let ghost said = change@;
        run.applied.push(change);
        assert(applied_models(run.applied@) =~= start.applied.push(said));
        match hash {
            Ok(found) => {
                let ghost known = found@;
                run.hashes.push(found);
                assert(hash_models(run.hashes@) =~= start.hashes.push(known));
                PreviewStep::Goes(run)
            },
            Err(error) => {
                let failure = build_failure(index, &run.items[index].item, error);
                PreviewStep::Ends(end_preview(run.applied, failure, None))
            },
        }
    }

    /// Whether a rename is shown like this.
    pub open spec fn shows_rename(
        self,
        index: usize,
        plan: Result<Vec<HashedEdit>, String>,
        step: PreviewStep,
    ) -> bool {
    let item = self.items@[index as int].item;
    match plan {
        Err(error) => step matches PreviewStep::Ends(report) && report@
            == preview_failure(
            self@.applied,
            file_failure(index as nat, item.target@, item.mode, error@),
            None,
        ),
        Ok(edits) => match shown_edits(
            self@,
            index as nat,
            edits@,
            edits@.len() as int,
        ) {
            (shown, None) => step matches PreviewStep::Goes(run) && run.items
                == self.items && run.index == self.index && run@ == shown,
            (shown, Some(error)) => step matches PreviewStep::Ends(report) && report@
                == preview_failure(
                shown.applied,
                file_failure(index as nat, item.target@, item.mode, error),
                None,
            ),
        },
    }
    }

    /// Takes up the plan of a rename with the hashes of its paths, or why there is
    /// none.
    pub fn rename_shown(self, index: usize, plan: Result<Vec<HashedEdit>, String>) -> (step:
        PreviewStep)
        requires
            index < self.items@.len(),
        ensures
            self.shows_rename(index, plan, step),
    {
        let ghost start = self@;
        let mut run = self;
        let edits = match plan {
            Ok(edits) => edits,
            Err(error) => {
                let failure = build_failure(index, &run.items[index].item, error);
                return PreviewStep::Ends(end_preview(run.applied, failure, None));
            },
        };
        let ghost all = edits@;
        for hashed in it: edits
            invariant
                it.seq() == all,
                plan == Ok::<Vec<HashedEdit>, String>(plan->Ok_0),
                all == plan->Ok_0@,
                start == self@,
                run.items == self.items,
                run.index == self.index,
                index < run.items@.len(),
                shown_edits(start, index as nat, all, it.index() as int) == (
                    run@,
                    None::<Seq<char>>,
                ),
        {
            let ghost before = run@;
            let ghost k = it.index() + 1;
            assert(hashed == all[k - 1]);
            let entry = edit_entry(index, &hashed.edit);
            let moves = hashed.edit.new_content.is_some() && hashed.edit.move_to.is_some();
            let source = match hashed.source_hash {
                Ok(source) => source,
                Err(error) => {
                    proof {
                        lemma_shown_edits_end(start, index as nat, all, k, all.len() as int);
                    }
                    let failure = build_failure(index, &run.items[index].item, error);
                    return PreviewStep::Ends(end_preview(run.applied, failure, None));
                },
            };
            let ghost source_model = source@;
            if moves {
                match hashed.dest_hash {
                    Ok(dest) => {
                        let ghost dest_model = dest@;
                        run.hashes.push(source);
                        run.hashes.push(dest);
                        assert(hash_models(run.hashes@) =~= before.hashes + seq![
                            source_model,
                            dest_model,
                        ]);
                    },
                    Err(error) => {
                        proof {
                            lemma_shown_edits_end(start, index as nat, all, k, all.len() as int);
                        }
                        let failure = build_failure(index, &run.items[index].item, error);
                        return PreviewStep::Ends(end_preview(run.applied, failure, None));
                    },
                }
            } else {
                run.hashes.push(source);
                assert(hash_models(run.hashes@) =~= before.hashes + seq![source_model]);
            }
            let ghost said = entry@;
            run.applied.push(entry);
            assert(applied_models(run.applied@) =~= before.applied + seq![said]);
        }
        PreviewStep::Goes(run)
    }

    /// Ends a preview at a batch of files that cannot be prepared.
    pub fn files_refused(self, failed: IndexedFailure) -> (report: ChangeReport)
        ensures
            report@ == preview_failure(
                self@.applied,
                failed.failure@,
                commit_model(failed.commit),
            ),
    {
        end_preview(self.applied, failed.failure, failed.commit)
    }

    /// Whether files are shown like this.
    pub open spec fn shows_files(
        self,
        changes: &Vec<IndexedChange>,
        prepared: &Vec<PreparedChange>,
        summaries: &Vec<String>,
        hashes: Vec<Result<TargetHash, String>>,
        step: PreviewStep,
    ) -> bool {
        match first_unhashed(hashes@, 0) {
            Some(k) => {
                let change = changes@[prepared@[k]@.pos() as int];
                step matches PreviewStep::Ends(report) && report@ == preview_failure(
                    self@.applied,
                    file_failure(
                        change.index as nat,
                        change.item.target@,
                        change.item.mode,
                        hashes@[k]->Err_0@,
                    ),
                    None,
                )
            },
            None => step matches PreviewStep::Goes(run) && run.items == self.items
                && run.index == self.index && run@ == shown_with(
                self@,
                ShownModel {
                    applied: would_apply(
                        changes@,
                        prepared_models(prepared@),
                        texts(summaries@),
                    ),
                    hashes: known_hashes(hashes@),
                },
            ),
        }
    }

    /// Takes up what a batch of files would do, and the hash of the target of each
    /// prepared change.
    pub fn files_shown(
        self,
        changes: &Vec<IndexedChange>,
        prepared: &Vec<PreparedChange>,
        summaries: &Vec<String>,
        hashes: Vec<Result<TargetHash, String>>,
    ) -> (step: PreviewStep)
        requires
            forall|k: int|
                0 <= k < prepared@.len() ==> (#[trigger] prepared@[k])@.pos() < changes@.len(),
            hashes@.len() == prepared@.len(),
        ensures
            self.shows_files(changes, prepared, summaries, hashes, step),
    {
        let ghost start = self@;
        let ghost all = hashes@;
        let ghost models = prepared_models(prepared@);
        let ghost wanted = would_apply(changes@, models, texts(summaries@));
        let mut run = self;
        let shown: usize = run.hashes.len();
        assert(start.hashes + known_hashes(all).take(0) =~= start.hashes);
        for hash in it: hashes
            invariant
                it.seq() == all,
                start == self@,
                all.len() == prepared@.len(),
                run.items == self.items,
                run.index == self.index,
                run.applied == self.applied,
                hash_models(run.hashes@) == start.hashes + known_hashes(all).take(
                    it.index() as int,
                ),
                first_unhashed(all, it.index() as int) == first_unhashed(all, 0),
                run.hashes@.len() == shown + it.index(),
                forall|j: int|
                    0 <= j < prepared@.len() ==> (#[trigger] prepared@[j])@.pos()
                        < changes@.len(),
        {
            let ghost place = it.index() as int;
            let ghost before = hash_models(run.hashes@);
            assert(hash == all[place]);
            match hash {
                Ok(found) => {
                    let ghost known = found@;
                    run.hashes.push(found);
                    assert(hash_models(run.hashes@) =~= before.push(known));
                    assert(known_hashes(all).take(place + 1) =~= known_hashes(all).take(
                        place,
                    ).push(known));
                    assert(hash_models(run.hashes@) =~= start.hashes + known_hashes(all).take(
                        place + 1,
                    ));
                },
                Err(error) => {
                    let k: usize = run.hashes.len() - shown;
                    let change = &changes[prepared[k].change_pos()];
                    let failure = build_failure(change.index, &change.item, error);
                    return PreviewStep::Ends(end_preview(run.applied, failure, None));
                },
            }
        }
        assert(known_hashes(all).take(all.len() as int) =~= known_hashes(all));
        let ghost hashed = hash_models(run.hashes@);
        let mut i: usize = 0;
        assert(start.applied + wanted.take(0) =~= start.applied);
        while i < prepared.len() && i < summaries.len()
            invariant
                i <= prepared@.len(),
                i <= summaries@.len(),
                models == prepared_models(prepared@),
                wanted == would_apply(changes@, models, texts(summaries@)),
                run.items == self.items,
                run.index == self.index,
                hash_models(run.hashes@) == hashed,
                applied_models(run.applied@) == start.applied + wanted.take(i as int),
                forall|k: int|
                    0 <= k < prepared@.len() ==> (#[trigger] prepared@[k])@.pos()
                        < changes@.len(),
            decreases prepared.len() - i,
        {
            let ghost before = applied_models(run.applied@);
            assert(models[i as int] == prepared@[i as int]@);
            assert(texts(summaries@)[i as int] == summaries@[i as int]@);
            let change = &changes[prepared[i].change_pos()];
            let entry = AppliedChange {
                index: change.index,
                target: prepared[i].target_uri().to_owned(),
                mode: mode_name(change.item.mode),
                kind: "file".to_owned(),
                summary: text2("Would apply ", summaries[i].as_str()),
                data: None,
            };
            let ghost said = entry@;
            run.applied.push(entry);
            assert(applied_models(run.applied@) =~= before.push(said));
            assert(wanted.take(i + 1) =~= wanted.take(i as int).push(said));
            i += 1;
            assert(applied_models(run.applied@) =~= start.applied + wanted.take(i as int));
        }
        assert(wanted.take(i as int) =~= wanted);
        PreviewStep::Goes(run)
    }
}

/// The hash of a file names its target and says whether it is there: the digest of its
/// bytes where it is, `missing` where it is not. Only a file that cannot be named, found or
/// read has none.
pub proof fn law_hash_is_that_of_the_bytes(
    normalized: Result<String, String>,
    resolved: Result<ResolvedPath, String>,
    disk: DiskBytes,
)
    ensures
        file_hash(normalized, resolved, disk) is Ok <==> normalized is Ok && resolved is Ok
            && !(disk is Unreadable),
        file_hash(normalized, resolved, disk) matches Ok(found) ==> {
            &&& found.target == normalized->Ok_0@
            &&& found.kind == "file"@
            &&& found.exists <==> disk is Bytes
            &&& disk is Missing ==> found.hash == "missing"@
            &&& disk matches DiskBytes::Bytes(bytes) ==> found.hash == hex(sha256(bytes@))
        },
{
}

/// Each item of a preview is shown for what it is: a rename of files alone, a bad target as
/// such, a resource alone, and files together with the files behind them.
pub proof fn law_items_are_shown_for_what_they_are(items: Seq<WriteItem>, index: int)
    requires
        0 <= index <= items.len(),
        items.len() <= usize::MAX,
    ensures
        ({
            let work = preview_work(items, index);
            &&& work is Done <==> index == items.len()
            &&& index < items.len() ==> {
                let item = items[index];
                let is_file = item.family matches Ok(TargetFamily::File);
                &&& is_file && item.item.mode == ChangeMode::Rename ==> work == Work::Rename(
                    index as usize,
                )
                &&& item.family is Err ==> work == Work::BadTarget(index as usize)
                &&& item.family matches Ok(TargetFamily::Resource) ==> work == Work::Resource(
                    index as usize,
                )
                &&& is_file && item.item.mode != ChangeMode::Rename ==> work is Files
                    && work->Files_start == index as usize
            }
        }),
{
}

/// A preview that ends in a failure reports what it showed before and that one failure, and
/// claims no success of any part.
pub proof fn law_failed_preview_says_why(
    applied: Seq<AppliedModel>,
    failure: FailureModel,
    commit: Option<CommitModel>,
)
    ensures
        ({
            let report = preview_failure(applied, failure, commit);
            &&& report.applied == applied
            &&& report.failures == seq![failure]
            &&& report.commit == commit
            &&& !report.partial_success
            &&& report.transactional
        }),
{
}

/// An edit of a rename is shown at the place where the file will be, with the hash of the
/// file as it is, and, where it moves, that of the place it moves to.
pub proof fn law_edit_is_shown_with_its_hashes(index: nat, edit: HashedEdit)
    ensures
        ({
            let moves = edit.edit.new_content is Some && edit.edit.move_to is Some;
            let shown = shown_edit(index, edit);
            &&& shown is Ok <==> edit.source_hash is Ok && (moves ==> edit.dest_hash is Ok)
            &&& shown matches Ok(found) ==> {
                &&& found.applied.len() == 1
                &&& found.applied[0].index == index
                &&& found.applied[0].mode == "rename"@
                &&& found.applied[0].kind == "file"@
                &&& "Would apply "@.is_prefix_of(found.applied[0].summary)
                &&& found.applied[0].target == "file:"@ + forward(
                    if moves {
                        edit.edit.move_to->Some_0.relative@
                    } else {
                        edit.edit.source.relative@
                    },
                )
                &&& found.hashes == if moves {
                    seq![edit.source_hash->Ok_0@, edit.dest_hash->Ok_0@]
                } else {
                    seq![edit.source_hash->Ok_0@]
                }
            }
        }),
{
    if let Ok(found) = shown_edit(index, edit) {
        let summary = found.applied[0].summary;
        assert("Would apply "@ =~= summary.subrange(0, "Would apply "@.len() as int));
    }
}

/// The edits of a rename are shown in their order up to the first that cannot be shown,
/// behind all that was shown before.
pub proof fn law_edits_are_shown_in_order(
    shown: ShownModel,
    index: nat,
    edits: Seq<HashedEdit>,
    k: int,
)
    requires
        0 <= k <= edits.len(),
    ensures
        shown.applied.is_prefix_of(shown_edits(shown, index, edits, k).0.applied),
        shown.hashes.is_prefix_of(shown_edits(shown, index, edits, k).0.hashes),
        shown_edits(shown, index, edits, k).1 is None <==> forall|i: int|
            0 <= i < k ==> shown_edit(index, #[trigger] edits[i]) is Ok,
        shown_edits(shown, index, edits, k).1 is None ==> {
            &&& shown_edits(shown, index, edits, k).0.applied.len() == shown.applied.len() + k
            &&& forall|i: int|
                0 <= i < k ==> (#[trigger] shown_edits(
                    shown,
                    index,
                    edits,
                    k,
                ).0.applied[shown.applied.len() + i]) == shown_edit(index, edits[i])->Ok_0.applied[0]
        },
    decreases k,
{
    if k > 0 {
        law_edits_are_shown_in_order(shown, index, edits, k - 1);
        law_edit_is_shown_with_its_hashes(index, edits[k - 1]);
        let (before, failed) = shown_edits(shown, index, edits, k - 1);
        let (after, _) = shown_edits(shown, index, edits, k);
        if failed is None {
            assert(forall|i: int|
                0 <= i < k - 1 ==> shown_edit(index, #[trigger] edits[i]) is Ok);
            if let Ok(more) = shown_edit(index, edits[k - 1]) {
                assert(shown.applied =~= after.applied.subrange(0, shown.applied.len() as int)) by {
                    assert(shown.applied =~= before.applied.subrange(
                        0,
                        shown.applied.len() as int,
                    ));
                }
                assert(shown.hashes =~= after.hashes.subrange(0, shown.hashes.len() as int)) by {
                    assert(shown.hashes =~= before.hashes.subrange(0, shown.hashes.len() as int));
                }
                assert forall|i: int| 0 <= i < k implies (
                #[trigger] after.applied[shown.applied.len() + i]) == shown_edit(
                    index,
                    edits[i],
                )->Ok_0.applied[0] by {
                    if i < k - 1 {
                        assert(after.applied[shown.applied.len() + i]
                            == before.applied[shown.applied.len() + i]);
                    }
                }
            }
        }
    } else {
        assert(shown.applied =~= shown.applied.subrange(0, shown.applied.len() as int));
        assert(shown.hashes =~= shown.hashes.subrange(0, shown.hashes.len() as int));
    }
}

/// A prepared change is shown under the place, the target and the mode of the change it
/// comes from, as something that would be done.
pub proof fn law_prepared_changes_are_shown(
    changes: Seq<IndexedChange>,
    prepared: Seq<PreparedModel>,
    summaries: Seq<Seq<char>>,
    k: int,
)
    requires
        prepared.len() == summaries.len(),
        0 <= k < prepared.len(),
    ensures
        ({
            let shown = would_apply(changes, prepared, summaries);
            let origin = changes[prepared[k].pos() as int];
            &&& shown.len() == prepared.len()
            &&& shown[k].index == origin.index
            &&& shown[k].target == prepared[k].target()
            &&& shown[k].mode == mode_text(origin.item.mode)
            &&& shown[k].kind == "file"@
            &&& shown[k].summary == "Would apply "@ + summaries[k]
            &&& shown[k].data is None
        }),
{
}

/// The place without a hash that a preview ends at is the first.
pub proof fn law_first_missing_hash_ends_the_preview(
    hashes: Seq<Result<TargetHash, String>>,
    from: int,
)
    requires
        0 <= from <= hashes.len(),
    ensures
        match first_unhashed(hashes, from) {
            Some(k) => from <= k < hashes.len() && hashes[k] is Err && forall|i: int|
                from <= i < k ==> (#[trigger] hashes[i]) is Ok,
            None => forall|i: int| from <= i < hashes.len() ==> (#[trigger] hashes[i]) is Ok,
        },
    decreases hashes.len() - from,
{
    if from < hashes.len() && hashes[from] is Ok {
        law_first_missing_hash_ends_the_preview(hashes, from + 1);
    }
}

/// A preview goes on exactly if what it shows can be shown and hashed: behind what it showed
/// before stands what is new, with its hashes, and nothing else of it changes.
pub proof fn law_preview_goes_on_with_what_is_shown(
    run: PreviewRun,
    index: usize,
    outcome: Result<AppliedChange, IndexedFailure>,
    hash: Result<TargetHash, String>,
    step: PreviewStep,
)
    requires
        index < run.items@.len(),
        run.shows_resource(index, outcome, hash, step),
    ensures
        step is Goes <==> outcome is Ok && hash is Ok,
        step matches PreviewStep::Goes(next) ==> next.items == run.items && next.index == run.index
            && next@.applied == run@.applied.push(outcome->Ok_0@) && next@.hashes
            == run@.hashes.push(hash->Ok_0@),
        step matches PreviewStep::Ends(report) ==> report@.failures.len() == 1
            && !report@.partial_success && run@.applied.is_prefix_of(report@.applied),
        outcome matches Err(failed) ==> (step matches PreviewStep::Ends(report)
            && report@.failures[0] == failed.failure@ && report@.applied == run@.applied),
{
    if let PreviewStep::Ends(report) = step {
        assert(run@.applied =~= report@.applied.subrange(0, run@.applied.len() as int));
    }
}

/// Files are shown exactly if all of them can be hashed; then each has its entry and its
/// hash, in their order. The failure is charged to the change whose file has none.
pub proof fn law_files_are_shown_with_their_hashes(
    run: PreviewRun,
    changes: &Vec<IndexedChange>,
    prepared: &Vec<PreparedChange>,
    summaries: &Vec<String>,
    hashes: Vec<Result<TargetHash, String>>,
    step: PreviewStep,
)
    requires
        hashes@.len() == prepared@.len(),
        summaries@.len() == prepared@.len(),
        run.shows_files(changes, prepared, summaries, hashes, step),
    ensures
        step is Goes <==> forall|i: int| 0 <= i < hashes@.len() ==> (#[trigger] hashes@[i]) is Ok,
        step matches PreviewStep::Goes(next) ==> {
            &&& next.items == run.items && next.index == run.index
            &&& next@.applied.len() == run@.applied.len() + prepared@.len()
            &&& next@.hashes.len() == run@.hashes.len() + prepared@.len()
            &&& forall|i: int|
                0 <= i < hashes@.len() ==> next@.hashes[run@.hashes.len() + i]
                    == (#[trigger] hashes@[i])->Ok_0@
        },
        step matches PreviewStep::Ends(report) ==> report@.applied == run@.applied
            && report@.failures.len() == 1,
{
    law_first_missing_hash_ends_the_preview(hashes@, 0);
    if let PreviewStep::Goes(next) = step {
        assert(run.shows_files(changes, prepared, summaries, hashes, step));
        assert forall|i: int| 0 <= i < hashes@.len() implies next@.hashes[run@.hashes.len() + i]
            == (#[trigger] hashes@[i])->Ok_0@ by {
            assert(known_hashes(hashes@)[i] == hashes@[i]->Ok_0@);
        }
    }
}

/// A rename is shown exactly if it was planned and each of its edits can be shown; a fault
/// ends the preview at its change, behind what was shown.
pub proof fn law_rename_is_shown_or_ends_the_preview(
    run: PreviewRun,
    index: usize,
    plan: Result<Vec<HashedEdit>, String>,
    step: PreviewStep,
)
    requires
        index < run.items@.len(),
        run.shows_rename(index, plan, step),
    ensures
        step is Goes ==> plan is Ok,
        plan matches Ok(edits) ==> (step is Goes <==> forall|i: int|
            0 <= i < edits@.len() ==> shown_edit(index as nat, #[trigger] edits@[i]) is Ok),
        plan matches Ok(edits) ==> (step matches PreviewStep::Goes(next) ==> next.items == run.items
            && next.index == run.index && next@.applied.len() == run@.applied.len() + edits@.len()),
        step matches PreviewStep::Ends(report) ==> report@.failures.len() == 1
            && report@.failures[0].index == index && run@.applied.is_prefix_of(report@.applied),
{
    if let Ok(edits) = plan {
        law_edits_are_shown_in_order(run@, index as nat, edits@, edits@.len() as int);
    } else if let PreviewStep::Ends(report) = step {
        assert(run@.applied =~= report@.applied.subrange(0, run@.applied.len() as int));
    }
}

} // verus!
