//! Preparing changes to files.
//!
//! A batch is prepared item by item against the content that the items before
//! have left, so nothing is written until all of it is known to fit. What only
//! the outside can tell, where a target lies and what the disk holds, comes in as
//! [`TargetFacts`]; an edit that another engine computes goes out as an
//! [`EditRequest`] and comes back as an [`EditReply`].
use vstd::prelude::*;
use vstd::string::*;
use crate::handlers::write::diagnostics::{
    literal_not_found_diagnostic, non_unique_match_diagnostic, non_unique_message,
    not_found_message,
};
use crate::handlers::write::types::{
    build_failure, file_failure, mode_name, mode_text, ChangeFailure, ChangeItem, ChangeMode,
    FailureModel, FileChangePayload,
};
use crate::scan::{
    find_matches, ints, law_first_occurrence_is_replaced, law_matches_are_occurrences,
    match_starts, occurs_at, replace_all, replace_first, replaced_all, replaced_first,
    starts_with, strip_prefix, stripped_prefix,
};
use crate::text::{chars_of, opt_text, same_text, text2, text3, texts};
use crate::textmap::TextMap;

verus! {

/// A target as a path, and whether it lies outside the worktree.
#[derive(Debug)]
pub struct ResolvedPath {
    pub full_path: String,
    pub outside_worktree: bool,
}

/// What the disk holds at a path.
#[derive(Debug)]
pub enum DiskFile {
    Missing,
    Text(String),
    Unreadable(String),
}

/// How an `old_string` is meant: with wildcard markers, or as the literal text it
/// stands for once escapes are undone.
#[derive(Debug)]
pub enum OldString {
    Wildcard,
    Literal(String),
}

/// What the outside tells about the target of a change: its normal form, its
/// path, the file on disk, the block of similar names for a missing file, and how
/// the change's `old_string` is meant.
#[derive(Debug)]
pub struct TargetFacts {
    pub normalized: Result<String, String>,
    pub resolved: Result<ResolvedPath, String>,
    pub disk: DiskFile,
    pub suggestion: String,
    pub old_string: OldString,
}

/// A file change that is ready to be applied.
#[derive(Debug)]
pub enum PreparedChange {
    /// Write `content` to the path.
    Write {
        change_pos: usize,
        target_uri: String,
        repo_path: String,
        full_path: String,
        content: String,
        is_new: bool,
        outside_worktree: bool,
    },
    /// Remove the file at the path.
    Delete {
        change_pos: usize,
        target_uri: String,
        repo_path: String,
        full_path: String,
        outside_worktree: bool,
    },
}

/// What a prepared change says.
pub enum PreparedModel {
    Write {
        change_pos: nat,
        target_uri: Seq<char>,
        repo_path: Seq<char>,
        full_path: Seq<char>,
        content: Seq<char>,
        is_new: bool,
        outside_worktree: bool,
    },
    Delete {
        change_pos: nat,
        target_uri: Seq<char>,
        repo_path: Seq<char>,
        full_path: Seq<char>,
        outside_worktree: bool,
    },
}

impl View for PreparedChange {
    type V = PreparedModel;

    open spec fn view(&self) -> PreparedModel {
        match *self {
            PreparedChange::Write {
                change_pos,
                target_uri,
                repo_path,
                full_path,
                content,
                is_new,
                outside_worktree,
            } => PreparedModel::Write {
                change_pos: change_pos as nat,
                target_uri: target_uri@,
                repo_path: repo_path@,
                full_path: full_path@,
                content: content@,
                is_new,
                outside_worktree,
            },
            PreparedChange::Delete {
                change_pos,
                target_uri,
                repo_path,
                full_path,
                outside_worktree,
            } => PreparedModel::Delete {
                change_pos: change_pos as nat,
                target_uri: target_uri@,
                repo_path: repo_path@,
                full_path: full_path@,
                outside_worktree,
            },
        }
    }
}

impl PreparedModel {
    /// The position of the change in its batch.
    pub open spec fn pos(self) -> nat {
        match self {
            PreparedModel::Write { change_pos, .. } => change_pos,
            PreparedModel::Delete { change_pos, .. } => change_pos,
        }
    }

    /// The target of the change.
    pub open spec fn target(self) -> Seq<char> {
        match self {
            PreparedModel::Write { target_uri, .. } => target_uri,
            PreparedModel::Delete { target_uri, .. } => target_uri,
        }
    }
}

impl PreparedChange {
    /// The position of the change in its batch.
    pub fn change_pos(&self) -> (pos: usize)
        ensures
            pos == self@.pos(),
    {
        match self {
            PreparedChange::Write { change_pos, .. } => *change_pos,
            PreparedChange::Delete { change_pos, .. } => *change_pos,
        }
    }

    /// The target of the change.
    pub fn target_uri(&self) -> (target: &str)
        ensures
            target@ == self@.target(),
    {
        match self {
            PreparedChange::Write { target_uri, .. } => target_uri.as_str(),
            PreparedChange::Delete { target_uri, .. } => target_uri.as_str(),
        }
    }
}

/// What prepared changes say.
pub open spec fn prepared_models(prepared: Seq<PreparedChange>) -> Seq<PreparedModel> {
    prepared.map_values(|change: PreparedChange| change@)
}

/// The contents that a batch has given its targets so far, where `None` stands
/// for a removed file, and the changes prepared so far with their summaries.
pub struct FileStage {
    pub in_flight: TextMap<Option<String>>,
    pub prepared: Vec<PreparedChange>,
    pub summaries: Vec<String>,
}

/// What a stage holds.
#[verifier::ext_equal]
pub struct StageModel {
    pub in_flight: Map<Seq<char>, Option<Seq<char>>>,
    pub prepared: Seq<PreparedModel>,
    pub summaries: Seq<Seq<char>>,
}

/// The contents that a text map holds.
pub open spec fn contents(map: Map<Seq<char>, Option<String>>) -> Map<
    Seq<char>,
    Option<Seq<char>>,
> {
    map.map_values(|content: Option<String>| opt_text(content))
}

impl View for FileStage {
    type V = StageModel;

    open spec fn view(&self) -> StageModel {
        StageModel {
            in_flight: contents(self.in_flight@),
            prepared: prepared_models(self.prepared@),
            summaries: texts(self.summaries@),
        }
    }
}

/// The path of a target within the repository.
pub open spec fn repo_path_of(normalized: Seq<char>) -> Seq<char> {
    match stripped_prefix(normalized, "file:"@) {
        Some(path) => path,
        None => Seq::empty(),
    }
}

/// Whether the file is new to the batch: removed by an earlier item, or untouched
/// so far and not on disk.
pub open spec fn is_new_file(
    in_flight: Map<Seq<char>, Option<Seq<char>>>,
    normalized: Seq<char>,
    disk: DiskFile,
) -> bool {
    if in_flight.contains_key(normalized) {
        in_flight[normalized] is None
    } else {
        disk is Missing
    }
}

/// The content that the next item finds: what an earlier item left, else what the
/// disk holds. Otherwise the error.
pub open spec fn current_content(
    in_flight: Map<Seq<char>, Option<Seq<char>>>,
    normalized: Seq<char>,
    facts: TargetFacts,
) -> Result<Seq<char>, Seq<char>> {
    let missing = "File does not exist"@ + facts.suggestion@;
    if in_flight.contains_key(normalized) {
        match in_flight[normalized] {
            Some(content) => Ok(content),
            None => Err(missing),
        }
    } else {
        match facts.disk {
            DiskFile::Missing => Err(missing),
            DiskFile::Text(content) => Ok(content@),
            DiskFile::Unreadable(error) => Err(
                "Failed to read '"@ + normalized + "': "@ + error@,
            ),
        }
    }
}

/// A stage after a write to `normalized`.
pub open spec fn with_write(
    before: StageModel,
    change_pos: nat,
    normalized: Seq<char>,
    path: ResolvedPath,
    content: Seq<char>,
    is_new: bool,
    mark: Seq<char>,
) -> StageModel {
    StageModel {
        in_flight: before.in_flight.insert(normalized, Some(content)),
        prepared: before.prepared.push(
            PreparedModel::Write {
                change_pos,
                target_uri: normalized,
                repo_path: repo_path_of(normalized),
                full_path: path.full_path@,
                content,
                is_new,
                outside_worktree: path.outside_worktree,
            },
        ),
        summaries: before.summaries.push(mark + normalized),
    }
}

/// A stage after `normalized` is removed.
pub open spec fn with_delete(
    before: StageModel,
    change_pos: nat,
    normalized: Seq<char>,
    path: ResolvedPath,
) -> StageModel {
    StageModel {
        in_flight: before.in_flight.insert(normalized, None),
        prepared: before.prepared.push(
            PreparedModel::Delete {
                change_pos,
                target_uri: normalized,
                repo_path: repo_path_of(normalized),
                full_path: path.full_path@,
                outside_worktree: path.outside_worktree,
            },
        ),
        summaries: before.summaries.push("-"@ + normalized),
    }
}

/// An edit of `content` that another engine computes.
#[derive(Debug)]
pub enum EditRequest {
    /// A diff that still may carry headers of a single-file patch for `target`.
    SingleFileDiff { content: String, diff: String, target: String },
    /// A diff section of a patch envelope.
    SectionDiff { content: String, diff: String },
    /// A wildcard edit.
    Wildcard { content: String, old_string: String, new_string: String },
}

/// What an edit request says.
pub enum EditModel {
    SingleFileDiff { content: Seq<char>, diff: Seq<char>, target: Seq<char> },
    SectionDiff { content: Seq<char>, diff: Seq<char> },
    Wildcard { content: Seq<char>, old_string: Seq<char>, new_string: Seq<char> },
}

impl View for EditRequest {
    type V = EditModel;

    open spec fn view(&self) -> EditModel {
        match *self {
            EditRequest::SingleFileDiff { content, diff, target } => EditModel::SingleFileDiff {
                content: content@,
                diff: diff@,
                target: target@,
            },
            EditRequest::SectionDiff { content, diff } => EditModel::SectionDiff {
                content: content@,
                diff: diff@,
            },
            EditRequest::Wildcard { content, old_string, new_string } => EditModel::Wildcard {
                content: content@,
                old_string: old_string@,
                new_string: new_string@,
            },
        }
    }
}

/// What came of an edit request.
#[derive(Debug)]
pub enum EditReply {
    Edited(String),
    InvalidDiff(String),
    DiffFailed(String),
    WildcardFailed(String),
}

/// A write that waits for its content.
#[derive(Debug)]
pub struct PendingEdit {
    pub change_pos: usize,
    pub normalized: String,
    pub path: ResolvedPath,
}

/// What came of preparing one change.
#[derive(Debug)]
pub enum Staging {
    /// The change is on the stage.
    Staged,
    /// The change cannot happen, and with it the batch.
    Rejected(ChangeFailure),
    /// The new content has to be computed first.
    NeedsEdit(EditRequest, PendingEdit),
    /// The patch text has to be taken apart first; the target is given in its
    /// normal form.
    NeedsEnvelope { patch: String, normalized: String },
}

/// What a staging says, with the stage that it leaves.
pub enum StagingModel {
    Staged(StageModel),
    Rejected(FailureModel),
    NeedsEdit { edit: EditModel, change_pos: nat, normalized: Seq<char>, path: ResolvedPath },
    NeedsEnvelope { patch: Seq<char>, normalized: Seq<char> },
}

/// The model of a staging that left the stage as `after`.
pub open spec fn staging_model(staging: Staging, after: StageModel) -> StagingModel {
    match staging {
        Staging::Staged => StagingModel::Staged(after),
        Staging::Rejected(failure) => StagingModel::Rejected(failure@),
        Staging::NeedsEdit(request, pending) => StagingModel::NeedsEdit {
            edit: request@,
            change_pos: pending.change_pos as nat,
            normalized: pending.normalized@,
            path: pending.path,
        },
        Staging::NeedsEnvelope { patch, normalized } => StagingModel::NeedsEnvelope {
            patch: patch@,
            normalized: normalized@,
        },
    }
}

/// What a literal edit makes of `content`: the edited text, or why it is refused.
/// An edit of one place needs a text that occurs once.
pub open spec fn literal_edit(
    normalized: Seq<char>,
    content: Seq<char>,
    old: Seq<char>,
    new: Seq<char>,
    all: bool,
    disk: DiskFile,
) -> Result<Seq<char>, Seq<char>> {
    let count = match_starts(content, old, 0).len();
    if count == 0 {
        Err(not_found_message(old, new))
    } else if count > 1 && !all {
        Err(
            non_unique_message(
                normalized,
                content,
                old,
                disk matches DiskFile::Text(text) && text@ == content,
            ),
        )
    } else if all {
        Ok(replaced_all(content, old, new))
    } else {
        Ok(replaced_first(content, old, new))
    }
}

/// What comes of preparing a patch of one file.
pub open spec fn patch_staging(
    before: StageModel,
    change_pos: nat,
    index: nat,
    item: ChangeItem,
    payload: FileChangePayload,
    normalized: Seq<char>,
    path: ResolvedPath,
    facts: TargetFacts,
) -> StagingModel {
    match current_content(before.in_flight, normalized, facts) {
        Err(error) => StagingModel::Rejected(
            file_failure(index, item.target@, item.mode, error),
        ),
        Ok(content) => match (payload.diff, payload.old_string, payload.new_string) {
            (Some(diff), _, _) => StagingModel::NeedsEdit {
                edit: EditModel::SingleFileDiff { content, diff: diff@, target: normalized },
                change_pos,
                normalized,
                path,
            },
            (None, Some(old), Some(new)) => match facts.old_string {
                OldString::Wildcard => StagingModel::NeedsEdit {
                    edit: EditModel::Wildcard { content, old_string: old@, new_string: new@ },
                    change_pos,
                    normalized,
                    path,
                },
                OldString::Literal(literal) => match literal_edit(
                    normalized,
                    content,
                    literal@,
                    new@,
                    payload.replace_all == Some(true),
                    facts.disk,
                ) {
                    Ok(edited) => StagingModel::Staged(
                        with_write(before, change_pos, normalized, path, edited, false, "~"@),
                    ),
                    Err(error) => StagingModel::Rejected(
                        file_failure(index, item.target@, item.mode, error),
                    ),
                },
            },
            _ => StagingModel::Rejected(
                file_failure(
                    index,
                    item.target@,
                    item.mode,
                    "mode=patch requires diff or old_string+new_string"@,
                ),
            ),
        },
    }
}

/// What comes of preparing the change `item` at place `change_pos` of its batch.
pub open spec fn item_staging(
    before: StageModel,
    change_pos: nat,
    index: nat,
    item: ChangeItem,
    facts: TargetFacts,
) -> StagingModel {
    let reject = |error: Seq<char>| StagingModel::Rejected(
        file_failure(index, item.target@, item.mode, error),
    );
    match (facts.normalized, item.payload) {
        (Err(error), _) => reject(error@),
        (Ok(_), Err(error)) => reject("Invalid file payload: "@ + error@),
        (Ok(normalized), Ok(payload)) => {
            let is_new = is_new_file(before.in_flight, normalized@, facts.disk);
            match item.mode {
                ChangeMode::Rename => reject(
                    "mode=rename is resolved through the ast-grep rename engine and must not reach the file-batch path"@,
                ),
                ChangeMode::Apply => reject(
                    "Unsupported file mode '"@ + mode_text(item.mode)
                        + "'; expected create, append, patch, unified_patch, replace, or delete"@,
                ),
                ChangeMode::UnifiedPatch => match payload.patch {
                    Some(patch) => StagingModel::NeedsEnvelope {
                        patch: patch@,
                        normalized: normalized@,
                    },
                    None => reject("mode=unified_patch requires payload.patch"@),
                },
                ChangeMode::Create | ChangeMode::Replace => match (
                    payload.content,
                    facts.resolved,
                ) {
                    (None, _) => reject("mode="@ + mode_text(item.mode) + " requires content"@),
                    (Some(_), Err(error)) => reject("Invalid file target: "@ + error@),
                    (Some(content), Ok(path)) => StagingModel::Staged(
                        with_write(
                            before,
                            change_pos,
                            normalized@,
                            path,
                            content@,
                            is_new,
                            if item.mode == ChangeMode::Create {
                                "+"@
                            } else {
                                "~"@
                            },
                        ),
                    ),
                },
                ChangeMode::Append => match (payload.content, facts.resolved) {
                    (None, _) => reject("mode=append requires content"@),
                    (Some(_), Err(error)) => reject("Invalid file target: "@ + error@),
                    (Some(appended), Ok(path)) => match current_content(
                        before.in_flight,
                        normalized@,
                        facts,
                    ) {
                        Ok(existing) => StagingModel::Staged(
                            with_write(
                                before,
                                change_pos,
                                normalized@,
                                path,
                                existing + appended@,
                                is_new,
                                "~"@,
                            ),
                        ),
                        Err(error) => if is_new {
                            StagingModel::Staged(
                                with_write(
                                    before,
                                    change_pos,
                                    normalized@,
                                    path,
                                    appended@,
                                    is_new,
                                    "~"@,
                                ),
                            )
                        } else {
                            reject(error)
                        },
                    },
                },
                ChangeMode::Patch => match facts.resolved {
                    Err(error) => reject("Invalid file target: "@ + error@),
                    Ok(path) => patch_staging(
                        before,
                        change_pos,
                        index,
                        item,
                        payload,
                        normalized@,
                        path,
                        facts,
                    ),
                },
                ChangeMode::Delete => match facts.resolved {
                    Err(error) => reject("Invalid file target: "@ + error@),
                    Ok(path) => StagingModel::Staged(
                        with_delete(before, change_pos, normalized@, path),
                    ),
                },
            }
        },
    }
}

/// A copy of a resolved path.
fn clone_path(path: &ResolvedPath) -> (copy: ResolvedPath)
    ensures
        copy == *path,
{
    ResolvedPath { full_path: path.full_path.clone(), outside_worktree: path.outside_worktree }
}

impl FileStage {
    /// A stage whose targets hold the contents of `snapshot`, with nothing
    /// prepared yet.
    pub fn with_snapshot(snapshot: TextMap<Option<String>>) -> (stage: Self)
        ensures
            stage@ == (StageModel {
                in_flight: contents(snapshot@),
                prepared: Seq::empty(),
                summaries: Seq::empty(),
            }),
    {
        let stage = FileStage { in_flight: snapshot, prepared: Vec::new(), summaries: Vec::new() };
        assert(prepared_models(stage.prepared@) =~= Seq::empty());
        assert(texts(stage.summaries@) =~= Seq::empty());
        stage
    }

    /// Puts a write on the stage.
    fn put_write(
        &mut self,
        change_pos: usize,
        normalized: &str,
        path: &ResolvedPath,
        content: String,
        is_new: bool,
        mark: &str,
    )
        ensures
            final(self)@ == with_write(
                old(self)@,
                change_pos as nat,
                normalized@,
                *path,
                content@,
                is_new,
                mark@,
            ),
    {
        let ghost before = self@;
        self.in_flight.insert(normalized.to_owned(), Some(content.clone()));
        self.prepared.push(
            PreparedChange::Write {
                change_pos,
                target_uri: normalized.to_owned(),
                repo_path: repo_path(normalized),
                full_path: path.full_path.clone(),
                content,
                is_new,
                outside_worktree: path.outside_worktree,
            },
        );
        self.summaries.push(text2(mark, normalized));
        assert(self@ =~= with_write(
            before,
            change_pos as nat,
            normalized@,
            *path,
            content@,
            is_new,
            mark@,
        ));
    }

    /// Puts a removal on the stage.
    fn put_delete(&mut self, change_pos: usize, normalized: &str, path: &ResolvedPath)
        ensures
            final(self)@ == with_delete(old(self)@, change_pos as nat, normalized@, *path),
    {
        let ghost before = self@;
        self.in_flight.insert(normalized.to_owned(), None);
        self.prepared.push(
            PreparedChange::Delete {
                change_pos,
                target_uri: normalized.to_owned(),
                repo_path: repo_path(normalized),
                full_path: path.full_path.clone(),
                outside_worktree: path.outside_worktree,
            },
        );
        self.summaries.push(text2("-", normalized));
        assert(self@ =~= with_delete(before, change_pos as nat, normalized@, *path));
    }
}

/// The path of a target within the repository.
fn repo_path(normalized: &str) -> (path: String)
    ensures
        path@ == repo_path_of(normalized@),
{
    match strip_prefix(normalized, "file:") {
        Some(path) => path,
        None => String::new(),
    }
}

/// Whether the file is new to the batch.
pub fn in_flight_is_new(
    in_flight: &TextMap<Option<String>>,
    normalized: &str,
    disk: &DiskFile,
) -> (is_new: bool)
    ensures
        is_new == is_new_file(contents(in_flight@), normalized@, *disk),
{
    match in_flight.get(normalized) {
        Some(content) => content.is_none(),
        None => matches!(disk, DiskFile::Missing),
    }
}

/// The text of an outcome that is one text either way.
pub open spec fn text_result(result: Result<String, String>) -> Result<Seq<char>, Seq<char>> {
    match result {
        Ok(text) => Ok(text@),
        Err(error) => Err(error@),
    }
}

/// The content that the next item finds, or the error.
pub fn read_in_flight_or_disk(
    in_flight: &TextMap<Option<String>>,
    normalized: &str,
    facts: &TargetFacts,
) -> (content: Result<String, String>)
    ensures
        text_result(content) == current_content(contents(in_flight@), normalized@, *facts),
{
    match in_flight.get(normalized) {
        Some(Some(content)) => Ok(content.clone()),
        Some(None) => Err(text2("File does not exist", facts.suggestion.as_str())),
        None => match &facts.disk {
            DiskFile::Missing => Err(text2("File does not exist", facts.suggestion.as_str())),
            DiskFile::Text(content) => Ok(content.clone()),
            DiskFile::Unreadable(error) => {
                let mut message = text3("Failed to read '", normalized, "': ");
                message.append(error.as_str());
                Err(message)
            },
        },
    }
}

/// What a literal edit makes of `content`, or why it is refused.
fn edit_literally(
    normalized: &str,
    content: &str,
    old: &str,
    new: &str,
    all: bool,
    disk: &DiskFile,
) -> (edited: Result<String, String>)
    ensures
        text_result(edited) == literal_edit(normalized@, content@, old@, new@, all, *disk),
{
    let matches_found = find_matches(&chars_of(content), &chars_of(old));
    assert(ints(matches_found@).len() == matches_found@.len());
    let count: usize = matches_found.len();
    if count == 0 {
        Err(literal_not_found_diagnostic(old, new))
    } else if count > 1 && !all {
        let on_disk = match disk {
            DiskFile::Text(text) => same_text(text.as_str(), content),
            _ => false,
        };
        Err(non_unique_match_diagnostic(normalized, content, old, count, on_disk))
    } else if all {
        Ok(replace_all(content, old, new))
    } else {
        Ok(replace_first(content, old, new))
    }
}

/// Prepares a patch of one file.
fn stage_patch(
    stage: &mut FileStage,
    change_pos: usize,
    index: usize,
    item: &ChangeItem,
    payload: &FileChangePayload,
    normalized: &str,
    path: &ResolvedPath,
    facts: &TargetFacts,
) -> (staging: Staging)
    ensures
        staging_model(staging, final(stage)@) == patch_staging(
            old(stage)@,
            change_pos as nat,
            index as nat,
            *item,
            *payload,
            normalized@,
            *path,
            *facts,
        ),
        !(staging is Staged) ==> final(stage)@ == old(stage)@,
{
    let content = match read_in_flight_or_disk(&stage.in_flight, normalized, facts) {
        Ok(content) => content,
        Err(error) => return Staging::Rejected(build_failure(index, item, error)),
    };
    if let Some(diff) = &payload.diff {
        return Staging::NeedsEdit(
            EditRequest::SingleFileDiff {
                content,
                diff: diff.clone(),
                target: normalized.to_owned(),
            },
            PendingEdit { change_pos, normalized: normalized.to_owned(), path: clone_path(path) },
        );
    }
    match (&payload.old_string, &payload.new_string) {
        (Some(old_string), Some(new_string)) => match &facts.old_string {
            OldString::Wildcard => Staging::NeedsEdit(
                EditRequest::Wildcard {
                    content,
                    old_string: old_string.clone(),
                    new_string: new_string.clone(),
                },
                PendingEdit { change_pos, normalized: normalized.to_owned(), path: clone_path(path) },
            ),
            OldString::Literal(literal) => {
                let all = match payload.replace_all {
                    Some(all) => all,
                    None => false,
                };
                match edit_literally(
                    normalized,
                    content.as_str(),
                    literal.as_str(),
                    new_string.as_str(),
                    all,
                    &facts.disk,
                ) {
                    Ok(edited) => {
                        stage.put_write(change_pos, normalized, path, edited, false, "~");
                        Staging::Staged
                    },
                    Err(error) => Staging::Rejected(build_failure(index, item, error)),
                }
            },
        },
        _ => Staging::Rejected(
            build_failure(
                index,
                item,
                "mode=patch requires diff or old_string+new_string".to_owned(),
            ),
        ),
    }
}

/// Prepares the change `item`, which stands at place `change_pos` of its batch and
/// at `index` of the call.
pub fn stage_item(
    stage: &mut FileStage,
    change_pos: usize,
    index: usize,
    item: &ChangeItem,
    facts: &TargetFacts,
) -> (staging: Staging)
    ensures
        staging_model(staging, final(stage)@) == item_staging(
            old(stage)@,
            change_pos as nat,
            index as nat,
            *item,
            *facts,
        ),
        !(staging is Staged) ==> final(stage)@ == old(stage)@,
{
    let normalized = match &facts.normalized {
        Ok(normalized) => normalized.as_str(),
        Err(error) => return Staging::Rejected(build_failure(index, item, error.clone())),
    };
    let payload = match &item.payload {
        Ok(payload) => payload,
        Err(error) => {
            return Staging::Rejected(
                build_failure(index, item, text2("Invalid file payload: ", error.as_str())),
            );
        },
    };
    match item.mode {
        ChangeMode::Rename => {
            return Staging::Rejected(
                build_failure(
                    index,
                    item,
                    "mode=rename is resolved through the ast-grep rename engine and must not reach the file-batch path".to_owned(),
                ),
            );
        },
        ChangeMode::Apply => {
            return Staging::Rejected(
                build_failure(
                    index,
                    item,
                    text3(
                        "Unsupported file mode '",
                        mode_name(item.mode).as_str(),
                        "'; expected create, append, patch, unified_patch, replace, or delete",
                    ),
                ),
            );
        },
        ChangeMode::UnifiedPatch => {
            return match &payload.patch {
                Some(patch) => Staging::NeedsEnvelope {
                    patch: patch.clone(),
                    normalized: normalized.to_owned(),
                },
                None => Staging::Rejected(
                    build_failure(
                        index,
                        item,
                        "mode=unified_patch requires payload.patch".to_owned(),
                    ),
                ),
            };
        },
        ChangeMode::Create | ChangeMode::Replace => {
            if payload.content.is_none() {
                return Staging::Rejected(
                    build_failure(
                        index,
                        item,
                        text3("mode=", mode_name(item.mode).as_str(), " requires content"),
                    ),
                );
            }
        },
        ChangeMode::Append => {
            if payload.content.is_none() {
                return Staging::Rejected(
                    build_failure(index, item, "mode=append requires content".to_owned()),
                );
            }
        },
        ChangeMode::Patch | ChangeMode::Delete => {},
    }
    let path = match &facts.resolved {
        Ok(path) => path,
        Err(error) => {
            return Staging::Rejected(
                build_failure(index, item, text2("Invalid file target: ", error.as_str())),
            );
        },
    };
    match item.mode {
        ChangeMode::Patch => stage_patch(
            stage,
            change_pos,
            index,
            item,
            payload,
            normalized,
            path,
            facts,
        ),
        ChangeMode::Delete => {
            stage.put_delete(change_pos, normalized, path);
            Staging::Staged
        },
        _ => {
            let given = match &payload.content {
                Some(content) => content.clone(),
                None => String::new(),
            };
            let is_new = in_flight_is_new(&stage.in_flight, normalized, &facts.disk);
            if item.mode == ChangeMode::Append {
                let content = match read_in_flight_or_disk(&stage.in_flight, normalized, facts) {
                    Ok(existing) => text2(existing.as_str(), given.as_str()),
                    Err(error) => {
                        if !is_new {
                            return Staging::Rejected(build_failure(index, item, error));
                        }
                        given
                    },
                };
                stage.put_write(change_pos, normalized, path, content, is_new, "~");
            } else {
                let mark = if item.mode == ChangeMode::Create {
                    "+"
                } else {
                    "~"
                };
                stage.put_write(change_pos, normalized, path, given, is_new, mark);
            }
            Staging::Staged
        },
    }
}

/// What is said of an edit that did not come about; `None` for one that did.
pub open spec fn edit_error(reply: EditReply) -> Option<Seq<char>> {
    match reply {
        EditReply::Edited(_) => None,
        EditReply::InvalidDiff(error) => Some("Invalid diff: "@ + error@),
        EditReply::DiffFailed(error) => Some("Failed to apply diff: "@ + error@),
        EditReply::WildcardFailed(error) => Some("Wildcard edit failed: "@ + error@),
    }
}

/// Whether an edit that was handed out is finished like this.
pub open spec fn finishes(
    stage: FileStage,
    after: FileStage,
    index: usize,
    item: &ChangeItem,
    pending: PendingEdit,
    reply: EditReply,
    outcome: Result<(), ChangeFailure>,
) -> bool {
    match (outcome, reply) {
        (Ok(_), EditReply::Edited(content)) => after@ == with_write(
            stage@,
            pending.change_pos as nat,
            pending.normalized@,
            pending.path,
            content@,
            false,
            "~"@,
        ),
        (Err(failure), _) => {
            &&& edit_error(reply) is Some
            &&& failure@ == file_failure(
                index as nat,
                item.target@,
                item.mode,
                edit_error(reply)->Some_0,
            )
            &&& after@ == stage@
        },
        _ => false,
    }
}

/// Takes up the content that was asked for: the pending write goes on the stage,
/// or the change is rejected.
pub fn finish_edit(
    stage: &mut FileStage,
    index: usize,
    item: &ChangeItem,
    pending: PendingEdit,
    reply: EditReply,
) -> (outcome: Result<(), ChangeFailure>)
    ensures
        finishes(*old(stage), *final(stage), index, item, pending, reply, outcome),
{
    match reply {
        EditReply::Edited(content) => {
            stage.put_write(
                pending.change_pos,
                pending.normalized.as_str(),
                &pending.path,
                content,
                false,
                "~",
            );
            Ok(())
        },
        EditReply::InvalidDiff(error) => Err(
            build_failure(index, item, text2("Invalid diff: ", error.as_str())),
        ),
        EditReply::DiffFailed(error) => Err(
            build_failure(index, item, text2("Failed to apply diff: ", error.as_str())),
        ),
        EditReply::WildcardFailed(error) => Err(
            build_failure(index, item, text2("Wildcard edit failed: ", error.as_str())),
        ),
    }
}

/// One file section of a patch envelope.
#[derive(Debug)]
pub enum EnvelopeSection {
    Add { path: String, content: String },
    Update { path: String, diff: String },
    Delete { path: String },
}

impl EnvelopeSection {
    /// The path that the section names.
    pub open spec fn path_text(self) -> Seq<char> {
        match self {
            EnvelopeSection::Add { path, .. } => path@,
            EnvelopeSection::Update { path, .. } => path@,
            EnvelopeSection::Delete { path } => path@,
        }
    }

    /// The path that the section names.
    pub fn path(&self) -> (path: &str)
        ensures
            path@ == self.path_text(),
    {
        match self {
            EnvelopeSection::Add { path, .. } => path.as_str(),
            EnvelopeSection::Update { path, .. } => path.as_str(),
            EnvelopeSection::Delete { path } => path.as_str(),
        }
    }
}

/// A section's path as a target.
pub open spec fn envelope_target(path: Seq<char>) -> Seq<char> {
    if "file:"@.is_prefix_of(path) {
        path
    } else {
        "file:"@ + path
    }
}

/// A section's path as a target.
pub fn envelope_path_to_target(path: &str) -> (target: String)
    ensures
        target@ == envelope_target(path@),
{
    if starts_with(path, "file:") {
        path.to_owned()
    } else {
        text2("file:", path)
    }
}

/// Why an envelope cannot be carried by a change; `None` where it can. A change
/// that names a file carries exactly one section.
pub open spec fn envelope_error(
    normalized: Seq<char>,
    sections: Result<Vec<EnvelopeSection>, String>,
) -> Option<Seq<char>> {
    match sections {
        Err(error) => Some("Invalid patch: "@ + error@),
        Ok(sections) => if repo_path_of(normalized).len() > 0 && sections@.len() != 1 {
            Some(
                "target file:path can carry exactly one envelope file section; use target file: for multi-file envelopes"@,
            )
        } else {
            None
        },
    }
}

/// Whether an envelope is opened like this.
pub open spec fn opens(
    index: usize,
    item: &ChangeItem,
    normalized: &str,
    sections: Result<Vec<EnvelopeSection>, String>,
    opened: Result<Vec<EnvelopeSection>, ChangeFailure>,
) -> bool {
    match opened {
        Ok(carried) => envelope_error(normalized@, sections) is None && sections == Ok::<
            Vec<EnvelopeSection>,
            String,
        >(carried),
        Err(failure) => envelope_error(normalized@, sections) is Some && failure@
            == file_failure(
            index as nat,
            item.target@,
            item.mode,
            envelope_error(normalized@, sections)->Some_0,
        ),
    }
}

/// Checks that the change `item` can carry the sections of its envelope.
pub fn open_envelope(
    index: usize,
    item: &ChangeItem,
    normalized: &str,
    sections: Result<Vec<EnvelopeSection>, String>,
) -> (opened: Result<Vec<EnvelopeSection>, ChangeFailure>)
    ensures
        opens(index, item, normalized, sections, opened),
{
    match sections {
        Err(error) => Err(build_failure(index, item, text2("Invalid patch: ", error.as_str()))),
        Ok(sections) => {
            if !repo_path(normalized).as_str().is_empty() && sections.len() != 1 {
                Err(
                    build_failure(
                        index,
                        item,
                        "target file:path can carry exactly one envelope file section; use target file: for multi-file envelopes".to_owned(),
                    ),
                )
            } else {
                Ok(sections)
            }
        },
    }
}

/// What comes of preparing one section of an envelope. `carrier` is the normal
/// form of the target of the change that carries it.
pub open spec fn section_staging(
    before: StageModel,
    change_pos: nat,
    index: nat,
    item: ChangeItem,
    carrier: Seq<char>,
    section: EnvelopeSection,
    facts: TargetFacts,
) -> StagingModel {
    let reject = |error: Seq<char>| StagingModel::Rejected(
        file_failure(index, item.target@, item.mode, error),
    );
    match (facts.normalized, facts.resolved) {
        (Err(error), _) => reject(error@),
        (Ok(normalized), resolved) => if repo_path_of(carrier).len() > 0 && normalized@
            != carrier {
            reject(
                "envelope target path does not match change.target ('"@ + normalized@ + "' != '"@
                    + carrier + "')"@,
            )
        } else {
            match resolved {
                Err(error) => reject("Invalid file target: "@ + error@),
                Ok(path) => match section {
                    EnvelopeSection::Add { content, .. } => StagingModel::Staged(
                        with_write(
                            before,
                            change_pos,
                            normalized@,
                            path,
                            content@,
                            is_new_file(before.in_flight, normalized@, facts.disk),
                            "+"@,
                        ),
                    ),
                    EnvelopeSection::Update { diff, .. } => match current_content(
                        before.in_flight,
                        normalized@,
                        facts,
                    ) {
                        Ok(content) => StagingModel::NeedsEdit {
                            edit: EditModel::SectionDiff { content, diff: diff@ },
                            change_pos,
                            normalized: normalized@,
                            path,
                        },
                        Err(error) => reject(error),
                    },
                    EnvelopeSection::Delete { .. } => StagingModel::Staged(
                        with_delete(before, change_pos, normalized@, path),
                    ),
                },
            }
        },
    }
}

/// Prepares one section of the envelope that the change `item` carries.
pub fn prepare_unified_patch_change(
    stage: &mut FileStage,
    change_pos: usize,
    index: usize,
    item: &ChangeItem,
    carrier: &str,
    section: &EnvelopeSection,
    facts: &TargetFacts,
) -> (staging: Staging)
    ensures
        staging_model(staging, final(stage)@) == section_staging(
            old(stage)@,
            change_pos as nat,
            index as nat,
            *item,
            carrier@,
            *section,
            *facts,
        ),
        !(staging is Staged) ==> final(stage)@ == old(stage)@,
{
    let normalized = match &facts.normalized {
        Ok(normalized) => normalized.as_str(),
        Err(error) => return Staging::Rejected(build_failure(index, item, error.clone())),
    };
    if !repo_path(carrier).as_str().is_empty() && !same_text(normalized, carrier) {
        let mut message = text3(
            "envelope target path does not match change.target ('",
            normalized,
            "' != '",
        );
        message.append(carrier);
        message.append("')");
        return Staging::Rejected(build_failure(index, item, message));
    }
    let path = match &facts.resolved {
        Ok(path) => path,
        Err(error) => {
            return Staging::Rejected(
                build_failure(index, item, text2("Invalid file target: ", error.as_str())),
            );
        },
    };
    match section {
        EnvelopeSection::Add { content, .. } => {
            let is_new = in_flight_is_new(&stage.in_flight, normalized, &facts.disk);
            stage.put_write(change_pos, normalized, path, content.clone(), is_new, "+");
            Staging::Staged
        },
        EnvelopeSection::Update { diff, .. } => {
            match read_in_flight_or_disk(&stage.in_flight, normalized, facts) {
                Ok(content) => Staging::NeedsEdit(
                    EditRequest::SectionDiff { content, diff: diff.clone() },
                    PendingEdit {
                        change_pos,
                        normalized: normalized.to_owned(),
                        path: clone_path(path),
                    },
                ),
                Err(error) => Staging::Rejected(build_failure(index, item, error)),
            }
        },
        EnvelopeSection::Delete { .. } => {
            stage.put_delete(change_pos, normalized, path);
            Staging::Staged
        },
    }
}

/// A staged change is seen by the items behind it: its target holds what it wrote,
/// or nothing where it was removed, and every other target is as before.
pub proof fn law_later_items_see_staged_content(
    before: StageModel,
    change_pos: nat,
    index: nat,
    item: ChangeItem,
    facts: TargetFacts,
)
    requires
        item_staging(before, change_pos, index, item, facts) is Staged,
    ensures
        ({
            let after = item_staging(before, change_pos, index, item, facts)->Staged_0;
            let target = after.prepared.last().target();
            &&& after.prepared.drop_last() == before.prepared
            &&& after.prepared.len() == after.summaries.len() + before.prepared.len()
                - before.summaries.len()
            &&& after.prepared.last().pos() == change_pos
            &&& facts.normalized matches Ok(normalized) && normalized@ == target
            &&& after.in_flight.contains_key(target)
            &&& after.in_flight[target] == match after.prepared.last() {
                PreparedModel::Write { content, .. } => Some(content),
                PreparedModel::Delete { .. } => None,
            }
            &&& forall|other: Seq<char>|
                other != target ==> (after.in_flight.contains_key(other)
                    <==> before.in_flight.contains_key(other)) && (before.in_flight.contains_key(
                    other,
                ) ==> #[trigger] after.in_flight[other] == before.in_flight[other])
        }),
{
    let after = item_staging(before, change_pos, index, item, facts)->Staged_0;
    assert(after.prepared.drop_last() =~= before.prepared);
}

/// An edit of one place never happens where the text occurs more than once or not
/// at all.
pub proof fn law_literal_edit_is_unique(
    normalized: Seq<char>,
    content: Seq<char>,
    old: Seq<char>,
    new: Seq<char>,
    disk: DiskFile,
)
    ensures
        literal_edit(normalized, content, old, new, false, disk) is Ok <==> match_starts(
            content,
            old,
            0,
        ).len() == 1,
{
}

/// An appended text goes behind what the batch so far holds for the target, whatever the
/// disk holds. Only where the batch holds nothing for it does the disk count. A file that
/// is not there, or that the batch has removed, begins with the appended text; one that
/// cannot be read is not written.
pub proof fn law_append_goes_behind_the_content(
    before: StageModel,
    change_pos: nat,
    index: nat,
    item: ChangeItem,
    facts: TargetFacts,
    target: Seq<char>,
    given: Seq<char>,
)
    requires
        item.mode == ChangeMode::Append,
        facts.normalized matches Ok(normal) && normal@ == target,
        facts.resolved is Ok,
        item.payload matches Ok(payload) && payload.content matches Some(text) && text@ == given,
    ensures
        ({
            let staging = item_staging(before, change_pos, index, item, facts);
            let held = before.in_flight[target];
            if before.in_flight.contains_key(target) {
                match held {
                    Some(content) => stages_write(staging, before, target, content + given, false),
                    None => stages_write(staging, before, target, given, true),
                }
            } else {
                match facts.disk {
                    DiskFile::Text(text) => stages_write(
                        staging,
                        before,
                        target,
                        text@ + given,
                        false,
                    ),
                    DiskFile::Missing => stages_write(staging, before, target, given, true),
                    DiskFile::Unreadable(_) => staging is Rejected,
                }
            }
        }),
{
}

/// Whether a staging adds one write, and this one: what is written to the target, and
/// whether the file is new.
pub open spec fn stages_write(
    staging: StagingModel,
    before: StageModel,
    target: Seq<char>,
    written: Seq<char>,
    new_file: bool,
) -> bool {
    &&& staging matches StagingModel::Staged(after)
    &&& after.prepared.len() == before.prepared.len() + 1
    &&& after.prepared.last() matches PreparedModel::Write { target_uri, content, is_new, .. }
    &&& target_uri == target
    &&& content == written
    &&& is_new == new_file
}

/// A file that is created or replaced holds the content that was given, and nothing of
/// what was there; it is new where neither the batch nor, before it, the disk has it.
pub proof fn law_given_content_is_written(
    before: StageModel,
    change_pos: nat,
    index: nat,
    item: ChangeItem,
    facts: TargetFacts,
    target: Seq<char>,
    given: Seq<char>,
)
    requires
        item.mode == ChangeMode::Create || item.mode == ChangeMode::Replace,
        facts.normalized matches Ok(normal) && normal@ == target,
        facts.resolved is Ok,
        item.payload matches Ok(payload) && payload.content matches Some(text) && text@ == given,
    ensures
        stages_write(
            item_staging(before, change_pos, index, item, facts),
            before,
            target,
            given,
            if before.in_flight.contains_key(target) {
                before.in_flight[target] is None
            } else {
                facts.disk is Missing
            },
        ),
{
}

/// A removed file is gone for the items behind it, and its removal is what is prepared.
pub proof fn law_delete_removes_the_target(
    before: StageModel,
    change_pos: nat,
    index: nat,
    item: ChangeItem,
    facts: TargetFacts,
    target: Seq<char>,
)
    requires
        item.mode == ChangeMode::Delete,
        facts.normalized matches Ok(normal) && normal@ == target,
        facts.resolved is Ok,
        item.payload is Ok,
    ensures
        ({
            let staging = item_staging(before, change_pos, index, item, facts);
            &&& staging matches StagingModel::Staged(after)
            &&& after.prepared.len() == before.prepared.len() + 1
            &&& after.prepared.last() matches PreparedModel::Delete { target_uri, .. }
            &&& target_uri == target
            &&& after.in_flight.contains_key(target)
            &&& after.in_flight[target] is None
        }),
{
}

/// What is edited is what the batch so far holds for the target and, only where it holds
/// nothing for it, what the disk holds. A diff or an edit with wildcards is asked for with
/// that content; a file that is not there is not edited.
pub proof fn law_patch_edits_the_content(
    before: StageModel,
    change_pos: nat,
    index: nat,
    item: ChangeItem,
    facts: TargetFacts,
    target: Seq<char>,
    existing: Option<Seq<char>>,
)
    requires
        item.mode == ChangeMode::Patch,
        facts.normalized matches Ok(normal) && normal@ == target,
        facts.resolved is Ok,
        item.payload is Ok,
        before.in_flight.contains_key(target) ==> existing == before.in_flight[target],
        !before.in_flight.contains_key(target) ==> existing == match facts.disk {
            DiskFile::Text(text) => Some(text@),
            _ => None,
        },
    ensures
        ({
            let staging = item_staging(before, change_pos, index, item, facts);
            let payload = item.payload->Ok_0;
            &&& existing is None ==> staging is Rejected
            &&& existing matches Some(content) ==> match (
                payload.diff,
                payload.old_string,
                payload.new_string,
                facts.old_string,
            ) {
                (Some(diff), _, _, _) => asks_for(
                    staging,
                    EditModel::SingleFileDiff { content, diff: diff@, target },
                    change_pos,
                    target,
                ),
                (None, Some(old), Some(new), OldString::Wildcard) => asks_for(
                    staging,
                    EditModel::Wildcard { content, old_string: old@, new_string: new@ },
                    change_pos,
                    target,
                ),
                (None, Some(_), Some(new), OldString::Literal(old)) => if payload.replace_all
                    == Some(true) {
                    if exists|at: int| occurs_at(content, old@, at) {
                        stages_write(
                            staging,
                            before,
                            target,
                            replaced_all(content, old@, new@),
                            false,
                        )
                    } else {
                        staging is Rejected
                    }
                } else {
                    &&& staging is Staged || staging is Rejected
                    &&& staging is Staged ==> exists|at: int|
                        #![trigger occurs_at(content, old@, at)]
                        occurs_at(content, old@, at) && stages_write(
                            staging,
                            before,
                            target,
                            content.take(at) + new@ + content.skip(at + old@.len()),
                            false,
                        )
                },
                _ => staging is Rejected,
            }
        }),
{
    let staging = item_staging(before, change_pos, index, item, facts);
    let payload = item.payload->Ok_0;
    if existing is Some && payload.diff is None && payload.old_string is Some && payload.new_string
        is Some {
        let content = existing->Some_0;
        if let OldString::Literal(old) = facts.old_string {
            let new = payload.new_string->Some_0@;
            law_matches_are_occurrences(content, old@);
            if match_starts(content, old@, 0).len() > 0 {
                law_first_occurrence_is_replaced(content, old@, new);
                assert(occurs_at(content, old@, match_starts(content, old@, 0)[0]));
            }
        }
    }
}

/// Whether a staging asks for an edit of a target.
pub open spec fn asks_for(
    staging: StagingModel,
    wanted: EditModel,
    pos: nat,
    target: Seq<char>,
) -> bool {
    &&& staging matches StagingModel::NeedsEdit { edit, change_pos, normalized, .. }
    &&& edit == wanted
    &&& change_pos == pos
    &&& normalized == target
}

/// What is prepared for a target goes to the path that the target stands for, under its
/// path in the repository, and is summed up by a mark before the target: `+` for a file
/// that is created, `-` for one that is removed, `~` for any other.
pub proof fn law_prepared_change_goes_to_its_path(
    before: StageModel,
    change_pos: nat,
    index: nat,
    item: ChangeItem,
    facts: TargetFacts,
    path: ResolvedPath,
    target: Seq<char>,
)
    requires
        item_staging(before, change_pos, index, item, facts) is Staged,
        facts.resolved == Ok::<ResolvedPath, String>(path),
        facts.normalized matches Ok(normal) && normal@ == target,
        "file:"@.is_prefix_of(target),
    ensures
        ({
            let after = item_staging(before, change_pos, index, item, facts)->Staged_0;
            &&& match after.prepared.last() {
                PreparedModel::Write {
                    change_pos: at,
                    repo_path,
                    full_path,
                    outside_worktree,
                    ..
                } => {
                    &&& item.mode != ChangeMode::Delete
                    &&& at == change_pos
                    &&& full_path == path.full_path@
                    &&& outside_worktree == path.outside_worktree
                    &&& "file:"@ + repo_path == target
                },
                PreparedModel::Delete {
                    change_pos: at,
                    repo_path,
                    full_path,
                    outside_worktree,
                    ..
                } => {
                    &&& item.mode == ChangeMode::Delete
                    &&& at == change_pos
                    &&& full_path == path.full_path@
                    &&& outside_worktree == path.outside_worktree
                    &&& "file:"@ + repo_path == target
                },
            }
            &&& after.summaries.drop_last() == before.summaries
            &&& after.summaries.last() == if item.mode == ChangeMode::Create {
                "+"@ + target
            } else if item.mode == ChangeMode::Delete {
                "-"@ + target
            } else {
                "~"@ + target
            }
        }),
{
    let after = item_staging(before, change_pos, index, item, facts)->Staged_0;
    assert(after.summaries.drop_last() =~= before.summaries);
    assert("file:"@ + target.skip("file:"@.len() as int) =~= target);
}

/// An edit that came back is written in place of the old content, to the file that it was
/// asked for.
pub proof fn law_edited_content_is_written(
    before: StageModel,
    change_pos: nat,
    target: Seq<char>,
    path: ResolvedPath,
    edited: Seq<char>,
)
    ensures
        ({
            let after = with_write(before, change_pos, target, path, edited, false, "~"@);
            &&& stages_write(StagingModel::Staged(after), before, target, edited, false)
            &&& after.in_flight.contains_key(target)
            &&& after.in_flight[target] == Some(edited)
            &&& forall|other: Seq<char>|
                other != target && before.in_flight.contains_key(other)
                    ==> #[trigger] after.in_flight[other] == before.in_flight[other]
            &&& after.prepared.drop_last() == before.prepared
            &&& after.prepared.last() matches PreparedModel::Write { full_path, outside_worktree, .. }
                && full_path == path.full_path@ && outside_worktree == path.outside_worktree
        }),
{
    let after = with_write(before, change_pos, target, path, edited, false, "~"@);
    assert(after.prepared.drop_last() =~= before.prepared);
}

/// Each section of an envelope does to its file what it says: an added file gets the
/// content of the section, an update asks for its diff to be applied to what the batch
/// holds or, where it holds nothing, to what the disk holds, and a deletion removes the
/// file. A change that names a file carries no section of another.
pub proof fn law_sections_do_what_they_say(
    before: StageModel,
    change_pos: nat,
    index: nat,
    item: ChangeItem,
    carrier: Seq<char>,
    section: EnvelopeSection,
    facts: TargetFacts,
    target: Seq<char>,
)
    requires
        facts.normalized matches Ok(normal) && normal@ == target,
        facts.resolved is Ok,
    ensures
        ({
            let staging = section_staging(
                before,
                change_pos,
                index,
                item,
                carrier,
                section,
                facts,
            );
            let fits = carrier == target || carrier == "file:"@ || !"file:"@.is_prefix_of(carrier);
            let existing = if before.in_flight.contains_key(target) {
                before.in_flight[target]
            } else {
                match facts.disk {
                    DiskFile::Text(text) => Some(text@),
                    _ => None,
                }
            };
            &&& !fits ==> staging is Rejected
            &&& fits ==> match section {
                EnvelopeSection::Add { content, .. } => stages_write(
                    staging,
                    before,
                    target,
                    content@,
                    if before.in_flight.contains_key(target) {
                        before.in_flight[target] is None
                    } else {
                        facts.disk is Missing
                    },
                ),
                EnvelopeSection::Update { diff, .. } => match existing {
                    Some(content) => asks_for(
                        staging,
                        EditModel::SectionDiff { content, diff: diff@ },
                        change_pos,
                        target,
                    ),
                    None => staging is Rejected,
                },
                EnvelopeSection::Delete { .. } => {
                    &&& staging matches StagingModel::Staged(after)
                    &&& after.prepared.len() == before.prepared.len() + 1
                    &&& after.prepared.last() matches PreparedModel::Delete { target_uri, .. }
                    &&& target_uri == target
                    &&& after.in_flight.contains_key(target)
                    &&& after.in_flight[target] is None
                },
            }
        }),
{
    if "file:"@.is_prefix_of(carrier) {
        let rest = carrier.skip("file:"@.len() as int);
        assert("file:"@ + rest =~= carrier);
        if rest.len() == 0 {
            assert(carrier =~= "file:"@);
        }
    }
    assert("file:"@.skip("file:"@.len() as int) =~= Seq::empty());
}

/// A change that names a file carries exactly one section; one that names none carries any
/// number. An envelope that cannot be read is not carried.
pub proof fn law_named_file_carries_one_section(
    normalized: Seq<char>,
    sections: Result<Vec<EnvelopeSection>, String>,
)
    ensures
        sections is Err ==> envelope_error(normalized, sections) is Some,
        sections matches Ok(found) ==> {
            let names_file = "file:"@.is_prefix_of(normalized) && normalized != "file:"@;
            envelope_error(normalized, sections) is None <==> !names_file || found@.len() == 1
        },
{
    if "file:"@.is_prefix_of(normalized) {
        let rest = normalized.skip("file:"@.len() as int);
        assert("file:"@ + rest =~= normalized);
        if rest.len() == 0 {
            assert(normalized =~= "file:"@);
        }
    }
    assert("file:"@.skip("file:"@.len() as int) =~= Seq::empty());
}

/// An edit of one place is made where the old text stands once, and only there; it is
/// refused where that stands nowhere or in two places.
pub proof fn law_literal_edit_replaces_the_one_place(
    normalized: Seq<char>,
    content: Seq<char>,
    old: Seq<char>,
    new: Seq<char>,
    all: bool,
    disk: DiskFile,
)
    ensures
        literal_edit(normalized, content, old, new, all, disk) is Err <== forall|at: int|
            !#[trigger] occurs_at(content, old, at),
        !all && (exists|at: int, other: int|
            #![trigger occurs_at(content, old, at), occurs_at(content, old, other)]
            occurs_at(content, old, at) && occurs_at(content, old, other) && at + old.len() <= other
                && at != other) ==> literal_edit(normalized, content, old, new, all, disk) is Err,
        !all ==> (literal_edit(normalized, content, old, new, all, disk) matches Ok(edited)
            ==> exists|at: int| #[trigger]
            occurs_at(content, old, at) && edited == content.take(at) + new + content.skip(
                at + old.len(),
            )),
        all ==> (literal_edit(normalized, content, old, new, all, disk) matches Ok(edited)
            ==> edited == replaced_all(content, old, new)),
        forall|at: int| #[trigger]
            occurs_at(content, old, at) && (all || forall|other: int| #[trigger]
                occurs_at(content, old, other) ==> other == at) ==> literal_edit(
                normalized,
                content,
                old,
                new,
                all,
                disk,
            ) is Ok,
{
    law_matches_are_occurrences(content, old);
    law_first_occurrence_is_replaced(content, old, new);
    let starts = match_starts(content, old, 0);
    if starts.len() > 0 {
        assert(starts.contains(starts[0]));
        assert(occurs_at(content, old, starts[0]));
    }
}

/// An edit that came back is staged as the new content of its file; one that did not leaves
/// everything as it was, and is a failure of its change.
pub proof fn law_edit_that_came_back_is_staged(
    stage: FileStage,
    after: FileStage,
    index: usize,
    item: &ChangeItem,
    pending: PendingEdit,
    reply: EditReply,
    outcome: Result<(), ChangeFailure>,
)
    requires
        finishes(stage, after, index, item, pending, reply, outcome),
    ensures
        outcome is Ok ==> reply is Edited,
        outcome is Err ==> after@ == stage@,
        outcome matches Err(failure) ==> failure@.index == index && failure@.target == item.target@,
        (outcome is Ok && reply is Edited) ==> after@.prepared.len() == stage@.prepared.len() + 1,
{
}

/// An envelope is opened with all of its sections, or refused as a failure of its change.
pub proof fn law_envelope_is_opened_whole(
    index: usize,
    item: &ChangeItem,
    normalized: &str,
    sections: Result<Vec<EnvelopeSection>, String>,
    opened: Result<Vec<EnvelopeSection>, ChangeFailure>,
)
    requires
        opens(index, item, normalized, sections, opened),
    ensures
        opened matches Ok(carried) ==> sections == Ok::<Vec<EnvelopeSection>, String>(carried),
        sections is Err ==> opened is Err,
        opened matches Err(failure) ==> failure@.index == index && failure@.target == item.target@,
{
}

/// What a batch holds of a file hides what lies on the disk: its content where the batch
/// wrote it, nothing where the batch removed it. Only a file that the batch did not touch is
/// read from the disk.
pub proof fn law_batch_hides_the_disk(
    in_flight: Map<Seq<char>, Option<Seq<char>>>,
    target: Seq<char>,
    held: Seq<char>,
    facts: TargetFacts,
)
    ensures
        in_flight.contains_pair(target, Some(held)) ==> current_content(in_flight, target, facts)
            == Ok::<Seq<char>, Seq<char>>(held) && !is_new_file(in_flight, target, facts.disk),
        in_flight.contains_pair(target, None) ==> current_content(in_flight, target, facts) is Err
            && is_new_file(in_flight, target, facts.disk),
        !in_flight.contains_key(target) ==> match facts.disk {
            DiskFile::Text(text) => current_content(in_flight, target, facts) == Ok::<
                Seq<char>,
                Seq<char>,
            >(text@) && !is_new_file(in_flight, target, facts.disk),
            DiskFile::Missing => current_content(in_flight, target, facts) is Err && is_new_file(
                in_flight,
                target,
                facts.disk,
            ),
            DiskFile::Unreadable(_) => current_content(in_flight, target, facts) is Err
                && !is_new_file(in_flight, target, facts.disk),
        },
{
}

/// A file target is a path behind `file:`; a section that does not say so is one too.
pub proof fn law_file_targets_are_paths(path: Seq<char>)
    ensures
        repo_path_of("file:"@ + path) == path,
        !"file:"@.is_prefix_of(path) ==> envelope_target(path) == "file:"@ + path,
        envelope_target("file:"@ + path) == "file:"@ + path,
{
    let target = "file:"@ + path;
    assert("file:"@ =~= target.subrange(0, "file:"@.len() as int));
    assert(target.skip("file:"@.len() as int) =~= path);
}

/// An edit that did not come back says in which way it failed; one that did has no fault.
pub proof fn law_failed_edit_says_how(content: String, error: String)
    ensures
        edit_error(EditReply::Edited(content)) is None,
        edit_error(EditReply::InvalidDiff(error)) == Some("Invalid diff: "@ + error@),
        edit_error(EditReply::DiffFailed(error)) == Some("Failed to apply diff: "@ + error@),
        edit_error(EditReply::WildcardFailed(error)) == Some("Wildcard edit failed: "@ + error@),
{
}

} // verus!
