//! A file that the user edited directly, committed into the worktree of an agent.
//!
//! The worktree ends either with the edit committed or restored to its head. All
//! that follows a successful commit, recording it and telling the agents, is best
//! effort and never takes it back.
use vstd::prelude::*;
use vstd::string::*;
use super::rename::{forward, law_paths_are_written_with_slashes};
use crate::scan::{
    fields_of, is_space, law_trimming_takes_the_space_around,
    law_what_stands_between_separators_is_a_field, lemma_trimmed_holds, replace_all, replaced_all,
    split_on, stands_between, starts_with, trim, trimmed,
};
use crate::diff::{
    capped, changed_line_counts, changed_lines, common_len, edit_script, law_changed_lines_counted,
    lemma_common_len_bounds, render_change_diff,
};
use crate::scan::lines_of;
use crate::text::{chars_of, joined, same_text, text2, text3};

verus! {

/// Why a directory that is no agent worktree cannot be edited.
pub const NON_JJ_WORKTREE_ERROR: &'static str =
    "Direct editing is only available in agent worktrees.";

/// How many changed lines the note to the agents shows.
pub const NOTIFIED_DIFF_LINES: usize = 60;

/// Whether a path begins with the letter of a drive.
pub open spec fn names_drive(path: Seq<char>) -> bool {
    path.len() >= 2 && path[1] == ':' && ('a' <= path[0] <= 'z' || 'A' <= path[0] <= 'Z')
}

/// Whether a path stays below the directory that it is relative to: it does not start at
/// the root nor, where there are drives, at one of them, and no component of it leads
/// upwards. Slashes of both kinds end a component, as they do once the path is one of the
/// repository.
pub open spec fn stays_below(path: Seq<char>, windows: bool) -> bool {
    let slashed = replaced_all(path, "\\"@, "/"@);
    &&& !"/"@.is_prefix_of(slashed)
    &&& windows ==> !names_drive(slashed)
    &&& !fields_of(slashed, '/').contains(".."@)
}

/// Accepts a path relative to the worktree that does not lead out of it.
pub fn validate_relative(file_path: &str, windows: bool) -> (path: Result<String, String>)
    ensures
        match path {
            Ok(accepted) => stays_below(file_path@, windows) && accepted@ == file_path@,
            Err(error) => !stays_below(file_path@, windows) && error@
                == "Invalid path: path traversal not allowed"@,
        },
{
    let slashed = replace_all(file_path, "\\", "/");
    let components = split_on(slashed.as_str(), '/');
    let letters = chars_of(slashed.as_str());
    let drive = windows && letters.len() >= 2 && letters[1] == ':' && (('a' <= letters[0] && letters[0]
        <= 'z') || ('A' <= letters[0] && letters[0] <= 'Z'));
    if starts_with(slashed.as_str(), "/") || drive || crate::text::contains_item(&components, "..") {
        Err("Invalid path: path traversal not allowed".to_owned())
    } else {
        Ok(file_path.to_owned())
    }
}

/// The project that owns a worktree.
#[derive(Debug)]
pub struct WorktreeProject {
    pub job_id: String,
    pub project_id: String,
    pub repo_path: String,
    pub default_branch: Option<String>,
    pub branch: String,
}

/// The text, unless it is empty.
pub open spec fn non_empty(text: Option<Seq<char>>) -> Option<Seq<char>> {
    match text {
        Some(found) => if found.len() == 0 {
            None
        } else {
            Some(found)
        },
        None => None,
    }
}

/// Whether this is the project that the parts of a row give.
pub open spec fn is_project_of(
    job_id: String,
    project_id: String,
    repo_path: String,
    default_branch: Option<String>,
    branch: Option<String>,
    project: WorktreeProject,
) -> bool {
    &&& project.job_id == job_id
    &&& project.project_id == project_id
    &&& project.repo_path == repo_path
    &&& crate::text::opt_text(project.default_branch) == non_empty(
        crate::text::opt_text(default_branch),
    )
    &&& project.branch@ == match non_empty(crate::text::opt_text(branch)) {
        Some(named) => named,
        None => "main"@,
    }
}

/// The project of a worktree from its row: an empty default branch is none, and
/// without a branch of its own the job is on `main`.
pub fn worktree_project(
    job_id: String,
    project_id: String,
    repo_path: String,
    default_branch: Option<String>,
    branch: Option<String>,
) -> (project: WorktreeProject)
    ensures
        is_project_of(job_id, project_id, repo_path, default_branch, branch, project),
{
    let default_branch = match default_branch {
        Some(named) => {
            if named.as_str().is_empty() {
                None
            } else {
                Some(named)
            }
        },
        None => None,
    };
    let branch = match branch {
        Some(named) => {
            if named.as_str().is_empty() {
                "main".to_owned()
            } else {
                named
            }
        },
        None => "main".to_owned(),
    };
    WorktreeProject { job_id, project_id, repo_path, default_branch, branch }
}

/// What is known before a direct edit is made: whether the directory is an agent
/// worktree, its project, whether any agent there is at work, and whether paths may name
/// a drive.
#[derive(Debug)]
pub struct EditGround {
    pub is_worktree: bool,
    pub project: Option<WorktreeProject>,
    pub jobs: Result<Vec<String>, String>,
    pub active_turn: bool,
    pub windows: bool,
}

/// Why a direct edit is refused; `None` where it may be made.
pub open spec fn edit_refusal(
    ground: EditGround,
    file_path: Seq<char>,
    commit_msg: Seq<char>,
) -> Option<Seq<char>> {
    if !ground.is_worktree {
        Some(NON_JJ_WORKTREE_ERROR@)
    } else if trimmed(commit_msg).len() == 0 {
        Some("A commit message is required to save this edit."@)
    } else {
        match ground.project {
            None => Some("Direct edit worktree has no owning project job."@),
            Some(project) => if crate::text::opt_text(project.default_branch) == Some(
                project.branch@,
            ) {
                Some(
                    "Direct editing is not available on the default branch (`"@ + project.branch@
                        + "`). Edit from a feature-branch worktree instead."@,
                )
            } else if !stays_below(file_path, ground.windows) {
                Some("Invalid path: path traversal not allowed"@)
            } else {
                match ground.jobs {
                    Err(error) => Some(error@),
                    Ok(_) => if ground.active_turn {
                        Some(
                            "An agent is currently working in this worktree; wait until it finishes, then try again."@,
                        )
                    } else {
                        None
                    },
                }
            },
        }
    }
}

/// Decides whether a direct edit may be made, and under which path of the
/// repository.
pub fn admit_user_file_edit(
    ground: &EditGround,
    file_path: &str,
    commit_msg: &str,
) -> (path: Result<String, String>)
    ensures
        match path {
            Ok(repo_path) => edit_refusal(*ground, file_path@, commit_msg@) is None && repo_path@
                == replaced_all(file_path@, "\\"@, "/"@),
            Err(error) => edit_refusal(*ground, file_path@, commit_msg@) == Some(error@),
        },
{
    if !ground.is_worktree {
        return Err(NON_JJ_WORKTREE_ERROR.to_owned());
    }
    if trim(commit_msg).as_str().is_empty() {
        return Err("A commit message is required to save this edit.".to_owned());
    }
    let project = match &ground.project {
        Some(project) => project,
        None => return Err("Direct edit worktree has no owning project job.".to_owned()),
    };
    if let Some(default_branch) = &project.default_branch {
        if same_text(default_branch.as_str(), project.branch.as_str()) {
            return Err(
                text3(
                    "Direct editing is not available on the default branch (`",
                    project.branch.as_str(),
                    "`). Edit from a feature-branch worktree instead.",
                ),
            );
        }
    }
    let relative = match validate_relative(file_path, ground.windows) {
        Ok(relative) => relative,
        Err(error) => return Err(error),
    };
    match &ground.jobs {
        Err(error) => return Err(error.clone()),
        Ok(_) => {},
    }
    if ground.active_turn {
        return Err(
            "An agent is currently working in this worktree; wait until it finishes, then try again.".to_owned(),
        );
    }
    Ok(replace_all(relative.as_str(), "\\", "/"))
}

/// Whether this is the text of what was found at the head.
pub open spec fn is_text_at_head(
    file_path: &str,
    found: Option<Vec<u8>>,
    text: Result<String, String>,
) -> bool {
    match (text, found) {
        (Ok(content), Some(bytes)) => vstd::utf8::valid_utf8(bytes@) && content@
            == vstd::utf8::decode_utf8(bytes@),
        (Err(error), Some(bytes)) => !vstd::utf8::valid_utf8(bytes@) && error@
            == "Direct editing is only available for UTF-8 regular files."@,
        (Err(error), None) => error@ == "Cannot edit "@ + file_path@
            + ": file does not exist at the logical head"@,
        (Ok(_), None) => false,
    }
}

/// The text that the edited file has at the logical head, or why it cannot be
/// edited. `found` holds its bytes, where it exists.
pub fn text_at_head(file_path: &str, found: Option<Vec<u8>>) -> (text: Result<String, String>)
    ensures
        is_text_at_head(file_path, found, text),
{
    match found {
        None => Err(
            text3("Cannot edit ", file_path, ": file does not exist at the logical head"),
        ),
        Some(bytes) => match crate::text::string_from_utf8(bytes) {
            Some(content) => Ok(content),
            None => Err("Direct editing is only available for UTF-8 regular files.".to_owned()),
        },
    }
}

/// What the agents of a worktree are told of an edit.
pub open spec fn edit_note(file_path: Seq<char>, diff: Seq<char>) -> Seq<char> {
    if diff.len() == 0 {
        "User edited `"@ + file_path + "`"@
    } else {
        "User edited `"@ + file_path + "`\n"@ + diff
    }
}

/// What the agents of a worktree are told of an edit.
pub fn edit_notification(file_path: &str, diff: &str) -> (note: String)
    ensures
        note@ == edit_note(file_path@, diff@),
{
    if diff.is_empty() {
        text3("User edited `", file_path, "`")
    } else {
        let mut note = text3("User edited `", file_path, "`\n");
        note.append(diff);
        note
    }
}

/// Why a seal failed: what was said, and what it means.
#[derive(Debug)]
pub struct SealError {
    pub text: String,
    /// The branch is conflicted or being rebased; trying again does not help.
    pub conflicted: bool,
    /// The working copy fell behind its branch.
    pub stale: bool,
    /// The seal captured nothing under a concurrent advance.
    pub lost: bool,
}

impl SealError {
    /// Whether advancing the working copy and sealing again can help.
    pub open spec fn is_recoverable(self) -> bool {
        !self.conflicted && (self.stale || self.lost)
    }

    /// Whether advancing the working copy and sealing again can help.
    pub fn recoverable(&self) -> (is: bool)
        ensures
            is == self.is_recoverable(),
    {
        !self.conflicted && (self.stale || self.lost)
    }
}

/// What the user is told of a seal that failed, given whether the worktree could
/// be restored.
pub open spec fn seal_failure_text(error: SealError, restored: Result<(), String>) -> Seq<char> {
    match restored {
        Err(reason) => "Save failed and the workspace couldn't be restored: "@ + reason@,
        Ok(_) => if error.conflicted {
            "Couldn't save: this worktree's branch is mid-rebase or conflicted, so a direct edit can't be committed here. Nothing was changed."@
        } else if error.stale || error.lost {
            "Couldn't save: the worktree changed underneath. Nothing was changed — try again."@
        } else {
            "Couldn't save your edit: "@ + error.text@ + ". Nothing was changed."@
        },
    }
}

/// What the user is told of a seal that failed.
pub fn seal_failure_message(error: &SealError, restored: &Result<(), String>) -> (message: String)
    ensures
        message@ == seal_failure_text(*error, *restored),
{
    match restored {
        Err(reason) => text2(
            "Save failed and the workspace couldn't be restored: ",
            reason.as_str(),
        ),
        Ok(_) => {
            if error.conflicted {
                "Couldn't save: this worktree's branch is mid-rebase or conflicted, so a direct edit can't be committed here. Nothing was changed.".to_owned()
            } else if error.stale || error.lost {
                "Couldn't save: the worktree changed underneath. Nothing was changed — try again.".to_owned()
            } else {
                text3("Couldn't save your edit: ", error.text.as_str(), ". Nothing was changed.")
            }
        },
    }
}

/// Where the commit of a direct edit stands.
#[derive(Debug)]
pub enum FinishState {
    /// The first seal is under way.
    Sealing,
    /// The working copy is being advanced after the seal failed with the error.
    Advancing(SealError),
    /// The content is being written again.
    Rewriting(SealError),
    /// The second seal is under way.
    Resealing,
    /// The worktree is being restored.
    Restoring(SealError),
    /// The commit is through, or refused.
    Finished(Result<String, String>),
}

/// What happened last.
#[derive(Debug)]
pub enum FinishEvent {
    Sealed(Result<String, SealError>),
    Advanced(Result<(), String>),
    Rewritten(Result<(), String>),
    Restored(Result<(), String>),
}

/// What is to be done next.
#[derive(Clone, Copy, Debug, PartialEq, Eq, Structural)]
pub enum FinishAction {
    Seal,
    Advance,
    Rewrite,
    Restore,
    Stop,
}

/// What is to be done in a state.
pub open spec fn finish_action(state: FinishState) -> FinishAction {
    match state {
        FinishState::Sealing => FinishAction::Seal,
        FinishState::Advancing(_) => FinishAction::Advance,
        FinishState::Rewriting(_) => FinishAction::Rewrite,
        FinishState::Resealing => FinishAction::Seal,
        FinishState::Restoring(_) => FinishAction::Restore,
        FinishState::Finished(_) => FinishAction::Stop,
    }
}

/// Whether `after` is where a seal that cannot be saved leads: the worktree is
/// restored, whatever the error.
pub open spec fn gives_up(after: FinishState, error: SealError) -> bool {
    after == FinishState::Restoring(error)
}

/// Whether `after` follows `before` on `event`. An event that answers nothing that
/// was asked changes nothing.
pub open spec fn finish_step(
    before: FinishState,
    event: FinishEvent,
    after: FinishState,
) -> bool {
    match (before, event) {
        (FinishState::Sealing, FinishEvent::Sealed(Ok(sha))) => after == FinishState::Finished(
            Ok::<String, String>(sha),
        ),
        (FinishState::Sealing, FinishEvent::Sealed(Err(error))) => if error.is_recoverable() {
            after == FinishState::Advancing(error)
        } else {
            gives_up(after, error)
        },
        (FinishState::Advancing(error), FinishEvent::Advanced(Ok(_))) => after
            == FinishState::Rewriting(error),
        (FinishState::Advancing(error), FinishEvent::Advanced(Err(_))) => gives_up(after, error),
        (FinishState::Rewriting(_), FinishEvent::Rewritten(Ok(_))) => after
            == FinishState::Resealing,
        (FinishState::Rewriting(error), FinishEvent::Rewritten(Err(_))) => gives_up(after, error),
        (FinishState::Resealing, FinishEvent::Sealed(Ok(sha))) => after == FinishState::Finished(
            Ok::<String, String>(sha),
        ),
        (FinishState::Resealing, FinishEvent::Sealed(Err(error))) => gives_up(after, error),
        (FinishState::Restoring(error), FinishEvent::Restored(restored)) => after
            matches FinishState::Finished(Err(message)) && message@ == seal_failure_text(
            error,
            restored,
        ),
        _ => after == before,
    }
}

impl FinishState {
    /// What is to be done in this state.
    pub fn action(&self) -> (action: FinishAction)
        ensures
            action == finish_action(*self),
    {
        match self {
            FinishState::Sealing => FinishAction::Seal,
            FinishState::Advancing(_) => FinishAction::Advance,
            FinishState::Rewriting(_) => FinishAction::Rewrite,
            FinishState::Resealing => FinishAction::Seal,
            FinishState::Restoring(_) => FinishAction::Restore,
            FinishState::Finished(_) => FinishAction::Stop,
        }
    }
}

/// One step of committing a direct edit. A stale or lost seal is tried once more
/// on the advanced working copy; any other failure, and the second one, restores
/// the worktree.
pub fn finish_commit(state: FinishState, event: FinishEvent) -> (after: FinishState)
    ensures
        finish_step(state, event, after),
{
    match (state, event) {
        (FinishState::Sealing, FinishEvent::Sealed(Ok(sha))) => FinishState::Finished(Ok(sha)),
        (FinishState::Sealing, FinishEvent::Sealed(Err(error))) => {
            if error.recoverable() {
                FinishState::Advancing(error)
            } else {
                FinishState::Restoring(error)
            }
        },
        (FinishState::Advancing(error), FinishEvent::Advanced(Ok(_))) => FinishState::Rewriting(
            error,
        ),
        (FinishState::Advancing(error), FinishEvent::Advanced(Err(_))) => FinishState::Restoring(error),
        (FinishState::Rewriting(_), FinishEvent::Rewritten(Ok(_))) => FinishState::Resealing,
        (FinishState::Rewriting(error), FinishEvent::Rewritten(Err(_))) => FinishState::Restoring(error),
        (FinishState::Resealing, FinishEvent::Sealed(Ok(sha))) => FinishState::Finished(Ok(sha)),
        (FinishState::Resealing, FinishEvent::Sealed(Err(error))) => FinishState::Restoring(error),
        (FinishState::Restoring(error), FinishEvent::Restored(restored)) => FinishState::Finished(
            Err(seal_failure_message(&error, &restored)),
        ),
        (state, _) => state,
    }
}

/// How many steps a state is from the end at most.
pub open spec fn steps_left(state: FinishState) -> nat {
    match state {
        FinishState::Sealing => 5,
        FinishState::Advancing(_) => 4,
        FinishState::Rewriting(_) => 3,
        FinishState::Resealing => 2,
        FinishState::Restoring(_) => 1,
        FinishState::Finished(_) => 0,
    }
}

/// Whether an event answers what a state asks for.
pub open spec fn answers(state: FinishState, event: FinishEvent) -> bool {
    match finish_action(state) {
        FinishAction::Seal => event is Sealed,
        FinishAction::Advance => event is Advanced,
        FinishAction::Rewrite => event is Rewritten,
        FinishAction::Restore => event is Restored,
        FinishAction::Stop => false,
    }
}

/// Committing a direct edit comes to an end, seals at most twice and advances the
/// working copy at most once: every answer leads on, and no state comes back.
pub proof fn law_finish_comes_to_an_end(
    before: FinishState,
    event: FinishEvent,
    after: FinishState,
)
    requires
        finish_step(before, event, after),
        answers(before, event),
    ensures
        steps_left(after) < steps_left(before),
{
}

/// A failed commit of a direct edit never leaves the edit behind uncommitted: it
/// is reported only once the worktree was restored or the restoring failed.
pub proof fn law_failure_follows_restoring(
    before: FinishState,
    event: FinishEvent,
    after: FinishState,
)
    requires
        finish_step(before, event, after),
        after matches FinishState::Finished(Err(_)),
        !(before is Finished),
    ensures
        before is Restoring,
        event is Restored,
{
}

/// A seal that fails leads to a second one only where it is recoverable, and was the
/// first; every other failure, on any step, leads to the restoring.
pub proof fn law_failed_steps_lead_to_restoring(
    before: FinishState,
    event: FinishEvent,
    after: FinishState,
)
    requires
        finish_step(before, event, after),
        answers(before, event),
    ensures
        event matches FinishEvent::Sealed(Err(error)) ==> if before is Sealing
            && error.is_recoverable() {
            after == FinishState::Advancing(error)
        } else {
            after == FinishState::Restoring(error)
        },
        event matches FinishEvent::Advanced(Err(_)) ==> after is Restoring,
        event matches FinishEvent::Rewritten(Err(_)) ==> after is Restoring,
        after is Resealing ==> before is Rewriting && event is Rewritten,
        after is Rewriting ==> before is Advancing,
        after is Advancing ==> before is Sealing,
{
}

/// A conflicted branch is never sealed a second time.
pub proof fn law_conflict_is_not_retried(
    before: FinishState,
    error: SealError,
    after: FinishState,
)
    requires
        finish_step(before, FinishEvent::Sealed(Err(error)), after),
        error.conflicted,
        before is Sealing || before is Resealing,
    ensures
        finish_action(after) != FinishAction::Seal,
        finish_action(after) != FinishAction::Advance,
{
}

/// Why the content of a direct edit was not published.
#[derive(Debug)]
pub enum PublishFault {
    Worker(String),
    Refused(String),
}

/// A direct edit that is through: the new head, the lines to record, and the note
/// to the agents of the worktree.
#[derive(Debug)]
pub struct EditOutcome {
    pub head: String,
    pub additions: i32,
    pub deletions: i32,
    pub note: String,
}

/// Whether an edit comes out like this.
pub open spec fn is_edit_outcome(
    repo_path: &str,
    before: &str,
    content: &str,
    published: Result<String, PublishFault>,
    push: Option<Result<(), String>>,
    outcome: Result<EditOutcome, String>,
) -> bool {
    match (outcome, published) {
        (Ok(done), Ok(head)) => {
            let old_lines = lines_of(before@);
            let new_lines = lines_of(content@);
            let common = common_len(old_lines, new_lines);
            let diff = joined(
                capped(
                    changed_lines(edit_script(old_lines, new_lines)),
                    NOTIFIED_DIFF_LINES as nat,
                ),
                "\n"@,
            );
            &&& !(push matches Some(Err(_)))
            &&& done.head == head
            &&& done.additions == (new_lines.len() - common) as i32
            &&& done.deletions == (old_lines.len() - common) as i32
            &&& done.note@ == edit_note(repo_path@, diff)
        },
        (Err(message), Ok(head)) => {
            &&& push matches Some(Err(error))
            &&& message@ == "Host edit commit "@ + head@
                + " landed locally but remains unpublished because the required open-PR origin push failed: "@
                + error@
        },
        (Err(message), Err(PublishFault::Worker(error))) => message@
            == "Host edit publication worker failed: "@ + error@,
        (Err(message), Err(PublishFault::Refused(error))) => message@ == error@,
        (Ok(_), Err(_)) => false,
    }
}

/// Takes up what came of publishing a direct edit of `repo_path` from `before` to
/// `content`, and of the push where one was required. Only an edit that is
/// published as far as required is recorded and told to the agents.
pub fn commit_user_file_edit(
    repo_path: &str,
    before: &str,
    content: &str,
    published: Result<String, PublishFault>,
    push: Option<Result<(), String>>,
) -> (outcome: Result<EditOutcome, String>)
    ensures
        is_edit_outcome(repo_path, before, content, published, push, outcome),
{
    let head = match published {
        Ok(head) => head,
        Err(PublishFault::Worker(error)) => {
            return Err(text2("Host edit publication worker failed: ", error.as_str()));
        },
        Err(PublishFault::Refused(error)) => return Err(error),
    };
    let (additions, deletions) = changed_line_counts(Some(before), Some(content));
    if let Some(Err(error)) = push {
        let mut message = text3(
            "Host edit commit ",
            head.as_str(),
            " landed locally but remains unpublished because the required open-PR origin push failed: ",
        );
        message.append(error.as_str());
        return Err(message);
    }
    let diff = render_change_diff(before, content, NOTIFIED_DIFF_LINES);
    let note = edit_notification(repo_path, diff.as_str());
    Ok(EditOutcome { head, additions, deletions, note })
}

/// A path stays below the worktree exactly if it does not begin with a slash of either sort,
/// names no drive where there are drives, and has no step that leads up.
pub proof fn law_path_stays_below_iff_it_leads_nowhere_else(path: Seq<char>, windows: bool)
    ensures
        stays_below(path, windows) <==> {
            &&& path.len() > 0 ==> path[0] != '/' && path[0] != '\\'
            &&& windows ==> !(path.len() >= 2 && path[1] == ':' && ('a' <= path[0] <= 'z' || 'A'
                <= path[0] <= 'Z'))
            &&& forall|at: int| !#[trigger] leads_up(path, at)
        },
{
    law_paths_are_written_with_slashes(path);
    reveal_strlit("/");
    reveal_strlit("..");
    let slashed = replaced_all(path, "\\"@, "/"@);
    assert(slashed == forward(path));
    if "/"@.is_prefix_of(slashed) {
        assert(slashed.subrange(0, 1)[0] == slashed[0]);
        assert(slashed[0] == '/');
    }
    if path.len() > 0 && slashed[0] == '/' {
        assert("/"@ =~= slashed.subrange(0, 1));
    }
    let up = ".."@;
    assert(!up.contains('/')) by {
        if up.contains('/') {
            let i = choose|i: int| 0 <= i < up.len() && up[i] == '/';
            assert(up[i] == '.');
        }
    }
    law_what_stands_between_separators_is_a_field(slashed, '/', up);
    assert forall|at: int| #[trigger]
        leads_up(path, at) == stands_between(slashed, '/', 0, up, at) by {
        if leads_up(path, at) {
            assert(slashed.subrange(at, at + 2) =~= up);
        }
        if stands_between(slashed, '/', 0, up, at) {
            assert(slashed.subrange(at, at + 2)[0] == slashed[at]);
            assert(slashed.subrange(at, at + 2)[1] == slashed[at + 1]);
        }
    }
    if fields_of(slashed, '/').contains(up) {
        let at = choose|at: int| #[trigger] stands_between(slashed, '/', 0, up, at);
        assert(leads_up(path, at));
    }
    if exists|at: int| #[trigger] leads_up(path, at) {
        let at = choose|at: int| #[trigger] leads_up(path, at);
        assert(stands_between(slashed, '/', 0, up, at));
    }
}

/// Whether the two dots of a step up stand at `at`, between slashes of either sort or ends.
pub open spec fn leads_up(path: Seq<char>, at: int) -> bool {
    &&& 0 <= at
    &&& at + 2 <= path.len()
    &&& path[at] == '.'
    &&& path[at + 1] == '.'
    &&& at == 0 || path[at - 1] == '/' || path[at - 1] == '\\'
    &&& at + 2 == path.len() || path[at + 2] == '/' || path[at + 2] == '\\'
}

/// An edit is admitted exactly if it is made in a worktree with a project, on a branch that
/// is not the default one, with a message, to a path below the worktree, while no agent
/// works there.
pub proof fn law_edit_is_admitted_iff_nothing_forbids_it(
    ground: EditGround,
    file_path: Seq<char>,
    commit_msg: Seq<char>,
)
    ensures
        edit_refusal(ground, file_path, commit_msg) is None <==> {
            &&& ground.is_worktree
            &&& exists|i: int| 0 <= i < commit_msg.len() && !is_space(#[trigger] commit_msg[i])
            &&& ground.project matches Some(project) && (match project.default_branch {
                Some(branch) => branch@ != project.branch@,
                None => true,
            })
            &&& stays_below(file_path, ground.windows)
            &&& ground.jobs is Ok
            &&& !ground.active_turn
        },
        !ground.is_worktree ==> edit_refusal(ground, file_path, commit_msg) == Some(
            NON_JJ_WORKTREE_ERROR@,
        ),
{
    let bare = trimmed(commit_msg);
    if exists|i: int| 0 <= i < commit_msg.len() && !is_space(#[trigger] commit_msg[i]) {
        let at = choose|i: int| 0 <= i < commit_msg.len() && !is_space(#[trigger] commit_msg[i]);
        lemma_trimmed_holds(commit_msg, at);
    } else {
        law_trimming_takes_the_space_around(commit_msg, Seq::empty(), Seq::empty());
        assert(commit_msg + Seq::<char>::empty() + Seq::<char>::empty() =~= commit_msg);
    }
}

/// The note of an edit names the file, and shows the diff where there is one.
pub proof fn law_note_shows_the_edit(file_path: Seq<char>, diff: Seq<char>)
    ensures
        ("User edited `"@ + file_path).is_prefix_of(edit_note(file_path, diff)),
        diff.is_suffix_of(edit_note(file_path, diff)),
        diff.len() == 0 ==> edit_note(file_path, diff) == "User edited `"@ + file_path + "`"@,
        diff.len() > 0 ==> edit_note(file_path, diff) == "User edited `"@ + file_path + "`\n"@
            + diff,
{
    let note = edit_note(file_path, diff);
    let front = "User edited `"@ + file_path;
    assert(front =~= note.subrange(0, front.len() as int));
    assert(diff =~= note.subrange(note.len() - diff.len(), note.len() as int));
}

/// A save succeeds exactly when a sealing does, with the commit that was sealed.
pub proof fn law_save_succeeds_iff_it_is_sealed(
    before: FinishState,
    event: FinishEvent,
    after: FinishState,
    sha: String,
)
    requires
        finish_step(before, event, after),
        !(before is Finished),
    ensures
        after == FinishState::Finished(Ok::<String, String>(sha)) <==> (before is Sealing || before
            is Resealing) && event == FinishEvent::Sealed(Ok::<String, SealError>(sha)),
{
}

/// A save that failed says what went wrong: that restoring failed and why, that there is a
/// conflict, that the worktree changed, or the fault itself. Only where restoring failed
/// does it not say that nothing was changed.
pub proof fn law_failed_save_says_why(error: SealError, reason: String)
    ensures
        reason@.is_suffix_of(seal_failure_text(error, Err::<(), String>(reason))),
        !error.conflicted && !error.stale && !error.lost ==> seal_failure_text(
            error,
            Ok::<(), String>(()),
        ) == "Couldn't save your edit: "@ + error.text@ + ". Nothing was changed."@,
        error.conflicted ==> seal_failure_text(error, Ok::<(), String>(()))
            == "Couldn't save: this worktree's branch is mid-rebase or conflicted, so a direct edit can't be committed here. Nothing was changed."@,
        !error.conflicted && (error.stale || error.lost) ==> seal_failure_text(
            error,
            Ok::<(), String>(()),
        ) == "Couldn't save: the worktree changed underneath. Nothing was changed — try again."@,
{
    let text = seal_failure_text(error, Err::<(), String>(reason));
    assert(reason@ =~= text.subrange(text.len() - reason@.len(), text.len() as int));
}

/// What a state asks for is what it waits for.
pub proof fn law_states_ask_for_their_step(error: SealError)
    ensures
        finish_action(FinishState::Sealing) is Seal,
        finish_action(FinishState::Resealing) is Seal,
        finish_action(FinishState::Advancing(error)) is Advance,
        finish_action(FinishState::Rewriting(error)) is Rewrite,
        finish_action(FinishState::Restoring(error)) is Restore,
        error.is_recoverable() <==> !error.conflicted && (error.stale || error.lost),
{
}

/// A project without a branch of its own is on `main`; an empty name is no name.
pub proof fn law_unnamed_branch_is_main(
    job_id: String,
    project_id: String,
    repo_path: String,
    default_branch: Option<String>,
    branch: Option<String>,
    project: WorktreeProject,
)
    requires
        is_project_of(job_id, project_id, repo_path, default_branch, branch, project),
    ensures
        project.job_id == job_id && project.project_id == project_id && project.repo_path
            == repo_path,
        branch matches Some(named) ==> (named@.len() > 0 ==> project.branch@ == named@),
        (branch matches Some(named) ==> named@.len() == 0) ==> project.branch@ == "main"@,
        project.default_branch is Some <==> (default_branch matches Some(named) && named@.len()
            > 0),
        project.default_branch matches Some(named) ==> default_branch->Some_0@ == named@,
{
}

/// Only a file that is there and is UTF-8 can be edited, and its text is what it holds.
pub proof fn law_only_texts_are_edited(
    file_path: &str,
    found: Option<Vec<u8>>,
    text: Result<String, String>,
)
    requires
        is_text_at_head(file_path, found, text),
    ensures
        text is Ok <==> (found matches Some(bytes) && vstd::utf8::valid_utf8(bytes@)),
        text matches Ok(content) ==> content@ == vstd::utf8::decode_utf8(found->Some_0@),
{
}

/// An edit succeeds exactly if it was published and was not left unpushed; it tells the new
/// head, how many lines came and went, and the diff. One that landed and was not pushed
/// names the commit.
pub proof fn law_edit_tells_what_came_of_it(
    repo_path: &str,
    before: &str,
    content: &str,
    published: Result<String, PublishFault>,
    push: Option<Result<(), String>>,
    outcome: Result<EditOutcome, String>,
)
    requires
        is_edit_outcome(repo_path, before, content, published, push, outcome),
        lines_of(before@).len() <= i32::MAX,
        lines_of(content@).len() <= i32::MAX,
    ensures
        outcome is Ok <==> published is Ok && !(push matches Some(Err(_))),
        outcome matches Ok(done) ==> {
            let old_lines = lines_of(before@);
            let new_lines = lines_of(content@);
            &&& published == Ok::<String, PublishFault>(done.head)
            &&& done.additions - done.deletions == new_lines.len() - old_lines.len()
            &&& done.additions + done.deletions == changed_lines(
                edit_script(old_lines, new_lines),
            ).len()
            &&& ("User edited `"@ + repo_path@).is_prefix_of(done.note@)
        },
        published matches Ok(head) ==> (push matches Some(Err(error)) ==> outcome->Err_0@
            == "Host edit commit "@ + head@
            + " landed locally but remains unpublished because the required open-PR origin push failed: "@
            + error@),
        published matches Err(PublishFault::Refused(error)) ==> outcome->Err_0@ == error@,
{
    if let Ok(done) = outcome {
        let old_lines = lines_of(before@);
        let new_lines = lines_of(content@);
        law_changed_lines_counted(old_lines, new_lines);
        lemma_common_len_bounds(old_lines, new_lines);
        let diff = joined(capped(changed_lines(edit_script(old_lines, new_lines)), 60), "\n"@);
        law_note_shows_the_edit(repo_path@, diff);
    }
}

} // verus!
