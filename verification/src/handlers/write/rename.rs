//! Renaming a symbol: what the payload asks for, and what a computed rename plan
//! does to files.
use vstd::prelude::*;
use vstd::string::*;
use crate::handlers::write::file_mutations::{
    prepared_models, PreparedChange, PreparedModel, TargetFacts,
};
use crate::handlers::write::types::{applied_models, AppliedChange, AppliedModel};
use crate::scan::{law_all_occurrences_are_replaced, occurs_at, replace_all, replaced_all};
use crate::text::{decimal, render_usize, text2, text3, texts};

verus! {

/// The keys of a rename payload.
#[derive(Debug)]
pub struct RenamePayload {
    pub new_name: Option<String>,
    pub old_name: Option<String>,
    pub symbol_at: Option<String>,
}

/// How the symbol to rename is found.
#[derive(Debug)]
pub enum RenameLocator {
    /// By its name, from the file at the path.
    Name { old_name: String, full_path: String },
    /// By a place that still has to be looked up.
    At(String),
}

/// What a rename asks for.
#[derive(Debug)]
pub struct RenameRequest {
    pub locator: RenameLocator,
    pub new_name: String,
}

/// What a rename request says.
pub enum LocatorModel {
    Name { old_name: Seq<char>, full_path: Seq<char> },
    At(Seq<char>),
}

/// The locator and the new name of a request.
pub open spec fn request_model(request: RenameRequest) -> (LocatorModel, Seq<char>) {
    (
        match request.locator {
            RenameLocator::Name { old_name, full_path } => LocatorModel::Name {
                old_name: old_name@,
                full_path: full_path@,
            },
            RenameLocator::At(place) => LocatorModel::At(place@),
        },
        request.new_name@,
    )
}

/// What a rename payload asks for, or why it is refused: a new name, and exactly
/// one way to find the symbol.
pub open spec fn rename_request(
    payload: Option<Result<RenamePayload, String>>,
    facts: TargetFacts,
) -> Result<(LocatorModel, Seq<char>), Seq<char>> {
    match payload {
        None => Err("mode=rename requires payload {new_name, and one of old_name | symbol_at}"@),
        Some(Err(error)) => Err("Invalid rename payload: "@ + error@),
        Some(Ok(payload)) => match payload.new_name {
            None => Err("mode=rename requires new_name"@),
            Some(new_name) => if new_name@.len() == 0 {
                Err("mode=rename requires new_name"@)
            } else {
                match (payload.old_name, payload.symbol_at) {
                    (Some(_), Some(_)) => Err(
                        "mode=rename: provide exactly one of old_name or symbol_at, not both"@,
                    ),
                    (None, None) => Err(
                        "mode=rename requires exactly one of old_name or symbol_at"@,
                    ),
                    (None, Some(place)) => Ok((LocatorModel::At(place@), new_name@)),
                    (Some(old_name), None) => if old_name@.len() == 0 {
                        Err("mode=rename: old_name is empty"@)
                    } else {
                        match (facts.normalized, facts.resolved) {
                            (Err(error), _) => Err(error@),
                            (Ok(_), Err(error)) => Err("Invalid file target: "@ + error@),
                            (Ok(_), Ok(path)) => Ok(
                                (
                                    LocatorModel::Name {
                                        old_name: old_name@,
                                        full_path: path.full_path@,
                                    },
                                    new_name@,
                                ),
                            ),
                        }
                    },
                }
            },
        },
    }
}

/// Reads a rename payload.
pub fn parse_rename_spec(
    payload: &Option<Result<RenamePayload, String>>,
    facts: &TargetFacts,
) -> (request: Result<RenameRequest, String>)
    ensures
        match (request, rename_request(*payload, *facts)) {
            (Ok(found), Ok(model)) => request_model(found) == model,
            (Err(error), Err(reason)) => error@ == reason,
            _ => false,
        },
{
    let payload = match payload {
        None => {
            return Err(
                "mode=rename requires payload {new_name, and one of old_name | symbol_at}".to_owned(),
            );
        },
        Some(Err(error)) => return Err(text2("Invalid rename payload: ", error.as_str())),
        Some(Ok(payload)) => payload,
    };
    let new_name = match &payload.new_name {
        Some(new_name) => new_name,
        None => return Err("mode=rename requires new_name".to_owned()),
    };
    if new_name.as_str().is_empty() {
        return Err("mode=rename requires new_name".to_owned());
    }
    match (&payload.old_name, &payload.symbol_at) {
        (Some(_), Some(_)) => Err(
            "mode=rename: provide exactly one of old_name or symbol_at, not both".to_owned(),
        ),
        (None, None) => Err("mode=rename requires exactly one of old_name or symbol_at".to_owned()),
        (None, Some(place)) => Ok(
            RenameRequest {
                locator: RenameLocator::At(place.clone()),
                new_name: new_name.clone(),
            },
        ),
        (Some(old_name), None) => {
            if old_name.as_str().is_empty() {
                return Err("mode=rename: old_name is empty".to_owned());
            }
            match (&facts.normalized, &facts.resolved) {
                (Err(error), _) => Err(error.clone()),
                (Ok(_), Err(error)) => Err(text2("Invalid file target: ", error.as_str())),
                (Ok(_), Ok(path)) => Ok(
                    RenameRequest {
                        locator: RenameLocator::Name {
                            old_name: old_name.clone(),
                            full_path: path.full_path.clone(),
                        },
                        new_name: new_name.clone(),
                    },
                ),
            }
        },
    }
}

/// A path, and the same path relative to the worktree.
#[derive(Debug)]
pub struct PlacedPath {
    pub full: String,
    pub relative: String,
}

/// What a rename does to one file: new content, possibly under another path, or
/// its removal.
#[derive(Debug)]
pub struct RenameEdit {
    pub source: PlacedPath,
    pub new_content: Option<String>,
    pub move_to: Option<PlacedPath>,
    pub site_count: usize,
}

/// A relative path with forward slashes.
pub open spec fn forward(path: Seq<char>) -> Seq<char> {
    replaced_all(path, "\\"@, "/"@)
}

/// What a rename comes to: prepared changes with a summary each, and what is
/// reported of it, once per file.
#[derive(Debug)]
pub struct RenameOutcome {
    pub prepared: Vec<PreparedChange>,
    pub applied: Vec<AppliedChange>,
    pub summaries: Vec<String>,
}

/// What a rename outcome says.
#[verifier::ext_equal]
pub struct RenameModel {
    pub prepared: Seq<PreparedModel>,
    pub applied: Seq<AppliedModel>,
    pub summaries: Seq<Seq<char>>,
}

impl View for RenameOutcome {
    type V = RenameModel;

    open spec fn view(&self) -> RenameModel {
        RenameModel {
            prepared: prepared_models(self.prepared@),
            applied: applied_models(self.applied@),
            summaries: texts(self.summaries@),
        }
    }
}

/// What is reported of a file that a rename touches.
pub open spec fn rename_applied(index: nat, target: Seq<char>, summary: Seq<char>) -> AppliedModel {
    AppliedModel { index, target, mode: "rename"@, kind: "file"@, summary, data: None }
}

/// What one file of a rename plan adds. A move writes the new path and removes the
/// old one, and is reported once.
pub open spec fn with_edit(before: RenameModel, index: nat, edit: RenameEdit) -> RenameModel {
    let src_rel = forward(edit.source.relative@);
    let src = "file:"@ + src_rel;
    let removal = PreparedModel::Delete {
        change_pos: 0,
        target_uri: src,
        repo_path: src_rel,
        full_path: edit.source.full@,
        outside_worktree: false,
    };
    match (edit.new_content, edit.move_to) {
        (Some(content), Some(place)) => {
            let dest_rel = forward(place.relative@);
            let dest = "file:"@ + dest_rel;
            let arrow = "R "@ + src + "→"@ + dest;
            RenameModel {
                prepared: before.prepared.push(
                    PreparedModel::Write {
                        change_pos: 0,
                        target_uri: dest,
                        repo_path: dest_rel,
                        full_path: place.full@,
                        content: content@,
                        is_new: true,
                        outside_worktree: false,
                    },
                ).push(removal),
                applied: before.applied.push(
                    rename_applied(
                        index,
                        dest,
                        arrow + " ("@ + decimal(edit.site_count as nat) + " sites)"@,
                    ),
                ),
                summaries: before.summaries.push(arrow).push("-"@ + src),
            }
        },
        (Some(content), None) => RenameModel {
            prepared: before.prepared.push(
                PreparedModel::Write {
                    change_pos: 0,
                    target_uri: src,
                    repo_path: src_rel,
                    full_path: edit.source.full@,
                    content: content@,
                    is_new: false,
                    outside_worktree: false,
                },
            ),
            applied: before.applied.push(
                rename_applied(
                    index,
                    src,
                    "~"@ + src + " ("@ + decimal(edit.site_count as nat) + " sites)"@,
                ),
            ),
            summaries: before.summaries.push("~"@ + src),
        },
        (None, _) => RenameModel {
            prepared: before.prepared.push(removal),
            applied: before.applied.push(rename_applied(index, src, "-"@ + src)),
            summaries: before.summaries.push("-"@ + src),
        },
    }
}

/// What the first `k` files of a rename plan come to.
pub open spec fn rename_effects(index: nat, edits: Seq<RenameEdit>, k: int) -> RenameModel
    decreases k,
{
    if k <= 0 {
        RenameModel {
            prepared: Seq::empty(),
            applied: Seq::empty(),
            summaries: Seq::empty(),
        }
    } else {
        with_edit(rename_effects(index, edits, k - 1), index, edits[k - 1])
    }
}

/// A report entry of a rename.
fn applied_entry(index: usize, target: &String, summary: String) -> (entry: AppliedChange)
    ensures
        entry@ == rename_applied(index as nat, target@, summary@),
{
    AppliedChange {
        index,
        target: target.clone(),
        mode: "rename".to_owned(),
        kind: "file".to_owned(),
        summary,
        data: None,
    }
}

/// `text` with the number of touched places.
fn with_sites(text: &str, sites: usize) -> (out: String)
    ensures
        out@ == text@ + " ("@ + decimal(sites as nat) + " sites)"@,
{
    let mut out = text3(text, " (", render_usize(sites).as_str());
    out.append(" sites)");
    out
}

/// Adds one file of a rename plan.
fn add_edit(outcome: &mut RenameOutcome, index: usize, edit: &RenameEdit)
    ensures
        final(outcome)@ == with_edit(old(outcome)@, index as nat, *edit),
{
    let ghost start = outcome@;
    let src_rel = replace_all(edit.source.relative.as_str(), "\\", "/");
    let src = text2("file:", src_rel.as_str());
    match (&edit.new_content, &edit.move_to) {
        (Some(content), Some(place)) => {
            let dest_rel = replace_all(place.relative.as_str(), "\\", "/");
            let dest = text2("file:", dest_rel.as_str());
            let mut arrow = text3("R ", src.as_str(), "→");
            arrow.append(dest.as_str());
            outcome.prepared.push(
                PreparedChange::Write {
                    change_pos: 0,
                    target_uri: dest.clone(),
                    repo_path: dest_rel,
                    full_path: place.full.clone(),
                    content: content.clone(),
                    is_new: true,
                    outside_worktree: false,
                },
            );
            outcome.prepared.push(
                PreparedChange::Delete {
                    change_pos: 0,
                    target_uri: src.clone(),
                    repo_path: src_rel,
                    full_path: edit.source.full.clone(),
                    outside_worktree: false,
                },
            );
            outcome.applied.push(
                applied_entry(index, &dest, with_sites(arrow.as_str(), edit.site_count)),
            );
            outcome.summaries.push(arrow);
            outcome.summaries.push(text2("-", src.as_str()));
        },
        (Some(content), None) => {
            let summary = text2("~", src.as_str());
            outcome.prepared.push(
                PreparedChange::Write {
                    change_pos: 0,
                    target_uri: src.clone(),
                    repo_path: src_rel,
                    full_path: edit.source.full.clone(),
                    content: content.clone(),
                    is_new: false,
                    outside_worktree: false,
                },
            );
            outcome.applied.push(
                applied_entry(index, &src, with_sites(summary.as_str(), edit.site_count)),
            );
            outcome.summaries.push(summary);
        },
        (None, _) => {
            outcome.prepared.push(
                PreparedChange::Delete {
                    change_pos: 0,
                    target_uri: src.clone(),
                    repo_path: src_rel,
                    full_path: edit.source.full.clone(),
                    outside_worktree: false,
                },
            );
            outcome.applied.push(applied_entry(index, &src, text2("-", src.as_str())));
            outcome.summaries.push(text2("-", src.as_str()));
        },
    }
    assert(outcome@ =~= with_edit(start, index as nat, *edit));
}

/// Turns a rename plan into prepared changes and what is reported of it.
pub fn prepare_rename_changes(rename_index: usize, edits: &Vec<RenameEdit>) -> (outcome: RenameOutcome)
    ensures
        outcome@ == rename_effects(rename_index as nat, edits@, edits@.len() as int),
{
    let mut outcome = RenameOutcome {
        prepared: Vec::new(),
        applied: Vec::new(),
        summaries: Vec::new(),
    };
    assert(outcome@ =~= rename_effects(rename_index as nat, edits@, 0));
    let mut k: usize = 0;
    while k < edits.len()
        invariant
            k <= edits@.len(),
            outcome@ == rename_effects(rename_index as nat, edits@, k as int),
        decreases edits.len() - k,
    {
        add_edit(&mut outcome, rename_index, &edits[k]);
        k += 1;
    }
    outcome
}

/// Every file of a plan is reported once, and every prepared change has its
/// summary and stands for the one rename of the call.
pub proof fn law_rename_reports_each_file_once(index: nat, edits: Seq<RenameEdit>, k: int)
    requires
        0 <= k <= edits.len(),
    ensures
        rename_effects(index, edits, k).applied.len() == k,
        rename_effects(index, edits, k).prepared.len() == rename_effects(
            index,
            edits,
            k,
        ).summaries.len(),
        forall|i: int|
            0 <= i < k ==> (#[trigger] rename_effects(index, edits, k).applied[i]).index == index,
        forall|i: int|
            0 <= i < rename_effects(index, edits, k).prepared.len() ==> (
            #[trigger] rename_effects(index, edits, k).prepared[i]).pos() == 0,
    decreases k,
{
    if k > 0 {
        law_rename_reports_each_file_once(index, edits, k - 1);
    }
}

/// A rename is understood exactly if it names a new name and one of an old name and a place,
/// not both; a place is taken as it is, an old name is looked for in the file that the
/// target stands for.
pub proof fn law_rename_names_one_symbol(payload: RenamePayload, facts: TargetFacts)
    ensures
        ({
            let request = rename_request(Some(Ok::<RenamePayload, String>(payload)), facts);
            let named = payload.new_name matches Some(name) && name@.len() > 0;
            &&& request is Ok ==> named && (payload.old_name is Some <==> payload.symbol_at is None)
            &&& request matches Ok((locator, new_name)) ==> new_name == payload.new_name->Some_0@
                && match locator {
                LocatorModel::At(place) => payload.symbol_at matches Some(given) && given@ == place,
                LocatorModel::Name { old_name, full_path } => {
                    &&& payload.old_name matches Some(given) && given@ == old_name
                    &&& old_name.len() > 0
                    &&& facts.resolved matches Ok(path) && path.full_path@ == full_path
                },
            }
            &&& named && payload.old_name is None && payload.symbol_at is Some ==> request is Ok
            &&& named && payload.symbol_at is None && (payload.old_name matches Some(old)
                && old@.len() > 0) && facts.normalized is Ok && facts.resolved is Ok ==> request
                is Ok
        }),
        rename_request(None, facts) is Err,
{
}

/// A file that is renamed within is written anew in its place; one that moves is written at
/// its new place and removed from the old one; one that is left without content is
/// removed. What is written is the new content.
pub proof fn law_edit_of_a_rename_takes_effect(before: RenameModel, index: nat, edit: RenameEdit)
    ensures
        ({
            let after = with_edit(before, index, edit);
            let from = forward(edit.source.relative@);
            &&& before.prepared.is_prefix_of(after.prepared)
            &&& before.summaries.is_prefix_of(after.summaries)
            &&& after.applied.drop_last() == before.applied
            &&& after.applied.last().index == index
            &&& after.applied.last().mode == "rename"@
            &&& match (edit.new_content, edit.move_to) {
                (Some(content), Some(place)) => {
                    let to = forward(place.relative@);
                    &&& after.prepared.len() == before.prepared.len() + 2
                    &&& after.prepared[before.prepared.len() as int] == (PreparedModel::Write {
                        change_pos: 0,
                        target_uri: "file:"@ + to,
                        repo_path: to,
                        full_path: place.full@,
                        content: content@,
                        is_new: true,
                        outside_worktree: false,
                    })
                    &&& after.prepared.last() == (PreparedModel::Delete {
                        change_pos: 0,
                        target_uri: "file:"@ + from,
                        repo_path: from,
                        full_path: edit.source.full@,
                        outside_worktree: false,
                    })
                    &&& after.applied.last().target == "file:"@ + to
                },
                (Some(content), None) => {
                    &&& after.prepared.len() == before.prepared.len() + 1
                    &&& after.prepared.last() == (PreparedModel::Write {
                        change_pos: 0,
                        target_uri: "file:"@ + from,
                        repo_path: from,
                        full_path: edit.source.full@,
                        content: content@,
                        is_new: false,
                        outside_worktree: false,
                    })
                    &&& after.applied.last().target == "file:"@ + from
                },
                (None, _) => {
                    &&& after.prepared.len() == before.prepared.len() + 1
                    &&& after.prepared.last() == (PreparedModel::Delete {
                        change_pos: 0,
                        target_uri: "file:"@ + from,
                        repo_path: from,
                        full_path: edit.source.full@,
                        outside_worktree: false,
                    })
                    &&& after.applied.last().target == "file:"@ + from
                },
            }
        }),
{
    let after = with_edit(before, index, edit);
    assert(after.applied.drop_last() =~= before.applied);
    assert(before.prepared =~= after.prepared.subrange(0, before.prepared.len() as int));
    assert(before.summaries =~= after.summaries.subrange(0, before.summaries.len() as int));
}

/// The edits of a rename take effect one after the other, none of them left out.
pub proof fn law_edits_of_a_rename_follow_one_another(index: nat, edits: Seq<RenameEdit>, k: int)
    requires
        0 <= k < edits.len(),
    ensures
        rename_effects(index, edits, k + 1) == with_edit(
            rename_effects(index, edits, k),
            index,
            edits[k],
        ),
        rename_effects(index, edits, 0).prepared.len() == 0,
        rename_effects(index, edits, 0).applied.len() == 0,
        rename_effects(index, edits, 0).summaries.len() == 0,
{
}

/// A path keeps its characters, but each backslash is written as a slash.
pub proof fn law_paths_are_written_with_slashes(path: Seq<char>)
    ensures
        forward(path).len() == path.len(),
        forall|i: int|
            0 <= i < path.len() ==> #[trigger] forward(path)[i] == (if path[i] == '\\' {
                '/'
            } else {
                path[i]
            }),
    decreases path.len(),
{
    reveal_strlit("\\");
    reveal_strlit("/");
    let pattern = "\\"@;
    assert forall|at: int| #[trigger]
        occurs_at(path, pattern, at) == (0 <= at < path.len() && path[at] == '\\') by {
        if 0 <= at < path.len() {
            assert(path.subrange(at, at + 1)[0] == path[at]);
            if path[at] == '\\' {
                assert(path.subrange(at, at + 1) =~= pattern);
            }
        }
    }
    if path.contains('\\') {
        let at = path.index_of_first('\\')->Some_0;
        path.index_of_first_ensures('\\');
        assert(occurs_at(path, pattern, at));
        assert forall|b: int| 0 <= b < at implies !#[trigger] occurs_at(path, pattern, b) by {
            assert(path[b] != '\\');
        }
        law_all_occurrences_are_replaced(path, pattern, "/"@, at);
        law_paths_are_written_with_slashes(path.skip(at + 1));
        let rest = forward(path.skip(at + 1));
        assert(forward(path) == path.take(at) + "/"@ + rest);
        assert forall|i: int| 0 <= i < path.len() implies #[trigger] forward(path)[i] == (
        if path[i] == '\\' {
            '/'
        } else {
            path[i]
        }) by {
            if i > at {
                assert(rest[i - at - 1] == forward(path)[i]);
                assert(path.skip(at + 1)[i - at - 1] == path[i]);
            }
        }
    } else {
        assert forall|at: int| !#[trigger] occurs_at(path, pattern, at) by {
            if 0 <= at < path.len() {
                assert(path.contains(path[at]));
            }
        }
        law_all_occurrences_are_replaced(path, pattern, "/"@, 0);
    }
}

} // verus!
