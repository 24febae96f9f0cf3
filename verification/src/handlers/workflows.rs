//! Runs that start a workflow in place of a command.
//!
//! The arguments are checked before anything is started. The result of a workflow
//! is tied to the call that started it only if that call is known for certain.
use vstd::prelude::*;
use vstd::string::*;
use crate::handlers::tool_use_correlation::Claim;
use crate::json::{json_value, parse_json, Json, JsonModel};
use crate::text::{opt_text, text2, text3};

verus! {

/// What the target of a run names.
#[derive(Debug)]
pub enum RunTarget {
    Workflow { workflow_id: String },
    ProjectWorkflow { project: String, workflow_id: String },
    /// Anything else, or nothing.
    Other,
}

/// The workflow that a target names, with its project where it names one.
pub open spec fn workflow_of(target: RunTarget) -> Option<(Option<Seq<char>>, Seq<char>)> {
    match target {
        RunTarget::Workflow { workflow_id } => Some((None, workflow_id@)),
        RunTarget::ProjectWorkflow { project, workflow_id } => Some(
            (Some(project@), workflow_id@),
        ),
        RunTarget::Other => None,
    }
}

/// The first workflow that the targets from `from` on name.
pub open spec fn first_workflow(targets: Seq<RunTarget>, from: int) -> Option<
    (Option<Seq<char>>, Seq<char>),
>
    decreases targets.len() - from,
{
    if from >= targets.len() {
        None
    } else {
        match workflow_of(targets[from]) {
            Some(found) => Some(found),
            None => first_workflow(targets, from + 1),
        }
    }
}

/// The first workflow that a run's targets name.
pub fn detect_workflow_target(targets: &Vec<RunTarget>) -> (found: Option<
    (Option<String>, String),
>)
    ensures
        match (found, first_workflow(targets@, 0)) {
            (Some((project, id)), Some(model)) => opt_text(project) == model.0 && id@ == model.1,
            (None, None) => true,
            _ => false,
        },
{
    let mut i: usize = 0;
    while i < targets.len()
        invariant
            i <= targets@.len(),
            first_workflow(targets@, i as int) == first_workflow(targets@, 0),
        decreases targets.len() - i,
    {
        match &targets[i] {
            RunTarget::Workflow { workflow_id } => {
                return Some((None, workflow_id.clone()));
            },
            RunTarget::ProjectWorkflow { project, workflow_id } => {
                return Some((Some(project.clone()), workflow_id.clone()));
            },
            RunTarget::Other => {},
        }
        i += 1;
    }
    None
}

/// Whether a workflow works on the branch of its caller.
#[derive(Clone, Copy, Debug, PartialEq, Eq, Structural)]
pub enum WorkflowBranchMode {
    NoBranch,
    Inherit,
}

/// A workflow that was found.
#[derive(Debug)]
pub struct Workflow {
    pub script_path: String,
    pub output_schema: Option<String>,
    pub has_args_schema: bool,
    pub branch: WorkflowBranchMode,
}

/// Whether this is the project that a workflow is looked for in.
pub open spec fn is_workflow_place(
    project: &Option<String>,
    named: Result<String, String>,
    current: Option<String>,
    path: Result<Option<String>, String>,
) -> bool {
    match (*project, named) {
        (Some(_), Ok(found)) => path == Ok::<Option<String>, String>(Some(found)),
        (Some(key), Err(error)) => path matches Err(reason) && reason@ == "Project `"@ + key@
            + "` not found: "@ + error@,
        (None, _) => path == Ok::<Option<String>, String>(current),
    }
}

/// Where a workflow is looked for: in the project that the call names, or else in
/// that of the calling run.
pub fn workflow_project_path(
    project: &Option<String>,
    named: Result<String, String>,
    current: Option<String>,
) -> (path: Result<Option<String>, String>)
    ensures
        is_workflow_place(project, named, current, path),
{
    match project {
        Some(key) => match named {
            Ok(found) => Ok(Some(found)),
            Err(error) => {
                let mut reason = text3("Project `", key.as_str(), "` not found: ");
                reason.append(error.as_str());
                Err(reason)
            },
        },
        None => Ok(current),
    }
}

/// Whether a workflow is loaded like this.
pub open spec fn is_loaded(
    workflow_id: &str,
    found: Result<Option<Workflow>, String>,
    workflow: Result<Workflow, String>,
) -> bool {
    match found {
        Ok(Some(loaded)) => workflow == Ok::<Workflow, String>(loaded),
        Ok(None) => workflow matches Err(reason) && reason@ == "Workflow not found: "@
            + workflow_id@,
        Err(error) => workflow matches Err(reason) && reason@ == "Error loading workflow `"@
            + workflow_id@ + "`: "@ + error@,
    }
}

/// The workflow that is started, or why there is none.
pub fn loaded_workflow(workflow_id: &str, found: Result<Option<Workflow>, String>) -> (workflow:
    Result<Workflow, String>)
    ensures
        is_loaded(workflow_id, found, workflow),
{
    match found {
        Ok(Some(loaded)) => Ok(loaded),
        Ok(None) => Err(text2("Workflow not found: ", workflow_id)),
        Err(error) => {
            let mut reason = text3("Error loading workflow `", workflow_id, "`: ");
            reason.append(error.as_str());
            Err(reason)
        },
    }
}

/// Whether arguments can be handed to a workflow: they are a JSON object.
pub open spec fn is_object(value: JsonModel) -> bool {
    value is Object
}

/// Whether a value that was read can be handed to a workflow.
pub fn accept_args(value: &Json) -> (accepted: bool)
    ensures
        accepted == is_object(value.model()),
{
    match value {
        Json::Object(_) => true,
        _ => false,
    }
}

/// Whether these are the arguments that a workflow is given.
pub open spec fn are_args(args_json: Option<&str>, args: Result<String, String>) -> bool {
    match args_json {
        None => args matches Ok(text) && text@ == "{}"@,
        Some(given) => if json_value(given@) matches Ok(value) && is_object(value) {
            args matches Ok(text) && text@ == given@
        } else {
            args matches Err(error) && error@ == "Workflow args_json must be a JSON object."@
        },
    }
}

/// The arguments of a workflow as JSON text: those given, or an empty object.
/// Anything but an object is refused.
pub fn workflow_args(args_json: Option<&str>) -> (args: Result<String, String>)
    ensures
        are_args(args_json, args),
{
    let given = match args_json {
        None => return Ok("{}".to_owned()),
        Some(given) => given,
    };
    if let Ok(value) = parse_json(given) {
        if accept_args(&value) {
            return Ok(given.to_owned());
        }
    }
    Err("Workflow args_json must be a JSON object.".to_owned())
}

/// What is handed on to start a workflow.
#[derive(Debug)]
pub struct WorkflowStart {
    pub workflow_id: String,
    pub script_path: String,
    pub output_schema: Option<String>,
    pub args_json: String,
    pub branch_policy: WorkflowBranchMode,
    pub parent_tool_use_id: Option<String>,
    pub background: bool,
}

/// Whether a workflow is started like this.
pub open spec fn starts_workflow(
    workflow_id: &str,
    workflow: Workflow,
    args_json: String,
    checked: Result<(), String>,
    parent_tool_use_id: Option<String>,
    background: Option<bool>,
    start: Result<WorkflowStart, String>,
) -> bool {
    match (workflow.has_args_schema, checked) {
        (true, Err(error)) => start matches Err(reason) && reason@ == "Workflow `"@
            + workflow_id@ + "` args validation failed.\n\n"@ + error@,
        _ => start matches Ok(started) && {
            &&& started.workflow_id@ == workflow_id@
            &&& started.script_path == workflow.script_path
            &&& started.output_schema == workflow.output_schema
            &&& started.args_json == args_json
            &&& started.branch_policy == workflow.branch
            &&& started.parent_tool_use_id == parent_tool_use_id
            &&& started.background == (background == Some(true))
        },
    }
}

/// Starts a workflow, or says why it is not started. `checked` is how its arguments
/// stand to its schema; without a schema they are not checked.
pub fn invoke_workflow(
    workflow_id: &str,
    workflow: Workflow,
    args_json: String,
    checked: Result<(), String>,
    parent_tool_use_id: Option<String>,
    background: Option<bool>,
) -> (start: Result<WorkflowStart, String>)
    ensures
        starts_workflow(
            workflow_id,
            workflow,
            args_json,
            checked,
            parent_tool_use_id,
            background,
            start,
        ),
{
    if workflow.has_args_schema {
        if let Err(error) = checked {
            let mut reason = text3("Workflow `", workflow_id, "` args validation failed.\n\n");
            reason.append(error.as_str());
            return Err(reason);
        }
    }
    let background = match background {
        Some(flag) => flag,
        None => false,
    };
    Ok(
        WorkflowStart {
            workflow_id: workflow_id.to_owned(),
            script_path: workflow.script_path,
            output_schema: workflow.output_schema,
            args_json,
            branch_policy: workflow.branch,
            parent_tool_use_id,
            background,
        },
    )
}

/// Whether this is the call that started a workflow.
pub open spec fn is_run_call(
    tool_use_id: &Option<String>,
    claim: Claim,
    id: Option<String>,
) -> bool {
    opt_text(id) == match (*tool_use_id, claim) {
        (Some(named), _) => Some(named@),
        (None, Claim::One(claimed)) => Some(claimed@),
        (None, _) => None,
    }
}

/// The call that a workflow was started by: the one that the request names, or
/// else the only one that can be claimed. Where it is not certain there is none.
pub fn invoking_run_call(tool_use_id: &Option<String>, claim: Claim) -> (id: Option<String>)
    ensures
        is_run_call(tool_use_id, claim, id),
{
    match tool_use_id {
        Some(named) => Some(named.clone()),
        None => match claim {
            Claim::One(claimed) => Some(claimed),
            Claim::Missing => None,
            Claim::Ambiguous(_) => None,
        },
    }
}

/// The workflow of a call is the first of its targets that is one, under the project it
/// names where it names one.
pub proof fn law_first_workflow_is_started(targets: Seq<RunTarget>, from: int, at: int)
    requires
        0 <= from <= at <= targets.len(),
        forall|i: int| from <= i < at ==> (#[trigger] targets[i]) is Other,
    ensures
        at == targets.len() ==> first_workflow(targets, from) is None,
        at < targets.len() ==> (targets[at] matches RunTarget::Workflow { workflow_id }
            ==> first_workflow(targets, from) == Some((None::<Seq<char>>, workflow_id@))),
        at < targets.len() ==> (targets[at] matches RunTarget::ProjectWorkflow {
            project,
            workflow_id,
        } ==> first_workflow(targets, from) == Some((Some(project@), workflow_id@))),
    decreases at - from,
{
    if from < at {
        assert(targets[from] is Other);
        law_first_workflow_is_started(targets, from + 1, at);
    }
}

/// Only objects are arguments.
pub proof fn law_arguments_are_objects(value: JsonModel)
    ensures
        is_object(value) <==> value matches JsonModel::Object(_),
{
}

/// A workflow is looked for in the project that is named, and that must be there; without
/// one in the current project.
pub proof fn law_workflow_is_looked_for_where_it_is_named(
    project: &Option<String>,
    named: Result<String, String>,
    current: Option<String>,
    path: Result<Option<String>, String>,
)
    requires
        is_workflow_place(project, named, current, path),
    ensures
        *project is None ==> path == Ok::<Option<String>, String>(current),
        *project is Some ==> (path is Ok <==> named is Ok),
        *project is Some ==> (named matches Ok(found) ==> path == Ok::<Option<String>, String>(
            Some(found),
        )),
{
}

/// A workflow is loaded exactly if it was found.
pub proof fn law_workflow_is_the_one_that_was_found(
    id: &str,
    found: Result<Option<Workflow>, String>,
    workflow: Result<Workflow, String>,
)
    requires
        is_loaded(id, found, workflow),
    ensures
        workflow is Ok <==> (found matches Ok(Some(_))),
        workflow matches Ok(loaded) ==> found == Ok::<Option<Workflow>, String>(Some(loaded)),
        found matches Ok(None) ==> workflow->Err_0@ == "Workflow not found: "@ + id@,
{
}

/// The arguments of a workflow are those that were given, which must be an object, or an
/// empty object.
pub proof fn law_arguments_are_those_given(given: Option<&str>, args: Result<String, String>)
    requires
        are_args(given, args),
    ensures
        given is None ==> args->Ok_0@ == "{}"@ && args is Ok,
        given matches Some(text) ==> (args is Ok <==> (json_value(text@) matches Ok(value) && value
            is Object)),
        given matches Some(text) ==> (args matches Ok(taken) ==> taken@ == text@),
{
}

/// A workflow is started exactly if its arguments are sound, or are not checked at all; with
/// its script, its schema, its branch and the given arguments, and in the background only
/// if that is asked for.
pub proof fn law_workflow_is_started_as_asked(
    id: &str,
    workflow: Workflow,
    args: String,
    checked: Result<(), String>,
    parent: Option<String>,
    background: Option<bool>,
    start: Result<WorkflowStart, String>,
)
    requires
        starts_workflow(id, workflow, args, checked, parent, background, start),
    ensures
        start is Ok <==> !workflow.has_args_schema || checked is Ok,
        start matches Ok(started) ==> {
            &&& started.workflow_id@ == id@
            &&& started.script_path == workflow.script_path
            &&& started.output_schema == workflow.output_schema
            &&& started.args_json == args
            &&& started.branch_policy == workflow.branch
            &&& started.parent_tool_use_id == parent
            &&& started.background <==> background == Some(true)
        },
{
}

/// The call that started a workflow is the one that is named, or else the only one that it
/// can be.
pub proof fn law_named_call_comes_first(
    named: &Option<String>,
    claim: Claim,
    id: Option<String>,
)
    requires
        is_run_call(named, claim, id),
    ensures
        *named matches Some(call) ==> opt_text(id) == Some(call@),
        *named is None ==> (claim matches Claim::One(call) ==> opt_text(id) == Some(call@)),
        *named is None && !(claim is One) ==> id is None,
{
}

} // verus!
