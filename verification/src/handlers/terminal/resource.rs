//! The resources that name a terminal, and the directory, job and project that
//! each of them stands for.
use vstd::prelude::*;
use vstd::string::*;
use crate::handlers::terminal::lease::{FenceModel, LeaseFence};
use crate::text::{
    opt_text, render_i32, same_text, signed_decimal, text2, text3, to_uppercase, uppercase,
};

verus! {

/// A resource, as far as terminals are concerned.
#[derive(Debug)]
pub enum TerminalResource {
    Node { project: String, number: i32, exec_seq: i32, node_id: String, slug: String },
    Task {
        project: String,
        number: i32,
        exec_seq: i32,
        node_id: String,
        task_name: String,
        slug: String,
    },
    Project { project: String, slug: String },
    Other,
}

/// What a resource says.
#[verifier::ext_equal]
pub enum ResourceModel {
    Node { project: Seq<char>, number: i32, exec_seq: i32, node_id: Seq<char>, slug: Seq<char> },
    Task {
        project: Seq<char>,
        number: i32,
        exec_seq: i32,
        node_id: Seq<char>,
        task_name: Seq<char>,
        slug: Seq<char>,
    },
    Project { project: Seq<char>, slug: Seq<char> },
    Other,
}

impl View for TerminalResource {
    type V = ResourceModel;

    open spec fn view(&self) -> ResourceModel {
        match *self {
            TerminalResource::Node { project, number, exec_seq, node_id, slug } => {
                ResourceModel::Node {
                    project: project@,
                    number,
                    exec_seq,
                    node_id: node_id@,
                    slug: slug@,
                }
            },
            TerminalResource::Task { project, number, exec_seq, node_id, task_name, slug } => {
                ResourceModel::Task {
                    project: project@,
                    number,
                    exec_seq,
                    node_id: node_id@,
                    task_name: task_name@,
                    slug: slug@,
                }
            },
            TerminalResource::Project { project, slug } => ResourceModel::Project {
                project: project@,
                slug: slug@,
            },
            TerminalResource::Other => ResourceModel::Other,
        }
    }
}

impl ResourceModel {
    /// The slug that the resource names; a resource that is no terminal has the
    /// name of all of them.
    pub open spec fn named_slug(self) -> Seq<char> {
        match self {
            ResourceModel::Node { slug, .. } => slug,
            ResourceModel::Task { slug, .. } => slug,
            ResourceModel::Project { slug, .. } => slug,
            ResourceModel::Other => "terminal"@,
        }
    }
}

/// The slug that a resource names.
pub fn resource_slug(resource: &TerminalResource) -> (slug: String)
    ensures
        slug@ == resource@.named_slug(),
{
    match resource {
        TerminalResource::Node { slug, .. } => slug.clone(),
        TerminalResource::Task { slug, .. } => slug.clone(),
        TerminalResource::Project { slug, .. } => slug.clone(),
        TerminalResource::Other => "terminal".to_owned(),
    }
}

/// The row of a job with its project, issue and execution, as a resource needs it.
#[derive(Debug)]
pub struct JobPlace {
    pub project: String,
    pub number: i32,
    pub exec_seq: i32,
    pub segment: String,
    pub parent_segment: Option<String>,
}

/// The resource of a terminal of a job: a task under its parent's node, or a node.
pub open spec fn job_resource(place: JobPlace, slug: Seq<char>) -> ResourceModel {
    match place.parent_segment {
        Some(parent) => ResourceModel::Task {
            project: place.project@,
            number: place.number,
            exec_seq: place.exec_seq,
            node_id: parent@,
            task_name: place.segment@,
            slug,
        },
        None => ResourceModel::Node {
            project: place.project@,
            number: place.number,
            exec_seq: place.exec_seq,
            node_id: place.segment@,
            slug,
        },
    }
}

/// Whether this is the terminal of a job.
pub open spec fn is_resource_of_job(
    job_id: &str,
    place: Option<JobPlace>,
    slug: String,
    resource: Result<TerminalResource, String>,
) -> bool {
    match (place, resource) {
        (Some(found), Ok(named)) => named@ == job_resource(found, slug@),
        (None, Err(error)) => error@ == "Job not found: "@ + job_id@,
        _ => false,
    }
}

/// The resource of a terminal of a job, or that there is no such job.
pub fn terminal_resource_for_job(job_id: &str, place: Option<JobPlace>, slug: String) -> (resource:
    Result<TerminalResource, String>)
    ensures
        is_resource_of_job(job_id, place, slug, resource),
{
    match place {
        None => Err(text2("Job not found: ", job_id)),
        Some(found) => match found.parent_segment {
            Some(parent) => Ok(
                TerminalResource::Task {
                    project: found.project,
                    number: found.number,
                    exec_seq: found.exec_seq,
                    node_id: parent,
                    task_name: found.segment,
                    slug,
                },
            ),
            None => Ok(
                TerminalResource::Node {
                    project: found.project,
                    number: found.number,
                    exec_seq: found.exec_seq,
                    node_id: found.segment,
                    slug,
                },
            ),
        },
    }
}

/// Whether this is the terminal of a project.
pub open spec fn is_resource_of_project(
    project_id: &str,
    key: Option<String>,
    slug: String,
    resource: Result<TerminalResource, String>,
) -> bool {
    match (key, resource) {
        (Some(project), Ok(named)) => named@ == (ResourceModel::Project {
            project: project@,
            slug: slug@,
        }),
        (None, Err(error)) => error@ == "Project not found: "@ + project_id@,
        _ => false,
    }
}

/// The resource of a terminal of a project, or that there is no such project.
pub fn terminal_resource_for_project(project_id: &str, key: Option<String>, slug: String) -> (
    resource: Result<TerminalResource, String>)
    ensures
        is_resource_of_project(project_id, key, slug, resource),
{
    match key {
        None => Err(text2("Project not found: ", project_id)),
        Some(project) => Ok(TerminalResource::Project { project, slug }),
    }
}

/// Who owns the terminals of a directory.
#[derive(Debug)]
pub enum TerminalOwner {
    Job(String),
    Project(String),
}

/// Whether this is who a directory belongs to.
pub open spec fn is_owner_of(
    cwd: &str,
    job_id: Option<String>,
    project_id: Option<String>,
    owner: Result<TerminalOwner, String>,
) -> bool {
    match (job_id, project_id) {
        (Some(job), _) => owner == Ok::<TerminalOwner, String>(TerminalOwner::Job(job)),
        (None, Some(project)) => owner == Ok::<TerminalOwner, String>(
            TerminalOwner::Project(project),
        ),
        (None, None) => owner matches Err(error) && error@
            == "Terminal cwd is not inside a managed project or agent worktree: "@ + cwd@,
    }
}

/// Who owns a terminal that is opened in a directory: the job whose worktree holds
/// it, or else the project whose checkout does.
pub fn terminal_resource_for_cwd(
    cwd: &str,
    job_id: Option<String>,
    project_id: Option<String>,
) -> (owner: Result<TerminalOwner, String>)
    ensures
        is_owner_of(cwd, job_id, project_id, owner),
{
    match (job_id, project_id) {
        (Some(job), _) => Ok(TerminalOwner::Job(job)),
        (None, Some(project)) => Ok(TerminalOwner::Project(project)),
        (None, None) => Err(
            text2("Terminal cwd is not inside a managed project or agent worktree: ", cwd),
        ),
    }
}

/// The job and node that a cell is held for.
#[derive(Debug)]
pub struct CellOwnerRef {
    pub project_id: String,
    pub project_key: Option<String>,
    pub issue_number: Option<i32>,
    pub job_id: Option<String>,
    pub execution_seq: Option<i32>,
    pub node_kind: Option<String>,
}

/// What an owner reference says.
#[verifier::ext_equal]
pub struct OwnerRefModel {
    pub project_id: Seq<char>,
    pub project_key: Option<Seq<char>>,
    pub issue_number: Option<i32>,
    pub job_id: Option<Seq<char>>,
    pub execution_seq: Option<i32>,
    pub node_kind: Option<Seq<char>>,
}

impl View for CellOwnerRef {
    type V = OwnerRefModel;

    open spec fn view(&self) -> OwnerRefModel {
        OwnerRefModel {
            project_id: self.project_id@,
            project_key: opt_text(self.project_key),
            issue_number: self.issue_number,
            job_id: opt_text(self.job_id),
            execution_seq: self.execution_seq,
            node_kind: opt_text(self.node_kind),
        }
    }
}

/// What a terminal resource stands for.
#[derive(Debug)]
pub struct TerminalResourceTarget {
    pub slug: String,
    pub job_id: Option<String>,
    pub project_id: String,
    pub run_id: Option<String>,
    pub cwd: String,
    pub branch: Option<String>,
    pub repo_path: String,
    pub owner_ref: Option<CellOwnerRef>,
    pub lease: Option<LeaseFence>,
}

/// What a target says.
#[verifier::ext_equal]
pub struct TargetModel {
    pub slug: Seq<char>,
    pub job_id: Option<Seq<char>>,
    pub project_id: Seq<char>,
    pub run_id: Option<Seq<char>>,
    pub cwd: Seq<char>,
    pub branch: Option<Seq<char>>,
    pub repo_path: Seq<char>,
    pub owner_ref: Option<OwnerRefModel>,
    pub lease: Option<FenceModel>,
}

impl View for TerminalResourceTarget {
    type V = TargetModel;

    open spec fn view(&self) -> TargetModel {
        TargetModel {
            slug: self.slug@,
            job_id: opt_text(self.job_id),
            project_id: self.project_id@,
            run_id: opt_text(self.run_id),
            cwd: self.cwd@,
            branch: opt_text(self.branch),
            repo_path: self.repo_path@,
            owner_ref: match self.owner_ref {
                Some(owner) => Some(owner@),
                None => None,
            },
            lease: match self.lease {
                Some(fence) => Some(fence@),
                None => None,
            },
        }
    }
}

/// The newest run of a job with its project, or a project: what a target takes
/// over from the store.
#[derive(Debug)]
pub struct TargetRow {
    pub project_id: String,
    pub cwd: String,
    pub run_id: Option<String>,
    pub branch: Option<String>,
    pub repo_path: String,
}

/// The place of a node: `project-number/sequence/node`.
pub open spec fn node_place(
    project: Seq<char>,
    number: i32,
    exec_seq: i32,
    node_id: Seq<char>,
) -> Seq<char> {
    project + "-"@ + signed_decimal(number as int) + "/"@ + signed_decimal(exec_seq as int) + "/"@
        + node_id
}

/// Renders the place of a node.
fn render_place(project: &str, number: i32, exec_seq: i32, node_id: &str) -> (place: String)
    ensures
        place@ == node_place(project@, number, exec_seq, node_id@),
{
    let mut place = text3(project, "-", render_i32(number).as_str());
    place.append("/");
    place.append(render_i32(exec_seq).as_str());
    place.append("/");
    place.append(node_id);
    place
}

/// The key by which the project of a resource is looked up: its upper case.
pub open spec fn project_key(resource: ResourceModel) -> Option<Seq<char>> {
    match resource {
        ResourceModel::Node { project, .. } => Some(uppercase(project)),
        ResourceModel::Task { project, .. } => Some(uppercase(project)),
        ResourceModel::Project { project, .. } => Some(uppercase(project)),
        ResourceModel::Other => None,
    }
}

/// The key by which the project of a resource is looked up.
pub fn lookup_key(resource: &TerminalResource) -> (key: Option<String>)
    ensures
        opt_text(key) == project_key(resource@),
{
    match resource {
        TerminalResource::Node { project, .. } => Some(to_uppercase(project.as_str())),
        TerminalResource::Task { project, .. } => Some(to_uppercase(project.as_str())),
        TerminalResource::Project { project, .. } => Some(to_uppercase(project.as_str())),
        TerminalResource::Other => None,
    }
}

/// The target of a terminal of a job.
pub open spec fn job_target(
    slug: Seq<char>,
    job_id: Seq<char>,
    row: TargetRow,
    project: Seq<char>,
    number: i32,
    exec_seq: i32,
    kind: Seq<char>,
) -> TargetModel {
    TargetModel {
        slug,
        job_id: Some(job_id),
        project_id: row.project_id@,
        run_id: opt_text(row.run_id),
        cwd: row.cwd@,
        branch: opt_text(row.branch),
        repo_path: row.repo_path@,
        owner_ref: Some(
            OwnerRefModel {
                project_id: row.project_id@,
                project_key: Some(project),
                issue_number: Some(number),
                job_id: Some(job_id),
                execution_seq: Some(exec_seq),
                node_kind: Some(kind),
            },
        ),
        lease: None,
    }
}

/// The target that a resource stands for, or why it stands for none. `job` is the
/// job found for a node or a task, `row` its row or that of the project.
pub open spec fn resolved_target(
    resource: ResourceModel,
    job: Option<Seq<char>>,
    row: Option<TargetRow>,
) -> Result<TargetModel, Seq<char>> {
    match resource {
        ResourceModel::Node { project, number, exec_seq, node_id, slug } => match (job, row) {
            (None, _) => Err(
                "No node job found for terminal target "@ + node_place(
                    project,
                    number,
                    exec_seq,
                    node_id,
                ),
            ),
            (Some(id), None) => Err("No job found for id "@ + id),
            (Some(id), Some(found)) => Ok(
                job_target(slug, id, found, project, number, exec_seq, node_id),
            ),
        },
        ResourceModel::Task { project, number, exec_seq, node_id, task_name, slug } => match (
            job,
            row,
        ) {
            (None, _) => Err(
                "No task job found for terminal target "@ + node_place(
                    project,
                    number,
                    exec_seq,
                    node_id,
                ) + "/task/"@ + task_name,
            ),
            (Some(id), None) => Err("No job found for id "@ + id),
            (Some(id), Some(found)) => Ok(
                job_target(slug, id, found, project, number, exec_seq, task_name),
            ),
        },
        ResourceModel::Project { project, slug } => match row {
            None => Err("No project found for key "@ + project),
            Some(found) => Ok(
                TargetModel {
                    slug,
                    job_id: None,
                    project_id: found.project_id@,
                    run_id: None,
                    cwd: found.repo_path@,
                    branch: None,
                    repo_path: found.repo_path@,
                    owner_ref: None,
                    lease: None,
                },
            ),
        },
        ResourceModel::Other => Err("Resource is not a terminal URI"@),
    }
}

/// The target of a terminal of a job.
fn target_of_job(
    slug: &str,
    job_id: String,
    row: TargetRow,
    project: &str,
    number: i32,
    exec_seq: i32,
    kind: &str,
) -> (target: TerminalResourceTarget)
    ensures
        target@ == job_target(slug@, job_id@, row, project@, number, exec_seq, kind@),
{
    TerminalResourceTarget {
        slug: slug.to_owned(),
        job_id: Some(job_id.clone()),
        project_id: row.project_id.clone(),
        run_id: row.run_id,
        cwd: row.cwd,
        branch: row.branch,
        repo_path: row.repo_path,
        owner_ref: Some(
            CellOwnerRef {
                project_id: row.project_id,
                project_key: Some(project.to_owned()),
                issue_number: Some(number),
                job_id: Some(job_id),
                execution_seq: Some(exec_seq),
                node_kind: Some(kind.to_owned()),
            },
        ),
        lease: None,
    }
}

/// Resolves what a terminal resource stands for. `job` is the job found for a node
/// or a task, `row` its row or that of the project.
pub fn resolve_terminal_resource_target(
    resource: &TerminalResource,
    job: Option<String>,
    row: Option<TargetRow>,
) -> (target: Result<TerminalResourceTarget, String>)
    ensures
        match (target, resolved_target(resource@, opt_text(job), row)) {
            (Ok(found), Ok(model)) => found@ == model,
            (Err(error), Err(reason)) => error@ == reason,
            _ => false,
        },
{
    match resource {
        TerminalResource::Node { project, number, exec_seq, node_id, slug } => match job {
            None => {
                let place = render_place(project.as_str(), *number, *exec_seq, node_id.as_str());
                Err(text2("No node job found for terminal target ", place.as_str()))
            },
            Some(id) => match row {
                None => Err(text2("No job found for id ", id.as_str())),
                Some(found) => Ok(
                    target_of_job(
                        slug.as_str(),
                        id,
                        found,
                        project.as_str(),
                        *number,
                        *exec_seq,
                        node_id.as_str(),
                    ),
                ),
            },
        },
        TerminalResource::Task { project, number, exec_seq, node_id, task_name, slug } => match job {
            None => {
                let place = render_place(project.as_str(), *number, *exec_seq, node_id.as_str());
                let mut error = text3(
                    "No task job found for terminal target ",
                    place.as_str(),
                    "/task/",
                );
                error.append(task_name.as_str());
                Err(error)
            },
            Some(id) => match row {
                None => Err(text2("No job found for id ", id.as_str())),
                Some(found) => Ok(
                    target_of_job(
                        slug.as_str(),
                        id,
                        found,
                        project.as_str(),
                        *number,
                        *exec_seq,
                        task_name.as_str(),
                    ),
                ),
            },
        },
        TerminalResource::Project { project, slug } => match row {
            None => Err(text2("No project found for key ", project.as_str())),
            Some(found) => Ok(
                TerminalResourceTarget {
                    slug: slug.clone(),
                    job_id: None,
                    project_id: found.project_id,
                    run_id: None,
                    cwd: found.repo_path.clone(),
                    branch: None,
                    repo_path: found.repo_path,
                    owner_ref: None,
                    lease: None,
                },
            ),
        },
        TerminalResource::Other => Err("Resource is not a terminal URI".to_owned()),
    }
}

/// The slug that a resource names is the slug of the target that it stands for.
pub proof fn law_target_keeps_the_slug(
    resource: ResourceModel,
    job: Option<Seq<char>>,
    row: Option<TargetRow>,
)
    ensures
        resolved_target(resource, job, row) matches Ok(target) ==> target.slug
            == resource.named_slug() && target.lease is None,
{
}

/// The row of a terminal that is stored.
#[derive(Debug)]
pub struct StoredTerminal {
    pub job_id: Option<String>,
    pub project_id: Option<String>,
    pub slug: Option<String>,
    pub status: String,
    pub session_id: String,
}

/// Whether a row is a terminal of the target's scope under its slug: that of its
/// job, or of its project outside any job.
pub open spec fn in_scope(row: StoredTerminal, target: TargetModel) -> bool {
    &&& opt_text(row.slug) == Some(target.slug)
    &&& match target.job_id {
        Some(job) => opt_text(row.job_id) == Some(job),
        None => row.job_id is None && opt_text(row.project_id) == Some(target.project_id),
    }
}

/// Whether an optional string holds the given text.
fn holds(item: &Option<String>, text: &str) -> (held: bool)
    ensures
        held == (opt_text(*item) == Some(text@)),
{
    match item {
        Some(found) => same_text(found.as_str(), text),
        None => false,
    }
}

/// Whether a row is a terminal of the target's scope under its slug.
pub fn row_in_scope(row: &StoredTerminal, target: &TerminalResourceTarget) -> (found: bool)
    ensures
        found == in_scope(*row, target@),
{
    holds(&row.slug, target.slug.as_str()) && match &target.job_id {
        Some(job) => holds(&row.job_id, job.as_str()),
        None => row.job_id.is_none() && holds(&row.project_id, target.project_id.as_str()),
    }
}

/// Whether the slug is taken: by a terminal in any state, or only by a running one.
pub open spec fn slug_taken(rows: Seq<StoredTerminal>, target: TargetModel, running: bool) -> bool {
    exists|i: int|
        0 <= i < rows.len() && #[trigger] in_scope(rows[i], target) && (running
            ==> rows[i].status@ == "running"@)
}

/// Whether the slug is taken: by a terminal in any state, or only by a running one.
pub fn terminal_slug_taken(
    rows: &Vec<StoredTerminal>,
    target: &TerminalResourceTarget,
    running: bool,
) -> (taken: bool)
    ensures
        taken == slug_taken(rows@, target@, running),
{
    let mut i: usize = 0;
    while i < rows.len()
        invariant
            i <= rows@.len(),
            forall|j: int|
                0 <= j < i && #[trigger] in_scope(rows@[j], target@) ==> running
                    && rows@[j].status@ != "running"@,
        decreases rows.len() - i,
    {
        if row_in_scope(&rows[i], target) && (!running || same_text(
            rows[i].status.as_str(),
            "running",
        )) {
            assert(in_scope(rows@[i as int], target@));
            return true;
        }
        i += 1;
    }
    false
}

/// Whether a slug is free like this.
pub open spec fn is_available(
    rows: &Vec<StoredTerminal>,
    target: &TerminalResourceTarget,
    available: Result<(), String>,
) -> bool {
    match available {
        Ok(()) => !slug_taken(rows@, target@, true),
        Err(error) => slug_taken(rows@, target@, true) && error@
            == "A running terminal already exists in this scope: "@ + target.slug@,
    }
}

/// Accepts a slug for a new terminal unless a running terminal of the scope has
/// it. A terminal that has exited does not block its slug.
pub fn ensure_terminal_slug_available(
    rows: &Vec<StoredTerminal>,
    target: &TerminalResourceTarget,
) -> (available: Result<(), String>)
    ensures
        is_available(rows, target, available),
{
    if terminal_slug_taken(rows, target, true) {
        Err(text2("A running terminal already exists in this scope: ", target.slug.as_str()))
    } else {
        Ok(())
    }
}

/// The session of the target's terminal, in any state.
pub open spec fn session_from(rows: Seq<StoredTerminal>, target: TargetModel, from: int) -> Option<
    Seq<char>,
>
    decreases rows.len() - from,
{
    if from >= rows.len() {
        None
    } else if in_scope(rows[from], target) {
        Some(rows[from].session_id@)
    } else {
        session_from(rows, target, from + 1)
    }
}

/// Whether this is the session of a target.
pub open spec fn is_session_of(
    rows: &Vec<StoredTerminal>,
    target: &TerminalResourceTarget,
    session: Result<String, String>,
) -> bool {
    match (session, session_from(rows@, target@, 0)) {
        (Ok(id), Some(found)) => id@ == found,
        (Err(error), None) => error@ == "Terminal not found: "@ + target.slug@,
        _ => false,
    }
}

/// The session of the target's terminal, or that there is no such terminal.
pub fn lookup_terminal_session_id_for_target(
    rows: &Vec<StoredTerminal>,
    target: &TerminalResourceTarget,
) -> (session: Result<String, String>)
    ensures
        is_session_of(rows, target, session),
{
    let mut i: usize = 0;
    while i < rows.len()
        invariant
            i <= rows@.len(),
            session_from(rows@, target@, i as int) == session_from(rows@, target@, 0),
        decreases rows.len() - i,
    {
        if row_in_scope(&rows[i], target) {
            return Ok(rows[i].session_id.clone());
        }
        i += 1;
    }
    Err(text2("Terminal not found: ", target.slug.as_str()))
}

/// The terminal of a job is addressed below its node, or below its task in the node that the
/// task belongs to.
pub proof fn law_terminal_of_a_job_is_addressed_by_its_place(place: JobPlace, slug: Seq<char>)
    ensures
        job_resource(place, slug).named_slug() == slug,
        place.parent_segment matches Some(parent) ==> job_resource(place, slug) == (
        ResourceModel::Task {
            project: place.project@,
            number: place.number,
            exec_seq: place.exec_seq,
            node_id: parent@,
            task_name: place.segment@,
            slug,
        }),
        place.parent_segment is None ==> job_resource(place, slug) == (ResourceModel::Node {
            project: place.project@,
            number: place.number,
            exec_seq: place.exec_seq,
            node_id: place.segment@,
            slug,
        }),
{
}

/// A terminal of a node or task runs in the worktree of its job, on the job's branch and in
/// the job's name; one of a project in the project's repository, without a branch.
pub proof fn law_terminal_runs_where_it_belongs(
    resource: ResourceModel,
    job: Seq<char>,
    row: TargetRow,
)
    ensures
        ({
            let found = resolved_target(resource, Some(job), Some(row));
            &&& found is Ok <==> !(resource is Other)
            &&& found matches Ok(target) ==> {
                &&& target.slug == resource.named_slug()
                &&& target.project_id == row.project_id@
                &&& target.repo_path == row.repo_path@
                &&& target.lease is None
                &&& resource is Project ==> target.job_id is None && target.run_id is None
                    && target.branch is None && target.cwd == row.repo_path@ && target.owner_ref
                    is None
                &&& !(resource is Project) ==> target.job_id == Some(job) && target.run_id
                    == opt_text(row.run_id) && target.branch == opt_text(row.branch) && target.cwd
                    == row.cwd@
                &&& resource matches ResourceModel::Node { project, number, exec_seq, node_id, .. }
                    ==> target.owner_ref == Some(
                    OwnerRefModel {
                        project_id: row.project_id@,
                        project_key: Some(project),
                        issue_number: Some(number),
                        job_id: Some(job),
                        execution_seq: Some(exec_seq),
                        node_kind: Some(node_id),
                    },
                )
                &&& resource matches ResourceModel::Task {
                    project,
                    number,
                    exec_seq,
                    task_name,
                    ..
                } ==> target.owner_ref == Some(
                    OwnerRefModel {
                        project_id: row.project_id@,
                        project_key: Some(project),
                        issue_number: Some(number),
                        job_id: Some(job),
                        execution_seq: Some(exec_seq),
                        node_kind: Some(task_name),
                    },
                )
            }
        }),
{
}

/// A target that is not found is told by the place that was looked for.
pub proof fn law_missing_target_is_told(
    project: Seq<char>,
    number: i32,
    exec_seq: i32,
    node_id: Seq<char>,
    task_name: Seq<char>,
    slug: Seq<char>,
    row: Option<TargetRow>,
    job: Seq<char>,
)
    ensures
        ({
            let place = project + "-"@ + signed_decimal(number as int) + "/"@ + signed_decimal(
                exec_seq as int,
            ) + "/"@ + node_id;
            let node = ResourceModel::Node { project, number, exec_seq, node_id, slug };
            let task = ResourceModel::Task { project, number, exec_seq, node_id, task_name, slug };
            &&& resolved_target(node, None, row) == Err::<TargetModel, Seq<char>>(
                "No node job found for terminal target "@ + place,
            )
            &&& resolved_target(task, None, row) == Err::<TargetModel, Seq<char>>(
                "No task job found for terminal target "@ + place + "/task/"@ + task_name,
            )
            &&& resolved_target(node, Some(job), None) == Err::<TargetModel, Seq<char>>(
                "No job found for id "@ + job,
            )
            &&& resolved_target(ResourceModel::Project { project, slug }, None, None) == Err::<
                TargetModel,
                Seq<char>,
            >("No project found for key "@ + project)
        }),
        project_key(ResourceModel::Project { project, slug }) == Some(uppercase(project)),
        project_key(ResourceModel::Node { project, number, exec_seq, node_id, slug }) == Some(
            uppercase(project),
        ),
        project_key(ResourceModel::Other) is None,
{
}

/// A row is in the scope of a target exactly if it has its slug and belongs to its job, or,
/// where it has none, to its project and to no job.
pub proof fn law_rows_belong_to_one_scope(row: StoredTerminal, target: TargetModel)
    ensures
        in_scope(row, target) ==> (row.slug matches Some(slug) && slug@ == target.slug),
        target.job_id matches Some(job) ==> (in_scope(row, target) <==> opt_text(row.slug) == Some(
            target.slug,
        ) && opt_text(row.job_id) == Some(job)),
        target.job_id is None ==> (in_scope(row, target) <==> opt_text(row.slug) == Some(
            target.slug,
        ) && row.job_id is None && opt_text(row.project_id) == Some(target.project_id)),
{
}

/// A slug is taken exactly if a row of its scope has it, and runs where only running ones
/// count.
pub proof fn law_slug_is_taken_iff_a_row_has_it(
    rows: Seq<StoredTerminal>,
    target: TargetModel,
    at: int,
)
    ensures
        0 <= at < rows.len() && in_scope(rows[at], target) ==> slug_taken(rows, target, false),
        0 <= at < rows.len() && in_scope(rows[at], target) && rows[at].status@ == "running"@
            ==> slug_taken(rows, target, true),
        slug_taken(rows, target, true) ==> slug_taken(rows, target, false) && exists|i: int|
            0 <= i < rows.len() && #[trigger] in_scope(rows[i], target) && rows[i].status@
                == "running"@,
        (forall|i: int| 0 <= i < rows.len() ==> !#[trigger] in_scope(rows[i], target))
            ==> !slug_taken(rows, target, false),
{
}

/// The session of a target is that of the first row in its scope.
pub proof fn law_first_row_in_scope_gives_the_session(
    rows: Seq<StoredTerminal>,
    target: TargetModel,
    from: int,
    at: int,
)
    requires
        0 <= from <= at <= rows.len(),
        forall|i: int| from <= i < at ==> !#[trigger] in_scope(rows[i], target),
        at < rows.len() ==> in_scope(rows[at], target),
    ensures
        at < rows.len() ==> session_from(rows, target, from) == Some(rows[at].session_id@),
        at == rows.len() ==> session_from(rows, target, from) is None,
    decreases at - from,
{
    if from < at {
        assert(!in_scope(rows[from], target));
        law_first_row_in_scope_gives_the_session(rows, target, from + 1, at);
    }
}

/// A directory belongs to its job, or else to its project, and to one of them.
pub proof fn law_directory_belongs_to_job_or_project(
    cwd: &str,
    job_id: Option<String>,
    project_id: Option<String>,
    owner: Result<TerminalOwner, String>,
)
    requires
        is_owner_of(cwd, job_id, project_id, owner),
    ensures
        owner is Ok <==> job_id is Some || project_id is Some,
        job_id matches Some(job) ==> owner == Ok::<TerminalOwner, String>(TerminalOwner::Job(job)),
        job_id is None ==> (project_id matches Some(project) ==> owner == Ok::<
            TerminalOwner,
            String,
        >(TerminalOwner::Project(project))),
{
}

/// A terminal has an address exactly if its job or project is known; it keeps its slug.
pub proof fn law_known_owners_have_terminals(
    job_id: &str,
    place: Option<JobPlace>,
    project_id: &str,
    key: Option<String>,
    slug: String,
    of_job: Result<TerminalResource, String>,
    of_project: Result<TerminalResource, String>,
)
    requires
        is_resource_of_job(job_id, place, slug, of_job),
        is_resource_of_project(project_id, key, slug, of_project),
    ensures
        of_job is Ok <==> place is Some,
        of_project is Ok <==> key is Some,
        of_job matches Ok(named) ==> named@.named_slug() == slug@,
        of_project matches Ok(named) ==> named@.named_slug() == slug@ && named@ is Project,
{
}

/// A slug is free exactly if no terminal of its scope runs under it; the session of a target is
/// found exactly if there is a row in its scope.
pub proof fn law_slug_is_free_unless_it_runs(
    rows: &Vec<StoredTerminal>,
    target: &TerminalResourceTarget,
    available: Result<(), String>,
    session: Result<String, String>,
    at: int,
)
    requires
        is_available(rows, target, available),
        is_session_of(rows, target, session),
        0 <= at < rows@.len(),
    ensures
        in_scope(rows@[at], target@) && rows@[at].status@ == "running"@ ==> available is Err,
        (forall|i: int| 0 <= i < rows@.len() ==> !#[trigger] in_scope(rows@[i], target@))
            ==> available is Ok && session is Err,
        (forall|i: int| 0 <= i < at ==> !#[trigger] in_scope(rows@[i], target@)) && in_scope(
            rows@[at],
            target@,
        ) ==> (session matches Ok(id) && id@ == rows@[at].session_id@),
{
    if forall|i: int| 0 <= i < rows@.len() ==> !#[trigger] in_scope(rows@[i], target@) {
        law_first_row_in_scope_gives_the_session(rows@, target@, 0, rows@.len() as int);
    }
    if (forall|i: int| 0 <= i < at ==> !#[trigger] in_scope(rows@[i], target@)) && in_scope(
        rows@[at],
        target@,
    ) {
        law_first_row_in_scope_gives_the_session(rows@, target@, 0, at);
    }
}

} // verus!
