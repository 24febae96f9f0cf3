//! Starting a terminal under a lease.
//!
//! The row of a terminal stands before its events are listened to, and both
//! before its process starts: the process may exit before its start is answered.
//! Whatever fails on the way, all that was made is taken back first.
use vstd::prelude::*;
use vstd::string::*;
use crate::handlers::terminal::acquire::{AnswerKind, LeaseAnswer};
use crate::handlers::terminal::lease::{
    clone_fence, process_with_key, CellState, LeaseFence, LeaseState, ProcessState, TerminalBinding,
};
use crate::handlers::terminal::output::AgentTerminalCreatedPayload;
use crate::handlers::terminal::resource::{
    in_scope, row_in_scope, ResourceModel, slug_taken, StoredTerminal, TargetModel, TerminalResource,
    TerminalResourceTarget,
};
use crate::text::{
    byte_len, clone_opt, decimal, opt_str, opt_text, render_u64, render_usize, same_text, text2, text3,
    texts, utf8_len,
};

verus! {

/// The row of a new terminal.
#[derive(Debug)]
pub struct TerminalRow {
    pub id: String,
    pub job_id: Option<String>,
    pub project_id: Option<String>,
    pub run_id: Option<String>,
    pub session_id: String,
    pub command: String,
    pub title: Option<String>,
    pub description: Option<String>,
    pub status: String,
    pub exit_code: Option<i32>,
    pub created_at: i32,
    pub exited_at: Option<i64>,
    pub slug: String,
    pub lease_id: Option<String>,
    pub lease_incarnation_id: Option<String>,
    pub lease_epoch: Option<u64>,
}

/// What a row says.
#[verifier::ext_equal]
pub struct TerminalRowModel {
    pub id: Seq<char>,
    pub job_id: Option<Seq<char>>,
    pub project_id: Option<Seq<char>>,
    pub run_id: Option<Seq<char>>,
    pub session_id: Seq<char>,
    pub command: Seq<char>,
    pub title: Option<Seq<char>>,
    pub description: Option<Seq<char>>,
    pub status: Seq<char>,
    pub exit_code: Option<i32>,
    pub created_at: i32,
    pub exited_at: Option<i64>,
    pub slug: Seq<char>,
    pub lease_id: Option<Seq<char>>,
    pub lease_incarnation_id: Option<Seq<char>>,
    pub lease_epoch: Option<u64>,
}

impl View for TerminalRow {
    type V = TerminalRowModel;

    open spec fn view(&self) -> TerminalRowModel {
        TerminalRowModel {
            id: self.id@,
            job_id: opt_text(self.job_id),
            project_id: opt_text(self.project_id),
            run_id: opt_text(self.run_id),
            session_id: self.session_id@,
            command: self.command@,
            title: opt_text(self.title),
            description: opt_text(self.description),
            status: self.status@,
            exit_code: self.exit_code,
            created_at: self.created_at,
            exited_at: self.exited_at,
            slug: self.slug@,
            lease_id: opt_text(self.lease_id),
            lease_incarnation_id: opt_text(self.lease_incarnation_id),
            lease_epoch: self.lease_epoch,
        }
    }
}

/// The row of a new terminal: running, of its job or else of its project, bound to
/// the life of its lease.
pub open spec fn new_row(
    target: TargetModel,
    id: Seq<char>,
    session_id: Seq<char>,
    command: Seq<char>,
    description: Option<Seq<char>>,
    now: i32,
) -> TerminalRowModel {
    TerminalRowModel {
        id,
        job_id: target.job_id,
        project_id: match target.job_id {
            Some(_) => None,
            None => Some(target.project_id),
        },
        run_id: target.run_id,
        session_id,
        command,
        title: None,
        description,
        status: "running"@,
        exit_code: None,
        created_at: now,
        exited_at: None,
        slug: target.slug,
        lease_id: match target.lease {
            Some(fence) => Some(fence.lease_id),
            None => None,
        },
        lease_incarnation_id: match target.lease {
            Some(fence) => Some(fence.incarnation_id),
            None => None,
        },
        lease_epoch: match target.lease {
            Some(fence) => Some(fence.lease_epoch),
            None => None,
        },
    }
}

/// The row of a new terminal.
pub fn insert_terminal_resource(
    target: &TerminalResourceTarget,
    id: String,
    session_id: &str,
    command: &str,
    description: &Option<String>,
    now: i32,
) -> (row: TerminalRow)
    ensures
        row@ == new_row(
            target@,
            id@,
            session_id@,
            command@,
            opt_text(*description),
            now,
        ),
{
    let project_id = match &target.job_id {
        Some(_) => None,
        None => Some(target.project_id.clone()),
    };
    let (lease_id, lease_incarnation_id, lease_epoch) = match &target.lease {
        Some(fence) => (
            Some(fence.lease_id.clone()),
            Some(fence.incarnation_id.clone()),
            Some(fence.lease_epoch),
        ),
        None => (None, None, None),
    };
    TerminalRow {
        id,
        job_id: clone_opt(&target.job_id),
        project_id,
        run_id: clone_opt(&target.run_id),
        session_id: session_id.to_owned(),
        command: command.to_owned(),
        title: None,
        description: clone_opt(description),
        status: "running".to_owned(),
        exit_code: None,
        created_at: now,
        exited_at: None,
        slug: target.slug.clone(),
        lease_id,
        lease_incarnation_id,
        lease_epoch,
    }
}

/// The rows that a new terminal of the target leaves in place: all but those of
/// its scope under its slug.
pub open spec fn rows_left(rows: Seq<StoredTerminal>, target: TargetModel, k: int) -> Seq<
    StoredTerminal,
>
    decreases k,
{
    if k <= 0 {
        Seq::empty()
    } else {
        let before = rows_left(rows, target, k - 1);
        if in_scope(rows[k - 1], target) {
            before
        } else {
            before.push(rows[k - 1])
        }
    }
}

/// Makes room for a new terminal of the target: a row of its scope under its slug
/// that lingers is given up.
pub fn reclaim_slug(rows: Vec<StoredTerminal>, target: &TerminalResourceTarget) -> (left: Vec<
    StoredTerminal,
>)
    ensures
        left@ == rows_left(rows@, target@, rows@.len() as int),
{
    let mut left: Vec<StoredTerminal> = Vec::new();
    let ghost all = rows@;
    let mut k: usize = 0;
    let n: usize = rows.len();
    for row in it: rows
        invariant
            it.seq() == all,
            n == all.len(),
            k == it.index(),
            left@ == rows_left(all, target@, k as int),
    {
        if !row_in_scope(&row, target) {
            left.push(row);
        }
        assert(row == all[k as int]);
        k += 1;
    }
    left
}

/// Once room was made, no terminal has the slug.
pub proof fn law_reclaimed_slug_is_free(rows: Seq<StoredTerminal>, target: TargetModel, k: int)
    requires
        k <= rows.len(),
    ensures
        !slug_taken(rows_left(rows, target, k), target, false),
    decreases k,
{
    if k > 0 {
        law_reclaimed_slug_is_free(rows, target, k - 1);
        let before = rows_left(rows, target, k - 1);
        let left = rows_left(rows, target, k);
        assert forall|i: int| 0 <= i < left.len() implies !#[trigger] in_scope(left[i], target) by {
            if i < before.len() {
                assert(left[i] == before[i]);
                assert(!in_scope(before[i], target));
            }
        }
    }
}

/// The environment of a process.
pub open spec fn env_models(env: Seq<(String, String)>) -> Seq<(Seq<char>, Seq<char>)> {
    env.map_values(|entry: (String, String)| (entry.0@, entry.1@))
}

/// An entry of the environment where there is a value for it.
pub open spec fn optional_entry(name: Seq<char>, value: Option<Seq<char>>) -> Seq<
    (Seq<char>, Seq<char>),
> {
    match value {
        Some(found) => seq![(name, found)],
        None => Seq::empty(),
    }
}

/// What a terminal adds to the environment that it inherits, in this order.
pub open spec fn added_env(
    target: TargetModel,
    path: Seq<char>,
    callback_port: u16,
    cache_dir: Seq<char>,
    secret: Option<Seq<char>>,
) -> Seq<(Seq<char>, Seq<char>)> {
    seq![
        ("PATH"@, path),
        ("CAIRN_WORKTREE"@, target.cwd),
        (
            "CAIRN_CALLBACK_URL"@,
            "http://127.0.0.1:"@ + decimal(callback_port as nat) + "/api/mcp"@,
        ),
        ("UV_CACHE_DIR"@, cache_dir),
    ] + optional_entry("CAIRN_MCP_SECRET"@, secret) + optional_entry("CAIRN_RUN_ID"@, target.run_id)
        + optional_entry("CAIRN_WORKTREE_BRANCH"@, target.branch)
}

/// Adds an entry to an environment.
fn add_entry(env: &mut Vec<(String, String)>, name: &str, value: String)
    ensures
        env_models(final(env)@) == env_models(old(env)@).push((name@, value@)),
{
    let ghost before = env_models(env@);
    let ghost said = (name@, value@);
    env.push((name.to_owned(), value));
    assert(env_models(env@) =~= before.push(said));
}

/// Adds an entry to an environment where there is a value for it.
fn add_optional(env: &mut Vec<(String, String)>, name: &str, value: Option<String>)
    ensures
        env_models(final(env)@) == env_models(old(env)@) + optional_entry(name@, opt_text(value)),
{
    let ghost before = env_models(env@);
    match value {
        Some(found) => {
            let ghost said = (name@, found@);
            add_entry(env, name, found);
            assert(before.push(said) =~= before + seq![said]);
        },
        None => {
            assert(before + Seq::empty() =~= before);
        },
    }
}

/// The environment of a terminal: what it inherits and what it adds to that.
pub fn terminal_env(
    inherited: Vec<(String, String)>,
    target: &TerminalResourceTarget,
    path: String,
    callback_port: u16,
    cache_dir: String,
    secret: Option<String>,
) -> (env: Vec<(String, String)>)
    ensures
        env_models(env@) == env_models(inherited@) + added_env(
            target@,
            path@,
            callback_port,
            cache_dir@,
            opt_text(secret),
        ),
{
    let ghost start = env_models(inherited@);
    let ghost said = added_env(target@, path@, callback_port, cache_dir@, opt_text(secret));
    let mut env = inherited;
    let url = text3("http://127.0.0.1:", render_u64(callback_port as u64).as_str(), "/api/mcp");
    add_entry(&mut env, "PATH", path);
    add_entry(&mut env, "CAIRN_WORKTREE", target.cwd.clone());
    add_entry(&mut env, "CAIRN_CALLBACK_URL", url);
    add_entry(&mut env, "UV_CACHE_DIR", cache_dir);
    add_optional(&mut env, "CAIRN_MCP_SECRET", secret);
    add_optional(&mut env, "CAIRN_RUN_ID", clone_opt(&target.run_id));
    add_optional(&mut env, "CAIRN_WORKTREE_BRANCH", clone_opt(&target.branch));
    assert(env_models(env@) =~= start + said);
    env
}

/// How far a process is kept within its checkout.
#[derive(Clone, Copy, Debug, PartialEq, Eq, Structural)]
pub enum ProcessSandboxMode {
    Confined,
    ReadOnlyCheckout,
    Unconfined,
}

/// How far a terminal is kept within its checkout: not at all without a policy;
/// with one, a managed checkout is its own to write, the live checkout is not.
pub open spec fn confinement(has_policy: bool, has_branch: bool) -> ProcessSandboxMode {
    if !has_policy {
        ProcessSandboxMode::Unconfined
    } else if has_branch {
        ProcessSandboxMode::Confined
    } else {
        ProcessSandboxMode::ReadOnlyCheckout
    }
}

/// How far a terminal is kept within its checkout.
pub fn sandbox_mode(has_policy: bool, branch: &Option<String>) -> (mode: ProcessSandboxMode)
    ensures
        mode == confinement(has_policy, *branch is Some),
{
    if !has_policy {
        ProcessSandboxMode::Unconfined
    } else if branch.is_some() {
        ProcessSandboxMode::Confined
    } else {
        ProcessSandboxMode::ReadOnlyCheckout
    }
}

/// The arguments of the shell: a terminal that ends with its command is given it;
/// any other starts empty.
pub open spec fn shell_args(one_shot: bool, windows: bool, command: Seq<char>) -> Seq<Seq<char>> {
    if !one_shot {
        Seq::empty()
    } else if windows {
        seq!["-Command"@, command]
    } else {
        seq!["-c"@, command]
    }
}

/// The arguments of the shell.
pub fn terminal_args(one_shot: bool, windows: bool, command: &str) -> (args: Vec<String>)
    ensures
        texts(args@) == shell_args(one_shot, windows, command@),
{
    let mut args: Vec<String> = Vec::new();
    if one_shot {
        if windows {
            args.push("-Command".to_owned());
        } else {
            args.push("-c".to_owned());
        }
        args.push(command.to_owned());
    }
    assert(texts(args@) =~= shell_args(one_shot, windows, command@));
    args
}

/// What starting a terminal depends on.
#[derive(Debug)]
pub struct SpawnPlan {
    pub session_id: String,
    pub slug: String,
    pub command: String,
    pub one_shot: bool,
}

/// The size of a terminal, in characters and, where it is known, in pixels.
#[derive(Clone, Copy, Debug, PartialEq, Eq, Structural)]
pub struct PtySize {
    pub rows: u16,
    pub cols: u16,
    pub pixel_width: u16,
    pub pixel_height: u16,
}

/// A size of which only the characters are known.
pub fn plain_size(rows: u16, cols: u16) -> (size: PtySize)
    ensures
        size == (PtySize { rows, cols, pixel_width: 0, pixel_height: 0 }),
{
    PtySize { rows, cols, pixel_width: 0, pixel_height: 0 }
}

/// How large a terminal is that an agent starts, or that is started again.
pub fn default_size() -> (size: PtySize)
    ensures
        size == (PtySize { rows: 24, cols: 80, pixel_width: 0, pixel_height: 0 }),
{
    plain_size(24, 80)
}

/// What a process may read and write.
#[derive(Debug)]
pub struct SandboxPolicy {
    pub worktree: String,
    pub writable_extra: Vec<String>,
    pub deny_read: Vec<String>,
    pub writable_regex: Vec<String>,
    pub worktree_writable: bool,
}

/// Whether this is the command that a policy is made for.
pub open spec fn is_policy_command(plan: &SpawnPlan, command: Option<&str>) -> bool {
    opt_str(command) == if plan.command@.len() == 0 {
        None
    } else {
        Some(plan.command@)
    }
}

/// The command that the policy of a terminal is looked up for, where it has one.
pub fn policy_command(plan: &SpawnPlan) -> (command: Option<&str>)
    ensures
        is_policy_command(plan, command),
{
    if plan.command.as_str().is_empty() {
        None
    } else {
        Some(plan.command.as_str())
    }
}

/// What a terminal takes over from the machine.
#[derive(Debug)]
pub struct Surroundings {
    /// The environment that it inherits.
    pub env: Vec<(String, String)>,
    pub path: String,
    pub callback_port: u16,
    pub cache_dir: String,
    pub secret: Option<String>,
    pub default_shell: String,
    pub windows: bool,
}

/// What the directory of a process is relative to.
#[derive(Clone, Copy, Debug, PartialEq, Eq, Structural)]
pub enum CwdRoot {
    Checkout,
}

/// The process of a terminal, as an executor is asked to start it.
#[derive(Debug)]
pub struct ProcessSpec {
    pub process_key: String,
    pub program: String,
    pub args: Vec<String>,
    /// The directory below `cwd_root`.
    pub cwd: String,
    pub cwd_root: CwdRoot,
    pub env: Vec<(String, String)>,
    pub sandbox_mode: ProcessSandboxMode,
    pub sandbox_policy: Option<SandboxPolicy>,
    pub runtime_assets: Vec<String>,
    pub size: PtySize,
}

/// What a process is started with.
#[verifier::ext_equal]
pub struct ProcessModel {
    pub process_key: Seq<char>,
    pub program: Seq<char>,
    pub args: Seq<Seq<char>>,
    pub cwd: Seq<char>,
    pub cwd_root: CwdRoot,
    pub env: Seq<(Seq<char>, Seq<char>)>,
    pub sandbox_mode: ProcessSandboxMode,
    pub sandbox_policy: Option<SandboxPolicy>,
    pub runtime_assets: Seq<Seq<char>>,
    pub size: PtySize,
}

impl View for ProcessSpec {
    type V = ProcessModel;

    open spec fn view(&self) -> ProcessModel {
        ProcessModel {
            process_key: self.process_key@,
            program: self.program@,
            args: texts(self.args@),
            cwd: self.cwd@,
            cwd_root: self.cwd_root,
            env: env_models(self.env@),
            sandbox_mode: self.sandbox_mode,
            sandbox_policy: self.sandbox_policy,
            runtime_assets: texts(self.runtime_assets@),
            size: self.size,
        }
    }
}

/// The process of a terminal: the shell that is asked for, or else the default one, at
/// the root of the checkout, under the key of its session.
pub open spec fn process_of(
    target: TargetModel,
    plan: SpawnPlan,
    shell: Option<Seq<char>>,
    around: Surroundings,
    policy: Option<SandboxPolicy>,
    size: PtySize,
) -> ProcessModel {
    ProcessModel {
        process_key: plan.session_id@,
        program: match shell {
            Some(named) => named,
            None => around.default_shell@,
        },
        args: shell_args(plan.one_shot, around.windows, plan.command@),
        cwd: Seq::empty(),
        cwd_root: CwdRoot::Checkout,
        env: env_models(around.env@) + added_env(
            target,
            around.path@,
            around.callback_port,
            around.cache_dir@,
            opt_text(around.secret),
        ),
        sandbox_mode: confinement(policy is Some, target.branch is Some),
        sandbox_policy: policy,
        runtime_assets: Seq::empty(),
        size,
    }
}

/// The process of a terminal.
pub fn terminal_process(
    target: &TerminalResourceTarget,
    plan: &SpawnPlan,
    shell: Option<String>,
    around: Surroundings,
    policy: Option<SandboxPolicy>,
    size: PtySize,
) -> (process: ProcessSpec)
    ensures
        process@ == process_of(target@, *plan, opt_text(shell), around, policy, size),
{
    let program = match shell {
        Some(named) => named,
        None => around.default_shell,
    };
    let process = ProcessSpec {
        process_key: plan.session_id.clone(),
        program,
        args: terminal_args(plan.one_shot, around.windows, plan.command.as_str()),
        cwd: String::new(),
        cwd_root: CwdRoot::Checkout,
        env: terminal_env(
            around.env,
            target,
            around.path,
            around.callback_port,
            around.cache_dir,
            around.secret,
        ),
        sandbox_mode: sandbox_mode(policy.is_some(), &target.branch),
        sandbox_policy: policy,
        runtime_assets: Vec::new(),
        size,
    };
    assert(process.cwd@ =~= Seq::empty());
    assert(texts(process.runtime_assets@) =~= Seq::empty());
    process
}

/// Whether a process that is about to start is bound like this.
pub open spec fn is_first_binding(
    fence: &LeaseFence,
    session_id: &str,
    binding: TerminalBinding,
) -> bool {
    &&& binding.fence == *fence
    &&& binding.process_key@ == session_id@
    &&& binding.process_generation == 0
}

/// What a new session is bound to: its process under its own key, of no generation yet.
pub fn first_binding(fence: &LeaseFence, session_id: &str) -> (binding: TerminalBinding)
    ensures
        is_first_binding(fence, session_id, binding),
{
    TerminalBinding {
        fence: clone_fence(fence),
        process_key: session_id.to_owned(),
        process_generation: 0,
    }
}

/// The next thing to do to start a terminal.
#[derive(Debug)]
pub enum SpawnPhase {
    AddSession,
    AddRow,
    AddHandler,
    StartProcess,
    RecordGeneration(u64),
    SubmitCommand,
    /// Take back all that was made, because of this failure.
    TakeBack(String),
    Failed(String),
    Running,
}

/// What a phase says.
pub enum PhaseModel {
    AddSession,
    AddRow,
    AddHandler,
    StartProcess,
    RecordGeneration(u64),
    SubmitCommand,
    TakeBack(Seq<char>),
    Failed(Seq<char>),
    Running,
}

impl View for SpawnPhase {
    type V = PhaseModel;

    open spec fn view(&self) -> PhaseModel {
        match *self {
            SpawnPhase::AddSession => PhaseModel::AddSession,
            SpawnPhase::AddRow => PhaseModel::AddRow,
            SpawnPhase::AddHandler => PhaseModel::AddHandler,
            SpawnPhase::StartProcess => PhaseModel::StartProcess,
            SpawnPhase::RecordGeneration(generation) => PhaseModel::RecordGeneration(generation),
            SpawnPhase::SubmitCommand => PhaseModel::SubmitCommand,
            SpawnPhase::TakeBack(error) => PhaseModel::TakeBack(error@),
            SpawnPhase::Failed(error) => PhaseModel::Failed(error@),
            SpawnPhase::Running => PhaseModel::Running,
        }
    }
}

/// How a step went.
#[derive(Debug)]
pub enum SpawnOutcome {
    Done,
    Failed(String),
    /// The executor's answer to the start.
    Answered(LeaseAnswer),
    /// How many rows took the generation.
    Updated(u64),
}

/// The generation of a terminal's process in the cell that an executor answered
/// with.
pub open spec fn started_generation(cell: CellState, session_id: Seq<char>) -> Option<u64> {
    match cell.lease {
        Some(lease) => match process_with_key(lease.processes@, session_id, 0) {
            Some(at) => Some(lease.processes@[at].generation),
            None => None,
        },
        None => None,
    }
}

/// The generation of a terminal's process in the cell that an executor answered
/// with.
pub fn find_started_generation(cell: &CellState, session_id: &str) -> (generation: Option<u64>)
    ensures
        generation == started_generation(*cell, session_id@),
{
    match &cell.lease {
        None => None,
        Some(lease) => {
            let mut i: usize = 0;
            while i < lease.processes.len()
                invariant
                    i <= lease.processes@.len(),
                    cell.lease == Some(*lease),
                    process_with_key(lease.processes@, session_id@, i as int) == process_with_key(
                        lease.processes@,
                        session_id@,
                        0,
                    ),
                decreases lease.processes.len() - i,
            {
                if same_text(lease.processes[i].key.as_str(), session_id) {
                    return Some(lease.processes[i].generation);
                }
                i += 1;
            }
            None
        },
    }
}

/// How a failure in a phase reads: the store's failures are named as such.
pub open spec fn failure_text(phase: PhaseModel, error: Seq<char>) -> Seq<char> {
    match phase {
        PhaseModel::AddRow => "Database error: "@ + error,
        PhaseModel::RecordGeneration(_) => "Database error: "@ + error,
        _ => error,
    }
}

/// What follows a step. An outcome that does not belong to the step leaves it to
/// be done.
pub open spec fn spawn_next(plan: SpawnPlan, phase: PhaseModel, outcome: SpawnOutcome) -> PhaseModel {
    match (phase, outcome) {
        (PhaseModel::TakeBack(error), _) => PhaseModel::Failed(error),
        (PhaseModel::Failed(error), _) => PhaseModel::Failed(error),
        (PhaseModel::Running, _) => PhaseModel::Running,
        (_, SpawnOutcome::Failed(error)) => PhaseModel::TakeBack(failure_text(phase, error@)),
        (PhaseModel::AddSession, SpawnOutcome::Done) => PhaseModel::AddRow,
        (PhaseModel::AddRow, SpawnOutcome::Done) => PhaseModel::AddHandler,
        (PhaseModel::AddHandler, SpawnOutcome::Done) => PhaseModel::StartProcess,
        (PhaseModel::StartProcess, SpawnOutcome::Answered(answer)) => match answer.kind {
            AnswerKind::State(cell) => match started_generation(cell, plan.session_id@) {
                Some(generation) => PhaseModel::RecordGeneration(generation),
                None => PhaseModel::TakeBack(
                    "terminal PTY start returned no process generation"@,
                ),
            },
            _ => PhaseModel::TakeBack("failed to start terminal PTY: "@ + answer.shown@),
        },
        (PhaseModel::RecordGeneration(_), SpawnOutcome::Updated(rows)) => if rows != 1 {
            PhaseModel::TakeBack(
                "Database error: "@ + ("terminal generation binding disappeared for slug "@
                    + plan.slug@),
            )
        } else if !plan.one_shot && plan.command@.len() > 0 {
            PhaseModel::SubmitCommand
        } else {
            PhaseModel::Running
        },
        (PhaseModel::SubmitCommand, SpawnOutcome::Done) => PhaseModel::Running,
        _ => phase,
    }
}

/// What follows a step of starting a terminal.
pub fn spawn_terminal_session(plan: &SpawnPlan, phase: SpawnPhase, outcome: SpawnOutcome) -> (next:
    SpawnPhase)
    ensures
        next@ == spawn_next(*plan, phase@, outcome),
{
    match (phase, outcome) {
        (SpawnPhase::TakeBack(error), _) => SpawnPhase::Failed(error),
        (SpawnPhase::Failed(error), _) => SpawnPhase::Failed(error),
        (SpawnPhase::Running, _) => SpawnPhase::Running,
        (SpawnPhase::AddRow, SpawnOutcome::Failed(error)) => SpawnPhase::TakeBack(
            text2("Database error: ", error.as_str()),
        ),
        (SpawnPhase::RecordGeneration(_), SpawnOutcome::Failed(error)) => SpawnPhase::TakeBack(
            text2("Database error: ", error.as_str()),
        ),
        (_, SpawnOutcome::Failed(error)) => SpawnPhase::TakeBack(error),
        (SpawnPhase::AddSession, SpawnOutcome::Done) => SpawnPhase::AddRow,
        (SpawnPhase::AddRow, SpawnOutcome::Done) => SpawnPhase::AddHandler,
        (SpawnPhase::AddHandler, SpawnOutcome::Done) => SpawnPhase::StartProcess,
        (SpawnPhase::StartProcess, SpawnOutcome::Answered(answer)) => match &answer.kind {
            AnswerKind::State(cell) => match find_started_generation(
                cell,
                plan.session_id.as_str(),
            ) {
                Some(generation) => SpawnPhase::RecordGeneration(generation),
                None => SpawnPhase::TakeBack(
                    "terminal PTY start returned no process generation".to_owned(),
                ),
            },
            _ => SpawnPhase::TakeBack(
                text2("failed to start terminal PTY: ", answer.shown.as_str()),
            ),
        },
        (SpawnPhase::RecordGeneration(_), SpawnOutcome::Updated(rows)) => {
            match generation_recorded(plan.slug.as_str(), rows) {
                Err(error) => SpawnPhase::TakeBack(text2("Database error: ", error.as_str())),
                Ok(()) => {
                    if !plan.one_shot && !plan.command.as_str().is_empty() {
                        SpawnPhase::SubmitCommand
                    } else {
                        SpawnPhase::Running
                    }
                },
            }
        },
        (SpawnPhase::SubmitCommand, SpawnOutcome::Done) => SpawnPhase::Running,
        (other, _) => other,
    }
}

/// Whether the record of a generation is taken like this.
pub open spec fn is_recorded(slug: &str, rows: u64, recorded: Result<(), String>) -> bool {
    match recorded {
        Ok(()) => rows == 1,
        Err(error) => rows != 1 && error@
            == "terminal generation binding disappeared for slug "@ + slug@,
    }
}

/// Whether the row of a terminal took the generation of its process.
pub fn generation_recorded(slug: &str, rows: u64) -> (recorded: Result<(), String>)
    ensures
        is_recorded(slug, rows, recorded),
{
    if rows != 1 {
        Err(text2("terminal generation binding disappeared for slug ", slug))
    } else {
        Ok(())
    }
}

/// Whether a target is started behind this fence.
pub open spec fn is_fence_of(
    target: &TerminalResourceTarget,
    fence: Result<LeaseFence, String>,
) -> bool {
    match target.lease {
        Some(lease) => fence == Ok::<LeaseFence, String>(lease),
        None => fence matches Err(error) && error@
            == "terminal directory has no lifetime lease"@,
    }
}

/// The lease that a terminal is started under.
pub fn spawn_fence(target: &TerminalResourceTarget) -> (fence: Result<LeaseFence, String>)
    ensures
        is_fence_of(target, fence),
{
    match &target.lease {
        Some(lease) => Ok(clone_fence(lease)),
        None => Err("terminal directory has no lifetime lease".to_owned()),
    }
}

/// The phase after the first `k` outcomes.
pub open spec fn spawn_phase_at(plan: SpawnPlan, outcomes: Seq<SpawnOutcome>, k: int) -> PhaseModel
    decreases k,
{
    if k <= 0 {
        PhaseModel::AddSession
    } else {
        spawn_next(plan, spawn_phase_at(plan, outcomes, k - 1), outcomes[k - 1])
    }
}

/// Whether the process was told to start.
pub open spec fn was_started(phase: PhaseModel) -> bool {
    phase is RecordGeneration || phase is SubmitCommand || phase is Running
}

/// Whether a step was done among the first `k`.
pub open spec fn row_was_added(plan: SpawnPlan, outcomes: Seq<SpawnOutcome>, k: int) -> bool {
    exists|i: int|
        0 <= i < k && #[trigger] spawn_phase_at(plan, outcomes, i) is AddRow && outcomes[i] is Done
}

/// Whether the events were listened to before the `k`th step.
pub open spec fn handler_was_added(plan: SpawnPlan, outcomes: Seq<SpawnOutcome>, k: int) -> bool {
    exists|i: int|
        0 <= i < k && #[trigger] spawn_phase_at(plan, outcomes, i) is AddHandler && outcomes[i] is Done
}

/// A process is started only after its row was stored and its events are listened
/// to, in this order.
pub proof fn law_process_starts_after_its_row(
    plan: SpawnPlan,
    outcomes: Seq<SpawnOutcome>,
    k: int,
)
    requires
        0 <= k <= outcomes.len(),
    ensures
        ({
            let phase = spawn_phase_at(plan, outcomes, k);
            &&& phase is AddHandler || phase is StartProcess || was_started(phase)
                ==> row_was_added(plan, outcomes, k)
            &&& phase is StartProcess || was_started(phase) ==> handler_was_added(
                plan,
                outcomes,
                k,
            )
        }),
    decreases k,
{
    if k > 0 {
        law_process_starts_after_its_row(plan, outcomes, k - 1);
        let before = spawn_phase_at(plan, outcomes, k - 1);
        let phase = spawn_phase_at(plan, outcomes, k);
        if row_was_added(plan, outcomes, k - 1) {
            let i = choose|i: int|
                0 <= i < k - 1 && #[trigger] spawn_phase_at(plan, outcomes, i) is AddRow
                    && outcomes[i] is Done;
            assert(spawn_phase_at(plan, outcomes, i) is AddRow);
            assert(row_was_added(plan, outcomes, k));
        }
        if handler_was_added(plan, outcomes, k - 1) {
            let i = choose|i: int|
                0 <= i < k - 1 && #[trigger] spawn_phase_at(plan, outcomes, i) is AddHandler
                    && outcomes[i] is Done;
            assert(spawn_phase_at(plan, outcomes, i) is AddHandler);
            assert(handler_was_added(plan, outcomes, k));
        }
        if phase is AddHandler && before is AddRow {
            assert(spawn_phase_at(plan, outcomes, k - 1) is AddRow);
        }
        if phase is StartProcess && before is AddHandler {
            assert(spawn_phase_at(plan, outcomes, k - 1) is AddHandler);
        }
    }
}

/// A failure at any step is answered by taking everything back, and reported only
/// after that; a start that was taken back never runs.
pub proof fn law_failed_start_is_taken_back(plan: SpawnPlan, phase: PhaseModel, outcome: SpawnOutcome)
    ensures
        spawn_next(plan, phase, outcome) is Failed ==> phase is TakeBack || phase is Failed,
        phase is TakeBack || phase is Failed ==> spawn_next(plan, phase, outcome) is Failed,
        outcome is Failed && !(phase is TakeBack || phase is Failed || phase is Running)
            ==> spawn_next(plan, phase, outcome) is TakeBack,
{
}

/// How many steps are ahead at most.
pub open spec fn steps_ahead(phase: PhaseModel) -> nat {
    match phase {
        PhaseModel::AddSession => 7,
        PhaseModel::AddRow => 6,
        PhaseModel::AddHandler => 5,
        PhaseModel::StartProcess => 4,
        PhaseModel::RecordGeneration(_) => 3,
        PhaseModel::SubmitCommand => 2,
        PhaseModel::TakeBack(_) => 1,
        PhaseModel::Failed(_) => 0,
        PhaseModel::Running => 0,
    }
}

/// Starting a terminal comes to an end: every outcome that belongs to its step
/// brings it closer, and no other takes it back.
pub proof fn law_start_moves_on(plan: SpawnPlan, phase: PhaseModel, outcome: SpawnOutcome)
    ensures
        spawn_next(plan, phase, outcome) == phase || steps_ahead(
            spawn_next(plan, phase, outcome),
        ) < steps_ahead(phase),
        outcome is Failed && steps_ahead(phase) > 0 ==> spawn_next(plan, phase, outcome) != phase,
{
}

/// Whether a new terminal is announced like this.
pub open spec fn announces(
    target: &TerminalResourceTarget,
    session_id: &str,
    command: &str,
    description: Option<String>,
    payload: Option<AgentTerminalCreatedPayload>,
) -> bool {
    match (target.run_id, payload) {
        (Some(run), Some(sent)) => sent.run_id@ == run@ && sent.session_id@ == session_id@
            && sent.command@ == command@ && sent.description == description,
        (None, None) => true,
        _ => false,
    }
}

/// The event that a terminal of a run was created.
pub fn created_payload(
    target: &TerminalResourceTarget,
    session_id: &str,
    command: &str,
    description: Option<String>,
) -> (payload: Option<AgentTerminalCreatedPayload>)
    ensures
        announces(target, session_id, command, description, payload),
{
    match &target.run_id {
        Some(run) => Some(
            AgentTerminalCreatedPayload {
                run_id: run.clone(),
                session_id: session_id.to_owned(),
                command: command.to_owned(),
                description,
            },
        ),
        None => None,
    }
}

/// The highest number that a terminal which took over a running command can have.
pub const MAX_PROMOTED_NUMBER: u64 = 10_000;

/// The slug of the terminal with this number.
pub open spec fn promoted_slug(number: u64) -> Seq<char> {
    "run-"@ + decimal(number as nat)
}

/// The slug of the terminal with this number.
pub fn render_promoted_slug(number: u64) -> (slug: String)
    ensures
        slug@ == promoted_slug(number),
{
    text2("run-", render_u64(number).as_str())
}

/// The number that is tried after this one, unless this one is free. A slug whose
/// state cannot be read counts as taken. The last number is used in any case.
pub open spec fn next_number(number: u64, taken: Result<bool, String>) -> Option<u64> {
    if taken == Ok::<bool, String>(false) || number >= MAX_PROMOTED_NUMBER {
        None
    } else {
        Some((number + 1) as u64)
    }
}

/// The number that is tried after this one, unless this one is used.
pub fn next_promoted_number(number: u64, taken: Result<bool, String>) -> (next: Option<u64>)
    ensures
        next == next_number(number, taken),
{
    let free = match taken {
        Ok(found) => !found,
        Err(_) => false,
    };
    if free || number >= MAX_PROMOTED_NUMBER {
        None
    } else {
        Some(number + 1)
    }
}

/// The number that is used where `taken` answers for the numbers from one on, and
/// the first `tried` of them were found taken.
pub open spec fn settled_number(taken: Seq<Result<bool, String>>, tried: int) -> u64
    decreases taken.len() - tried,
{
    let number = (tried + 1) as u64;
    if tried + 1 >= taken.len() {
        number
    } else {
        match next_number(number, taken[tried]) {
            None => number,
            Some(_) => settled_number(taken, tried + 1),
        }
    }
}

/// A terminal that takes over a running command is given the first free number;
/// every lower one is taken.
pub proof fn law_promoted_number_is_the_first_free(taken: Seq<Result<bool, String>>, tried: int)
    requires
        taken.len() == MAX_PROMOTED_NUMBER,
        0 <= tried < taken.len(),
    ensures
        tried < settled_number(taken, tried) <= MAX_PROMOTED_NUMBER,
        settled_number(taken, tried) < MAX_PROMOTED_NUMBER ==> taken[settled_number(taken, tried)
            - 1] == Ok::<bool, String>(false),
        forall|i: int|
            tried <= i < settled_number(taken, tried) - 1 ==> #[trigger] taken[i] != Ok::<
                bool,
                String,
            >(false),
    decreases taken.len() - tried,
{
    if tried + 1 < taken.len() {
        law_promoted_number_is_the_first_free(taken, tried + 1);
    }
}

/// Whether this is the target of a promoted terminal.
pub open spec fn is_promoted_target(
    slug: String,
    job_id: &str,
    project_id: &str,
    run_id: &str,
    fence: &LeaseFence,
    target: TerminalResourceTarget,
) -> bool {
    target@ == (TargetModel {
        slug: slug@,
        job_id: Some(job_id@),
        project_id: project_id@,
        run_id: Some(run_id@),
        cwd: Seq::empty(),
        branch: None,
        repo_path: Seq::empty(),
        owner_ref: None,
        lease: Some(fence@),
    })
}

/// The target of a terminal that takes over a running command of a job.
pub fn promoted_target(
    slug: String,
    job_id: &str,
    project_id: &str,
    run_id: &str,
    fence: &LeaseFence,
) -> (target: TerminalResourceTarget)
    ensures
        is_promoted_target(slug, job_id, project_id, run_id, fence, target),
{
    let target = TerminalResourceTarget {
        slug,
        job_id: Some(job_id.to_owned()),
        project_id: project_id.to_owned(),
        run_id: Some(run_id.to_owned()),
        cwd: String::new(),
        branch: None,
        repo_path: String::new(),
        owner_ref: None,
        lease: Some(clone_fence(fence)),
    };
    assert(target@.cwd =~= Seq::empty());
    assert(target@.repo_path =~= Seq::empty());
    target
}

/// Where the job of a promoted terminal stands.
#[derive(Debug)]
pub struct PromotedPlace {
    pub project_key: String,
    pub issue_number: Option<i32>,
    pub exec_seq: Option<i32>,
    pub parent_segment: Option<String>,
    pub task_segment: Option<String>,
    pub node_segment: Option<String>,
}

/// The resource of a promoted terminal: under its task, or else under its node, or
/// else under the project.
pub open spec fn promoted_resource(place: PromotedPlace, slug: Seq<char>) -> ResourceModel {
    let of_project = ResourceModel::Project { project: place.project_key@, slug };
    match (place.issue_number, place.exec_seq) {
        (Some(number), Some(exec_seq)) => match (
            place.parent_segment,
            place.task_segment,
            place.node_segment,
        ) {
            (Some(parent), Some(task), _) => ResourceModel::Task {
                project: place.project_key@,
                number,
                exec_seq,
                node_id: parent@,
                task_name: task@,
                slug,
            },
            (_, _, Some(node)) => ResourceModel::Node {
                project: place.project_key@,
                number,
                exec_seq,
                node_id: node@,
                slug,
            },
            _ => of_project,
        },
        _ => of_project,
    }
}

/// The resource of a promoted terminal.
pub fn build_promoted_terminal_uri(place: PromotedPlace, slug: &str) -> (resource: TerminalResource)
    ensures
        resource@ == promoted_resource(place, slug@),
{
    let slug = slug.to_owned();
    match (place.issue_number, place.exec_seq) {
        (Some(number), Some(exec_seq)) => match (
            place.parent_segment,
            place.task_segment,
            place.node_segment,
        ) {
            (Some(parent), Some(task), _) => TerminalResource::Task {
                project: place.project_key,
                number,
                exec_seq,
                node_id: parent,
                task_name: task,
                slug,
            },
            (_, _, Some(node)) => TerminalResource::Node {
                project: place.project_key,
                number,
                exec_seq,
                node_id: node,
                slug,
            },
            _ => TerminalResource::Project { project: place.project_key, slug },
        },
        _ => TerminalResource::Project { project: place.project_key, slug },
    }
}

/// The next thing to do to take over a running command.
#[derive(Debug)]
pub enum PromotionPhase {
    AddSession,
    AddRow,
    AddHandler,
    /// Drop the session again, because of this failure.
    DropSession(String),
    Failed(String),
    Announce,
}

/// What a phase says.
pub enum PromotionModel {
    AddSession,
    AddRow,
    AddHandler,
    DropSession(Seq<char>),
    Failed(Seq<char>),
    Announce,
}

impl View for PromotionPhase {
    type V = PromotionModel;

    open spec fn view(&self) -> PromotionModel {
        match *self {
            PromotionPhase::AddSession => PromotionModel::AddSession,
            PromotionPhase::AddRow => PromotionModel::AddRow,
            PromotionPhase::AddHandler => PromotionModel::AddHandler,
            PromotionPhase::DropSession(error) => PromotionModel::DropSession(error@),
            PromotionPhase::Failed(error) => PromotionModel::Failed(error@),
            PromotionPhase::Announce => PromotionModel::Announce,
        }
    }
}

/// What follows a step of taking over a running command. The session is dropped
/// again where the row cannot be stored.
pub open spec fn promotion_next(phase: PromotionModel, result: Result<(), String>) -> PromotionModel {
    match (phase, result) {
        (PromotionModel::AddSession, Ok(())) => PromotionModel::AddRow,
        (PromotionModel::AddSession, Err(error)) => PromotionModel::Failed(error@),
        (PromotionModel::AddRow, Ok(())) => PromotionModel::AddHandler,
        (PromotionModel::AddRow, Err(error)) => PromotionModel::DropSession(
            "Database error: "@ + error@,
        ),
        (PromotionModel::AddHandler, Ok(())) => PromotionModel::Announce,
        (PromotionModel::AddHandler, Err(error)) => PromotionModel::Failed(error@),
        (PromotionModel::DropSession(error), _) => PromotionModel::Failed(error),
        (PromotionModel::Failed(error), _) => PromotionModel::Failed(error),
        (PromotionModel::Announce, _) => PromotionModel::Announce,
    }
}

/// What follows a step of taking over a running command.
pub fn activate_promoted_executor_terminal(
    phase: PromotionPhase,
    result: Result<(), String>,
) -> (next: PromotionPhase)
    ensures
        next@ == promotion_next(phase@, result),
{
    match (phase, result) {
        (PromotionPhase::AddSession, Ok(())) => PromotionPhase::AddRow,
        (PromotionPhase::AddSession, Err(error)) => PromotionPhase::Failed(error),
        (PromotionPhase::AddRow, Ok(())) => PromotionPhase::AddHandler,
        (PromotionPhase::AddRow, Err(error)) => PromotionPhase::DropSession(
            text2("Database error: ", error.as_str()),
        ),
        (PromotionPhase::AddHandler, Ok(())) => PromotionPhase::Announce,
        (PromotionPhase::AddHandler, Err(error)) => PromotionPhase::Failed(error),
        (PromotionPhase::DropSession(error), _) => PromotionPhase::Failed(error),
        (PromotionPhase::Failed(error), _) => PromotionPhase::Failed(error),
        (PromotionPhase::Announce, _) => PromotionPhase::Announce,
    }
}

/// A running command that became a terminal.
#[derive(Debug)]
pub struct PromotedTerminal {
    pub fence: LeaseFence,
    pub slug: String,
    pub uri: String,
    pub wake_subscribed: bool,
}

/// Whether a promotion comes out like this.
pub open spec fn is_promoted<T>(
    fence: LeaseFence,
    slug: String,
    uri: String,
    subscription: Result<T, String>,
    promoted: PromotedTerminal,
) -> bool {
    promoted == (PromotedTerminal { fence, slug, uri, wake_subscribed: subscription is Ok })
}

/// The terminal that a running command became. That its exit could not be
/// subscribed to is said, and does not undo it.
pub fn promoted_terminal<T>(
    fence: LeaseFence,
    slug: String,
    uri: String,
    subscription: Result<T, String>,
) -> (promoted: PromotedTerminal)
    ensures
        is_promoted(fence, slug, uri, subscription, promoted),
{
    let wake_subscribed = subscription.is_ok();
    PromotedTerminal { fence, slug, uri, wake_subscribed }
}

/// What is found of a session in memory.
#[derive(Debug)]
pub enum SessionLookup {
    /// The sessions cannot be reached.
    Unreachable(String),
    Missing,
    /// The session cannot be reached.
    Locked(String),
    Found(Option<TerminalBinding>),
}

/// Whether input goes to this process.
pub open spec fn is_input_binding(
    session_id: &str,
    found: SessionLookup,
    binding: Result<TerminalBinding, String>,
) -> bool {
    match found {
        SessionLookup::Unreachable(error) => binding matches Err(reason) && reason@
            == "Failed to access sessions: "@ + error@,
        SessionLookup::Missing => binding matches Err(reason) && reason@
            == "Terminal session not running: "@ + session_id@,
        SessionLookup::Locked(error) => binding matches Err(reason) && reason@
            == "Failed to lock terminal session: "@ + error@,
        SessionLookup::Found(None) => binding matches Err(reason) && reason@
            == "This terminal has no executor process binding"@,
        SessionLookup::Found(Some(bound)) => binding == Ok::<TerminalBinding, String>(bound),
    }
}

/// The binding of a session that input is written to, or why there is none.
pub fn input_binding(session_id: &str, found: SessionLookup) -> (binding: Result<
    TerminalBinding,
    String,
>)
    ensures
        is_input_binding(session_id, found, binding),
{
    match found {
        SessionLookup::Unreachable(error) => Err(
            text2("Failed to access sessions: ", error.as_str()),
        ),
        SessionLookup::Missing => Err(text2("Terminal session not running: ", session_id)),
        SessionLookup::Locked(error) => Err(
            text2("Failed to lock terminal session: ", error.as_str()),
        ),
        SessionLookup::Found(None) => Err(
            "This terminal has no executor process binding".to_owned(),
        ),
        SessionLookup::Found(Some(bound)) => Ok(bound),
    }
}

/// Whether a session is bound to this process.
pub open spec fn is_binding_of(
    found: SessionLookup,
    recorded: Result<TerminalBinding, String>,
    binding: Result<TerminalBinding, String>,
) -> bool {
    match found {
        SessionLookup::Unreachable(error) => binding == Err::<TerminalBinding, String>(error),
        SessionLookup::Missing => binding == recorded,
        SessionLookup::Locked(error) => binding == Err::<TerminalBinding, String>(error),
        SessionLookup::Found(None) => binding matches Err(reason) && reason@
            == "This terminal has no executor process binding"@,
        SessionLookup::Found(Some(bound)) => binding == Ok::<TerminalBinding, String>(bound),
    }
}

/// The binding of a session: that in memory, or, for a session that is not in
/// memory, the one that its row records.
pub fn terminal_binding_by_session(
    found: SessionLookup,
    recorded: Result<TerminalBinding, String>,
) -> (binding: Result<TerminalBinding, String>)
    ensures
        is_binding_of(found, recorded, binding),
{
    match found {
        SessionLookup::Unreachable(error) => Err(error),
        SessionLookup::Missing => recorded,
        SessionLookup::Locked(error) => Err(error),
        SessionLookup::Found(None) => Err(
            "This terminal has no executor process binding".to_owned(),
        ),
        SessionLookup::Found(Some(bound)) => Ok(bound),
    }
}

/// Whether a binding is that of a fence.
pub open spec fn is_bound(
    binding: &Option<TerminalBinding>,
    fence: &LeaseFence,
    bound: bool,
) -> bool {
    bound == (*binding matches Some(found) && found.fence@ == fence@)
}

/// Whether a session is still bound to the life of the lease that its heartbeat
/// renews.
pub fn heartbeat_bound(binding: &Option<TerminalBinding>, fence: &LeaseFence) -> (bound: bool)
    ensures
        is_bound(binding, fence, bound),
{
    match binding {
        None => false,
        Some(found) => same_text(found.fence.lease_id.as_str(), fence.lease_id.as_str())
            && same_text(found.fence.owner.kind.as_str(), fence.owner.kind.as_str()) && same_text(
            found.fence.owner.owner_id.as_str(),
            fence.owner.owner_id.as_str(),
        ) && same_text(found.fence.incarnation_id.as_str(), fence.incarnation_id.as_str())
            && found.fence.lease_epoch == fence.lease_epoch,
    }
}

/// What is asked of a running terminal.
#[derive(Clone, Copy, Debug)]
pub enum TerminalOperation {
    WriteInput,
    Resize,
    Stop,
}

/// How a refusal of an operation begins.
pub open spec fn refusal(operation: TerminalOperation) -> Seq<char> {
    match operation {
        TerminalOperation::WriteInput => "Failed to write terminal input: "@,
        TerminalOperation::Resize => "Failed to resize terminal: "@,
        TerminalOperation::Stop => "Failed to stop terminal: "@,
    }
}

/// Whether an operation is taken like this.
pub open spec fn is_operated(
    operation: TerminalOperation,
    answer: LeaseAnswer,
    done: Result<(), String>,
) -> bool {
    match answer.kind {
        AnswerKind::State(_) => done is Ok,
        _ => done matches Err(error) && error@ == refusal(operation) + answer.shown@,
    }
}

/// Whether an executor did what was asked of a terminal.
pub fn terminal_operated(operation: TerminalOperation, answer: LeaseAnswer) -> (done: Result<
    (),
    String,
>)
    ensures
        is_operated(operation, answer, done),
{
    match answer.kind {
        AnswerKind::State(_) => Ok(()),
        _ => match operation {
            TerminalOperation::WriteInput => Err(
                text2("Failed to write terminal input: ", answer.shown.as_str()),
            ),
            TerminalOperation::Resize => Err(
                text2("Failed to resize terminal: ", answer.shown.as_str()),
            ),
            TerminalOperation::Stop => Err(text2("Failed to stop terminal: ", answer.shown.as_str())),
        },
    }
}

/// Whether this answers who sends input.
pub open spec fn tells_input(
    target: &TerminalResourceTarget,
    session: Result<String, String>,
    written: &str,
    result: Result<(), String>,
    answer: Result<String, String>,
) -> bool {
    match (session, result) {
        (Err(error), _) => answer == Err::<String, String>(error),
        (Ok(_), Err(error)) => answer == Err::<String, String>(error),
        (Ok(_), Ok(())) => answer matches Ok(said) && said@ == "Sent "@ + decimal(
            utf8_len(written@),
        ) + " chars to terminal "@ + target.slug@,
    }
}

/// The answer to input for a terminal: `written` was handed to the session that
/// was found for the target, with this result.
pub fn append_terminal_input(
    target: &TerminalResourceTarget,
    session: Result<String, String>,
    written: &str,
    result: Result<(), String>,
) -> (answer: Result<String, String>)
    ensures
        tells_input(target, session, written, result, answer),
{
    match (session, result) {
        (Err(error), _) => Err(error),
        (Ok(_), Err(error)) => Err(error),
        (Ok(_), Ok(())) => {
            let mut said = text3(
                "Sent ",
                render_usize(byte_len(written)).as_str(),
                " chars to terminal ",
            );
            said.append(target.slug.as_str());
            Ok(said)
        },
    }
}

/// Whether this answers who stops a terminal.
pub open spec fn tells_stop(
    target: &TerminalResourceTarget,
    session: Result<String, String>,
    result: Result<(), String>,
    answer: Result<String, String>,
) -> bool {
    match (session, result) {
        (Err(error), _) => answer == Err::<String, String>(error),
        (Ok(_), Err(error)) => answer == Err::<String, String>(error),
        (Ok(_), Ok(())) => answer matches Ok(said) && said@ == "Stopped terminal "@
            + target.slug@,
    }
}

/// The answer to the stop of a terminal: the session that was found for the target
/// was stopped with this result.
pub fn delete_terminal_by_resource(
    target: &TerminalResourceTarget,
    session: Result<String, String>,
    result: Result<(), String>,
) -> (answer: Result<String, String>)
    ensures
        tells_stop(target, session, result, answer),
{
    match (session, result) {
        (Err(error), _) => Err(error),
        (Ok(_), Err(error)) => Err(error),
        (Ok(_), Ok(())) => Ok(text2("Stopped terminal ", target.slug.as_str())),
    }
}

/// The row of a new terminal belongs to its job, or to its project where it has no job, and
/// says that the terminal runs; it keeps the slug, the session, the command and the fence.
pub proof fn law_new_row_says_that_it_runs(
    target: TargetModel,
    id: Seq<char>,
    session_id: Seq<char>,
    command: Seq<char>,
    description: Option<Seq<char>>,
    now: i32,
)
    ensures
        ({
            let row = new_row(target, id, session_id, command, description, now);
            &&& row.id == id
            &&& row.session_id == session_id
            &&& row.command == command
            &&& row.description == description
            &&& row.created_at == now
            &&& row.slug == target.slug
            &&& row.status == "running"@
            &&& row.exit_code is None
            &&& row.exited_at is None
            &&& row.title is None
            &&& row.job_id == target.job_id
            &&& row.run_id == target.run_id
            &&& target.job_id is Some ==> row.project_id is None
            &&& target.job_id is None ==> row.project_id == Some(target.project_id)
            &&& target.lease matches Some(fence) ==> row.lease_id == Some(fence.lease_id)
                && row.lease_incarnation_id == Some(fence.incarnation_id) && row.lease_epoch
                == Some(fence.lease_epoch)
            &&& target.lease is None ==> row.lease_id is None && row.lease_incarnation_id is None
                && row.lease_epoch is None
        }),
{
}

/// Reclaiming a slug keeps every row of another scope, in order, and no other.
pub proof fn law_rows_of_other_scopes_stay(
    rows: Seq<StoredTerminal>,
    target: TargetModel,
    k: int,
)
    requires
        0 <= k < rows.len(),
    ensures
        in_scope(rows[k], target) ==> rows_left(rows, target, k + 1) == rows_left(rows, target, k),
        !in_scope(rows[k], target) ==> rows_left(rows, target, k + 1) == rows_left(
            rows,
            target,
            k,
        ).push(rows[k]),
        rows_left(rows, target, 0) == Seq::<StoredTerminal>::empty(),
{
}

/// A terminal is told where it runs, where to call back and, where they are known, its
/// secret, its run and its branch.
pub proof fn law_terminal_is_told_its_surroundings(
    target: TargetModel,
    path: Seq<char>,
    port: u16,
    cache: Seq<char>,
    secret: Option<Seq<char>>,
)
    ensures
        ({
            let env = added_env(target, path, port, cache, secret);
            &&& env.contains(("PATH"@, path))
            &&& env.contains(("CAIRN_WORKTREE"@, target.cwd))
            &&& env.contains(
                (
                    "CAIRN_CALLBACK_URL"@,
                    "http://127.0.0.1:"@ + decimal(port as nat) + "/api/mcp"@,
                ),
            )
            &&& env.contains(("UV_CACHE_DIR"@, cache))
            &&& secret matches Some(found) ==> env.contains(("CAIRN_MCP_SECRET"@, found))
            &&& target.run_id matches Some(run) ==> env.contains(("CAIRN_RUN_ID"@, run))
            &&& target.branch matches Some(branch) ==> env.contains(
                ("CAIRN_WORKTREE_BRANCH"@, branch),
            )
            &&& env.len() == 4 + (if secret is Some {
                1int
            } else {
                0
            }) + (if target.run_id is Some {
                1int
            } else {
                0
            }) + (if target.branch is Some {
                1int
            } else {
                0
            })
        }),
{
    let env = added_env(target, path, port, cache, secret);
    assert(env[0] == ("PATH"@, path));
    assert(env[1] == ("CAIRN_WORKTREE"@, target.cwd));
    assert(env[2] == (
        "CAIRN_CALLBACK_URL"@,
        "http://127.0.0.1:"@ + decimal(port as nat) + "/api/mcp"@,
    ));
    assert(env[3] == ("UV_CACHE_DIR"@, cache));
    let s: int = if secret is Some {
        1
    } else {
        0
    };
    let r: int = if target.run_id is Some {
        1
    } else {
        0
    };
    if let Some(found) = secret {
        assert(env[4] == ("CAIRN_MCP_SECRET"@, found));
    }
    if let Some(run) = target.run_id {
        assert(env[4 + s] == ("CAIRN_RUN_ID"@, run));
    }
    if let Some(branch) = target.branch {
        assert(env[4 + s + r] == ("CAIRN_WORKTREE_BRANCH"@, branch));
    }
}

/// A process is confined exactly if there is a policy: to its checkout where it has a branch
/// of its own, and to reading it where it has not.
pub proof fn law_policy_confines_the_process(has_policy: bool, has_branch: bool)
    ensures
        confinement(has_policy, has_branch) is Unconfined <==> !has_policy,
        confinement(has_policy, has_branch) is Confined <==> has_policy && has_branch,
        confinement(has_policy, has_branch) is ReadOnlyCheckout <==> has_policy && !has_branch,
{
}

/// A shell that runs one command is handed that command, under the flag of its platform;
/// any other shell is handed nothing.
pub proof fn law_one_command_is_handed_over(command: Seq<char>, windows: bool)
    ensures
        shell_args(true, false, command) == seq!["-c"@, command],
        shell_args(true, true, command) == seq!["-Command"@, command],
        shell_args(false, windows, command).len() == 0,
{
}

/// The process of a terminal goes by its session, runs the shell that was asked for or the
/// default one, in the checkout, with what it inherits and what it is told, under the policy
/// and in the size that were given.
pub proof fn law_process_is_that_of_the_terminal(
    target: TargetModel,
    plan: SpawnPlan,
    shell: Option<Seq<char>>,
    around: Surroundings,
    policy: Option<SandboxPolicy>,
    size: PtySize,
)
    ensures
        ({
            let process = process_of(target, plan, shell, around, policy, size);
            &&& process.process_key == plan.session_id@
            &&& shell matches Some(named) ==> process.program == named
            &&& shell is None ==> process.program == around.default_shell@
            &&& process.args == shell_args(plan.one_shot, around.windows, plan.command@)
            &&& process.cwd.len() == 0
            &&& process.cwd_root is Checkout
            &&& env_models(around.env@).is_prefix_of(process.env)
            &&& process.env.contains(("CAIRN_WORKTREE"@, target.cwd))
            &&& policy is None ==> process.sandbox_mode is Unconfined
            &&& policy is Some && target.branch is Some ==> process.sandbox_mode is Confined
            &&& policy is Some && target.branch is None ==> process.sandbox_mode
                is ReadOnlyCheckout
            &&& process.sandbox_policy == policy
            &&& process.runtime_assets.len() == 0
            &&& process.size == size
        }),
{
    let process = process_of(target, plan, shell, around, policy, size);
    let inherited = env_models(around.env@);
    assert(inherited =~= process.env.subrange(0, inherited.len() as int));
    let told = added_env(
        target,
        around.path@,
        around.callback_port,
        around.cache_dir@,
        opt_text(around.secret),
    );
    assert(told[1] == ("CAIRN_WORKTREE"@, target.cwd));
    assert(process.env[inherited.len() as int + 1] == told[1]);
}

/// A start that goes well goes through all its steps in order, and submits the command at
/// the end exactly if the shell stays and there is one.
pub proof fn law_start_goes_through_its_steps(
    plan: SpawnPlan,
    generation: u64,
    answer: LeaseAnswer,
    error: String,
)
    ensures
        spawn_next(plan, PhaseModel::AddSession, SpawnOutcome::Done) is AddRow,
        spawn_next(plan, PhaseModel::AddRow, SpawnOutcome::Done) is AddHandler,
        spawn_next(plan, PhaseModel::AddHandler, SpawnOutcome::Done) is StartProcess,
        spawn_next(plan, PhaseModel::StartProcess, SpawnOutcome::Answered(answer))
            matches PhaseModel::RecordGeneration(found) ==> (answer.kind matches AnswerKind::State(
            cell,
        ) && started_generation(cell, plan.session_id@) == Some(found)),
        spawn_next(plan, PhaseModel::RecordGeneration(generation), SpawnOutcome::Updated(1))
            is SubmitCommand <==> !plan.one_shot && plan.command@.len() > 0,
        spawn_next(plan, PhaseModel::RecordGeneration(generation), SpawnOutcome::Updated(1))
            is Running <==> plan.one_shot || plan.command@.len() == 0,
        spawn_next(plan, PhaseModel::RecordGeneration(generation), SpawnOutcome::Updated(0))
            is TakeBack,
        spawn_next(plan, PhaseModel::SubmitCommand, SpawnOutcome::Done) is Running,
        spawn_next(plan, PhaseModel::AddRow, SpawnOutcome::Failed(error)) == PhaseModel::TakeBack(
            "Database error: "@ + error@,
        ),
        spawn_next(plan, PhaseModel::AddSession, SpawnOutcome::Failed(error))
            == PhaseModel::TakeBack(error@),
        spawn_next(plan, PhaseModel::StartProcess, SpawnOutcome::Failed(error))
            == PhaseModel::TakeBack(error@),
        spawn_next(plan, PhaseModel::SubmitCommand, SpawnOutcome::Failed(error))
            == PhaseModel::TakeBack(error@),
        spawn_next(plan, PhaseModel::TakeBack(error@), SpawnOutcome::Done) == PhaseModel::Failed(
            error@,
        ),
{
}

/// The generation of a start is that of the first process with its session.
pub proof fn law_generation_is_that_of_the_session(
    cell: CellState,
    lease: LeaseState,
    session_id: Seq<char>,
    at: int,
)
    requires
        cell.lease == Some(lease),
        0 <= at < lease.processes@.len(),
        lease.processes@[at].key@ == session_id,
        forall|i: int| 0 <= i < at ==> (#[trigger] lease.processes@[i]).key@ != session_id,
    ensures
        started_generation(cell, session_id) == Some(lease.processes@[at].generation),
{
    lemma_key_is_first(lease.processes@, session_id, at, 0);
}

/// The first process with a key is the one that is found by it.
proof fn lemma_key_is_first(
    processes: Seq<ProcessState>,
    key: Seq<char>,
    at: int,
    from: int,
)
    requires
        0 <= from <= at < processes.len(),
        processes[at].key@ == key,
        forall|i: int| 0 <= i < at ==> (#[trigger] processes[i]).key@ != key,
    ensures
        process_with_key(processes, key, from) == Some(at),
    decreases at - from,
{
    if from < at {
        lemma_key_is_first(processes, key, at, from + 1);
    }
}

/// A promoted command is called by its number, and the next number is tried exactly if this
/// one is not known to be free and there are any left.
pub proof fn law_promoted_names_are_numbered(number: u64, taken: Result<bool, String>)
    ensures
        promoted_slug(number) == "run-"@ + decimal(number as nat),
        next_number(number, taken) is Some <==> taken != Ok::<bool, String>(false) && number
            < 10_000,
        next_number(number, taken) matches Some(next) ==> next == number + 1,
{
}

/// A promoted terminal is addressed below its task, or else below its node, or else in its
/// project, under its slug.
pub proof fn law_promoted_terminal_is_addressed_by_its_place(
    place: PromotedPlace,
    slug: Seq<char>,
)
    ensures
        ({
            let known = place.issue_number is Some && place.exec_seq is Some;
            let in_task = place.parent_segment is Some && place.task_segment is Some;
            let resource = promoted_resource(place, slug);
            &&& resource.named_slug() == slug
            &&& resource is Task <==> known && in_task
            &&& resource is Node <==> known && !in_task && place.node_segment is Some
            &&& resource is Project <==> !known || (!in_task && place.node_segment is None)
            &&& resource matches ResourceModel::Task {
                project,
                number,
                exec_seq,
                node_id,
                task_name,
                ..
            } ==> project == place.project_key@ && place.issue_number == Some(number)
                && place.exec_seq == Some(exec_seq) && node_id == place.parent_segment->Some_0@
                && task_name == place.task_segment->Some_0@
            &&& resource matches ResourceModel::Node { project, number, exec_seq, node_id, .. }
                ==> project == place.project_key@ && place.issue_number == Some(number)
                && place.exec_seq == Some(exec_seq) && node_id == place.node_segment->Some_0@
            &&& resource matches ResourceModel::Project { project, .. } ==> project
                == place.project_key@
        }),
{
}

/// A promotion announces itself after its session, its row and its handler; where the row
/// cannot be added the session is dropped first, and any fault ends it.
pub proof fn law_promotion_goes_through_its_steps(error: String, said: Seq<char>)
    ensures
        promotion_next(PromotionModel::AddSession, Ok::<(), String>(())) is AddRow,
        promotion_next(PromotionModel::AddRow, Ok::<(), String>(())) is AddHandler,
        promotion_next(PromotionModel::AddHandler, Ok::<(), String>(())) is Announce,
        promotion_next(PromotionModel::AddSession, Err::<(), String>(error))
            == PromotionModel::Failed(error@),
        promotion_next(PromotionModel::AddRow, Err::<(), String>(error))
            == PromotionModel::DropSession("Database error: "@ + error@),
        promotion_next(PromotionModel::AddHandler, Err::<(), String>(error))
            == PromotionModel::Failed(error@),
        promotion_next(PromotionModel::DropSession(said), Ok::<(), String>(()))
            == PromotionModel::Failed(said),
        promotion_next(PromotionModel::DropSession(said), Err::<(), String>(error))
            == PromotionModel::Failed(said),
{
}

/// Each operation that is refused is named in the answer.
pub proof fn law_refused_operation_is_named()
    ensures
        refusal(TerminalOperation::WriteInput) == "Failed to write terminal input: "@,
        refusal(TerminalOperation::Resize) == "Failed to resize terminal: "@,
        refusal(TerminalOperation::Stop) == "Failed to stop terminal: "@,
{
}

/// A new terminal is announced to its run, and to nobody where it has none.
pub proof fn law_terminal_is_announced_to_its_run(
    target: &TerminalResourceTarget,
    session_id: &str,
    command: &str,
    description: Option<String>,
    payload: Option<AgentTerminalCreatedPayload>,
)
    requires
        announces(target, session_id, command, description, payload),
    ensures
        payload is Some <==> target.run_id is Some,
        payload matches Some(sent) ==> sent.run_id@ == target.run_id->Some_0@ && sent.session_id@
            == session_id@ && sent.command@ == command@ && sent.description == description,
{
}

/// Input goes to the process that the session is bound to, and nowhere where there is none.
pub proof fn law_input_goes_to_the_bound_process(
    session_id: &str,
    found: SessionLookup,
    recorded: Result<TerminalBinding, String>,
    binding: Result<TerminalBinding, String>,
    known: Result<TerminalBinding, String>,
)
    requires
        is_input_binding(session_id, found, binding),
        is_binding_of(found, recorded, known),
    ensures
        binding is Ok <==> (found matches SessionLookup::Found(Some(_))),
        binding matches Ok(bound) ==> found == SessionLookup::Found(Some(bound)) && known
            == binding,
        found is Missing ==> known == recorded && binding->Err_0@
            == "Terminal session not running: "@ + session_id@,
        found == SessionLookup::Found(None) ==> known is Err,
{
}

/// Input that was sent is counted in bytes; a terminal that was stopped is named; a fault is
/// passed on.
pub proof fn law_input_and_stop_are_answered(
    target: &TerminalResourceTarget,
    session: Result<String, String>,
    written: &str,
    result: Result<(), String>,
    sent: Result<String, String>,
    stopped: Result<String, String>,
)
    requires
        tells_input(target, session, written, result, sent),
        tells_stop(target, session, result, stopped),
    ensures
        sent is Ok <==> session is Ok && result is Ok,
        stopped is Ok <==> session is Ok && result is Ok,
        sent matches Ok(said) ==> said@ == "Sent "@ + decimal(utf8_len(written@))
            + " chars to terminal "@ + target.slug@,
        stopped matches Ok(said) ==> said@ == "Stopped terminal "@ + target.slug@,
        session matches Err(error) ==> sent == Err::<String, String>(error) && stopped == Err::<
            String,
            String,
        >(error),
        session is Ok ==> (result matches Err(error) ==> sent == Err::<String, String>(error)
            && stopped == Err::<String, String>(error)),
{
}

/// A generation is recorded exactly if it changed one row.
pub proof fn law_generation_is_recorded_in_one_row(
    slug: &str,
    rows: u64,
    recorded: Result<(), String>,
)
    requires
        is_recorded(slug, rows, recorded),
    ensures
        recorded is Ok <==> rows == 1,
        recorded matches Err(error) ==> error@
            == "terminal generation binding disappeared for slug "@ + slug@,
{
}

/// A terminal starts behind the fence of its lease, and not without one; its process is bound
/// to that fence and its session before it has a generation.
pub proof fn law_terminal_starts_behind_its_fence(
    target: &TerminalResourceTarget,
    fence: Result<LeaseFence, String>,
    held: &LeaseFence,
    session_id: &str,
    binding: TerminalBinding,
    heartbeat: bool,
)
    requires
        is_fence_of(target, fence),
        is_first_binding(held, session_id, binding),
        is_bound(&Some(binding), held, heartbeat),
    ensures
        fence is Ok <==> target.lease is Some,
        fence matches Ok(lease) ==> target.lease == Some(lease),
        binding.fence == *held && binding.process_key@ == session_id@
            && binding.process_generation == 0,
        heartbeat,
{
}

/// A promoted terminal belongs to its job, project and run, under its slug and behind its
/// fence, without a branch or directory of its own.
pub proof fn law_promoted_target_belongs_to_its_run(
    slug: String,
    job_id: &str,
    project_id: &str,
    run_id: &str,
    fence: &LeaseFence,
    target: TerminalResourceTarget,
)
    requires
        is_promoted_target(slug, job_id, project_id, run_id, fence, target),
    ensures
        target@.slug == slug@ && target@.job_id == Some(job_id@) && target@.project_id
            == project_id@ && target@.run_id == Some(run_id@) && target@.lease == Some(fence@),
        target@.branch is None && target@.cwd.len() == 0 && target@.owner_ref is None,
{
}

/// An operation succeeds exactly if the cell answers it.
pub proof fn law_operation_succeeds_iff_it_is_answered(
    operation: TerminalOperation,
    answer: LeaseAnswer,
    done: Result<(), String>,
)
    requires
        is_operated(operation, answer, done),
    ensures
        done is Ok <==> answer.kind is State,
        done matches Err(error) ==> error@ == refusal(operation) + answer.shown@,
{
}

/// A policy is made for the command of the plan, where it has one.
pub proof fn law_policy_is_made_for_the_command(plan: &SpawnPlan, command: Option<&str>)
    requires
        is_policy_command(plan, command),
    ensures
        command is Some <==> plan.command@.len() > 0,
        command matches Some(text) ==> text@ == plan.command@,
{
}

/// A promotion keeps its fence, slug and address, and says whether its wake was subscribed
/// to.
pub proof fn law_promotion_says_whether_it_wakes<T>(
    fence: LeaseFence,
    slug: String,
    uri: String,
    subscription: Result<T, String>,
    promoted: PromotedTerminal,
)
    requires
        is_promoted(fence, slug, uri, subscription, promoted),
    ensures
        promoted.fence == fence && promoted.slug == slug && promoted.uri == uri,
        promoted.wake_subscribed <==> subscription is Ok,
{
}

} // verus!
