use std::collections::VecDeque;

use cairn_core::handlers::terminal::acquire::{
    checkout_refreshed, ensure_terminal_checkout_current, expect_state, lease_reclaimed,
    lease_released, materialize_terminal_lease, plan_restart, rejoin_target,
    release_terminal_process, resolve_job_terminal_tip, restart_launch, restart_owner,
    rollback_releases_lease, terminal_lease_acquisition, AnswerKind, CellPriority, HeadAnswer,
    LeaseAnswer, Materialized, Repository, ReservationSource, RestartPlan, RestartRow,
};
use cairn_core::handlers::terminal::exit::{
    created_message, finalize_terminal_session, is_one_shot, load_exit_context,
    mark_terminal_exited, on_promoted_event, on_terminal_event, subscribe_terminal_exit_wake_once,
    subscribe_terminal_output_wake_once, wake_subscriber, watch_outcome, EventEffect, ProcessEvent,
    ProcessEventKind, TerminalWakeRow, TerminalWakeSubscriptionOutcome, WakeStep,
};
use cairn_core::handlers::terminal::lease::{
    persisted_terminal_binding_by_session, restart_terminal_lease, restartable_processes,
    restarted_sessions, terminal_binding_from_cells, terminal_slugs_for_lease, CellState,
    LeaseFence, LeaseOwner, LeaseRow, LeaseState, ProcessState, ProcessStatus, RecordedBinding,
    TerminalBinding,
};
use cairn_core::handlers::terminal::output::{
    capture_output_tail, emit_terminal_data, register_terminal_output_watcher, take_chars,
    terminal_exit_context, OutputWatchRegistration, TerminalWakeSpec,
};
use cairn_core::handlers::terminal::resource::{
    ensure_terminal_slug_available, lookup_key, lookup_terminal_session_id_for_target,
    resolve_terminal_resource_target, resource_slug, terminal_resource_for_cwd,
    terminal_resource_for_job, terminal_resource_for_project, CellOwnerRef, JobPlace,
    StoredTerminal, TargetRow, TerminalOwner, TerminalResource, TerminalResourceTarget,
};
use cairn_core::handlers::terminal::spawn::{
    activate_promoted_executor_terminal, append_terminal_input, build_promoted_terminal_uri,
    created_payload, default_size, delete_terminal_by_resource, first_binding, heartbeat_bound,
    input_binding, insert_terminal_resource, next_promoted_number, plain_size, policy_command,
    promoted_target, promoted_terminal, reclaim_slug, render_promoted_slug, sandbox_mode,
    spawn_fence, spawn_terminal_session, terminal_args, terminal_binding_by_session, terminal_env,
    terminal_operated, terminal_process, CwdRoot, ProcessSandboxMode, ProcessSpec, PromotedPlace,
    PromotionPhase, PtySize, SandboxPolicy, SessionLookup, SpawnOutcome, SpawnPhase, SpawnPlan,
    Surroundings, TerminalOperation,
};

fn fence() -> LeaseFence {
    LeaseFence {
        lease_id: "terminal:j".to_string(),
        owner: LeaseOwner { kind: "terminal".to_string(), owner_id: "j".to_string() },
        incarnation_id: "incarnation".to_string(),
        lease_epoch: 7,
    }
}

fn process(key: &str, generation: u64, status: ProcessStatus) -> ProcessState {
    ProcessState { key: key.to_string(), generation, status }
}

fn cell(processes: Vec<ProcessState>) -> CellState {
    CellState {
        lease_epoch: 7,
        path: "/cell".to_string(),
        lease: Some(LeaseState {
            lease_id: "terminal:j".to_string(),
            owner: LeaseOwner { kind: "terminal".to_string(), owner_id: "j".to_string() },
            incarnation_id: "incarnation".to_string(),
            awaiting_reclaim: false,
            processes,
        }),
    }
}

fn slot() -> CellState {
    cell(vec![process("main", 1, ProcessStatus::Starting)])
}

fn target(slug: &str, job: Option<&str>, branch: Option<&str>) -> TerminalResourceTarget {
    TerminalResourceTarget {
        slug: slug.to_string(),
        job_id: job.map(str::to_string),
        project_id: "p".to_string(),
        run_id: job.map(|_| "run-7".to_string()),
        cwd: "/repo".to_string(),
        branch: branch.map(str::to_string),
        repo_path: "/repo".to_string(),
        owner_ref: None,
        lease: None,
    }
}

fn answer(kind: AnswerKind) -> LeaseAnswer {
    LeaseAnswer { kind, shown: "Rejected".to_string() }
}

#[test]
fn ambient_job_terminal_acquisition_preserves_owner_and_uses_live_checkout_head() {
    let mut target = target("direct", Some("job-7"), None);
    target.owner_ref = Some(CellOwnerRef {
        project_id: "p".into(),
        project_key: Some("P".into()),
        issue_number: Some(7),
        job_id: Some("job-7".into()),
        execution_seq: Some(2),
        node_kind: Some("builder".into()),
    });
    let head = HeadAnswer::Printed {
        success: true,
        stdout: b"abc123\n".to_vec(),
        stderr: Vec::new(),
    };
    let request = terminal_lease_acquisition(&target, head, 10, 20, 1_000).unwrap();
    assert_eq!(request.lease_id, "terminal:job-7");
    assert_eq!(request.owner.owner_id, "job-7");
    let owner_ref = request.owner_ref.unwrap();
    assert_eq!(owner_ref.node_kind.as_deref(), Some("builder"));
    assert_eq!(owner_ref.execution_seq, Some(2));
    assert_eq!(request.initial_base_commit, "abc123");
    match request.repository {
        Repository::Existing { project_id, repository_id, absolute_path } => {
            assert_eq!((project_id.as_str(), repository_id.as_str()), ("p", "p"));
            assert_eq!(absolute_path, "/repo");
        }
        other => panic!("unexpected {:?}", other),
    }
    assert_eq!(request.purpose, "agent terminals");
    assert_eq!(request.disk_growth_bytes, 0);
    assert_eq!(request.concurrency_units, 1);
    assert_eq!(request.reservation_source, ReservationSource::Declared);
    assert_eq!(request.priority, CellPriority::AgentInteractive);
    assert_eq!((request.heartbeat_timeout_ms, request.reclaim_grace_ms), (10, 20));
    assert_eq!(request.memory_bytes, 64 * 1024 * 1024);
    assert_eq!(request.deadline_unix_ms, 31_000);
}

#[test]
fn managed_job_terminal_acquisition_resolves_bookmark_and_uses_colocated_path() {
    let target = target("direct", Some("job-7"), Some("main"));
    let request = terminal_lease_acquisition(
        &target,
        HeadAnswer::Branch(Some("tip".to_string())),
        10,
        20,
        1_000,
    )
    .unwrap();
    assert_eq!(request.initial_base_commit, "tip");
    assert!(matches!(request.repository, Repository::Colocated { .. }));
    assert_eq!(request.disk_growth_bytes, 1024 * 1024 * 1024);
}

#[test]
fn leases_without_a_head_are_refused() {
    let ask = |branch: Option<&str>, head| {
        terminal_lease_acquisition(&target("s", None, branch), head, 1, 1, 1).unwrap_err()
    };
    assert_eq!(
        ask(Some("b"), HeadAnswer::Branch(None)),
        "agent terminal branch `b` does not resolve to a committed head"
    );
    assert_eq!(
        ask(None, HeadAnswer::NotRun("no git".into())),
        "resolve project checkout head: no git"
    );
    let failed = HeadAnswer::Printed { success: false, stdout: Vec::new(), stderr: b" bad \n".to_vec() };
    assert_eq!(ask(None, failed), "resolve project checkout head: bad");
    assert_eq!(
        ask(None, HeadAnswer::Broken("panic".into())),
        "terminal VCS resolution task failed: panic"
    );
    let invalid = HeadAnswer::Printed { success: true, stdout: vec![0xff, b'a'], stderr: Vec::new() };
    let request = terminal_lease_acquisition(&target("s", None, None), invalid, 1, 1, 1).unwrap();
    assert_eq!(request.initial_base_commit, "\u{fffd}a");
    assert_eq!(request.purpose, "project terminals");
    assert_eq!(request.lease_id, "terminal:p");
}

#[test]
fn shared_lease_restart_excludes_completed_one_shots() {
    let row = |slug: &str, status: &str, session: &str| LeaseRow {
        slug: slug.to_string(),
        status: status.to_string(),
        session_id: session.to_string(),
    };
    let rows = vec![
        row("run-1", "exited", "s1"),
        row("shell", "running", "s2"),
        row("watch", "running", "s3"),
    ];
    assert_eq!(terminal_slugs_for_lease(&rows, &Vec::new()), vec!["shell", "watch"]);
    assert_eq!(
        terminal_slugs_for_lease(&rows, &vec!["s1".to_string()]),
        vec!["run-1", "shell", "watch"]
    );
    let closing = vec![row("x", "closing", "s1"), row("y", "recovering", "s9")];
    assert_eq!(terminal_slugs_for_lease(&closing, &vec!["s1".to_string()]), vec!["y"]);
}

#[test]
fn a_lease_restarts_what_its_executor_lost() {
    let lost = ProcessStatus::Exited { exit_code: None, restartable: true, executor_lost: true };
    let done = ProcessStatus::Exited { exit_code: Some(0), restartable: true, executor_lost: false };
    let cells = vec![cell(vec![
        process("a", 1, ProcessStatus::Running),
        process("b", 2, lost),
        process("c", 3, done),
    ])];
    assert_eq!(restartable_processes(&cells, "terminal:j"), vec!["a", "b"]);
    assert!(restartable_processes(&cells, "terminal:k").is_empty());
    let rows = vec![LeaseRow {
        slug: "s".to_string(),
        status: "exited".to_string(),
        session_id: "b".to_string(),
    }];
    assert_eq!(restart_terminal_lease("terminal:j", &cells, &rows).unwrap(), vec!["s"]);
    assert_eq!(
        restart_terminal_lease("terminal:k", &cells, &rows).unwrap_err(),
        "No terminal row is bound to lease terminal:k"
    );
    assert_eq!(restarted_sessions(&vec!["x".to_string(), "y".to_string()]), "x,y");
}

fn surroundings() -> Surroundings {
    Surroundings {
        env: vec![("HOME".to_string(), "/h".to_string())],
        path: "/bin".to_string(),
        callback_port: 4321,
        cache_dir: "/uv".to_string(),
        secret: None,
        default_shell: "/bin/zsh".to_string(),
        windows: false,
    }
}

fn policy(worktree_writable: bool) -> SandboxPolicy {
    SandboxPolicy {
        worktree: "/cell".to_string(),
        writable_extra: vec!["/tmp".to_string()],
        deny_read: Vec::new(),
        writable_regex: Vec::new(),
        worktree_writable,
    }
}

fn spawned(branch: Option<&str>, command: &str, policy: Option<SandboxPolicy>) -> ProcessSpec {
    let plan = SpawnPlan {
        session_id: "sid".to_string(),
        slug: "s".to_string(),
        command: command.to_string(),
        one_shot: true,
    };
    terminal_process(
        &target("s", Some("j"), branch),
        &plan,
        Some("/bin/sh".to_string()),
        surroundings(),
        policy,
        default_size(),
    )
}

#[test]
fn terminal_spawn_honors_fence_allow_as_unconfined() {
    assert_eq!(sandbox_mode(false, &Some("branch".into())), ProcessSandboxMode::Unconfined);
    let process = spawned(Some("branch"), "bun dev:instance", None);
    assert_eq!(process.sandbox_mode, ProcessSandboxMode::Unconfined);
    assert!(process.sandbox_policy.is_none());
}

#[test]
fn terminal_spawn_honors_fence_ask_as_worktree_confined() {
    assert_eq!(sandbox_mode(true, &Some("branch".into())), ProcessSandboxMode::Confined);
    let process = spawned(Some("branch"), "bun dev:instance", Some(policy(true)));
    assert_eq!(process.sandbox_mode, ProcessSandboxMode::Confined);
    let policy = process.sandbox_policy.unwrap();
    assert_eq!(policy.worktree, "/cell");
    assert!(policy.worktree_writable);
}

#[test]
fn terminal_spawn_keeps_branchless_live_checkout_read_only() {
    assert_eq!(sandbox_mode(true, &None), ProcessSandboxMode::ReadOnlyCheckout);
    let process = spawned(None, "touch forbidden", Some(policy(false)));
    assert_eq!(process.sandbox_mode, ProcessSandboxMode::ReadOnlyCheckout);
    assert!(!process.sandbox_policy.unwrap().worktree_writable);
}

#[test]
fn a_terminal_process_is_specified_whole() {
    let process = spawned(Some("main"), "ls", None);
    assert_eq!(process.process_key, "sid");
    assert_eq!(process.program, "/bin/sh");
    assert_eq!(process.args, vec!["-c", "ls"]);
    assert_eq!(process.cwd, "");
    assert_eq!(process.cwd_root, CwdRoot::Checkout);
    assert!(process.runtime_assets.is_empty());
    assert_eq!(process.size, PtySize { rows: 24, cols: 80, pixel_width: 0, pixel_height: 0 });
    assert_eq!(process.env[0], ("HOME".to_string(), "/h".to_string()));
    let branch = process.env.iter().rev().find(|(key, _)| key == "CAIRN_WORKTREE_BRANCH");
    assert_eq!(branch.map(|(_, value)| value.as_str()), Some("main"));

    let plan = SpawnPlan {
        session_id: "sid".to_string(),
        slug: "s".to_string(),
        command: String::new(),
        one_shot: false,
    };
    let process = terminal_process(
        &target("s", None, None),
        &plan,
        None,
        Surroundings { windows: true, ..surroundings() },
        None,
        plain_size(5, 7),
    );
    assert_eq!(process.program, "/bin/zsh");
    assert!(process.args.is_empty());
    assert_eq!((process.size.rows, process.size.cols), (5, 7));
    assert_eq!(policy_command(&plan), None);
    let plan = SpawnPlan { command: "ls".to_string(), ..plan };
    assert_eq!(policy_command(&plan), Some("ls"));

    let binding = first_binding(&fence(), "sid");
    assert_eq!(binding.fence.lease_id, "terminal:j");
    assert_eq!(binding.fence.lease_epoch, 7);
    assert_eq!((binding.process_key.as_str(), binding.process_generation), ("sid", 0));
}

#[test]
fn persisted_terminal_binding_recovers_without_an_in_memory_session() {
    let binding = terminal_binding_from_cells(
        &vec![slot()],
        "terminal:j",
        "incarnation",
        7,
        Some("fast"),
        Some(1),
    )
    .expect("retained executor cell should recover the terminal binding");
    assert_eq!(binding.fence.lease_id, "terminal:j");
    assert_eq!(binding.fence.owner.owner_id, "j");
    assert_eq!(binding.fence.incarnation_id, "incarnation");
    assert_eq!(binding.fence.lease_epoch, 7);
    assert_eq!(binding.process_key, "main");
    assert_eq!(binding.process_generation, 1);
}

#[test]
fn bindings_are_refused_where_they_are_uncertain() {
    let cells = vec![cell(vec![
        process("a", 1, ProcessStatus::Running),
        process("b", 1, ProcessStatus::Running),
    ])];
    let find = |epoch, slug, generation| {
        terminal_binding_from_cells(&cells, "terminal:j", "incarnation", epoch, slug, generation)
    };
    assert!(find(7, None, Some(1)).is_none());
    assert!(find(8, Some("a"), None).is_none());
    assert_eq!(find(7, Some("b"), Some(9)).unwrap().process_key, "b");
}

#[test]
fn recorded_bindings_name_what_is_missing() {
    let recorded = || RecordedBinding {
        slug: Some("main".to_string()),
        lease_id: Some("terminal:j".to_string()),
        incarnation_id: Some("incarnation".to_string()),
        lease_epoch: Some(7),
        process_generation: None,
    };
    let ask = |row, cells: Vec<CellState>| persisted_terminal_binding_by_session("s", row, &cells);
    assert_eq!(ask(Ok(None), Vec::new()).unwrap_err(), "Terminal session not running: s");
    assert_eq!(ask(Err("db".into()), Vec::new()).unwrap_err(), "db");
    let mut row = recorded();
    row.lease_epoch = None;
    assert_eq!(
        ask(Ok(Some(row)), Vec::new()).unwrap_err(),
        "Terminal session has no retained lease epoch: s"
    );
    let mut row = recorded();
    row.incarnation_id = None;
    assert_eq!(
        ask(Ok(Some(row)), Vec::new()).unwrap_err(),
        "Terminal session has no retained lease incarnation: s"
    );
    let mut row = recorded();
    row.lease_id = None;
    assert_eq!(
        ask(Ok(Some(row)), Vec::new()).unwrap_err(),
        "Terminal session has no retained executor lease: s"
    );
    assert_eq!(
        ask(Ok(Some(recorded())), Vec::new()).unwrap_err(),
        "Terminal executor lease is not connected: s"
    );
    assert_eq!(ask(Ok(Some(recorded())), vec![slot()]).unwrap().process_key, "main");
}

fn plan(command: &str, one_shot: bool) -> SpawnPlan {
    SpawnPlan {
        session_id: "sess".to_string(),
        slug: "slug".to_string(),
        command: command.to_string(),
        one_shot,
    }
}

fn started() -> SpawnOutcome {
    let cell = cell(vec![process("sess", 4, ProcessStatus::Running)]);
    SpawnOutcome::Answered(answer(AnswerKind::State(cell)))
}

#[test]
fn start_failure_rolls_back_row_session_handler_and_retained_lease() {
    let plan = plan("ls", true);
    let phase = spawn_terminal_session(&plan, SpawnPhase::AddSession, SpawnOutcome::Done);
    assert!(matches!(phase, SpawnPhase::AddRow));
    let phase = spawn_terminal_session(&plan, phase, SpawnOutcome::Done);
    assert!(matches!(phase, SpawnPhase::AddHandler));
    let phase = spawn_terminal_session(&plan, phase, SpawnOutcome::Done);
    assert!(matches!(phase, SpawnPhase::StartProcess));
    let refused = SpawnOutcome::Answered(answer(AnswerKind::Other));
    match spawn_terminal_session(&plan, phase, refused) {
        SpawnPhase::TakeBack(error) => {
            assert_eq!(error, "failed to start terminal PTY: Rejected");
            let phase =
                spawn_terminal_session(&plan, SpawnPhase::TakeBack(error), SpawnOutcome::Done);
            assert!(matches!(phase, SpawnPhase::Failed(_)));
        }
        other => panic!("unexpected {:?}", other),
    }
    assert!(rollback_releases_lease(Ok(false)));
    assert!(!rollback_releases_lease(Ok(true)));
    assert!(!rollback_releases_lease(Err("db".into())));
}

#[test]
fn missing_generation_binding_rolls_back_started_process_and_lease() {
    let plan = plan("ls", true);
    let phase = spawn_terminal_session(&plan, SpawnPhase::StartProcess, started());
    assert!(matches!(phase, SpawnPhase::RecordGeneration(4)));
    match spawn_terminal_session(&plan, phase, SpawnOutcome::Updated(0)) {
        SpawnPhase::TakeBack(error) => assert_eq!(
            error,
            "Database error: terminal generation binding disappeared for slug slug"
        ),
        other => panic!("unexpected {:?}", other),
    }
    let empty = SpawnOutcome::Answered(answer(AnswerKind::State(slot())));
    match spawn_terminal_session(&plan, SpawnPhase::StartProcess, empty) {
        SpawnPhase::TakeBack(error) => {
            assert_eq!(error, "terminal PTY start returned no process generation")
        }
        other => panic!("unexpected {:?}", other),
    }
    match spawn_terminal_session(&plan, SpawnPhase::AddRow, SpawnOutcome::Failed("io".into())) {
        SpawnPhase::TakeBack(error) => assert_eq!(error, "Database error: io"),
        other => panic!("unexpected {:?}", other),
    }
    match spawn_terminal_session(&plan, SpawnPhase::AddHandler, SpawnOutcome::Failed("x".into())) {
        SpawnPhase::TakeBack(error) => assert_eq!(error, "x"),
        other => panic!("unexpected {:?}", other),
    }
}

#[test]
fn an_interactive_terminal_is_handed_its_command() {
    let recorded = || SpawnPhase::RecordGeneration(4);
    let next = |plan: &SpawnPlan| spawn_terminal_session(plan, recorded(), SpawnOutcome::Updated(1));
    assert!(matches!(next(&plan("ls", false)), SpawnPhase::SubmitCommand));
    assert!(matches!(next(&plan("", false)), SpawnPhase::Running));
    assert!(matches!(next(&plan("ls", true)), SpawnPhase::Running));
    let phase =
        spawn_terminal_session(&plan("ls", false), SpawnPhase::SubmitCommand, SpawnOutcome::Done);
    assert!(matches!(phase, SpawnPhase::Running));
    assert_eq!(terminal_args(true, false, "ls"), vec!["-c", "ls"]);
    assert_eq!(terminal_args(true, true, "ls"), vec!["-Command", "ls"]);
    assert!(terminal_args(false, false, "ls").is_empty());
}

#[test]
fn terminal_residency_gate_refreshes_the_checkout_to_the_tip() {
    assert!(ensure_terminal_checkout_current("tip", answer(AnswerKind::State(slot()))).is_ok());
}

#[test]
fn terminal_residency_gate_fails_closed_on_refresh_failure() {
    assert_eq!(
        ensure_terminal_checkout_current("tip", answer(AnswerKind::Other)).unwrap_err(),
        "failed to refresh terminal checkout to tip: Rejected"
    );
}

fn acquired(branch: Option<&str>, kind: AnswerKind) -> Result<Materialized, String> {
    let target = target("direct", Some("j"), branch);
    let head = match branch {
        Some(_) => HeadAnswer::Branch(Some("tip".to_string())),
        None => HeadAnswer::Printed { success: true, stdout: b"head".to_vec(), stderr: Vec::new() },
    };
    let request = terminal_lease_acquisition(&target, head, 1, 1, 1).unwrap();
    materialize_terminal_lease(target, request, answer(kind))
}

#[test]
fn create_job_terminal_acquires_refreshes_then_starts_in_order() {
    match acquired(Some("main"), AnswerKind::State(slot())).unwrap() {
        Materialized::Refresh { target, tip } => {
            assert_eq!(tip, "tip");
            let ready =
                checkout_refreshed(target, &tip, answer(AnswerKind::State(slot()))).unwrap();
            assert_eq!(ready.cwd, "/cell");
            assert_eq!(spawn_fence(&ready).unwrap().lease_epoch, 7);
        }
        other => panic!("unexpected {:?}", other),
    }
    assert!(matches!(acquired(None, AnswerKind::State(slot())).unwrap(), Materialized::Ready(_)));
    assert_eq!(
        acquired(None, AnswerKind::Other).unwrap_err(),
        "failed to acquire terminal lease: Rejected"
    );
    let empty = CellState { lease_epoch: 7, path: "/cell".to_string(), lease: None };
    assert_eq!(
        acquired(None, AnswerKind::State(empty)).unwrap_err(),
        "terminal lease acquisition returned no lifetime occupant"
    );
    assert_eq!(
        spawn_fence(&target("s", None, None)).unwrap_err(),
        "terminal directory has no lifetime lease"
    );
}

#[test]
fn create_job_terminal_fails_closed_without_spawning_on_refresh_failure() {
    match acquired(Some("main"), AnswerKind::State(slot())).unwrap() {
        Materialized::Refresh { target, tip } => {
            let failed = checkout_refreshed(target, &tip, answer(AnswerKind::Other)).unwrap_err();
            assert_eq!(failed.fence.unwrap().lease_id, "terminal:j");
            assert_eq!(failed.error, "failed to refresh terminal checkout to tip: Rejected");
        }
        other => panic!("unexpected {:?}", other),
    }
}

#[test]
fn tips_are_resolved_for_branches_only() {
    let with = target("s", Some("j"), Some("b"));
    assert_eq!(resolve_job_terminal_tip(&target("s", None, None), Err("x".into())).unwrap(), None);
    assert_eq!(
        resolve_job_terminal_tip(&with, Ok(Some("tip".into()))).unwrap().as_deref(),
        Some("tip")
    );
    assert_eq!(
        resolve_job_terminal_tip(&with, Ok(None)).unwrap_err(),
        "agent terminal branch `b` does not resolve to a committed head"
    );
    assert_eq!(
        resolve_job_terminal_tip(&with, Err("join".into())).unwrap_err(),
        "terminal branch resolution task failed: join"
    );
}

fn running_row() -> TerminalWakeRow {
    TerminalWakeRow {
        status: "running".to_string(),
        exit_code: None,
        created_at: 1,
        exited_at: None,
        output_tail: None,
        session_id: Some("s1".to_string()),
    }
}

#[test]
fn finalize_marks_exited_retains_tail_and_is_idempotent() {
    let buffer: VecDeque<u8> = b"all done\n".iter().copied().collect();
    let mut row = running_row();
    let job = Some("j".to_string());
    let mut finalize = |exit_code: Option<i32>, now: i64| {
        let tail = capture_output_tail(&buffer);
        let transitioned = mark_terminal_exited(&mut row, exit_code, tail.clone(), now);
        let context =
            load_exit_context(transitioned, Some(row.created_at), &job, exit_code, None);
        let sent = finalize_terminal_session(
            "s1",
            exit_code,
            tail,
            Ok(context),
            now,
            &buffer,
            "sleep 100",
        );
        (row.status.clone(), row.exit_code, row.output_tail.clone(), sent)
    };
    let (status, code, tail, sent) = finalize(Some(0), 50);
    assert_eq!(status, "exited");
    assert_eq!(code, Some(0));
    assert!(tail.clone().unwrap_or_default().contains("all done"));
    let sent = sent.unwrap();
    assert_eq!(sent.payload.exit_code, Some(0));
    assert_eq!(sent.output_tail, tail);

    let (status, code, kept, sent) = finalize(Some(99), 60);
    assert_eq!(status, "exited");
    assert_eq!(code, Some(0));
    assert_eq!(kept, tail);
    assert!(sent.is_none());
}

#[test]
fn mark_terminal_exited_is_conditional_on_running() {
    let mut row = running_row();
    let job = Some("j".to_string());
    let first = mark_terminal_exited(&mut row, Some(0), Some("tail".to_string()), 2);
    assert!(load_exit_context(first, Some(1), &job, Some(0), None).is_some());
    let second = mark_terminal_exited(&mut row, Some(5), Some("tail".to_string()), 3);
    assert!(load_exit_context(second, Some(1), &job, Some(5), None).is_none());
}

#[test]
fn finalize_sends_only_on_the_transition() {
    let buffer: VecDeque<u8> = b"boom".iter().copied().collect();
    let job = Some("j".to_string());
    let context = load_exit_context(true, Some(10), &job, Some(3), Some("agent-session".into()));
    let sent = finalize_terminal_session(
        "s1",
        Some(3),
        Some("boom".to_string()),
        Ok(context),
        25,
        &buffer,
        "make test",
    )
    .unwrap();
    assert_eq!(sent.payload.session_id, "s1");
    assert_eq!(sent.payload.exit_code, Some(3));
    assert_eq!(sent.runtime_secs, Some(15));
    assert_eq!(
        sent.injection,
        Some((
            "agent-session".to_string(),
            "[Terminal Update] Background command 'make test' exited with code 3:\n```\nboom\n```"
                .to_string()
        ))
    );
    let quiet = |context| finalize_terminal_session("s1", Some(0), None, context, 1, &buffer, "x");
    assert!(quiet(Ok(None)).is_none());
    assert!(quiet(Err("db".into())).is_none());
    let clean = load_exit_context(true, None, &job, Some(0), Some("agent-session".into()));
    let sent = quiet(Ok(clean)).unwrap();
    assert!(sent.injection.is_none());
    assert_eq!(sent.runtime_secs, None);
}

fn exited_row() -> TerminalWakeRow {
    TerminalWakeRow {
        status: "exited".to_string(),
        exit_code: Some(3),
        created_at: 1,
        exited_at: Some(50),
        output_tail: Some("boom".to_string()),
        session_id: Some("s1".to_string()),
    }
}

#[test]
fn output_wake_reroutes_exit_observed_only_after_persist() {
    match subscribe_terminal_output_wake_once(Ok(()), Ok(Some(exited_row())), &None, Some("s1"))
        .unwrap()
    {
        WakeStep::RouteExit(notice) => {
            assert_eq!(notice.exit_code, Some(3));
            assert_eq!(notice.runtime_secs, Some(49));
            assert_eq!(notice.output_tail.as_deref(), Some("boom"));
        }
        other => panic!("unexpected {:?}", other),
    }
}

#[test]
fn exit_wake_reroutes_exit_observed_only_after_persist() {
    assert!(matches!(
        subscribe_terminal_exit_wake_once(Ok(()), Ok(Some(exited_row())), &None).unwrap(),
        WakeStep::RouteExit(_)
    ));
    assert!(matches!(
        subscribe_terminal_exit_wake_once(Ok(()), Ok(Some(running_row())), &None).unwrap(),
        WakeStep::Done(TerminalWakeSubscriptionOutcome::ExitSubscribed)
    ));
    assert_eq!(
        subscribe_terminal_exit_wake_once(Ok(()), Err("db".into()), &None).unwrap_err(),
        "db"
    );
    assert_eq!(
        subscribe_terminal_exit_wake_once(Err("store".into()), Ok(None), &None).unwrap_err(),
        "store"
    );
}

#[test]
fn output_wakes_watch_a_known_session() {
    match subscribe_terminal_output_wake_once(Ok(()), Ok(None), &Some(running_row()), None).unwrap() {
        WakeStep::Watch(session) => assert_eq!(session, "s1"),
        other => panic!("unexpected {:?}", other),
    }
    assert!(matches!(
        subscribe_terminal_output_wake_once(Ok(()), Ok(None), &None, None).unwrap(),
        WakeStep::Done(TerminalWakeSubscriptionOutcome::OutputPersisted)
    ));
    assert!(matches!(
        watch_outcome(&OutputWatchRegistration::Registered),
        TerminalWakeSubscriptionOutcome::OutputRegistered
    ));
    assert!(matches!(
        watch_outcome(&OutputWatchRegistration::NotLive),
        TerminalWakeSubscriptionOutcome::OutputPersisted
    ));
    assert!(matches!(
        watch_outcome(&OutputWatchRegistration::AlreadyPresent { excerpt: None }),
        TerminalWakeSubscriptionOutcome::OutputAlreadyQueued
    ));
}

fn stored(job: &str, slug: &str, status: &str) -> StoredTerminal {
    StoredTerminal {
        job_id: Some(job.to_string()),
        project_id: None,
        slug: Some(slug.to_string()),
        status: status.to_string(),
        session_id: format!("{}-{}", job, slug),
    }
}

fn target_row() -> TargetRow {
    TargetRow {
        project_id: "p".to_string(),
        cwd: "/wt".to_string(),
        run_id: Some("r".to_string()),
        branch: Some("b".to_string()),
        repo_path: "/repo".to_string(),
    }
}

#[test]
fn resolve_task_terminal_targets_child_job_and_scopes_slug_collisions() {
    let rows = vec![stored("task-j", "run-1", "running"), stored("task-j", "task-only", "running")];
    let resource = TerminalResource::Task {
        project: "P".to_string(),
        number: 7,
        exec_seq: 2,
        node_id: "builder".to_string(),
        task_name: "Explore".to_string(),
        slug: "run-1".to_string(),
    };
    let target =
        resolve_terminal_resource_target(&resource, Some("task-j".into()), Some(target_row()))
            .unwrap();
    assert_eq!(target.job_id.as_deref(), Some("task-j"));
    assert_eq!(target.slug, "run-1");
    assert_eq!(
        ensure_terminal_slug_available(&rows, &target).unwrap_err(),
        "A running terminal already exists in this scope: run-1"
    );

    let parent = TerminalResource::Node {
        project: "P".to_string(),
        number: 7,
        exec_seq: 2,
        node_id: "builder".to_string(),
        slug: "task-only".to_string(),
    };
    let parent_target =
        resolve_terminal_resource_target(&parent, Some("j".into()), Some(target_row())).unwrap();
    assert!(ensure_terminal_slug_available(&rows, &parent_target).is_ok());
}

#[test]
fn targets_name_what_is_missing() {
    let node = TerminalResource::Node {
        project: "p".to_string(),
        number: 7,
        exec_seq: 2,
        node_id: "builder".to_string(),
        slug: "s".to_string(),
    };
    assert_eq!(lookup_key(&node).as_deref(), Some("P"));
    assert_eq!(
        resolve_terminal_resource_target(&node, None, None).unwrap_err(),
        "No node job found for terminal target p-7/2/builder"
    );
    assert_eq!(
        resolve_terminal_resource_target(&node, Some("j".into()), None).unwrap_err(),
        "No job found for id j"
    );
    let task = TerminalResource::Task {
        project: "P".to_string(),
        number: 7,
        exec_seq: 2,
        node_id: "builder".to_string(),
        task_name: "t".to_string(),
        slug: "s".to_string(),
    };
    assert_eq!(
        resolve_terminal_resource_target(&task, None, None).unwrap_err(),
        "No task job found for terminal target P-7/2/builder/task/t"
    );
    let project = TerminalResource::Project { project: "x".to_string(), slug: "s".to_string() };
    assert_eq!(
        resolve_terminal_resource_target(&project, None, None).unwrap_err(),
        "No project found for key x"
    );
    let found = resolve_terminal_resource_target(&project, None, Some(target_row())).unwrap();
    assert_eq!((found.cwd.as_str(), found.branch, found.job_id), ("/repo", None, None));
    assert_eq!(
        resolve_terminal_resource_target(&TerminalResource::Other, None, None).unwrap_err(),
        "Resource is not a terminal URI"
    );
    assert_eq!(resource_slug(&TerminalResource::Other), "terminal");
}

#[test]
fn terminals_belong_to_a_job_or_a_project() {
    let place = |parent: Option<&str>| JobPlace {
        project: "P".to_string(),
        number: 1,
        exec_seq: 2,
        segment: "seg".to_string(),
        parent_segment: parent.map(str::to_string),
    };
    assert!(matches!(
        terminal_resource_for_job("j", Some(place(None)), "s".into()).unwrap(),
        TerminalResource::Node { node_id, .. } if node_id == "seg"
    ));
    assert!(matches!(
        terminal_resource_for_job("j", Some(place(Some("up"))), "s".into()).unwrap(),
        TerminalResource::Task { node_id, task_name, .. } if node_id == "up" && task_name == "seg"
    ));
    assert_eq!(terminal_resource_for_job("j", None, "s".into()).unwrap_err(), "Job not found: j");
    assert_eq!(
        terminal_resource_for_project("p", None, "s".into()).unwrap_err(),
        "Project not found: p"
    );
    assert!(matches!(
        terminal_resource_for_cwd("/w", None, Some("p".into())).unwrap(),
        TerminalOwner::Project(_)
    ));
    assert!(matches!(
        terminal_resource_for_cwd("/w", Some("j".into()), Some("p".into())).unwrap(),
        TerminalOwner::Job(_)
    ));
    assert_eq!(
        terminal_resource_for_cwd("/w", None, None).unwrap_err(),
        "Terminal cwd is not inside a managed project or agent worktree: /w"
    );
}

#[test]
fn emit_terminal_data_tees_into_the_log() {
    let mut buffer = VecDeque::new();
    let denial = "\r\nDenied by agent fence policy (fence: deny): touch /etc/x\r\n";
    let emitted = emit_terminal_data("sess", denial, &mut buffer, 1024, true);
    let buffered: Vec<u8> = buffer.iter().copied().collect();
    assert!(String::from_utf8_lossy(&buffered).contains("Denied by agent fence policy"));
    let logged = emitted.logged.unwrap();
    assert!(String::from_utf8_lossy(&logged).contains("Denied by agent fence policy"));
    assert_eq!(emitted.payload.data, denial);
    assert_eq!(emitted.payload.session_id, "sess");
}

#[test]
fn the_buffer_keeps_the_last_bytes() {
    let mut buffer = VecDeque::new();
    assert!(emit_terminal_data("s", "abc", &mut buffer, 4, false).logged.is_none());
    emit_terminal_data("s", "défg", &mut buffer, 4, false);
    let kept: Vec<u8> = buffer.iter().copied().collect();
    assert_eq!(kept, "éfg".as_bytes());
    emit_terminal_data("s", "x", &mut buffer, 0, false);
    assert!(buffer.is_empty());
}

#[test]
fn output_tails_are_cut_and_blank_ones_dropped() {
    assert_eq!(capture_output_tail(&VecDeque::new()), None);
    assert_eq!(capture_output_tail(&b" \n\t".iter().copied().collect()), None);
    let long: VecDeque<u8> = "ab".repeat(1500).bytes().collect();
    assert_eq!(capture_output_tail(&long).unwrap().chars().count(), 2000);
    let lossy: VecDeque<u8> = vec![b'a', 0xff, b'b'].into();
    assert_eq!(capture_output_tail(&lossy).as_deref(), Some("a\u{fffd}b"));
    assert_eq!(take_chars("äöü", 2), "äö");
    let message = terminal_exit_context(&"c".repeat(150), 1, &VecDeque::new());
    assert!(message.starts_with(&format!(
        "[Terminal Update] Background command '{}' exited with code 1:",
        "c".repeat(100)
    )));
}

#[test]
fn a_subscription_has_one_watcher() {
    let (watchers, _) =
        register_terminal_output_watcher(Some(Vec::new()), None, "sub", "j", "first", "u");
    let (watchers, _) = register_terminal_output_watcher(watchers, None, "other", "j", "x", "u");
    let (watchers, outcome) =
        register_terminal_output_watcher(watchers, None, "sub", "j", "second", "u");
    assert!(matches!(outcome, OutputWatchRegistration::Registered));
    let watchers = watchers.unwrap();
    assert_eq!(watchers.len(), 2);
    assert_eq!(watchers[0].subscription_id, "other");
    assert_eq!(watchers[1].phrase, "second");
    let (kept, outcome) =
        register_terminal_output_watcher(Some(watchers), Some("hit".into()), "sub", "j", "p", "u");
    assert_eq!(kept.unwrap().len(), 2);
    assert!(matches!(outcome, OutputWatchRegistration::AlreadyPresent { .. }));
    let (gone, outcome) = register_terminal_output_watcher(None, None, "sub", "j", "p", "u");
    assert!(gone.is_none());
    assert!(matches!(outcome, OutputWatchRegistration::NotLive));
}

fn process_event(epoch: u64, key: &str, generation: u64, kind: ProcessEventKind) -> ProcessEvent {
    ProcessEvent {
        incarnation_id: "incarnation".to_string(),
        lease_epoch: epoch,
        process_key: key.to_string(),
        process_generation: generation,
        kind,
    }
}

#[test]
fn immediate_executor_exit_finalizes_the_preinserted_terminal_once() {
    let exit = || ProcessEventKind::Exited { exit_code: Some(0), executor_lost: false };
    // The start was not answered yet: the session is bound to no generation.
    match on_terminal_event(&fence(), Some(0), process_event(7, "sess", 4, exit())) {
        EventEffect::Finish { exit_code, notice } => {
            assert_eq!(exit_code, Some(0));
            assert!(!notice);
        }
        other => panic!("unexpected {:?}", other),
    }
    let mut row = running_row();
    assert!(mark_terminal_exited(&mut row, Some(0), None, 2));
    assert!(!mark_terminal_exited(&mut row, Some(0), None, 2));
}

#[test]
fn events_of_other_lives_are_ignored() {
    let output = || ProcessEventKind::Output(b"hi".to_vec());
    let ignored = |effect| matches!(effect, EventEffect::Ignore);
    assert!(ignored(on_terminal_event(&fence(), Some(4), process_event(8, "k", 4, output()))));
    assert!(ignored(on_terminal_event(&fence(), Some(4), process_event(7, "k", 5, output()))));
    assert!(ignored(on_terminal_event(&fence(), None, process_event(7, "k", 5, output()))));
    assert!(ignored(on_promoted_event(&fence(), "k", 4, process_event(7, "other", 4, output()))));
    assert!(ignored(on_promoted_event(&fence(), "k", 4, process_event(7, "k", 5, output()))));
    assert!(ignored(on_terminal_event(
        &fence(),
        Some(4),
        process_event(7, "k", 4, ProcessEventKind::Other)
    )));
    match on_promoted_event(&fence(), "k", 4, process_event(7, "k", 4, output())) {
        EventEffect::Show(text) => assert_eq!(text, "hi"),
        other => panic!("unexpected {:?}", other),
    }
    let lost = ProcessEventKind::Exited { exit_code: None, executor_lost: true };
    match on_terminal_event(&fence(), Some(4), process_event(7, "k", 4, lost)) {
        EventEffect::Finish { notice, .. } => assert!(notice),
        other => panic!("unexpected {:?}", other),
    }
}

#[test]
fn creators_are_told_how_the_wake_stands() {
    let exit = Some(TerminalWakeSpec::Exit);
    let output = Some(TerminalWakeSpec::Output("ready".to_string()));
    let say = |wake: &Option<TerminalWakeSpec>, outcome| created_message("s", "u", wake, Ok(outcome));
    assert_eq!(
        created_message("s", "u", &None, Err("unused".into())),
        "Started terminal s"
    );
    assert_eq!(
        say(&exit, TerminalWakeSubscriptionOutcome::ExitSubscribed),
        "Started terminal s; subscribed to exit — end your turn to resume when it finishes (u)"
    );
    assert_eq!(
        say(&exit, TerminalWakeSubscriptionOutcome::ExitAlreadyQueued),
        "Started terminal s; subscribed to exit — end your turn to resume when it finishes (u)"
    );
    assert_eq!(
        say(&exit, TerminalWakeSubscriptionOutcome::OutputPersisted),
        "Started terminal s; automatic wake registered (u)"
    );
    assert_eq!(
        say(&output, TerminalWakeSubscriptionOutcome::ExitAlreadyQueued),
        "Started terminal s; it already exited before \"ready\" appeared, so resume is queued for turn end (u)"
    );
    for outcome in [
        TerminalWakeSubscriptionOutcome::OutputRegistered,
        TerminalWakeSubscriptionOutcome::OutputPersisted,
    ] {
        assert_eq!(
            say(&output, outcome),
            "Started terminal s; watching output for \"ready\" (also wakes on exit) — end your turn to resume when it appears (u)"
        );
    }
    assert_eq!(
        say(&output, TerminalWakeSubscriptionOutcome::OutputAlreadyQueued),
        "Started terminal s; output \"ready\" already appeared, so resume is queued for turn end (u)"
    );
    assert_eq!(
        created_message("s", "u", &output, Err("db".into())),
        "Started terminal s; automatic wake could not be registered (db). Subscribe via cairn:~/wakes: {subscribe:{kind:\"terminal\",ref:\"u\",on:\"output\",phrase:\"ready\"}}"
    );
    assert_eq!(
        created_message("s", "u", &exit, Err("db".into())),
        "Started terminal s; automatic wake could not be registered (db). Subscribe via cairn:~/wakes: {subscribe:{kind:\"terminal\",ref:\"u\",on:\"exit\"}}"
    );
    assert!(is_one_shot(&exit));
    assert!(!is_one_shot(&output));
    assert_eq!(TerminalWakeSpec::Exit.dry_run_suffix(), " (wake on exit)");
    assert_eq!(output.unwrap().dry_run_suffix(), " (wake on output \"ready\")");
}

#[test]
fn wakes_need_a_subscriber() {
    let exit = Some(TerminalWakeSpec::Exit);
    assert_eq!(wake_subscriber(&None, &None, None, Ok(None)).unwrap(), None);
    assert_eq!(
        wake_subscriber(&exit, &Some("j".into()), None, Ok(None)).unwrap().as_deref(),
        Some("j")
    );
    assert_eq!(
        wake_subscriber(&exit, &None, None, Ok(None)).unwrap_err(),
        "payload.wake requires an agent caller when creating a project terminal"
    );
    assert_eq!(
        wake_subscriber(&exit, &None, Some("r"), Ok(None)).unwrap_err(),
        "payload.wake requires an agent caller; no job found for run r"
    );
    assert_eq!(
        wake_subscriber(&exit, &None, Some("r"), Ok(Some("k".into()))).unwrap().as_deref(),
        Some("k")
    );
    assert_eq!(wake_subscriber(&exit, &None, Some("r"), Err("db".into())).unwrap_err(), "db");
}

#[test]
fn restarts_wait_for_the_executor() {
    let row = |title: Option<&str>, lease: Option<&str>| RestartRow {
        job_id: Some("j".to_string()),
        project_id: None,
        slug: "s".to_string(),
        command: "make".to_string(),
        title: title.map(str::to_string),
        lease_id: lease.map(str::to_string),
    };
    match plan_restart(&row(None, Some("l")), &fence(), &Vec::new(), false) {
        RestartPlan::Wait(error) => assert_eq!(
            error,
            "terminal lease fence is stale while its executor may still reclaim it"
        ),
        other => panic!("unexpected {:?}", other),
    }
    assert!(matches!(
        plan_restart(&row(None, Some("l")), &fence(), &Vec::new(), true),
        RestartPlan::Fresh { write_off: true }
    ));
    assert!(matches!(
        plan_restart(&row(None, None), &fence(), &Vec::new(), true),
        RestartPlan::Fresh { write_off: false }
    ));
    match plan_restart(&row(None, None), &fence(), &vec![slot()], false) {
        RestartPlan::Rejoin { cwd, reclaim } => {
            assert_eq!(cwd, "/cell");
            assert!(!reclaim);
            let rejoined = rejoin_target(target("s", Some("j"), None), cwd, &fence());
            assert_eq!(rejoined.cwd, "/cell");
            assert_eq!(rejoined.lease.unwrap().lease_epoch, 7);
        }
        other => panic!("unexpected {:?}", other),
    }
    let mut foreign = fence();
    foreign.owner.owner_id = "k".to_string();
    assert!(matches!(
        plan_restart(&row(None, None), &foreign, &vec![slot()], false),
        RestartPlan::Wait(_)
    ));
    assert_eq!(restart_launch(&row(Some("Shell"), None)), (String::new(), false));
    assert_eq!(restart_launch(&row(None, None)), ("make".to_string(), true));
    assert!(matches!(restart_owner(&row(None, None)).unwrap(), TerminalOwner::Job(_)));
    let mut orphan = row(None, None);
    orphan.job_id = None;
    assert_eq!(restart_owner(&orphan).unwrap_err(), "project terminal row has no project");
    assert_eq!(
        lease_reclaimed(answer(AnswerKind::Released)).unwrap_err(),
        "failed to reclaim terminal lease: Rejected"
    );
    assert!(lease_reclaimed(answer(AnswerKind::State(slot()))).is_ok());
}

#[test]
fn leases_are_released_when_idle() {
    let done = ProcessStatus::Exited { exit_code: Some(0), restartable: false, executor_lost: false };
    let idle = || cell(vec![process("main", 1, done)]);
    let stopped = |kind| answer(kind);
    let release = |stop, cells: Vec<CellState>| release_terminal_process(&fence(), stop, &cells);
    assert!(release(stopped(AnswerKind::State(idle())), Vec::new()).unwrap());
    assert!(!release(stopped(AnswerKind::State(slot())), Vec::new()).unwrap());
    assert!(release(stopped(AnswerKind::Other), vec![idle()]).unwrap());
    assert_eq!(
        release(stopped(AnswerKind::Other), Vec::new()).unwrap_err(),
        "Failed to stop terminal before release: Rejected"
    );
    assert!(lease_released(answer(AnswerKind::Released)).is_ok());
    assert_eq!(
        lease_released(answer(AnswerKind::Other)).unwrap_err(),
        "Failed to release terminal lease: Rejected"
    );
    assert_eq!(expect_state(answer(AnswerKind::Other), "doing it").unwrap_err(), "doing it: Rejected");
}

#[test]
fn new_rows_are_bound_to_their_lease() {
    let mut leased = target("s", Some("j"), None);
    leased.lease = Some(fence());
    let row = insert_terminal_resource(&leased, "id".into(), "sess", "ls", &Some("why".into()), 5);
    assert_eq!(row.status, "running");
    assert_eq!((row.job_id.as_deref(), row.project_id.as_deref()), (Some("j"), None));
    assert_eq!(row.lease_epoch, Some(7));
    assert_eq!(row.lease_incarnation_id.as_deref(), Some("incarnation"));
    assert_eq!(row.created_at, 5);
    let row = insert_terminal_resource(&target("s", None, None), "id".into(), "sess", "", &None, 5);
    assert_eq!((row.job_id, row.project_id.as_deref()), (None, Some("p")));
    assert_eq!(row.lease_id, None);
}

#[test]
fn exited_rows_make_room_for_their_slug() {
    let rows = vec![stored("j", "s", "exited"), stored("k", "s", "running"), stored("j", "t", "exited")];
    let wanted = target("s", Some("j"), None);
    assert!(ensure_terminal_slug_available(&rows, &wanted).is_ok());
    assert_eq!(lookup_terminal_session_id_for_target(&rows, &wanted).unwrap(), "j-s");
    let left = reclaim_slug(rows, &wanted);
    assert_eq!(left.len(), 2);
    assert_eq!(
        lookup_terminal_session_id_for_target(&left, &wanted).unwrap_err(),
        "Terminal not found: s"
    );
}

#[test]
fn terminals_add_to_the_environment() {
    let mut with = target("s", Some("j"), Some("b"));
    with.cwd = "/cell".to_string();
    let env = terminal_env(
        vec![("HOME".to_string(), "/h".to_string())],
        &with,
        "/bin".into(),
        4321,
        "/uv".into(),
        Some("hush".into()),
    );
    let names: Vec<&str> = env.iter().map(|entry| entry.0.as_str()).collect();
    assert_eq!(
        names,
        vec![
            "HOME",
            "PATH",
            "CAIRN_WORKTREE",
            "CAIRN_CALLBACK_URL",
            "UV_CACHE_DIR",
            "CAIRN_MCP_SECRET",
            "CAIRN_RUN_ID",
            "CAIRN_WORKTREE_BRANCH"
        ]
    );
    assert_eq!(env[2].1, "/cell");
    assert_eq!(env[3].1, "http://127.0.0.1:4321/api/mcp");
    let bare = terminal_env(Vec::new(), &target("s", None, None), "/bin".into(), 1, "/uv".into(), None);
    assert_eq!(bare.len(), 4);
}

#[test]
fn promoted_terminals_take_the_first_free_number() {
    assert_eq!(render_promoted_slug(12), "run-12");
    assert_eq!(next_promoted_number(1, Ok(true)), Some(2));
    assert_eq!(next_promoted_number(1, Ok(false)), None);
    assert_eq!(next_promoted_number(1, Err("db".into())), Some(2));
    assert_eq!(next_promoted_number(10_000, Ok(true)), None);
    let promoted = promoted_target("run-1".into(), "j", "p", "r", &fence());
    assert_eq!(promoted.lease.unwrap().lease_id, "terminal:j");
    let made = promoted_terminal(fence(), "run-1".into(), "u".into(), Err::<(), String>("x".into()));
    assert!(!made.wake_subscribed);
}

#[test]
fn promoted_terminals_are_addressed_where_they_stand() {
    let place = |number: Option<i32>, parent: Option<&str>, task: Option<&str>, node: Option<&str>| {
        PromotedPlace {
            project_key: "P".to_string(),
            issue_number: number,
            exec_seq: Some(1),
            parent_segment: parent.map(str::to_string),
            task_segment: task.map(str::to_string),
            node_segment: node.map(str::to_string),
        }
    };
    assert!(matches!(
        build_promoted_terminal_uri(place(Some(1), Some("a"), Some("t"), Some("n")), "s"),
        TerminalResource::Task { .. }
    ));
    assert!(matches!(
        build_promoted_terminal_uri(place(Some(1), Some("a"), None, Some("n")), "s"),
        TerminalResource::Node { .. }
    ));
    assert!(matches!(
        build_promoted_terminal_uri(place(None, Some("a"), Some("t"), Some("n")), "s"),
        TerminalResource::Project { .. }
    ));
}

#[test]
fn promotion_drops_its_session_where_the_row_fails() {
    let phase = activate_promoted_executor_terminal(PromotionPhase::AddSession, Ok(()));
    assert!(matches!(phase, PromotionPhase::AddRow));
    match activate_promoted_executor_terminal(phase, Err("io".into())) {
        PromotionPhase::DropSession(error) => {
            assert_eq!(error, "Database error: io");
            assert!(matches!(
                activate_promoted_executor_terminal(PromotionPhase::DropSession(error), Ok(())),
                PromotionPhase::Failed(_)
            ));
        }
        other => panic!("unexpected {:?}", other),
    }
    let phase = activate_promoted_executor_terminal(PromotionPhase::AddRow, Ok(()));
    assert!(matches!(
        activate_promoted_executor_terminal(phase, Ok(())),
        PromotionPhase::Announce
    ));
}

fn binding() -> TerminalBinding {
    TerminalBinding { fence: fence(), process_key: "k".to_string(), process_generation: 4 }
}

#[test]
fn bindings_in_memory_come_first() {
    assert_eq!(
        input_binding("s", SessionLookup::Unreachable("poison".into())).unwrap_err(),
        "Failed to access sessions: poison"
    );
    assert_eq!(
        input_binding("s", SessionLookup::Missing).unwrap_err(),
        "Terminal session not running: s"
    );
    assert_eq!(
        input_binding("s", SessionLookup::Locked("poison".into())).unwrap_err(),
        "Failed to lock terminal session: poison"
    );
    assert_eq!(
        input_binding("s", SessionLookup::Found(None)).unwrap_err(),
        "This terminal has no executor process binding"
    );
    assert!(input_binding("s", SessionLookup::Found(Some(binding()))).is_ok());
    let recorded = || Ok(binding());
    assert!(terminal_binding_by_session(SessionLookup::Missing, recorded()).is_ok());
    assert_eq!(
        terminal_binding_by_session(SessionLookup::Found(None), recorded()).unwrap_err(),
        "This terminal has no executor process binding"
    );
    assert!(heartbeat_bound(&Some(binding()), &fence()));
    let mut later = fence();
    later.lease_epoch = 8;
    assert!(!heartbeat_bound(&Some(binding()), &later));
    assert!(!heartbeat_bound(&None, &fence()));
}

#[test]
fn operations_are_answered() {
    let wanted = target("s", Some("j"), None);
    assert_eq!(
        append_terminal_input(&wanted, Ok("id".into()), "häh\n", Ok(())).unwrap(),
        "Sent 5 chars to terminal s"
    );
    assert_eq!(
        append_terminal_input(&wanted, Err("Terminal not found: s".into()), "x", Ok(())).unwrap_err(),
        "Terminal not found: s"
    );
    assert_eq!(
        delete_terminal_by_resource(&wanted, Ok("id".into()), Ok(())).unwrap(),
        "Stopped terminal s"
    );
    assert_eq!(
        delete_terminal_by_resource(&wanted, Ok("id".into()), Err("no".into())).unwrap_err(),
        "no"
    );
    let refused = |operation| terminal_operated(operation, answer(AnswerKind::Other)).unwrap_err();
    assert_eq!(refused(TerminalOperation::WriteInput), "Failed to write terminal input: Rejected");
    assert_eq!(refused(TerminalOperation::Resize), "Failed to resize terminal: Rejected");
    assert_eq!(refused(TerminalOperation::Stop), "Failed to stop terminal: Rejected");
    assert!(terminal_operated(TerminalOperation::Stop, answer(AnswerKind::State(slot()))).is_ok());
    let payload = created_payload(&wanted, "sess", "ls", None).unwrap();
    assert_eq!((payload.run_id.as_str(), payload.session_id.as_str()), ("run-7", "sess"));
    assert!(created_payload(&target("s", None, None), "sess", "ls", None).is_none());
}
