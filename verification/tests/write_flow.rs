use cairn_core::handlers::terminal::acquire::{AnswerKind, LeaseAnswer, RestartRow};
use cairn_core::handlers::terminal::exit::TerminalWakeSubscriptionOutcome;
use cairn_core::handlers::terminal::lease::{CellState, LeaseFence, LeaseOwner, LeaseState};
use cairn_core::handlers::terminal::output::TerminalWakeSpec;
use cairn_core::handlers::terminal::resource::TerminalResourceTarget;
use cairn_core::handlers::terminal::restart::{
    create_terminal_from_resource, restart_terminal_process, CreateEvent, CreatePlan, CreateState,
    RestartEvent, RestartState,
};
use cairn_core::handlers::tool_use_correlation::Claim;
use cairn_core::handlers::write::apply::{
    build_current_event_uri, check_apply, check_fresh, load_apply_event, preview_change,
    ActualTarget, ApplyCheck, EventPlace, PreviewMark,
};
use cairn_core::handlers::write::apply_run::{
    handle_apply_change, ApplyStart, AtPayload, AtReport, AtTargets, Freshness, HashOrder,
};
use cairn_core::handlers::write::batch::{prepare_file_changes, IndexedChange, Stretch};
use cairn_core::handlers::write::call::{TargetFamily, WriteCall, WriteItem};
use cairn_core::handlers::write::commit::agent_commit_prefix;
use cairn_core::handlers::write::file_mutations::{
    envelope_path_to_target, open_envelope, prepare_unified_patch_change, DiskFile,
    EnvelopeSection, FileStage, OldString, PreparedChange, ResolvedPath, Staging, TargetFacts,
};
use cairn_core::handlers::write::paths::{logical_paths_for_changes, LocatedChange};
use cairn_core::handlers::write::preview::{tool_input_from_event, tool_result_in_rows};
use cairn_core::handlers::write::preview_run::{PreviewRun, PreviewStep, TargetHash};
use cairn_core::handlers::write::progress::Work;
use cairn_core::handlers::write::rename::{
    parse_rename_spec, prepare_rename_changes, PlacedPath, RenameEdit, RenameLocator, RenamePayload,
};
use cairn_core::handlers::write::replay::invoking_write_call;
use cairn_core::handlers::write::types::{
    ChangeFailure, ChangeItem, ChangeMode, FileChangePayload, IndexedFailure,
};
use cairn_core::textmap::TextMap;

fn facts(normalized: &str, disk: Option<&str>, outside: bool) -> TargetFacts {
    TargetFacts {
        normalized: Ok(normalized.to_string()),
        resolved: Ok(ResolvedPath {
            full_path: format!("/wt/{}", normalized.trim_start_matches("file:")),
            outside_worktree: outside,
        }),
        disk: match disk {
            Some(text) => DiskFile::Text(text.to_string()),
            None => DiskFile::Missing,
        },
        suggestion: String::new(),
        old_string: OldString::Literal(String::new()),
    }
}

fn item(target: &str, mode: ChangeMode) -> ChangeItem {
    ChangeItem { target: target.to_string(), mode, payload: Ok(FileChangePayload::default()) }
}

fn create(target: &str, content: &str) -> ChangeItem {
    let mut made = item(target, ChangeMode::Create);
    if let Ok(payload) = &mut made.payload {
        payload.content = Some(content.to_string());
    }
    made
}

// ---------------------------------------------------------------- renames, paths, patches

#[test]
fn rename_payloads_name_one_symbol() {
    let payload = |new: &str, old: Option<&str>, at: Option<&str>| {
        Some(Ok(RenamePayload {
            new_name: Some(new.to_string()),
            old_name: old.map(str::to_string),
            symbol_at: at.map(str::to_string),
        }))
    };
    let known = facts("file:a.rs", None, false);
    let ask = |payload| parse_rename_spec(&payload, &known);
    assert_eq!(
        ask(None).unwrap_err(),
        "mode=rename requires payload {new_name, and one of old_name | symbol_at}"
    );
    assert_eq!(ask(Some(Err("x".into()))).unwrap_err(), "Invalid rename payload: x");
    assert_eq!(ask(payload("", Some("a"), None)).unwrap_err(), "mode=rename requires new_name");
    assert_eq!(
        ask(payload("n", Some("a"), Some("b"))).unwrap_err(),
        "mode=rename: provide exactly one of old_name or symbol_at, not both"
    );
    assert_eq!(
        ask(payload("n", None, None)).unwrap_err(),
        "mode=rename requires exactly one of old_name or symbol_at"
    );
    assert_eq!(ask(payload("n", Some(""), None)).unwrap_err(), "mode=rename: old_name is empty");
    let found = ask(payload("n", Some("a"), None)).unwrap();
    assert_eq!(found.new_name, "n");
    assert!(matches!(found.locator, RenameLocator::Name { full_path, .. } if full_path == "/wt/a.rs"));
}

#[test]
fn rename_plans_move_and_remove_files() {
    let placed = |name: &str| PlacedPath { full: format!("/wt/{name}"), relative: name.to_string() };
    let edits = vec![
        RenameEdit {
            source: placed("a.rs"),
            new_content: Some("new".to_string()),
            move_to: None,
            site_count: 2,
        },
        RenameEdit {
            source: placed("b.rs"),
            new_content: Some("moved".to_string()),
            move_to: Some(placed("c.rs")),
            site_count: 1,
        },
    ];
    let outcome = prepare_rename_changes(5, &edits);
    assert_eq!(outcome.applied.len(), 2);
    assert_eq!(outcome.applied[0].index, 5);
    assert_eq!(outcome.prepared.len(), 3);
    assert_eq!(outcome.summaries.len(), outcome.prepared.len());
}

#[test]
fn paths_of_a_batch_are_sorted_and_inside() {
    let located = |target: &str, outside: bool| LocatedChange {
        item: create(target, "x"),
        facts: facts(target, None, outside),
        envelope: Err("unused".to_string()),
    };
    let changes = vec![
        located("file:b.txt", false),
        located("file:/etc/x", true),
        located("file:a.txt", false),
        located("file:b.txt", false),
    ];
    assert_eq!(logical_paths_for_changes(&changes).unwrap(), vec!["a.txt", "b.txt"]);
    let mut patch = item("file:p", ChangeMode::UnifiedPatch);
    let carried = |patch| LocatedChange {
        item: patch,
        facts: facts("file:p", None, false),
        envelope: Ok(vec![EnvelopeSection::Delete { path: "/x/y".to_string() }]),
    };
    let bare = item("file:p", ChangeMode::UnifiedPatch);
    assert_eq!(
        logical_paths_for_changes(&vec![carried(bare)]).unwrap_err(),
        "mode=unified_patch requires payload.patch"
    );
    if let Ok(payload) = &mut patch.payload {
        payload.patch = Some("*** Begin Patch".to_string());
    }
    assert_eq!(logical_paths_for_changes(&vec![carried(patch)]).unwrap(), vec!["x/y"]);
}

#[test]
fn patch_sections_are_staged_one_by_one() {
    assert_eq!(envelope_path_to_target("a/b"), "file:a/b");
    assert_eq!(envelope_path_to_target("file:a/b"), "file:a/b");
    let carrier = item("file:", ChangeMode::UnifiedPatch);
    assert!(open_envelope(0, &carrier, "file:", Err("bad".into())).is_err());
    let section = EnvelopeSection::Add { path: "new.txt".to_string(), content: "hi\n".to_string() };
    let mut stage = FileStage::with_snapshot(TextMap::new());
    let mut put = |normalized: &str| {
        prepare_unified_patch_change(
            &mut stage,
            0,
            0,
            &carrier,
            normalized,
            &section,
            &facts("file:new.txt", None, false),
        )
    };
    match put("file:other.txt") {
        Staging::Rejected(failure) => assert_eq!(
            failure.error,
            "envelope target path does not match change.target ('file:new.txt' != 'file:other.txt')"
        ),
        other => panic!("unexpected {:?}", other),
    }
    assert!(matches!(put("file:"), Staging::Staged));
    assert!(matches!(put("file:"), Staging::Staged));
    assert_eq!(stage.prepared.len(), 2);
    assert_eq!(stage.prepared[0].target_uri(), "file:new.txt");
    assert_eq!(stage.summaries, vec!["+file:new.txt", "+file:new.txt"]);
    let is_new = |at: usize| matches!(stage.prepared[at], PreparedChange::Write { is_new: true, .. });
    assert!(is_new(0));
    assert!(!is_new(1), "the file is on the stage already");
}

// ---------------------------------------------------------------- previews that are applied

fn hash(target: &str, hash: &str) -> TargetHash {
    TargetHash {
        target: target.to_string(),
        kind: "file".to_string(),
        exists: true,
        hash: hash.to_string(),
    }
}

fn place() -> EventPlace {
    EventPlace {
        project: "CAIRN".to_string(),
        number: Some(12),
        exec_seq: None,
        segment: Some("builder".to_string()),
        job_id: "job".to_string(),
        parent: None,
        task_index: None,
        run_seq: Some(3),
    }
}

#[test]
fn events_are_addressed_in_their_transcript() {
    assert_eq!(
        build_current_event_uri(&place(), 7).as_deref(),
        Some("cairn://p/CAIRN/12/1/builder/chat/3/7")
    );
    let mut task = place();
    task.parent = Some(Some("builder".to_string()));
    task.segment = Some("explore".to_string());
    assert_eq!(
        build_current_event_uri(&task, 7).as_deref(),
        Some("cairn://p/CAIRN/12/1/builder/task/explore/chat/3/7")
    );
    let mut loose = place();
    loose.number = None;
    assert_eq!(build_current_event_uri(&loose, 7), None);
}

#[test]
fn applying_needs_a_run_a_message_and_to_be_alone() {
    let ask = |modes: Vec<ChangeMode>, preview, run, message| {
        check_apply(&modes, preview, run, message, Some(4))
    };
    assert!(matches!(ask(vec![ChangeMode::Patch], None, true, true), ApplyCheck::Unrelated));
    assert!(matches!(ask(vec![ChangeMode::Apply], None, true, true), ApplyCheck::Load(4)));
    assert!(matches!(ask(vec![ChangeMode::Apply], Some(true), true, true), ApplyCheck::Refused(_)));
    match ask(vec![ChangeMode::Apply, ChangeMode::Patch], None, true, true) {
        ApplyCheck::Refused(error) => {
            assert_eq!(error, "Invalid payload: mode=apply must be the only change item")
        }
        other => panic!("unexpected {:?}", other),
    }
    match ask(vec![ChangeMode::Apply], None, false, true) {
        ApplyCheck::Refused(error) => {
            assert_eq!(error, "Invalid payload: mode=apply requires current run_id")
        }
        other => panic!("unexpected {:?}", other),
    }
    match ask(vec![ChangeMode::Apply], None, true, false) {
        ApplyCheck::Refused(error) => assert_eq!(
            error,
            "Invalid payload: mode=apply requires a commit_msg so the landed edits are committed"
        ),
        other => panic!("unexpected {:?}", other),
    }
}

const PREVIEW_ROW: &str = r#"{"toolUses":[{"id":"p1","name":"write","input":{"preview":true,"changes":[]}}]}"#;

#[test]
fn only_a_pending_preview_is_applied() {
    let row = |status: Option<&str>| {
        Ok(Some((PREVIEW_ROW.to_string(), status.map(str::to_string))))
    };
    let event = load_apply_event("run", 4, row(Some("pending"))).unwrap();
    assert_eq!(event.tool_use_id, "p1");
    assert!(tool_input_from_event(&event).is_ok());
    assert_eq!(
        load_apply_event("run", 4, row(Some("applied"))).unwrap_err(),
        "Preview is not pending (status: applied)"
    );
    assert_eq!(
        load_apply_event("run", 4, row(None)).unwrap_err(),
        "Preview is not pending (status: none)"
    );
    assert_eq!(
        load_apply_event("run", 4, Ok(None)).unwrap_err(),
        "No pending change preview found for apply target"
    );
    assert_eq!(
        load_apply_event("run", 4, Err("db".into())).unwrap_err(),
        "Failed to load preview event: db"
    );
    let results = vec![
        "not json".to_string(),
        r#"{"toolUseId":"other","toolResult":"no"}"#.to_string(),
        r#"{"tool_use_id":"p1","tool_result":"yes"}"#.to_string(),
    ];
    assert_eq!(tool_result_in_rows(&results, "p1").as_deref(), Some("yes"));
    assert_eq!(tool_result_in_rows(&results, "p2"), None);
}

#[test]
fn stale_previews_are_refused() {
    let expected = vec![hash("file:a", "1"), hash("file:b", "2"), hash("file:c", "3")];
    let fresh = vec![
        ActualTarget::Found(hash("file:a", "1")),
        ActualTarget::Found(hash("file:b", "2")),
        ActualTarget::Found(hash("file:c", "3")),
    ];
    assert_eq!(check_fresh(&expected, &fresh), None);
    let stale = vec![
        ActualTarget::Found(hash("file:a", "9")),
        ActualTarget::Failed("gone".to_string()),
        ActualTarget::NoChange,
    ];
    assert_eq!(
        check_fresh(&expected, &stale).unwrap(),
        "Preview is stale; no changes applied:\nfile:a: expected 1 (exists=true), found 9 (exists=true)\nfile:b: gone\nfile:c: missing original change"
    );
}

fn at_report() -> AtReport {
    let start = handle_apply_change(
        &vec![ChangeMode::Apply],
        None,
        Some("run".to_string()),
        Some("message".to_string()),
        Some(4),
    );
    let event = match start {
        ApplyStart::Load(event) => event,
        other => panic!("unexpected {:?}", other),
    };
    assert_eq!((event.run_id(), event.sequence()), ("run", 4));
    let row = Ok(Some((PREVIEW_ROW.to_string(), Some("pending".to_string()))));
    let results = vec![r#"{"toolUseId":"p1","toolResult":"the report"}"#.to_string()];
    let report = event.loaded(row).unwrap().loaded(Ok(results)).unwrap();
    assert_eq!(report.result(), "the report");
    report
}

fn at_payload(expected: Vec<TargetHash>) -> AtPayload {
    at_report().read(Ok(expected)).unwrap()
}

fn at_targets() -> AtTargets {
    let mut resource = hash("cairn://p/P/1", "1");
    resource.kind = "resource".to_string();
    let mut other = hash("cairn://p/P/2", "2");
    other.kind = "resource".to_string();
    at_payload(vec![hash("file:a", "a"), resource, other])
        .read(Ok(vec!["file:a".to_string(), "cairn://p/P/1".to_string()]))
        .unwrap()
}

#[test]
fn applying_a_preview_answers_what_is_missing() {
    let ask = |event| {
        handle_apply_change(
            &vec![ChangeMode::Apply],
            None,
            Some("run".to_string()),
            Some("message".to_string()),
            event,
        )
    };
    match ask(None) {
        ApplyStart::Answer(answer) => assert_eq!(
            answer,
            "mode=apply target must be a node or task transcript event URI"
        ),
        other => panic!("unexpected {:?}", other),
    }
    let pending = || match ask(Some(4)) {
        ApplyStart::Load(event) => event
            .loaded(Ok(Some((PREVIEW_ROW.to_string(), Some("pending".to_string())))))
            .unwrap(),
        other => panic!("unexpected {:?}", other),
    };
    assert_eq!(
        pending().loaded(Ok(Vec::new())).unwrap_err(),
        "Preview tool result is not available yet"
    );
    assert_eq!(
        pending().loaded(Err("db".into())).unwrap_err(),
        "Failed to load preview result: db"
    );
    assert_eq!(
        at_report().read(Err("x".into())).unwrap_err(),
        "Preview result is not a change report: x"
    );
    assert!(at_payload(Vec::new()).input().get("changes").is_some());
    assert_eq!(
        at_payload(Vec::new()).read(Err("y".into())).unwrap_err(),
        "Stored preview payload is invalid: y"
    );
    match handle_apply_change(&vec![ChangeMode::Patch], None, None, None, None) {
        ApplyStart::Unrelated => {}
        other => panic!("unexpected {:?}", other),
    }
}

#[test]
fn targets_are_hashed_again_by_their_own_change() {
    let targets = at_targets();
    assert_eq!(
        targets.orders(),
        vec![HashOrder::File, HashOrder::Resource(1), HashOrder::Resource(0)]
    );
    assert_eq!(targets.hashes().len(), 3);
    let mut loose = hash("cairn://p/P/1", "1");
    loose.kind = "resource".to_string();
    let none = at_payload(vec![loose]).read(Ok(Vec::new())).unwrap();
    assert_eq!(none.orders(), vec![HashOrder::Missing]);
    match none.hashed(vec![Err("unused".to_string())]) {
        Freshness::Stale(change, answer) => {
            assert_eq!((change.run_id.as_str(), change.sequence), ("run", 4));
            assert_eq!(change.status, "stale");
            assert_eq!(
                answer,
                "Preview is stale; no changes applied:\ncairn://p/P/1: missing original change"
            );
        }
        other => panic!("unexpected {:?}", other),
    }
}

#[test]
fn a_fresh_preview_is_applied_once_nothing_fails() {
    let found = |last: &str| {
        let mut resource = hash("cairn://p/P/1", "1");
        resource.kind = "resource".to_string();
        let mut other = hash("cairn://p/P/2", last);
        other.kind = "resource".to_string();
        vec![Ok(hash("file:a", "a")), Ok(resource), Ok(other)]
    };
    let written = |failures| match at_targets().hashed(found("2")) {
        Freshness::Fresh(write) => {
            assert_eq!(write.commit_msg(), "message");
            write.written(failures)
        }
        other => panic!("unexpected {:?}", other),
    };
    let change = written(Some(0)).unwrap();
    assert_eq!((change.run_id.as_str(), change.sequence, change.status), ("run", 4, "applied"));
    assert!(written(Some(1)).is_none());
    assert!(written(None).is_none());
    match at_targets().hashed(found("9")) {
        Freshness::Stale(_, answer) => assert_eq!(
            answer,
            "Preview is stale; no changes applied:\ncairn://p/P/2: expected 2 (exists=true), found 9 (exists=true)"
        ),
        other => panic!("unexpected {:?}", other),
    }
}

fn previewed() -> PreviewRun {
    let call = WriteCall {
        items: vec![WriteItem {
            item: create("file:a.txt", "x\n"),
            family: Ok(TargetFamily::File),
            blocking: false,
            workspace_config: false,
        }],
        atomic: true,
        commit_msg: None,
    };
    let mut run = PreviewRun::start(call).unwrap();
    assert!(matches!(run.next(), Work::Files { start: 0, end: 1 }));
    let changes = vec![IndexedChange { index: 0, item: create("file:a.txt", "x\n") }];
    let mut stage = FileStage::with_snapshot(TextMap::new());
    let known = vec![facts("file:a.txt", None, false)];
    assert!(matches!(prepare_file_changes(&mut stage, &changes, &known, 0), Stretch::Complete));
    let hashes = vec![Ok(hash("file:a.txt", "missing"))];
    match run.files_shown(&changes, &stage.prepared, &stage.summaries, hashes) {
        PreviewStep::Goes(run) => run,
        PreviewStep::Ends(report) => panic!("unexpected {:?}", report),
    }
}

#[test]
fn a_preview_ends_with_what_it_has_shown() {
    let failure = ChangeFailure {
        index: 1,
        target: "file:b.txt".to_string(),
        mode: "patch".to_string(),
        kind: "file".to_string(),
        error: "no match".to_string(),
    };
    let report = previewed().files_refused(IndexedFailure { failure, commit: None });
    assert_eq!(report.applied.len(), 1);
    assert_eq!(report.applied[0].summary, "Would apply +file:a.txt");
    assert_eq!(report.failures[0].error, "no match");
    assert!(report.transactional);
    assert!(!report.partial_success);
}

#[test]
fn previews_are_tied_to_their_event() {
    let report = preview_change(previewed(), PreviewMark::Pending(Some("uri".into()))).unwrap();
    assert_eq!(report.applied.len(), 1);
    assert_eq!(report.target_hashes.len(), 1);
    assert_eq!(report.apply_uri.as_deref(), Some("uri"));
    let untied = preview_change(previewed(), PreviewMark::NoRun).unwrap_err();
    assert_eq!(untied.failures[0].target, "change preview event");
    assert_eq!(
        untied.failures[0].error,
        "preview=true requires run_id so the transcript event can be marked pending"
    );
}

#[test]
fn deliveries_belong_to_a_certain_call() {
    let ask = |run: Option<&str>, id: Option<&str>, claimed| {
        invoking_write_call(run.map(str::to_string), id.map(str::to_string), claimed)
    };
    let claim = |claim| Some(("r2".to_string(), claim));
    assert!(ask(None, Some("x"), None).is_none());
    assert_eq!(ask(Some("r"), Some("x"), None).unwrap().id, "x");
    let call = ask(Some("r"), None, claim(Claim::One("y".into()))).unwrap();
    assert_eq!((call.run_id.as_str(), call.id.as_str()), ("r2", "y"));
    assert!(ask(Some("r"), None, claim(Claim::Ambiguous(2))).is_none());
    assert!(ask(Some("r"), None, claim(Claim::Missing)).is_none());
    assert_eq!(agent_commit_prefix(Some("Builder")), "[Builder] ");
    assert_eq!(agent_commit_prefix(None), "");
}

// ---------------------------------------------------------------- restarts and creations

fn fence() -> LeaseFence {
    LeaseFence {
        lease_id: "terminal:j".to_string(),
        owner: LeaseOwner { kind: "terminal".to_string(), owner_id: "j".to_string() },
        incarnation_id: "inc".to_string(),
        lease_epoch: 7,
    }
}

fn row() -> RestartRow {
    RestartRow {
        job_id: Some("j".to_string()),
        project_id: None,
        slug: "s".to_string(),
        command: "make".to_string(),
        title: None,
        lease_id: Some("terminal:j".to_string()),
    }
}

fn target() -> TerminalResourceTarget {
    TerminalResourceTarget {
        slug: "s".to_string(),
        job_id: Some("j".to_string()),
        project_id: "p".to_string(),
        run_id: None,
        cwd: "/old".to_string(),
        branch: Some("b".to_string()),
        repo_path: "/repo".to_string(),
        owner_ref: None,
        lease: None,
    }
}

fn cell(awaiting_reclaim: bool) -> CellState {
    CellState {
        lease_epoch: 7,
        path: "/cell".to_string(),
        lease: Some(LeaseState {
            lease_id: "terminal:j".to_string(),
            owner: LeaseOwner { kind: "terminal".to_string(), owner_id: "j".to_string() },
            incarnation_id: "inc".to_string(),
            awaiting_reclaim,
            processes: Vec::new(),
        }),
    }
}

fn answered(kind: AnswerKind) -> RestartEvent {
    RestartEvent::Answered(LeaseAnswer { kind, shown: "Rejected".to_string() })
}

#[test]
fn a_restart_rejoins_its_lease_and_refreshes_the_checkout() {
    let step = |state, event| restart_terminal_process(&fence(), state, event);
    let state = step(RestartState::FindRow, RestartEvent::Row(Ok(Some(row()))));
    let state = step(state, RestartEvent::Resolved(Ok(target())));
    let state = step(state, RestartEvent::SlugChecked(Ok(())));
    let cells = RestartEvent::Cells { cells: vec![cell(true)], window_elapsed: false };
    let state = step(state, cells);
    assert!(matches!(state, RestartState::Reclaim(..)));
    let state = step(state, answered(AnswerKind::State(cell(false))));
    let state = step(state, RestartEvent::Tip(Ok(Some("tip".into()))));
    let state = step(state, answered(AnswerKind::State(cell(false))));
    match state {
        RestartState::Spawn(row, target) => {
            assert_eq!(row.command, "make");
            assert_eq!(target.cwd, "/cell");
            assert_eq!(target.lease.unwrap().lease_epoch, 7);
        }
        other => panic!("unexpected {:?}", other),
    }
}

#[test]
fn a_restart_without_its_lease_waits_or_starts_anew() {
    let step = |state, event| restart_terminal_process(&fence(), state, event);
    let at = || RestartState::Locate(row(), target());
    let none = |window_elapsed| RestartEvent::Cells { cells: Vec::new(), window_elapsed };
    match step(at(), none(false)) {
        RestartState::Failed(error) => assert_eq!(
            error,
            "terminal lease fence is stale while its executor may still reclaim it"
        ),
        other => panic!("unexpected {:?}", other),
    }
    let state = step(at(), none(true));
    assert!(matches!(state, RestartState::WriteOff(..)));
    let state = step(state, RestartEvent::WrittenOff(Ok(())));
    let state = step(state, RestartEvent::Leased(Ok(target())));
    assert!(matches!(state, RestartState::Spawn(..)));
    match step(RestartState::FindRow, RestartEvent::Row(Ok(None))) {
        RestartState::Failed(error) => {
            assert_eq!(error, "No terminal row is bound to lease terminal:j")
        }
        other => panic!("unexpected {:?}", other),
    }
    match step(RestartState::Reclaim(row(), target()), answered(AnswerKind::Other)) {
        RestartState::Failed(error) => {
            assert_eq!(error, "failed to reclaim terminal lease: Rejected")
        }
        other => panic!("unexpected {:?}", other),
    }
    // What does not belong to a step leaves it to be done.
    assert!(matches!(step(at(), RestartEvent::WrittenOff(Ok(()))), RestartState::Locate(..)));
}

fn plan(wake: Option<TerminalWakeSpec>, caller: Option<&str>) -> CreatePlan {
    CreatePlan {
        slug: "s".to_string(),
        uri: "u".to_string(),
        wake,
        caller_run_id: caller.map(str::to_string),
    }
}

#[test]
fn a_terminal_is_created_in_order() {
    let plan = plan(Some(TerminalWakeSpec::Exit), None);
    let step = |state, event| create_terminal_from_resource(&plan, state, event);
    let state = step(CreateState::Resolve, CreateEvent::Resolved(Ok(target())));
    assert!(matches!(state, CreateState::CheckSlug(..)));
    let state = step(state, CreateEvent::SlugChecked(Ok(())));
    let state = step(state, CreateEvent::Leased(Ok(target())));
    let state = step(state, CreateEvent::Spawned(Ok("sess".into())));
    match &state {
        CreateState::Subscribe { session_id, job_id } => {
            assert_eq!((session_id.as_str(), job_id.as_str()), ("sess", "j"))
        }
        other => panic!("unexpected {:?}", other),
    }
    let done = CreateEvent::Subscribed(Ok(TerminalWakeSubscriptionOutcome::ExitSubscribed));
    match step(state, done) {
        CreateState::Done(message) => assert_eq!(
            message,
            "Started terminal s; subscribed to exit — end your turn to resume when it finishes (u)"
        ),
        other => panic!("unexpected {:?}", other),
    }
}

#[test]
fn a_project_terminal_wakes_its_caller() {
    let of_project = || {
        let mut project = target();
        project.job_id = None;
        project
    };
    let lonely = plan(Some(TerminalWakeSpec::Exit), None);
    match create_terminal_from_resource(
        &lonely,
        CreateState::Resolve,
        CreateEvent::Resolved(Ok(of_project())),
    ) {
        CreateState::Failed(error) => assert_eq!(
            error,
            "payload.wake requires an agent caller when creating a project terminal"
        ),
        other => panic!("unexpected {:?}", other),
    }
    let called = plan(Some(TerminalWakeSpec::Exit), Some("r"));
    let state = create_terminal_from_resource(
        &called,
        CreateState::Resolve,
        CreateEvent::Resolved(Ok(of_project())),
    );
    assert!(matches!(state, CreateState::FindCaller(_)));
    match create_terminal_from_resource(&called, state, CreateEvent::Caller(Ok(Some("k".into())))) {
        CreateState::CheckSlug(_, job) => assert_eq!(job.as_deref(), Some("k")),
        other => panic!("unexpected {:?}", other),
    }
    let quiet = plan(None, None);
    let state = CreateState::Spawn(of_project(), None);
    match create_terminal_from_resource(&quiet, state, CreateEvent::Spawned(Ok("x".into()))) {
        CreateState::Done(message) => assert_eq!(message, "Started terminal s"),
        other => panic!("unexpected {:?}", other),
    }
}
