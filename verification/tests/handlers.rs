use std::collections::VecDeque;

use cairn_core::handlers::skills::{
    check_create, check_update, created_answer, date_part, handle_create_skill, handle_delete_skill,
    handle_list_skills, handle_skill, handle_update_skill, is_listed, meta_update, skill_to_update,
    updated_answer, CreateSkillInput, FileSkill, ReplaceSectionInput, SkillMeta, SkillSource,
    UpdateSkillInput,
};
use cairn_core::handlers::skills_resources::{
    collect_by_id, eq_ignore_ascii_case, project_lookup_key, project_path_by_key, read_skill,
    read_skill_file, read_skills_collection, render_directory, render_skill, resolve_readable,
    resolve_safe_path, resolve_skill_for_scope, resolve_skill_script_path, skill_link, skill_scope, sort_entries,
    DirEntry, ScriptTarget, SkillRead, SkillScopeUri,
};
use cairn_core::handlers::slug::{slugify, slugify_command};
use cairn_core::handlers::todos::{handle_todo_write, Todo, TodoWrite};
use cairn_core::handlers::tool_use_correlation::{claim_from_events, Claim};
use cairn_core::handlers::warm_search::{
    add_search_body, admit_search, execute_warm_search, query_paths, reprefix_search_body,
    resolve_search_root, GrepQuery, SearchBody, SearchRun, TranslatedSearch, WarmSearchDecision,
    WarmSearchDeclineReason, WarmSearchStdin,
};
use cairn_core::handlers::watch::{
    evaluate, event_is_actionable, handle_watch, is_actionable, issue_lookup_key, issue_uri,
    latest_external_reply_event, read_issue_state, reply_channel, resolve_issue_ref,
    synthesize_event, try_pop_actionable_for, watched_issue, AttentionEvent, AttentionFact,
    ExternalMessageReplyContent, IdleFact, IssueAttention, IssueRef, IssueState, IssueStatus,
    ReplyRow, WatchInput, WatchOutcome, WatchReply, WatchStep,
};
use cairn_core::handlers::web::{handle_read_web, is_file_target, read_web_markdown};
use cairn_core::json::Json;
use cairn_core::handlers::workflows::{
    detect_workflow_target, invoke_workflow, invoking_run_call, loaded_workflow, workflow_args,
    workflow_project_path, RunTarget, Workflow, WorkflowBranchMode,
};

fn strings(items: &[&str]) -> Vec<String> {
    items.iter().map(|item| item.to_string()).collect()
}

// ---------------------------------------------------------------- watch

#[test]
fn none_attention_is_never_actionable() {
    assert!(!is_actionable(&IssueAttention::Nothing, 100, None));
    assert!(!is_actionable(&IssueAttention::Nothing, 100, Some(50)));
}

#[test]
fn actionable_without_cursor_returns_on_any_attention() {
    assert!(is_actionable(&IssueAttention::NeedsInput, 100, None));
    assert!(is_actionable(&IssueAttention::NeedsApproval, 0, None));
}

#[test]
fn cursor_gates_on_strictly_newer_updated_at() {
    assert!(!is_actionable(&IssueAttention::NeedsInput, 100, Some(100)));
    assert!(!is_actionable(&IssueAttention::NeedsInput, 90, Some(100)));
    assert!(is_actionable(&IssueAttention::NeedsInput, 101, Some(100)));
}

#[test]
fn only_merged_closed_failed_are_terminal() {
    assert!(IssueStatus::Merged.is_terminal());
    assert!(IssueStatus::Closed.is_terminal());
    assert!(IssueStatus::Failed.is_terminal());
    assert!(!IssueStatus::Backlog.is_terminal());
    assert!(!IssueStatus::Active.is_terminal());
    assert!(!IssueStatus::Waiting.is_terminal());
    assert!(!IssueStatus::Complete.is_terminal());
}

#[test]
fn terminal_status_resolves_regardless_of_cursor() {
    assert!(matches!(
        evaluate(IssueAttention::Nothing, IssueStatus::Merged, 100, Some(100)),
        WatchOutcome::Resolved
    ));
    assert!(matches!(
        evaluate(IssueAttention::Nothing, IssueStatus::Closed, 50, Some(999)),
        WatchOutcome::Resolved
    ));
}

#[test]
fn terminal_status_wins_over_a_stray_attention() {
    assert!(matches!(
        evaluate(
            IssueAttention::NeedsApproval,
            IssueStatus::Merged,
            100,
            None
        ),
        WatchOutcome::Resolved
    ));
}

fn reply_event() -> AttentionEvent {
    AttentionEvent {
        issue_id: "i-1".to_string(),
        issue_uri: "cairn://p/CAIRN/1".to_string(),
        fact: AttentionFact::ExternalMessageReply {
            detail_uri: "cairn://p/CAIRN/1/messages".to_string(),
            message_id: "m-1".to_string(),
            content: ExternalMessageReplyContent {
                sender: "cairn://p/CAIRN/1/1/builder".to_string(),
                body: "done".to_string(),
            },
        },
        attention: IssueAttention::Nothing,
        status: IssueStatus::Active,
        updated_at: 101,
    }
}

#[test]
fn external_reply_event_is_actionable_without_projection_attention() {
    let event = reply_event();
    assert!(event_is_actionable(&event, Some(100)));
    assert!(!event_is_actionable(&event, Some(101)));
}

#[test]
fn evaluate_routes_actionable_and_not_yet() {
    assert!(matches!(
        evaluate(IssueAttention::NeedsInput, IssueStatus::Active, 100, None),
        WatchOutcome::Actionable
    ));
    assert!(matches!(
        evaluate(IssueAttention::Nothing, IssueStatus::Active, 100, None),
        WatchOutcome::NotYet
    ));
    assert!(matches!(
        evaluate(
            IssueAttention::NeedsInput,
            IssueStatus::Active,
            100,
            Some(100)
        ),
        WatchOutcome::NotYet
    ));
}

fn issue() -> IssueRef {
    IssueRef { project_key: "CAIRN".to_string(), number: 1181, issue_id: "i-1181".to_string() }
}

fn event(id: &str, fact: AttentionFact, updated_at: i64) -> AttentionEvent {
    AttentionEvent {
        issue_id: id.to_string(),
        issue_uri: String::new(),
        fact,
        attention: IssueAttention::Nothing,
        status: IssueStatus::Active,
        updated_at,
    }
}

fn idle_work() -> AttentionFact {
    AttentionFact::AgentIdleWithWork { detail_uri: "d".to_string() }
}

#[test]
fn external_reply_catch_up_uses_message_marker_cursor() {
    let row = |created_at: i64| ReplyRow {
        message_id: "m-external".to_string(),
        sender: "cairn://p/CAIRN/1181/1/builder".to_string(),
        body: "done".to_string(),
        created_at,
        attention: None,
        status: None,
    };
    let event = latest_external_reply_event(&issue(), Some(row(101))).unwrap();
    assert_eq!(event.updated_at, 101);
    assert_eq!(event.attention, IssueAttention::Nothing);
    assert_eq!(event.status, IssueStatus::Active);
    assert!(matches!(event.fact, AttentionFact::ExternalMessageReply { .. }));
    assert!(latest_external_reply_event(&issue(), None).is_none());
    assert_eq!(
        reply_channel(&issue()),
        ("CAIRN/1181".to_string(), "cairn://p/CAIRN/1181/".to_string())
    );
}

#[test]
fn watched_issues_are_resolved_or_refused() {
    assert_eq!(watched_issue(None, None).unwrap_err(), "watch requires payload.issue_uri");
    assert_eq!(
        watched_issue(Some("x"), Some((Some("P".to_string()), None))).unwrap_err(),
        "Not an issue URI: x"
    );
    assert_eq!(
        watched_issue(Some("x"), Some((Some("P".to_string()), Some(3)))).unwrap(),
        ("P".to_string(), 3)
    );
    assert_eq!(issue_lookup_key("cairn"), "CAIRN");
    assert_eq!(
        resolve_issue_ref("CAIRN".to_string(), 7, Ok(None)).unwrap_err(),
        "Issue CAIRN-7 not found"
    );
    assert_eq!(resolve_issue_ref("C".to_string(), 7, Err("db".into())).unwrap_err(), "db");
    assert_eq!(issue_uri(&issue()), "cairn://p/CAIRN/1181");
    let state = read_issue_state(None, None, None);
    assert_eq!(state.status, IssueStatus::Backlog);
    assert_eq!(state.updated_at, 0);
}

#[test]
fn the_first_due_event_is_taken_and_later_ones_stay() {
    let mut waiting = VecDeque::from(vec![
        event("other", idle_work(), 9),
        event("i-1181", idle_work(), 5),
        event("i-1181", idle_work(), 6),
        event("i-1181", AttentionFact::Resolved { detail_uri: String::new() }, 1),
    ]);
    let taken = try_pop_actionable_for(&mut waiting, "i-1181", Some(5)).unwrap();
    assert_eq!(taken.updated_at, 6);
    assert_eq!(waiting.len(), 1);
    let done = try_pop_actionable_for(&mut waiting, "i-1181", Some(50)).unwrap();
    assert!(matches!(done.fact, AttentionFact::Resolved { .. }));
    assert!(try_pop_actionable_for(&mut waiting, "i-1181", None).is_none());
}

fn state(attention: IssueAttention, status: IssueStatus, updated_at: i64) -> IssueState {
    IssueState { attention, status, updated_at }
}

#[test]
fn a_watch_on_a_finished_issue_answers_at_once() {
    let mut waiting = VecDeque::new();
    let merged = state(IssueAttention::Nothing, IssueStatus::Merged, 4);
    let step = handle_watch(
        &issue(),
        Some(9),
        &mut waiting,
        WatchStep::Read,
        WatchInput::State(Ok(merged)),
    );
    assert!(matches!(step, WatchStep::Build(_)));
    let fact = AttentionFact::Resolved { detail_uri: "done".to_string() };
    match handle_watch(&issue(), Some(9), &mut waiting, step, WatchInput::Fact(Some(fact))) {
        WatchStep::Done(WatchReply::Event(event)) => {
            assert_eq!(event.issue_uri, "cairn://p/CAIRN/1181");
            assert_eq!(event.status, IssueStatus::Merged);
        }
        other => panic!("unexpected {:?}", other),
    }
}

#[test]
fn a_quiet_watch_looks_further_then_waits_then_is_pending() {
    let mut waiting = VecDeque::new();
    let quiet = state(IssueAttention::Nothing, IssueStatus::Active, 4);
    let ask = |waiting: &mut VecDeque<AttentionEvent>, step, input| {
        handle_watch(&issue(), Some(4), waiting, step, input)
    };
    let step = ask(&mut waiting, WatchStep::Read, WatchInput::State(Ok(quiet)));
    assert!(matches!(step, WatchStep::FindReply(_)));
    let step = ask(&mut waiting, step, WatchInput::Reply(Ok(None)));
    assert!(matches!(step, WatchStep::FindIdle(_)));
    let stale = IdleFact { fact: idle_work(), updated_at: 4 };
    let step = ask(&mut waiting, step, WatchInput::Idle(Some(stale)));
    assert!(matches!(step, WatchStep::Await));
    let step = ask(&mut waiting, step, WatchInput::Arrived(event("other", idle_work(), 99)));
    assert!(matches!(step, WatchStep::Await));
    let step = ask(&mut waiting, step, WatchInput::Lagged(Ok(None), Ok(quiet)));
    assert!(matches!(step, WatchStep::Await));
    let step = ask(&mut waiting, step, WatchInput::Over);
    match ask(&mut waiting, step, WatchInput::State(Err("db".into()))) {
        WatchStep::Done(WatchReply::Pending { updated_at }) => assert_eq!(updated_at, 0),
        other => panic!("unexpected {:?}", other),
    }
}

#[test]
fn a_watch_prefers_an_event_that_waits() {
    let mut waiting = VecDeque::from(vec![event("i-1181", idle_work(), 8)]);
    let quiet = state(IssueAttention::Nothing, IssueStatus::Active, 4);
    let fresh = IdleFact { fact: idle_work(), updated_at: 7 };
    match handle_watch(
        &issue(),
        Some(4),
        &mut waiting,
        WatchStep::FindIdle(quiet),
        WatchInput::Idle(Some(fresh)),
    ) {
        WatchStep::Done(WatchReply::Event(event)) => assert_eq!(event.updated_at, 8),
        other => panic!("unexpected {:?}", other),
    }
    match handle_watch(
        &issue(),
        Some(4),
        &mut VecDeque::new(),
        WatchStep::FindReply(quiet),
        WatchInput::Reply(Ok(Some(reply_event()))),
    ) {
        WatchStep::Done(WatchReply::Event(event)) => assert_eq!(event.updated_at, 101),
        other => panic!("unexpected {:?}", other),
    }
    let needy = state(IssueAttention::NeedsInput, IssueStatus::Active, 12);
    let step = handle_watch(
        &issue(),
        Some(4),
        &mut VecDeque::new(),
        WatchStep::Await,
        WatchInput::Lagged(Err("db".into()), Ok(needy)),
    );
    assert!(matches!(step, WatchStep::BuildLate(_)));
    match handle_watch(&issue(), Some(4), &mut VecDeque::new(), step, WatchInput::Fact(None)) {
        WatchStep::Done(WatchReply::Event(event)) => assert_eq!(event.updated_at, 12),
        other => panic!("unexpected {:?}", other),
    }
    match handle_watch(
        &issue(),
        None,
        &mut VecDeque::new(),
        WatchStep::Read,
        WatchInput::State(Err("issue not found".into())),
    ) {
        WatchStep::Done(WatchReply::Error(error)) => assert_eq!(error, "issue not found"),
        other => panic!("unexpected {:?}", other),
    }
}

#[test]
fn an_event_without_a_fact_is_idle_work_at_the_issue() {
    let built = synthesize_event(&issue(), state(IssueAttention::NeedsInput, IssueStatus::Active, 1), None);
    match built.fact {
        AttentionFact::AgentIdleWithWork { detail_uri } => {
            assert_eq!(detail_uri, "cairn://p/CAIRN/1181")
        }
        other => panic!("unexpected {:?}", other),
    }
}

// ---------------------------------------------------------------- warm search

#[test]
fn prefixes_expanded_runtime_path_without_touching_context_separator() {
    assert_eq!(
        reprefix_search_body("a.rs:1:hit\n--\nb.rs:2:hit", Some("nested")),
        "nested/a.rs:1:hit\n--\nnested/b.rs:2:hit"
    );
}

#[test]
fn multiple_context_roots_are_separated_like_native_rg() {
    let combined = String::from("a/x-before\na/x:needle\na/x-after");
    let body = "b/y-before\nb/y:needle\nb/y-after";
    let combined =
        add_search_body(combined, &None, SearchBody::Found(body.to_string()), true).unwrap();
    assert_eq!(
        combined,
        "a/x-before\na/x:needle\na/x-after\n--\nb/y-before\nb/y:needle\nb/y-after"
    );
}

#[test]
fn prefixes_of_roots_and_absolute_paths() {
    assert_eq!(reprefix_search_body("a:1", Some("/")), "/a:1");
    assert_eq!(reprefix_search_body("a:1", Some("src//")), "src/a:1");
    assert_eq!(reprefix_search_body("a:1\nb:2\n", None), "a:1\nb:2\n");
    assert_eq!(resolve_search_root("/w", None), "/w");
    assert_eq!(resolve_search_root("/w", Some("/abs")), "/abs");
    assert_eq!(resolve_search_root("/w", Some("a/b")), "/w/a/b");
    assert_eq!(resolve_search_root("/", Some("a")), "/a");
}

fn query(mode: &str) -> GrepQuery {
    GrepQuery {
        pattern: "p".to_string(),
        globs: Vec::new(),
        output_mode: mode.to_string(),
        case_insensitive: false,
        before_context: 0,
        after_context: 0,
        show_line_numbers: true,
        max_per_file: None,
        paths: Vec::new(),
    }
}

#[test]
fn searches_are_declined_in_order() {
    let found = || SearchRun::Found(Some("/w".to_string()));
    let declined = |stdin, run, translated| match admit_search(stdin, run, translated) {
        Err(WarmSearchDecision::PassThrough { reason }) => reason,
        other => panic!("unexpected {:?}", other),
    };
    let grep = || Ok(TranslatedSearch::Grep(query("content")));
    assert_eq!(
        declined(WarmSearchStdin::Pipe, SearchRun::Unknown, grep()),
        WarmSearchDeclineReason::StdinInput
    );
    assert_eq!(
        declined(WarmSearchStdin::Terminal, SearchRun::Unknown, grep()),
        WarmSearchDeclineReason::RunNotFound
    );
    assert_eq!(
        declined(WarmSearchStdin::Nothing, SearchRun::Found(None), grep()),
        WarmSearchDeclineReason::MissingWorktree
    );
    assert_eq!(
        declined(
            WarmSearchStdin::Nothing,
            found(),
            Err(WarmSearchDeclineReason::UnsupportedInvocation)
        ),
        WarmSearchDeclineReason::UnsupportedInvocation
    );
    assert_eq!(
        declined(WarmSearchStdin::Nothing, found(), Ok(TranslatedSearch::Files)),
        WarmSearchDeclineReason::ParityUncertain
    );
    assert_eq!(
        declined(WarmSearchStdin::Nothing, found(), Ok(TranslatedSearch::Grep(query("count")))),
        WarmSearchDeclineReason::ParityUncertain
    );
    let (worktree, admitted) = admit_search(WarmSearchStdin::Nothing, found(), grep()).unwrap();
    assert_eq!(worktree, "/w");
    assert_eq!(admitted.pattern, "p");
}

#[test]
fn searches_are_served_like_the_program() {
    let paths = query_paths(strings(&["a", "b"]));
    let body = |text: &str| SearchBody::Found(text.to_string());
    assert_eq!(
        execute_warm_search(&paths, vec![body("x:1"), body("y:2")], 0, 0),
        WarmSearchDecision::Serve {
            stdout: b"a/x:1\nb/y:2\n".to_vec(),
            stderr: Vec::new(),
            exit_code: 0
        }
    );
    assert_eq!(
        execute_warm_search(&query_paths(Vec::new()), vec![body("")], 0, 0),
        WarmSearchDecision::Serve { stdout: Vec::new(), stderr: Vec::new(), exit_code: 1 }
    );
    assert_eq!(
        execute_warm_search(&paths, vec![body("x:1"), SearchBody::Cold], 0, 0),
        WarmSearchDecision::PassThrough { reason: WarmSearchDeclineReason::ColdOrIncompleteIndex }
    );
    assert_eq!(
        execute_warm_search(&paths, vec![SearchBody::OutOfScope], 0, 0),
        WarmSearchDecision::PassThrough { reason: WarmSearchDeclineReason::ScopeDecline }
    );
    for (before, after) in [(1, 0), (0, 2)] {
        assert_eq!(
            execute_warm_search(&paths, vec![body("x:1"), body("y:2")], before, after),
            WarmSearchDecision::Serve {
                stdout: b"a/x:1\n--\nb/y:2\n".to_vec(),
                stderr: Vec::new(),
                exit_code: 0
            }
        );
    }
}

// ---------------------------------------------------------------- slugs

#[test]
fn slugs_are_short_and_tidy() {
    assert_eq!(slugify("Hello, World!"), "hello-world");
    assert_eq!(slugify("  --a__b--  "), "a-b");
    assert_eq!(slugify("Größe ÄÖ"), "gr-e");
    assert_eq!(slugify("Café 2"), "caf-2");
    assert_eq!(slugify("!!!"), "");
    assert_eq!(slugify(&"ab ".repeat(20)).chars().count(), 30);
}

#[test]
fn command_slugs_take_the_first_words() {
    assert_eq!(slugify_command("npm run dev --port 3000"), "npm-run-dev");
    assert_eq!(slugify_command("./start.sh"), "start");
    assert_eq!(slugify_command("npx vite.js"), "vite");
    assert_eq!(slugify_command("npx"), "term");
    assert_eq!(slugify_command("   "), "term");
}

// ---------------------------------------------------------------- todos and web

#[test]
fn todo_lists_are_counted() {
    let todo = |status: &str| Todo { content: "x".to_string(), status: status.to_string() };
    let list = vec![todo("completed"), todo("pending"), todo("completed")];
    assert_eq!(handle_todo_write(TodoWrite::Replaced(list)), "Updated 3 todos (2 completed)");
    assert_eq!(handle_todo_write(TodoWrite::InvalidPayload("e".into())), "Invalid payload: e");
    assert_eq!(handle_todo_write(TodoWrite::DatabaseError("e".into())), "Database error: e");
    assert_eq!(handle_todo_write(TodoWrite::NoRun("e".into())), "e");
    assert_eq!(handle_todo_write(TodoWrite::Failed("e".into())), "Failed to write todos: e");
}

#[test]
fn web_targets_are_routed() {
    assert!(is_file_target("file:a.pdf"));
    let route = read_web_markdown("file:a.pdf", Ok("/w/a.pdf".into()), true).unwrap();
    assert_eq!((route.resolved.as_str(), route.is_file, route.pdf), ("/w/a.pdf", true, true));
    let route = read_web_markdown("https://x", Err("ignored".into()), false).unwrap();
    assert_eq!((route.resolved.as_str(), route.is_file, route.pdf), ("https://x", false, false));
    assert_eq!(
        read_web_markdown("file:../a", Err("escapes".into()), true).unwrap_err(),
        "Invalid file target: escapes"
    );
    assert_eq!(handle_read_web(Ok("text".into())), "text");
    assert_eq!(handle_read_web(Err("guidance".into())), "guidance");
}

// ---------------------------------------------------------------- workflows

fn workflow(has_args_schema: bool) -> Workflow {
    Workflow {
        script_path: "/w.js".to_string(),
        output_schema: None,
        has_args_schema,
        branch: WorkflowBranchMode::Inherit,
    }
}

#[test]
fn the_first_workflow_target_is_detected() {
    let targets = vec![
        RunTarget::Other,
        RunTarget::ProjectWorkflow { project: "P".to_string(), workflow_id: "a".to_string() },
        RunTarget::Workflow { workflow_id: "b".to_string() },
    ];
    assert_eq!(
        detect_workflow_target(&targets),
        Some((Some("P".to_string()), "a".to_string()))
    );
    assert_eq!(detect_workflow_target(&vec![RunTarget::Other]), None);
}

#[test]
fn workflow_arguments_are_an_object() {
    assert_eq!(workflow_args(None).unwrap(), "{}");
    assert_eq!(workflow_args(Some("{\"a\":1}")).unwrap(), "{\"a\":1}");
    let refused = "Workflow args_json must be a JSON object.";
    assert_eq!(workflow_args(Some("[1]")).unwrap_err(), refused);
    assert_eq!(workflow_args(Some("{")).unwrap_err(), refused);
}

#[test]
fn workflows_are_started_or_refused() {
    let start = invoke_workflow("w", workflow(true), "{}".into(), Ok(()), None, Some(true)).unwrap();
    assert_eq!(start.script_path, "/w.js");
    assert!(start.background);
    assert_eq!(start.branch_policy, WorkflowBranchMode::Inherit);
    assert_eq!(
        invoke_workflow("w", workflow(true), "{}".into(), Err("bad".into()), None, None).unwrap_err(),
        "Workflow `w` args validation failed.\n\nbad"
    );
    assert!(!invoke_workflow("w", workflow(false), "{}".into(), Err("x".into()), None, None)
        .unwrap()
        .background);
    assert_eq!(loaded_workflow("w", Ok(None)).unwrap_err(), "Workflow not found: w");
    assert_eq!(
        loaded_workflow("w", Err("io".into())).unwrap_err(),
        "Error loading workflow `w`: io"
    );
    assert!(loaded_workflow("w", Ok(Some(workflow(false)))).is_ok());
    assert_eq!(
        workflow_project_path(&Some("k".into()), Err("gone".into()), None).unwrap_err(),
        "Project `k` not found: gone"
    );
    assert_eq!(
        workflow_project_path(&None, Err("x".into()), Some("/p".into())).unwrap().as_deref(),
        Some("/p")
    );
}

#[test]
fn the_native_tool_loops_own_id_is_used_verbatim() {
    assert_eq!(
        invoking_run_call(&Some("toolu_native_loop".to_string()), Claim::Missing),
        Some("toolu_native_loop".to_string())
    );
}

#[test]
fn an_uncertain_call_is_never_claimed() {
    assert_eq!(
        invoking_run_call(&None, Claim::One("toolu_workflow".into())),
        Some("toolu_workflow".to_string())
    );
    assert_eq!(invoking_run_call(&None, Claim::Missing), None);
    assert_eq!(invoking_run_call(&None, Claim::Ambiguous(2)), None);
}

const WORKFLOW_BATCH: &str = r#"{"commands":[{"target":"cairn://workflows/deep-research","description":"Deep research: uniform-interface design lineage","payload":{"args_json":{"maxSources":12,"question":"why"}}}]}"#;

fn recorded_calls(calls: &[(&str, &str)]) -> Vec<String> {
    let uses: Vec<String> = calls
        .iter()
        .map(|(id, input)| {
            format!(r#"{{"id":"{id}","name":"mcp__cairn__run","input":{input}}}"#)
        })
        .collect();
    vec![format!(r#"{{"toolUses":[{}]}}"#, uses.join(","))]
}

fn is_the_workflow_batch(name: &str, input: &Json) -> bool {
    let first = input.get("commands").and_then(|list| list.as_array()).and_then(|list| list.first());
    name.ends_with("__run")
        && first.and_then(|item| item.get("target")).and_then(|target| target.as_str())
            == Some("cairn://workflows/deep-research")
}

fn invoking(calls: &[(&str, &str)]) -> Option<String> {
    let claim = claim_from_events(&recorded_calls(calls), &Vec::new(), is_the_workflow_batch);
    invoking_run_call(&None, claim)
}

#[test]
fn an_mcp_hosted_invocation_claims_the_run_call_that_issued_it() {
    assert_eq!(
        invoking(&[("toolu_workflow", WORKFLOW_BATCH)]),
        Some("toolu_workflow".to_string())
    );
}

#[test]
fn a_sibling_run_call_in_the_same_event_is_not_claimed() {
    assert_eq!(
        invoking(&[
            ("toolu_workflow", WORKFLOW_BATCH),
            ("toolu_sibling", r#"{"commands":[{"command":"bun run check:rust"}]}"#),
        ]),
        Some("toolu_workflow".to_string())
    );
}

#[test]
fn an_uncorrelatable_invocation_yields_no_id_rather_than_a_synthetic_one() {
    assert_eq!(
        invoking(&[("toolu_unrelated", r#"{"commands":[{"command":"echo hi"}]}"#)]),
        None
    );
}

#[test]
fn workflows_indistinguishable_concurrent_invocations_are_refused_not_guessed() {
    assert_eq!(
        invoking(&[("toolu_first", WORKFLOW_BATCH), ("toolu_second", WORKFLOW_BATCH)]),
        None
    );
}

// ---------------------------------------------------------------- skills

fn skill(id: &str, description: &str, project: bool) -> FileSkill {
    FileSkill {
        id: id.to_string(),
        name: format!("Name {}", id),
        description: description.to_string(),
        prompt: format!("Body for {}.\n", id),
        allowed_tools: None,
        is_project_scoped: project,
        dir_path: "/skills".to_string(),
        meta: None,
        has_references: false,
        has_scripts: false,
        has_assets: false,
    }
}

#[test]
fn skills_are_found_by_id_before_name() {
    let mut named = skill("b", "", false);
    named.name = "a".to_string();
    let source = SkillSource::Snapshot(vec![named, skill("a", "", false)]);
    let answer = handle_skill("a", &source);
    assert_eq!(answer.text, "## Skill: Name a\n\nBody for a.\n");
    assert_eq!(answer.found, Some(("a".to_string(), "Name a".to_string())));
    assert_eq!(
        handle_skill("zz", &source).text,
        "Skill not found in execution snapshot: zz"
    );
    let files = SkillSource::Files { by_id: None, listed: vec![skill("x", "", false)] };
    assert_eq!(handle_skill("Name x", &files).found.unwrap().0, "x");
    assert_eq!(handle_skill("zz", &files).text, "Skill not found: zz");
    let direct = SkillSource::Files { by_id: Some(skill("d", "", true)), listed: Vec::new() };
    assert_eq!(handle_skill("anything", &direct).found.unwrap().0, "d");
    assert_eq!(handle_skill("x", &SkillSource::NoProject("e".into())).text, "Error: e");
}

#[test]
fn skill_lists_show_their_details() {
    let mut full = skill("full", "All of it", true);
    full.meta = Some(SkillMeta {
        updated_at: Some("2025-01-02T03:04:05Z".to_string()),
        updated_by: None,
        source_issue: Some("CAIRN-1".to_string()),
    });
    full.has_references = true;
    full.has_assets = true;
    let listed = || vec![skill("plain", "Plain", false)];
    let mut both = listed();
    both.push(full);
    assert_eq!(
        handle_list_skills(Ok(both), None),
        "Found 2 skill(s):\n\n- **plain** (workspace): Plain\n\n- **full** (project): All of it\n  Updated: 2025-01-02 | Source: CAIRN-1 | Has: references, assets"
    );
    assert_eq!(handle_list_skills(Ok(listed()), Some("project")), "No skills found.");
    assert_eq!(
        handle_list_skills(Ok(listed()), Some("workspace")),
        "Found 1 skill(s):\n\n- **plain** (workspace): Plain"
    );
    assert_eq!(handle_list_skills(Err("io".into()), None), "Error listing skills: io");
    // A date that cannot be cut is no matter where its skill is not shown.
    let mut odd = skill("odd", "Odd", true);
    odd.meta = Some(SkillMeta {
        updated_at: Some("2025-01-0\u{e9}".to_string()),
        updated_by: None,
        source_issue: None,
    });
    assert!(!is_listed(&odd, Some("workspace")));
    assert!(is_listed(&odd, Some("project")) && is_listed(&odd, Some("other")));
    let mut both = listed();
    both.push(odd);
    assert_eq!(
        handle_list_skills(Ok(both), Some("workspace")),
        "Found 1 skill(s):\n\n- **plain** (workspace): Plain"
    );
    assert_eq!(date_part("short"), "short");
}

fn create(description: &str, scope: Option<&str>) -> CreateSkillInput {
    CreateSkillInput {
        name: "code-review".to_string(),
        description: description.to_string(),
        prompt: "p".to_string(),
        scope: scope.map(str::to_string),
        allowed_tools: None,
        source_issue: None,
    }
}

#[test]
fn new_skills_are_checked() {
    assert_eq!(
        check_create(&create("d", None), Some("bad".into())).unwrap_err(),
        "Invalid skill name: bad"
    );
    assert_eq!(check_create(&create("", None), None).unwrap_err(), "Description cannot be empty");
    assert!(check_create(&create(&"x".repeat(1024), None), None).is_ok());
    assert!(check_create(&create(&"é".repeat(1024), None), None).is_ok());
    assert!(check_create(&create(&"é".repeat(1025), None), None).is_err());
    assert_eq!(
        check_create(&create(&"x".repeat(1025), None), None).unwrap_err(),
        "Description must be 1024 characters or fewer"
    );
    assert_eq!(
        handle_create_skill(create("d", Some("project")), "T".into(), true, false).unwrap_err(),
        "Skill already exists: code-review"
    );
    let made = handle_create_skill(create("d", Some("project")), "Code Review".into(), false, true)
        .unwrap();
    assert!(made.is_project_scoped);
    assert_eq!(made.name, "Code Review");
    assert_eq!(made.dir_path, "");
    assert!(handle_create_skill(create("d", None), "T".into(), true, false).is_ok());
    assert_eq!(created_answer("n", Ok("/p".into())), "Created skill 'n' at /p");
    assert_eq!(created_answer("n", Err("e".into())), "Failed to create skill: e");
    let meta = meta_update(&Some("run".into()), None, Some("CAIRN-9".into()));
    assert_eq!(meta.updated_by.as_deref(), Some("run"));
    assert_eq!(meta.source_issue.as_deref(), Some("CAIRN-9"));
}

fn update() -> UpdateSkillInput {
    UpdateSkillInput {
        id: "testing".to_string(),
        description: None,
        prompt: None,
        append_to_prompt: None,
        replace_section: None,
        allowed_tools: None,
        source_issue: None,
    }
}

#[test]
fn skills_change_in_one_way_at_most() {
    let mut two = update();
    two.prompt = Some("a".to_string());
    two.append_to_prompt = Some("b".to_string());
    assert_eq!(
        check_update(&two).unwrap_err(),
        "At most one of prompt, append_to_prompt, or replace_section may be set"
    );
    assert!(check_update(&update()).is_ok());
    let mut append = update();
    append.append_to_prompt = Some("more".to_string());
    append.allowed_tools = Some(Vec::new());
    let mut before = skill("testing", "d", false);
    before.allowed_tools = Some(strings(&["Read"]));
    let after = handle_update_skill(before, append, Ok(String::new())).unwrap();
    assert_eq!(after.prompt, "Body for testing.\n\nmore");
    assert_eq!(after.allowed_tools, None);
    let mut section = update();
    section.replace_section =
        Some(ReplaceSectionInput { heading: "h".to_string(), content: "c".to_string() });
    assert_eq!(
        handle_update_skill(skill("t", "d", false), section, Err("no heading".into())).unwrap_err(),
        "Section replacement failed: no heading"
    );
    assert_eq!(skill_to_update("t", Ok(None)).unwrap_err(), "Skill not found: t");
    assert_eq!(skill_to_update("t", Err("io".into())).unwrap_err(), "Error loading skill: io");
    assert_eq!(updated_answer("t", Ok(())), "Updated skill 't'");
    assert_eq!(updated_answer::<()>("t", Err("e".into())), "Failed to update skill: e");
    assert_eq!(handle_delete_skill("t", &None, Ok(())), "Deleted skill 't'");
    assert_eq!(
        handle_delete_skill("t", &Some("old".into()), Ok(())),
        "Deleted skill 't' (reason: old)"
    );
    assert_eq!(handle_delete_skill("t", &None, Err("e".into())), "Failed to delete skill: e");
}

#[test]
fn project_skill_shadows_workspace_by_id() {
    let skills = vec![
        skill("shared", "Project Version", true),
        skill("shared", "Workspace Version", false),
    ];
    let rendered = read_skills_collection(Ok(skills), &Vec::new(), Some("CAIRN"), None);
    assert!(rendered.contains("cairn://p/CAIRN/skills/shared"));
    assert!(rendered.contains("[project] — Project Version"));
    assert!(!rendered.contains("Workspace Version"));
}

#[test]
fn collections_are_sorted_and_hide_what_is_disabled() {
    let skills = vec![skill("b", "B", false), skill("a", "A", false), skill("c", "C", true)];
    assert_eq!(
        read_skills_collection(Ok(skills), &strings(&["b", "c"]), None, None),
        "# Skills — workspace\n\n2 skill(s)\n\n- [a](cairn://skills/a) [workspace] — A\n- [c](cairn://skills/c) [project] — C\n\n## actions\n- [create skill](cairn://skills): required `payload.name`, `payload.description`, `payload.prompt`; optional `payload.allowedTools`, `payload.model`, `payload.sourceIssue`\n"
    );
    assert!(read_skills_collection(Ok(Vec::new()), &Vec::new(), Some("K"), Some("k"))
        .starts_with("# Skills — K context\n\n0 skill(s)\n\nNo skills found.\n\n## actions\n- [create skill](cairn://p/k/skills)"));
    assert_eq!(
        read_skills_collection(Err("io".into()), &Vec::new(), None, None),
        "Error listing skills: io"
    );
    let sorted = collect_by_id(vec![skill("b", "1", false), skill("a", "2", false), skill("b", "3", false)]);
    assert_eq!(sorted.len(), 2);
    assert_eq!(sorted[1].description, "1");
    assert_eq!(skill_link(&skill("x", "", true), Some("P")), "cairn://p/P/skills/x");
}

#[test]
fn resolve_safe_path_rejects_traversal() {
    let resolve = |segments: &[&str]| {
        resolve_safe_path(
            &strings(segments),
            Ok("/skills/ui".to_string()),
            Some(format!("/skills/ui/{}", segments.join("/"))),
            false,
        )
    };
    assert!(resolve(&[".."]).is_err());
    assert!(resolve(&["references", ".."]).is_err());
    assert!(resolve(&["references", "a.md"]).is_ok());
    assert_eq!(resolve(&["a/b"]).unwrap_err(), "Invalid path segment: \"a/b\"");
    assert_eq!(resolve(&["a\\b"]).unwrap_err(), "Invalid path segment: \"a\\\\b\"");
}

#[test]
fn safe_paths_stay_in_the_skill() {
    let segments = strings(&["link"]);
    let dir = || Ok("/skills/ui".to_string());
    assert_eq!(
        resolve_safe_path(&segments, dir(), Some("/skills/ui2/x".into()), false).unwrap_err(),
        "Path escapes skill directory"
    );
    assert_eq!(
        resolve_safe_path(&segments, dir(), None, false).unwrap_err(),
        "Path not found: link"
    );
    assert_eq!(
        resolve_safe_path(&segments, Err("gone".into()), None, false).unwrap_err(),
        "Failed to resolve skill directory: gone"
    );
    assert!(resolve_safe_path(&segments, dir(), Some("/skills/ui".into()), false).is_ok());
    assert!(resolve_safe_path(&segments, Ok("/".into()), Some("/link".into()), false).is_ok());
    assert!(resolve_safe_path(&segments, dir(), Some("/skills/ui\\x".into()), false).is_err());
}

#[test]
fn safe_paths_of_drives_stay_in_the_skill() {
    let resolve = |dir: &str, target: &str| {
        resolve_safe_path(&strings(&["a.md"]), Ok(dir.to_string()), Some(target.to_string()), true)
    };
    assert_eq!(resolve("C:\\s\\ui", "C:\\s\\ui\\a.md").unwrap(), "C:\\s\\ui\\a.md");
    assert_eq!(
        resolve("\\\\?\\C:\\s\\ui", "\\\\?\\C:\\s\\ui\\a.md").unwrap(),
        "\\\\?\\C:\\s\\ui\\a.md"
    );
    assert!(resolve("C:\\", "C:\\a.md").is_ok());
    assert_eq!(
        resolve("C:\\s\\ui", "C:\\s\\ui2\\a.md").unwrap_err(),
        "Path escapes skill directory"
    );
    assert!(resolve("C:\\s\\ui", "D:\\s\\ui\\a.md").is_err());
}

#[test]
fn render_skill_serves_body_and_package_links() {
    let mut ui = skill("ui", "UI work", false);
    let rendered = render_skill(&ui, &SkillScopeUri::Contextual);
    assert!(rendered.contains("Body for ui."));
    assert!(!rendered.contains("cairn://skills/ui/SKILL.md"));
    assert!(!rendered.contains("cairn://skills/ui/references"));

    ui.has_references = true;
    let rendered = render_skill(&ui, &SkillScopeUri::Project("CAIRN".to_string()));
    assert!(rendered.contains("cairn://p/CAIRN/skills/ui/references"));
    assert!(!rendered.contains("cairn://p/CAIRN/skills/ui/SKILL.md"));
    assert!(rendered.contains("Body for ui."));
}

#[test]
fn skills_render_with_their_provenance() {
    let mut ui = skill("ui", "UI work", true);
    ui.meta = Some(SkillMeta {
        updated_at: Some("2025-01-02T00:00:00Z".to_string()),
        updated_by: Some("run-1".to_string()),
        source_issue: None,
    });
    ui.has_scripts = true;
    assert_eq!(
        render_skill(&ui, &SkillScopeUri::Contextual),
        "# Skill: Name ui (`ui`)\n\n[project]\n\nUI work\n\nBody for ui.\n\n## provenance\n- updated: 2025-01-02\n- updated by: run-1\n\n## package\n- [scripts](cairn://skills/ui/scripts)\n\n## actions\n- [patch skill](cairn://skills/ui): optional `payload.description`, one of `payload.prompt` | `payload.appendToPrompt` | `payload.replaceSection`, `payload.allowedTools`, `payload.model`\n- [delete skill](cairn://skills/ui): optional `payload.reason`\n"
    );
}

#[test]
fn entries_are_sorted_and_all_kept() {
    let entry = |name: &str, is_dir: bool| DirEntry { name: name.to_string(), is_dir };
    let sorted = sort_entries(vec![
        entry("b", true),
        entry("a", false),
        entry("b", false),
        entry("B", false),
        entry("a", false),
    ]);
    let shown: Vec<(&str, bool)> =
        sorted.iter().map(|entry| (entry.name.as_str(), entry.is_dir)).collect();
    assert_eq!(
        shown,
        vec![("B", false), ("a", false), ("a", false), ("b", false), ("b", true)]
    );
}

#[test]
fn read_subpath_returns_file_and_lists_dir() {
    let entries = vec![
        DirEntry { name: "z".to_string(), is_dir: true },
        DirEntry { name: "a.md".to_string(), is_dir: false },
    ];
    let listing = render_directory(
        "ui",
        &strings(&["references"]),
        &SkillScopeUri::Contextual,
        Ok(entries),
    );
    assert!(listing.contains("a.md"));
    assert!(listing.contains("cairn://skills/ui/references/a.md"));
    assert_eq!(
        listing,
        "# ui/references\n\n- [a.md](cairn://skills/ui/references/a.md)\n- [z/](cairn://skills/ui/references/z)\n"
    );
    let content = read_skill_file(&strings(&["references", "a.md"]), Ok("alpha".into()));
    assert_eq!(content, "alpha");
    assert_eq!(
        read_skill_file(&strings(&["a", "b"]), Err("denied".into())),
        "Failed to read a/b: denied"
    );
    assert_eq!(
        render_directory("ui", &strings(&["x"]), &SkillScopeUri::Contextual, Ok(Vec::new())),
        "# ui/x\n\n(empty)\n"
    );
    assert_eq!(
        render_directory("ui", &strings(&["x"]), &SkillScopeUri::Contextual, Err("e".into())),
        "Failed to read directory x: e"
    );
}

#[test]
fn explicit_projects_never_fall_back_to_the_workspace() {
    assert!(resolve_skill_for_scope(Ok(Some(skill("a", "", false))), true).unwrap().is_none());
    assert!(resolve_skill_for_scope(Ok(Some(skill("a", "", false))), false).unwrap().is_some());
    let none = Vec::new();
    assert_eq!(
        resolve_readable(Ok(Some(skill("a", "", false))), "a", Some("prj"), &none).unwrap_err(),
        "Skill not found in project PRJ: a"
    );
    assert_eq!(
        resolve_readable(Ok(Some(skill("a", "", false))), "a", None, &strings(&["a"])).unwrap_err(),
        "Skill not found: a"
    );
    assert!(resolve_readable(Ok(Some(skill("a", "", true))), "a", None, &strings(&["a"])).is_ok());
    assert_eq!(
        resolve_readable(Err("io".into()), "a", None, &none).unwrap_err(),
        "Error loading skill: io"
    );
    assert_eq!(project_lookup_key("prj"), "PRJ");
    assert_eq!(
        project_path_by_key("PRJ", Ok(None), Ok(None)).unwrap_err(),
        "No project found with key 'PRJ'"
    );
    assert_eq!(
        project_path_by_key("PRJ", Ok(Some("id".into())), Ok(None)).unwrap_err(),
        "Project 'PRJ' has no repository path"
    );
    assert_eq!(
        project_path_by_key("PRJ", Err("db".into()), Ok(None)).unwrap_err(),
        "Failed to load project: db"
    );
}

#[test]
fn the_skill_file_is_served_at_the_root() {
    let mut ui = skill("ui", "UI", false);
    let scope = skill_scope(Some("prj"));
    assert!(matches!(read_skill(&ui, &Vec::new(), &scope), SkillRead::Text(_)));
    ui.meta = Some(SkillMeta {
        updated_at: Some("2025-01-0\u{e9}".to_string()),
        updated_by: None,
        source_issue: None,
    });
    match read_skill(&ui, &strings(&["skill.MD"]), &scope) {
        SkillRead::Text(text) => assert_eq!(
            text,
            "SKILL.md content is served at the skill root: cairn://p/PRJ/skills/ui"
        ),
        other => panic!("unexpected {:?}", other),
    }
    assert!(matches!(read_skill(&ui, &strings(&["assets"]), &scope), SkillRead::Subpath));
    assert!(eq_ignore_ascii_case("aBc", "AbC"));
    assert!(!eq_ignore_ascii_case("a", "ä"));
}

#[test]
fn script_targets_name_a_script() {
    let target = ScriptTarget::Skill {
        skill_id: "ui".to_string(),
        path: strings(&["scripts", "run.sh"]),
    };
    let (id, path, project) = resolve_skill_script_path(target).unwrap();
    assert_eq!((id.as_str(), path.len(), project), ("ui", 2, None));
    let short = ScriptTarget::ProjectSkill {
        project: "P".to_string(),
        skill_id: "ui".to_string(),
        path: strings(&["scripts"]),
    };
    assert_eq!(
        resolve_skill_script_path(short).unwrap_err(),
        "Skill script target must address scripts/<name>, got 'scripts'"
    );
    assert_eq!(
        resolve_skill_script_path(ScriptTarget::Other("cairn://x".into())).unwrap_err(),
        "Not a skill script target: cairn://x (expected cairn://skills/<id>/scripts/<name>)"
    );
}
