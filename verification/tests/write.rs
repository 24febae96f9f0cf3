use cairn_core::diff::{changed_line_counts, render_change_diff};
use cairn_core::handlers::tool_use_correlation::{
    claim_from_events, claim_from_uses, try_again, tool_uses, Claim,
};
use cairn_core::handlers::write::batch::{
    apply_prepared_logical, apply_snapshot_mutations, outside_failure, prepare_file_changes,
    IndexedChange, OutsideEffect, OutsideFault, Stretch,
};
use cairn_core::handlers::write::call::{
    needs_home_resolution, open_call, take_home_resolution, validation_failure_report, AtLock,
    FenceDecision, Opening, Passage, RunFence, TargetFamily, TreeFile, WriteCall, WriteItem,
};
use cairn_core::handlers::write::closing::{
    append_check_summary, AtCommit, CommitPassage, Promotion, Step, WriteReply,
};
use cairn_core::handlers::write::commit::{
    finalize_file_commit, plan_commit, CommitPlan, PublicationMode, PublicationRequirement,
    PublishOutcome,
};
use cairn_core::handlers::write::diagnostics::literal_not_found_diagnostic;
use cairn_core::handlers::write::file_mutations::{
    finish_edit, DiskFile, EditReply, FileStage, OldString, PreparedChange, ResolvedPath, Staging,
    TargetFacts,
};
use cairn_core::handlers::write::host_edit::{
    admit_user_file_edit, commit_user_file_edit, edit_notification, finish_commit,
    seal_failure_message, text_at_head, validate_relative, worktree_project, EditGround,
    FinishAction, FinishEvent, FinishState, PublishFault, SealError, WorktreeProject,
    NON_JJ_WORKTREE_ERROR,
};
use cairn_core::handlers::write::paths::trim_leading_slashes;
use cairn_core::handlers::write::preview::{
    find_change_preview_in_assistant_rows, input_is_preview_shaped, is_change_tool_name,
    AssistantRow,
};
use cairn_core::handlers::write::preview_run::{hash_file_target_uri, DiskBytes};
use cairn_core::handlers::write::progress::{Applying, Settled, Work};
use cairn_core::handlers::write::replay::{
    canonicalize_target, change_identity, claim_resource_call, is_this_writes_call, ledger_claim,
    mark_as_replay, ChangeIdentity, ClaimStep, LedgerClaim, ResourceClaim,
};
use cairn_core::handlers::write::types::{
    change_report, ChangeFailure, ChangeItem, ChangeMode, ChangeReport, CommitReport,
    FileChangePayload,
};
use cairn_core::hashing::sha256_hex;
use cairn_core::json::{parse_json, set_member, Json};
use cairn_core::textmap::TextMap;

fn strings(items: &[&str]) -> Vec<String> {
    items.iter().map(|item| item.to_string()).collect()
}

// ---------------------------------------------------------------- line counts and diffs

#[test]
fn line_counts_added_file() {
    assert_eq!(changed_line_counts(None, Some("one\ntwo\n")), (2, 0));
}

#[test]
fn line_counts_deleted_file() {
    assert_eq!(changed_line_counts(Some("one\ntwo\n"), None), (0, 2));
}

#[test]
fn line_counts_modified_file() {
    let before = "keep\nremove\nold\n";
    let after = "keep\nadd\nnew\n";
    assert_eq!(changed_line_counts(Some(before), Some(after)), (2, 2));
}

#[test]
fn render_change_diff_shows_only_changed_lines_and_caps() {
    let d = render_change_diff("a\nb\nc\n", "a\nB\nc\n", 60);
    assert!(d.contains("-b"), "old line shown: {d}");
    assert!(d.contains("+B"), "new line shown: {d}");
    assert!(
        !d.lines().any(|l| l == " a" || l == "a"),
        "unchanged lines omitted: {d}"
    );

    let added = render_change_diff("", "x\ny\n", 60);
    assert_eq!(added, "+x\n+y");

    let big = (0..100)
        .map(|n| format!("l{n}"))
        .collect::<Vec<_>>()
        .join("\n");
    let capped = render_change_diff("", &big, 10);
    assert!(
        capped.contains("more changed lines"),
        "caps with a note: {capped}"
    );
    assert_eq!(capped.lines().count(), 11, "10 lines + the truncation note");
}

// ---------------------------------------------------------------- claims

fn run_wait(name: &str, key: &str, id: &str, duration: &str) -> String {
    format!(
        r#"{{"{key}":"{id}","name":"{name}","input":{{"commands":[{{"waitFor":{{"duration":"{duration}"}}}}]}}}}"#
    )
}

fn event(tools: &[String]) -> String {
    format!(r#"{{"toolUses":[{}]}}"#, tools.join(","))
}

fn is_run(name: &str) -> bool {
    name == "run" || name.ends_with("__run")
}

fn only_command<'a>(input: &'a Json) -> Option<&'a Json> {
    let commands = input.get("commands")?.as_array()?;
    if commands.len() == 1 {
        Some(&commands[0])
    } else {
        None
    }
}

fn wait_match(name: &str, input: &Json) -> bool {
    is_run(name)
        && only_command(input)
            .and_then(|command| command.get("waitFor"))
            .and_then(|wait| wait.get("duration"))
            .and_then(|duration| duration.as_str())
            == Some("3m")
}

#[test]
fn accepts_both_provider_id_spellings_and_namespaced_run() {
    for (key, name) in [("id", "run"), ("toolUseId", "mcp__cairn__run")] {
        let rows = vec![event(&[run_wait(name, key, "provider-id", "3m")])];
        match claim_from_events(&rows, &Vec::new(), wait_match) {
            Claim::One(id) => assert_eq!(id, "provider-id"),
            other => panic!("unexpected {:?}", other),
        }
    }
}

#[test]
fn requires_exact_wait_input_and_ignores_malformed_or_unrelated_events() {
    let rows = vec![
        "not json".to_string(),
        event(&[run_wait("run", "id", "wrong", "4m")]),
        event(&[r#"{"id":"read-id","name":"read","input":{}}"#.to_string()]),
    ];
    assert!(matches!(claim_from_events(&rows, &Vec::new(), wait_match), Claim::Missing));
}

fn run_batch(id: &str, command: &str) -> String {
    format!(
        r#"{{"id":"{id}","name":"mcp__cairn__run","input":{{"commands":[{{"command":"{command}"}}]}}}}"#
    )
}

fn batch_match(command: &'static str) -> impl Fn(&str, &Json) -> bool {
    move |name, input| {
        is_run(name)
            && only_command(input).and_then(|item| item.get("command")).and_then(|text| text.as_str())
                == Some(command)
    }
}

#[test]
fn a_claim_picks_the_matching_invocation_not_the_newest() {
    let rows = vec![event(&[
        run_batch("toolu-mine", "sleep 300"),
        run_batch("toolu-sibling", "bun run check:rust"),
    ])];
    match claim_from_events(&rows, &Vec::new(), batch_match("sleep 300")) {
        Claim::One(id) => assert_eq!(id, "toolu-mine"),
        other => panic!("unexpected {:?}", other),
    }
}

#[test]
fn tool_use_correlation_indistinguishable_concurrent_invocations_are_refused_not_guessed() {
    let rows = vec![event(&[
        run_batch("toolu-first", "sleep 300"),
        run_batch("toolu-second", "sleep 300"),
    ])];
    assert!(matches!(
        claim_from_events(&rows, &Vec::new(), batch_match("sleep 300")),
        Claim::Ambiguous(2)
    ));
}

#[test]
fn an_answered_twin_leaves_the_open_invocation_claimable() {
    let rows = vec![
        event(&[run_batch("toolu-second", "bun run test:rust")]),
        event(&[run_batch("toolu-first", "bun run test:rust")]),
    ];
    let answered = strings(&["toolu-first"]);
    match claim_from_events(&rows, &answered, batch_match("bun run test:rust")) {
        Claim::One(id) => assert_eq!(id, "toolu-second"),
        other => panic!("unexpected {:?}", other),
    }
}

#[test]
fn an_already_claimed_invocation_is_not_a_candidate() {
    let rows = vec![event(&[run_batch("toolu-only", "sleep 300")])];
    let claimed = strings(&["toolu-only"]);
    assert!(matches!(
        claim_from_events(&rows, &claimed, batch_match("sleep 300")),
        Claim::Missing
    ));
}

#[test]
fn a_claim_ignores_unrelated_and_malformed_events() {
    let rows = vec![
        "not json".to_string(),
        event(&[r#"{"id":"read-id","name":"read","input":{}}"#.to_string()]),
        event(&[run_batch("toolu-other", "echo other")]),
    ];
    assert!(matches!(
        claim_from_events(&rows, &Vec::new(), batch_match("sleep 300")),
        Claim::Missing
    ));
}

#[test]
fn claims_are_tried_again_while_they_are_missing() {
    let rows = vec![event(&[run_batch("a", "x"), run_batch("b", "y")])];
    let uses = tool_uses(&rows);
    assert_eq!(uses.len(), 2);
    assert!(matches!(
        claim_from_uses(&uses, &vec![true, false], &Vec::new()),
        Claim::One(id) if id == "b"
    ));
    assert!(try_again(&Claim::Missing, 1));
    assert!(!try_again(&Claim::One("a".into()), 1));
    assert!(!try_again(&Claim::Ambiguous(2), 1));
}

// ---------------------------------------------------------------- file changes

fn payload() -> FileChangePayload {
    FileChangePayload::default()
}

fn item(target: &str, mode: ChangeMode, payload: FileChangePayload) -> ChangeItem {
    ChangeItem { target: target.to_string(), mode, payload: Ok(payload) }
}

fn patch_item(target: &str, old: &str, new: &str) -> ChangeItem {
    let mut edit = payload();
    edit.old_string = Some(old.to_string());
    edit.new_string = Some(new.to_string());
    item(target, ChangeMode::Patch, edit)
}

fn content_item(target: &str, mode: ChangeMode, content: &str) -> ChangeItem {
    let mut whole = payload();
    whole.content = Some(content.to_string());
    item(target, mode, whole)
}

fn facts(item: &ChangeItem, disk: Option<&str>) -> TargetFacts {
    let path = item.target.strip_prefix("file:").unwrap_or(&item.target).to_string();
    let old = match &item.payload {
        Ok(given) => given.old_string.clone().unwrap_or_default(),
        Err(_) => String::new(),
    };
    TargetFacts {
        normalized: Ok(item.target.clone()),
        resolved: Ok(ResolvedPath { full_path: format!("/wt/{path}"), outside_worktree: false }),
        disk: match disk {
            Some(text) => DiskFile::Text(text.to_string()),
            None => DiskFile::Missing,
        },
        suggestion: String::new(),
        old_string: OldString::Literal(old.replace("\\~~*~~", "~~*~~")),
    }
}

/// Prepares items against one file on disk.
fn prepare(
    items: Vec<ChangeItem>,
    disk: Option<&str>,
) -> Result<(Vec<PreparedChange>, Vec<String>), ChangeFailure> {
    let known: Vec<TargetFacts> = items.iter().map(|item| facts(item, disk)).collect();
    let changes: Vec<IndexedChange> = items
        .into_iter()
        .enumerate()
        .map(|(index, item)| IndexedChange { index, item })
        .collect();
    let mut stage = FileStage::with_snapshot(TextMap::new());
    match prepare_file_changes(&mut stage, &changes, &known, 0) {
        Stretch::Complete => Ok((stage.prepared, stage.summaries)),
        Stretch::Stopped { staging: Staging::Rejected(failure), .. } => Err(failure),
        other => panic!("unexpected {:?}", other),
    }
}

fn written(change: &PreparedChange) -> (&str, bool) {
    match change {
        PreparedChange::Write { content, is_new, .. } => (content.as_str(), *is_new),
        _ => panic!("expected write"),
    }
}

#[test]
fn prepare_file_changes_computes_patch_without_writing() {
    let item = patch_item("file:example.txt", "old", "new");
    let (prepared, summaries) = prepare(vec![item], Some("hello old world\n")).unwrap();
    assert_eq!(summaries, vec!["~file:example.txt".to_string()]);
    assert_eq!(written(&prepared[0]), ("hello new world\n", false));
}

#[test]
fn prepare_file_changes_treats_escaped_marker_as_literal() {
    let item = patch_item("file:escaped.txt", "\\~~*~~", "REPLACED");
    let (prepared, _) = prepare(vec![item], Some("keep ~~*~~ here\n")).unwrap();
    assert_eq!(written(&prepared[0]).0, "keep REPLACED here\n");
}

#[test]
fn literal_not_found_diagnostic_flags_malformed_marker() {
    let msg = literal_not_found_diagnostic("foo ~~ bar", "foo baz");
    assert!(msg.contains("~~*~~"), "got: {msg}");
}

#[test]
fn literal_not_found_diagnostic_suggests_wildcard_for_middle_edit() {
    let msg = literal_not_found_diagnostic(
        "function validate(token) {\n  old_body();\n}",
        "function validate(token) {\n  new_body();\n}",
    );
    assert!(msg.contains("~~*~~"), "got: {msg}");
    assert!(msg.contains("collapse"), "got: {msg}");
}

#[test]
fn literal_not_found_diagnostic_plain_when_no_hint() {
    let msg = literal_not_found_diagnostic("abc", "xyz");
    assert!(msg.starts_with("old_string not found"), "got: {msg}");
    assert!(!msg.contains("~~*~~"), "got: {msg}");
}

#[test]
fn hash_file_target_captures_existing_and_missing() {
    let resolved = |path: &str| {
        Ok(ResolvedPath { full_path: format!("/wt/{path}"), outside_worktree: false })
    };
    let existing_hash = hash_file_target_uri(
        &Ok("file:existing.txt".to_string()),
        &resolved("existing.txt"),
        &DiskBytes::Bytes(b"contents".to_vec()),
    )
    .unwrap();
    let missing_hash = hash_file_target_uri(
        &Ok("file:missing.txt".to_string()),
        &resolved("missing.txt"),
        &DiskBytes::Missing,
    )
    .unwrap();
    assert!(existing_hash.exists);
    assert_eq!(existing_hash.kind, "file");
    assert_eq!(existing_hash.hash, sha256_hex(b"contents"));
    assert_eq!(
        existing_hash.hash,
        "d1b2a59fbea7e20077af9f91b27e95e865061b270be03ff539ab3b73587882e8"
    );
    assert!(!missing_hash.exists);
    assert_eq!(missing_hash.hash, "missing");
}

#[test]
fn prepare_file_changes_create_via_payload() {
    let item = content_item("file:created.txt", ChangeMode::Create, "hello\nworld\n");
    let (prepared, summaries) = prepare(vec![item], None).unwrap();
    assert_eq!(summaries, vec!["+file:created.txt".to_string()]);
    assert_eq!(written(&prepared[0]), ("hello\nworld\n", true));
}

#[test]
fn a_batch_is_prepared_in_its_order() {
    let items = || {
        vec![
            content_item("file:b.txt", ChangeMode::Create, "b\n"),
            content_item("file:a.txt", ChangeMode::Create, "a\n"),
        ]
    };
    let (whole, summaries) = prepare(items(), None).unwrap();
    assert_eq!(summaries, vec!["+file:b.txt".to_string(), "+file:a.txt".to_string()]);
    assert_eq!(written(&whole[0]), ("b\n", true));
    assert_eq!(written(&whole[1]), ("a\n", true));
    let front = items().into_iter().take(1).collect();
    let (front, summaries) = prepare(front, None).unwrap();
    assert_eq!(summaries, vec!["+file:b.txt".to_string()]);
    assert_eq!(written(&front[0]), written(&whole[0]));
}

#[test]
fn prepare_file_changes_replace_via_payload() {
    let item = content_item("file:replace.txt", ChangeMode::Replace, "new\n");
    let (prepared, summaries) = prepare(vec![item], Some("old\n")).unwrap();
    assert_eq!(summaries, vec!["~file:replace.txt".to_string()]);
    assert_eq!(written(&prepared[0]), ("new\n", false));
}

#[test]
fn prepare_file_changes_append_existing_via_payload() {
    let item = content_item("file:append.txt", ChangeMode::Append, "second\n");
    let (prepared, summaries) = prepare(vec![item], Some("first\n")).unwrap();
    assert_eq!(summaries, vec!["~file:append.txt".to_string()]);
    assert_eq!(written(&prepared[0]), ("first\nsecond\n", false));
}

#[test]
fn prepare_file_changes_append_creates_missing_file() {
    let item = content_item("file:new-append.txt", ChangeMode::Append, "created\n");
    let (prepared, summaries) = prepare(vec![item], None).unwrap();
    assert_eq!(summaries, vec!["~file:new-append.txt".to_string()]);
    assert_eq!(written(&prepared[0]), ("created\n", true));
}

#[test]
fn prepare_file_changes_append_uses_in_flight_content() {
    let create = content_item("file:chain.txt", ChangeMode::Create, "one\n");
    let append = content_item("file:chain.txt", ChangeMode::Append, "two\n");
    let (prepared, summaries) = prepare(vec![create, append], None).unwrap();
    assert_eq!(
        summaries,
        vec!["+file:chain.txt".to_string(), "~file:chain.txt".to_string()]
    );
    assert_eq!(written(&prepared[1]), ("one\ntwo\n", false));
}

#[test]
fn prepare_file_changes_patch_via_diff_payload() {
    let mut edit = payload();
    edit.diff = Some("--- a/api.txt\n+++ b/api.txt\n@@ -1,3 +1,3 @@\n line one\n-line two\n+line 2\n line three\n".to_string());
    let change = item("file:api.txt", ChangeMode::Patch, edit);
    let known = vec![facts(&change, Some("line one\nline two\nline three\n"))];
    let changes = vec![IndexedChange { index: 0, item: change }];
    let mut stage = FileStage::with_snapshot(TextMap::new());
    match prepare_file_changes(&mut stage, &changes, &known, 0) {
        Stretch::Stopped { pos, staging: Staging::NeedsEdit(_, pending) } => {
            assert_eq!(pos, 0);
            let edited = EditReply::Edited("line one\nline 2\nline three\n".to_string());
            finish_edit(&mut stage, 0, &changes[0].item, pending, edited).unwrap();
        }
        other => panic!("unexpected {:?}", other),
    }
    assert_eq!(written(&stage.prepared[0]).0, "line one\nline 2\nline three\n");
}

#[test]
fn prepare_file_changes_patch_replace_all_via_payload() {
    let mut change = patch_item("file:dup.txt", "x", "y");
    if let Ok(edit) = &mut change.payload {
        edit.replace_all = Some(true);
    }
    let (prepared, _) = prepare(vec![change], Some("x\nx\nx\n")).unwrap();
    assert_eq!(written(&prepared[0]).0, "y\ny\ny\n");
}

#[test]
fn prepare_file_changes_patch_non_unique_old_string_errors() {
    let error = prepare(vec![patch_item("file:dup.txt", "x", "y")], Some("x\nx\nx\n"))
        .unwrap_err()
        .error;
    assert!(error.contains("matched 3 sites"), "{error}");
    assert!(error.contains("replace_all"), "{error}");
    assert!(
        error.contains("Match 1 — dup.txt:1:1-1")
            && error.contains("Match 2 — dup.txt:2:1-1")
            && error.contains("Match 3 — dup.txt:3:1-1"),
        "{error}"
    );
    assert!(error.contains(">     1 | x"), "{error}");
}

#[test]
fn prepare_file_changes_non_unique_excerpts_distinguish_similar_fixtures() {
    let disk = "equipment: pump-a\n  document: manual-a\n  enabled: true\n  mode: primary\n\n\
             equipment: pump-b\n  document: manual-b\n  enabled: true\n  mode: backup\n";
    let change = patch_item("file:equipment.txt", "  enabled: true", "  enabled: false");
    let diagnostic = prepare(vec![change], Some(disk)).unwrap_err().error;
    assert!(diagnostic.contains("Match 1 — equipment.txt:3:1-15"));
    assert!(diagnostic.contains("Match 2 — equipment.txt:8:1-15"));
    assert!(diagnostic.contains("1 | equipment: pump-a"));
    assert!(diagnostic.contains("2 |   document: manual-a"));
    assert!(diagnostic.contains("6 | equipment: pump-b"));
    assert!(diagnostic.contains("7 |   document: manual-b"));
}

#[test]
fn prepare_file_changes_non_unique_reports_multiline_ranges() {
    let disk = "fixture a\nstart\nmiddle\nend\ntail a\nfixture b\nstart\nmiddle\nend\ntail b\n";
    let change = patch_item("file:ranges.txt", "start\nmiddle", "replacement");
    let diagnostic = prepare(vec![change], Some(disk)).unwrap_err().error;
    assert!(diagnostic.contains("Match 1 — ranges.txt:2:1-3:6"));
    assert!(diagnostic.contains("Match 2 — ranges.txt:7:1-8:6"));
    assert!(diagnostic.contains(">     2 | start\n>     3 | middle"));
    assert!(diagnostic.contains(">     7 | start\n>     8 | middle"));
}

#[test]
fn prepare_file_changes_non_unique_distinguishes_matches_on_one_long_line() {
    let content = format!("{}needle{}needle\n", "a".repeat(220), "x".repeat(30));
    let change = patch_item("file:one-line.txt", "needle", "changed");
    let diagnostic = prepare(vec![change], Some(&content)).unwrap_err().error;
    assert!(diagnostic.contains("Match 1 — one-line.txt:1:221-226"));
    assert!(diagnostic.contains("Match 2 — one-line.txt:1:257-262"));
    let first_match = diagnostic
        .split("Match 1 — one-line.txt:1:221-226\n")
        .nth(1)
        .and_then(|section| section.split("\n\nMatch 2 —").next())
        .expect("first match excerpt");
    let second_match = diagnostic
        .split("Match 2 — one-line.txt:1:257-262\n")
        .nth(1)
        .expect("second match excerpt");
    assert!(second_match.contains("needle"), "{diagnostic}");
    let first_marker = first_match
        .lines()
        .find(|line| line.starts_with("        |"))
        .expect("first focus marker");
    let second_marker = second_match
        .lines()
        .find(|line| line.starts_with("        |"))
        .expect("second focus marker");
    assert_ne!(first_marker, second_marker);
}

#[test]
fn prepare_file_changes_non_unique_bounds_large_multiline_excerpts() {
    let block = (1..=50)
        .map(|index| format!("block line {index:02}"))
        .collect::<Vec<_>>()
        .join("\n");
    let content = format!("fixture a\n{block}\ntail a\nfixture b\n{block}\ntail b\n");
    let change = patch_item("file:large-block.txt", &block, "changed");
    let diagnostic = prepare(vec![change], Some(&content)).unwrap_err().error;
    assert!(diagnostic.contains("Match 1 — large-block.txt:2:1-51:13"));
    assert!(diagnostic.contains("Match 2 — large-block.txt:54:1-103:13"));
    assert!(diagnostic.contains("lines omitted"));
    assert!(diagnostic.contains("block line 01"));
    assert!(diagnostic.contains("block line 50"));
    assert!(diagnostic.lines().count() < 30, "{diagnostic}");
}

fn many() -> String {
    (1..=12)
        .map(|index| format!("fixture {index}\nvalue: repeated\nend {index}\n"))
        .collect::<String>()
}

#[test]
fn prepare_file_changes_non_unique_diagnostic_caps_and_continues() {
    let change = patch_item("file:many.txt", "value: repeated", "value: changed");
    let diagnostic = prepare(vec![change], Some(&many())).unwrap_err().error;
    assert!(diagnostic.contains("showing 10 of 12"));
    assert!(diagnostic.contains("Match 10 — many.txt:29:1-15"));
    assert!(!diagnostic.contains("Match 11 —"));
    assert!(diagnostic.contains("2 more matches omitted"));
    assert!(diagnostic.contains("`file:many.txt?offset=29&limit=40`"));
}

#[test]
fn prepare_file_changes_in_flight_ambiguity_does_not_emit_stale_continuation_uri() {
    let create = content_item("file:created.txt", ChangeMode::Create, &many());
    let patch = patch_item("file:created.txt", "value: repeated", "value: changed");
    let failure = prepare(vec![create, patch], None).unwrap_err();
    assert_eq!(failure.index, 1);
    assert!(failure.error.contains("showing 10 of 12"));
    assert!(failure.error.contains("in-flight snapshot"));
    assert!(failure.error.contains("Apply the preceding changes in a separate write"));
    assert!(!failure.error.contains("file:created.txt?offset="));
}

#[test]
fn prepare_file_changes_patch_single_match_applies() {
    let change = patch_item("file:single.txt", "unique", "changed");
    let (prepared, _) = prepare(vec![change], Some("keep\nunique\nkeep\n")).unwrap();
    assert_eq!(written(&prepared[0]).0, "keep\nchanged\nkeep\n");
}

#[test]
fn prepare_file_changes_patch_non_unique_after_earlier_item_errors() {
    let item_a = patch_item("file:batch.txt", "gamma", "beta");
    let item_b = patch_item("file:batch.txt", "beta", "delta");
    let failure = prepare(vec![item_a, item_b], Some("alpha\nbeta\ngamma\n")).unwrap_err();
    assert_eq!(failure.index, 1);
    assert!(failure.error.contains("matched 2 sites"), "{}", failure.error);
}

#[test]
fn prepare_file_changes_ignores_top_level_flat_keys() {
    let change = item("file:created.txt", ChangeMode::Create, payload());
    let failure = prepare(vec![change], None).unwrap_err();
    assert!(
        failure.error.contains("mode=create requires content"),
        "got: {}",
        failure.error
    );
}

#[test]
fn a_missing_file_cannot_be_patched() {
    let failure = prepare(vec![patch_item("file:gone.txt", "a", "b")], None).unwrap_err();
    assert_eq!(failure.error, "File does not exist");
    assert_eq!(failure.mode, "patch");
    assert_eq!(failure.kind, "file");
}

#[test]
fn applied_batches_are_recorded_and_put_on_the_snapshot() {
    let changes = vec![
        IndexedChange { index: 3, item: content_item("file:a.txt", ChangeMode::Create, "x\ny\n") },
        IndexedChange { index: 4, item: item("file:b.txt", ChangeMode::Delete, payload()) },
    ];
    let known: Vec<TargetFacts> =
        vec![facts(&changes[0].item, None), facts(&changes[1].item, Some("1\n"))];
    let mut snapshot = TextMap::new();
    snapshot.insert("file:b.txt".to_string(), Some("1\n".to_string()));
    let mut stage = FileStage::with_snapshot(TextMap::new());
    assert!(matches!(prepare_file_changes(&mut stage, &changes, &known, 0), Stretch::Complete));
    let done = apply_prepared_logical(&changes, &stage.prepared, &stage.summaries, &snapshot);
    assert_eq!(done.affected_paths, vec!["a.txt", "b.txt"]);
    assert_eq!(done.applied[0].index, 3);
    assert_eq!(done.recorded_changes[0].status, "added");
    assert_eq!((done.recorded_changes[0].additions, done.recorded_changes[0].deletions), (2, 0));
    assert_eq!(done.recorded_changes[1].status, "deleted");
    assert_eq!(done.recorded_changes[1].deletions, 1);
    assert!(done.outside_effects.is_empty());
    apply_snapshot_mutations(&mut snapshot, &done.logical_mutations);
    assert_eq!(snapshot.get("file:a.txt").unwrap().as_deref(), Some("x\ny\n"));
    assert_eq!(snapshot.get("file:b.txt").unwrap().as_deref(), None);
}

#[test]
fn effects_outside_the_worktree_name_their_fault() {
    let effect = OutsideEffect {
        change_pos: 0,
        target_uri: "file:/etc/x".to_string(),
        full_path: "/etc/x".to_string(),
        content: None,
    };
    let change =
        IndexedChange { index: 2, item: item("file:/etc/x", ChangeMode::Delete, payload()) };
    let say = |fault| outside_failure(&effect, &change, fault).error;
    assert_eq!(
        say(OutsideFault::Parents("ro".into())),
        "Failed to create parent directories for 'file:/etc/x': ro"
    );
    assert_eq!(say(OutsideFault::Write("ro".into())), "Failed to write 'file:/etc/x': ro");
    assert_eq!(say(OutsideFault::Removal("ro".into())), "Failed to delete 'file:/etc/x': ro");
    assert_eq!(trim_leading_slashes("//a/b"), "a/b");
}

// ---------------------------------------------------------------- previews

#[test]
fn change_tool_name_accepts_mcp_names() {
    assert!(is_change_tool_name("write"));
    assert!(is_change_tool_name("mcp__cairn__write"));
    assert!(is_change_tool_name("change"));
    assert!(is_change_tool_name("mcp__cairn__change"));
    assert!(!is_change_tool_name("exchange"));
    assert!(!is_change_tool_name("mcp__cairn__change_extra"));
    assert!(!is_change_tool_name("mcp__cairn__write_extra"));
}

fn assistant_preview_event(sequence: i32, id: &str, name: &str) -> AssistantRow {
    AssistantRow {
        sequence,
        data: format!(
            r#"{{"toolUses":[{{"id":"{id}","name":"{name}","input":{{"preview":true,"changes":[]}}}}]}}"#
        ),
        status: None,
    }
}

#[test]
fn no_id_preview_lookup_does_not_attach_to_prior_event() {
    let rows = vec![assistant_preview_event(10, "old", "mcp__cairn__change")];
    let found = find_change_preview_in_assistant_rows("run", &rows, Some(11), None).unwrap();
    assert!(found.is_none());
}

#[test]
fn no_id_preview_lookup_accepts_latest_visible_event() {
    let rows = vec![assistant_preview_event(11, "current", "mcp__cairn__change")];
    let found = find_change_preview_in_assistant_rows("run", &rows, Some(11), None)
        .unwrap()
        .unwrap();
    assert_eq!(found.tool_use_id, "current");
    assert_eq!(found.sequence, 11);
}

#[test]
fn no_id_preview_lookup_rejects_multiple_preview_calls_in_one_event() {
    let rows = vec![AssistantRow {
        sequence: 11,
        data: r#"{"toolUses":[
            {"id": "one", "name": "mcp__cairn__change", "input": {"preview": true, "changes": []}},
            {"id": "two", "name": "mcp__cairn__change", "input": {"preview": true, "changes": []}}
        ]}"#
        .to_string(),
        status: None,
    }];
    let error = find_change_preview_in_assistant_rows("run", &rows, Some(11), None).unwrap_err();
    assert!(error.contains("multiple preview change calls"));
}

#[test]
fn rename_call_without_explicit_preview_is_preview_shaped() {
    let rows = vec![AssistantRow {
        sequence: 11,
        data: r#"{"toolUses":[{"id":"rename-1","name":"mcp__cairn__write","input":{"changes":[{
            "target":"file:a.rs","mode":"rename","payload":{"new_name":"X","old_name":"Y"}}]}}]}"#
            .to_string(),
        status: None,
    }];
    let found = find_change_preview_in_assistant_rows("run", &rows, Some(11), None)
        .unwrap()
        .unwrap();
    assert_eq!(found.tool_use_id, "rename-1");
}

#[test]
fn input_is_preview_shaped_classifies_inputs() {
    let shaped = |text: &str| input_is_preview_shaped(&parse_json(text).unwrap());
    assert!(shaped(r#"{"preview": true, "changes": []}"#));
    assert!(!shaped(r#"{"preview": false, "changes": [{"mode": "rename"}]}"#));
    assert!(shaped(r#"{"changes": [{"mode": "rename"}]}"#));
    assert!(!shaped(r#"{"changes": [{"mode": "patch"}]}"#));
    assert!(!shaped(r#"{"changes": []}"#));
}

#[test]
fn json_is_taken_over_level_by_level() {
    let json = parse_json(r#"{"b":[1,{"c":"d"},null,true,-2],"a":{}}"#).unwrap();
    let items = json.get("b").unwrap().as_array().unwrap();
    assert_eq!(items.len(), 5);
    assert!(matches!(&items[0], Json::Number(text) if text == "1"));
    assert_eq!(items[1].get("c").unwrap().as_str(), Some("d"));
    assert!(matches!(items[2], Json::Null));
    assert_eq!(items[3].as_bool(), Some(true));
    assert!(matches!(&items[4], Json::Number(text) if text == "-2"));
    assert!(json.get("a").unwrap().get("c").is_none());
    assert!(json.get("c").is_none());
    assert!(json.as_str().is_none());
}

#[test]
fn json_that_cannot_be_read_says_why() {
    assert_eq!(parse_json("").unwrap_err(), "EOF while parsing a value at line 1 column 0");
    assert_eq!(parse_json("[1,\"a\"]").unwrap().as_array().unwrap().len(), 2);
}

// ---------------------------------------------------------------- the order of a call

fn write_call(items: Vec<ChangeItem>, message: Option<&str>) -> WriteCall {
    WriteCall {
        items: items
            .into_iter()
            .map(|item| WriteItem {
                item,
                family: Ok(TargetFamily::File),
                blocking: false,
                workspace_config: false,
            })
            .collect(),
        atomic: false,
        commit_msg: message.map(str::to_string),
    }
}

/// Leads a call up to the lock of the store.
fn at_lock(call: WriteCall) -> AtLock {
    let worktree = match open_call(call, Some(false)) {
        Opening::Proceed(next) => next,
        other => panic!("unexpected {:?}", other),
    };
    let fence = match worktree.located(true) {
        Passage::Open(next) => next,
        other => panic!("unexpected {:?}", other),
    };
    let walk = fence.fenced(RunFence::NoRun, Vec::new());
    let config = walk.passed().unwrap();
    let project = match config.fenced(RunFence::NoRun, FenceDecision::Allow) {
        Passage::Open(next) => next,
        other => panic!("unexpected {:?}", other),
    };
    match project.fenced(None, RunFence::NoRun, FenceDecision::Allow) {
        Passage::Open(next) => next,
        other => panic!("unexpected {:?}", other),
    }
}

#[test]
fn logical_write_lock_precedes_head_resolution_and_publication() {
    let mut order = Vec::new();
    let call =
        write_call(vec![content_item("file:a.txt", ChangeMode::Create, "x\n")], Some("msg"));
    let lock = at_lock(call);
    assert!(lock.needs_lock());
    order.push("lock");
    let head = match lock.locked(Ok(())) {
        Passage::Open(next) => next,
        _ => panic!("the call ended early"),
    };
    assert!(head.needs_head());
    order.push("resolve");
    let snapshot = match head.resolved(Ok(())) {
        Passage::Open(next) => next,
        _ => panic!("the call ended early"),
    };
    let blocking = match snapshot.read(Ok(vec![TreeFile { path: "a.txt".to_string(), bytes: None }])) {
        Passage::Open(next) => next,
        _ => panic!("the call ended early"),
    };
    let admitted = match blocking.validated(Ok(false)) {
        Passage::Open(next) => next,
        _ => panic!("the call ended early"),
    };
    let mut applying = Applying::start(admitted);
    let (start, end) = match applying.next() {
        Work::Files { start, end } => (start, end),
        _ => panic!("the call ended early"),
    };
    order.push("prepare");
    let changes = vec![applying.change(start)];
    let known = vec![facts(&changes[0].item, None)];
    let mut stage = applying.stage();
    assert!(matches!(prepare_file_changes(&mut stage, &changes, &known, 0), Stretch::Complete));
    let done = apply_prepared_logical(&changes, &stage.prepared, &stage.summaries, &stage.in_flight);
    assert!(matches!(applying.files_done(start, end, Ok(done)), Settled::Goes { .. }));
    assert!(matches!(applying.next(), Work::Done));
    let closing = AtCommit::start(applying.finish().ok().unwrap());
    let plan = closing.plan("agent/x").unwrap();
    assert!(matches!(plan, CommitPlan::Publish(PublicationMode::Child { .. })));
    order.push("publish");
    let published = PublishOutcome::Published { head: "sha".to_string(), amend_note: None };
    let settled =
        finalize_file_commit(0, &changes[0].item, plan, Some((published, None))).unwrap();
    let push = match closing.committed(Some(Ok(settled))) {
        CommitPassage::Open(next) => next,
        _ => panic!("the call ended early"),
    };
    let pack = match push.pushed(Ok(())) {
        Step::Open(next) => next,
        _ => panic!("the call ended early"),
    };
    let promotion = pack.packed(Ok(())).acknowledged(Ok(())).checked(None);
    assert!(matches!(promotion.promotion(), Promotion::Nothing));
    let reply = match promotion.promoted(Ok(())) {
        Step::Open(next) => next.reply(None),
        _ => panic!("the call ended early"),
    };
    match reply {
        WriteReply::Report { report, .. } => {
            assert_eq!(report.applied.len(), 1);
            assert_eq!(report.commit.unwrap().sha.as_deref(), Some("sha"));
        }
        _ => panic!("the call ended early"),
    }
    assert_eq!(order, vec!["lock", "resolve", "prepare", "publish"]);
}

#[test]
fn a_write_outside_a_worktree_is_refused_before_the_lock() {
    let call = write_call(vec![content_item("file:a.txt", ChangeMode::Create, "x\n")], None);
    let worktree = match open_call(call, None) {
        Opening::Proceed(next) => next,
        other => panic!("unexpected {:?}", other),
    };
    match worktree.located(false) {
        Passage::Refused(report) => {
            assert_eq!(report.failures.len(), 1);
            assert!(report.applied.is_empty());
        }
        other => panic!("unexpected {:?}", other),
    }
    let lock = at_lock(write_call(vec![content_item("file:a", ChangeMode::Create, "")], None));
    assert!(matches!(lock.locked(Err("busy".into())), Passage::Refused(_)));
}

#[test]
fn a_preview_does_not_proceed() {
    let call = write_call(vec![content_item("file:a.txt", ChangeMode::Create, "x\n")], None);
    assert!(matches!(open_call(call, Some(true)), Opening::Preview(_)));
}

#[test]
fn invalid_payloads_are_reported_by_item() {
    let raw =
        parse_json(r#"{"changes":[{"target":"file:a","mode":"patch"},{"target":7}]}"#).unwrap();
    let report = validation_failure_report(&vec![None, Some(0), Some(1)], "bad".into(), &raw);
    assert_eq!(report.failures.len(), 1);
    assert_eq!(report.failures[0].error, "bad");
    assert_eq!(report.failures[0].target, "file:a");
    assert_eq!(report.failures[0].mode, "patch");
    assert_eq!(report.failures[0].kind, "validation");
    let report = validation_failure_report(&vec![Some(1)], "bad".into(), &raw);
    assert_eq!(report.failures[0].index, 1);
    assert_eq!(report.failures[0].target, "");
    let report = validation_failure_report(&vec![Some(9)], "bad".into(), &raw);
    assert_eq!((report.failures[0].index, report.failures[0].mode.as_str()), (9, ""));
    let report = validation_failure_report(&vec![None], "bad".into(), &raw);
    assert_eq!((report.failures[0].index, report.failures[0].target.as_str()), (0, ""));
    assert!(needs_home_resolution("cairn:~/todos"));
    assert!(!needs_home_resolution("file:a"));
    let mut change = content_item("cairn:~/todos", ChangeMode::Append, "x");
    take_home_resolution(&mut change, Ok("cairn://p/P/1".to_string()));
    assert_eq!(change.target, "cairn://p/P/1");
}

fn failure() -> ChangeFailure {
    ChangeFailure {
        index: 1,
        target: "file:src/lib.rs".to_string(),
        mode: "patch".to_string(),
        kind: "file".to_string(),
        error: "old_string not found".to_string(),
    }
}

#[test]
fn reports_succeed_in_part_only_with_both() {
    let report: ChangeReport = change_report(
        Vec::new(),
        vec![failure()],
        Some(CommitReport {
            status: "failed".to_string(),
            sha: None,
            pr_number: None,
            message: None,
        }),
        false,
    );
    assert!(!report.partial_success);
    assert_eq!(report.failures.len(), 1);
    assert_eq!(append_check_summary("a".into(), &None), "a");
    assert!(append_check_summary("a".into(), &Some("checks ok".into())).ends_with("checks ok"));
}

#[test]
fn commits_need_a_message_and_a_change() {
    let change = content_item("file:a", ChangeMode::Create, "x");
    let paths = strings(&["a"]);
    assert!(matches!(
        plan_commit(0, &change, &Vec::new(), Some("m"), &Vec::new(), "p"),
        CommitPlan::Nothing
    ));
    assert!(matches!(
        plan_commit(0, &change, &paths, None, &Vec::new(), "p"),
        CommitPlan::Refused(_)
    ));
    let child = || plan_commit(0, &change, &paths, Some("m"), &Vec::new(), "p");
    let finalize = |plan, published| finalize_file_commit(0, &change, plan, published);
    match finalize(child(), Some((PublishOutcome::Refused("no".into()), None))) {
        Err(failed) => {
            assert_eq!(
                failed.failure.error,
                "Logical-head publication failed: no; no project tree changes were published."
            );
            assert_eq!(failed.commit.unwrap().status, "failed");
        }
        other => panic!("unexpected {:?}", other),
    }
    match finalize(child(), Some((PublishOutcome::WorkerFailed("gone".into()), None))) {
        Err(failed) => {
            assert_eq!(failed.failure.error, "Logical-head publication worker failed: gone");
            assert!(failed.commit.is_none());
        }
        other => panic!("unexpected {:?}", other),
    }
    let published =
        || PublishOutcome::Published { head: "h".to_string(), amend_note: None };
    let deferred = Some(PublicationRequirement::DeferredUntilPublication);
    let done = finalize(child(), Some((published(), deferred))).unwrap();
    assert_eq!(done.report.unwrap().status, "committed");
    assert!(done.publish_pack);
    let amend = plan_commit(0, &change, &paths, Some("^"), &Vec::new(), "p");
    let done = finalize(amend, Some((published(), None))).unwrap();
    assert_eq!(done.report.unwrap().status, "amended");
    assert_eq!(done.publication_requirement, PublicationRequirement::RequiredForOpenPr);
    let nothing = plan_commit(0, &change, &Vec::new(), Some("m"), &Vec::new(), "p");
    assert!(finalize(nothing, None).unwrap().report.is_none());
    let refused = plan_commit(0, &change, &paths, None, &Vec::new(), "p");
    assert!(finalize(refused, None).is_err());
}

// ---------------------------------------------------------------- direct edits

fn seal_error(text: &str) -> SealError {
    SealError {
        text: text.to_string(),
        conflicted: text.contains("conflicted"),
        stale: text.contains("stale") || text.contains("is behind its branch tip"),
        lost: text.contains("seal captured no change"),
    }
}

const CONFLICTED: &str = "seal refused: the branch is conflicted";

/// Runs an edit to its end, and counts seals, advances and restores. Every seal
/// takes the next answer, the last one for all that follow.
fn run_finish(answers: Vec<Result<&str, &str>>) -> (Result<String, String>, usize, usize, usize, usize) {
    let mut state = FinishState::Sealing;
    let (mut seals, mut advances, mut rewrites, mut restores) = (0, 0, 0, 0);
    loop {
        let event = match state.action() {
            FinishAction::Seal => {
                let at = if seals < answers.len() { seals } else { answers.len() - 1 };
                seals += 1;
                FinishEvent::Sealed(match answers[at] {
                    Ok(sha) => Ok(sha.to_string()),
                    Err(text) => Err(seal_error(text)),
                })
            }
            FinishAction::Advance => {
                advances += 1;
                FinishEvent::Advanced(Ok(()))
            }
            FinishAction::Rewrite => {
                rewrites += 1;
                FinishEvent::Rewritten(Ok(()))
            }
            FinishAction::Restore => {
                restores += 1;
                FinishEvent::Restored(Ok(()))
            }
            FinishAction::Stop => match state {
                FinishState::Finished(result) => {
                    return (result, seals, advances, rewrites, restores)
                }
                other => panic!("unexpected {:?}", other),
            },
        };
        state = finish_commit(state, event);
    }
}

#[test]
fn finish_commit_returns_sha_on_success() {
    let (result, _, advances, _, restores) = run_finish(vec![Ok("abc123")]);
    assert_eq!(result.unwrap(), "abc123");
    assert_eq!(restores, 0);
    assert_eq!(advances, 0);
}

#[test]
fn finish_commit_recovers_stale_then_discards_when_unrecoverable() {
    let (result, seals, advances, rewrites, restores) =
        run_finish(vec![Err("working copy is stale")]);
    assert_eq!((advances, seals, rewrites, restores), (1, 2, 1, 1));
    let error = result.unwrap_err();
    assert!(error.contains("try again"), "{error}");
}

#[test]
fn seal_failure_message_distinguishes_divergence_from_stale() {
    let diverged = seal_failure_message(&seal_error(CONFLICTED), &Ok(()));
    assert!(diverged.contains("conflicted"), "{diverged}");
    assert!(!diverged.contains("try again"), "{diverged}");

    let stale_ff = seal_failure_message(
        &seal_error("seal refused: workspace `agent/x` is behind its branch tip"),
        &Ok(()),
    );
    assert!(stale_ff.contains("try again"), "{stale_ff}");

    let stale = seal_failure_message(&seal_error("working copy is stale"), &Ok(()));
    assert!(stale.contains("try again"), "{stale}");

    let restore_failed =
        seal_failure_message(&seal_error("working copy is stale"), &Err("boom".to_string()));
    assert!(restore_failed.contains("boom"), "{restore_failed}");
}

#[test]
fn finish_commit_recovers_stale_seal_and_returns_retry_sha() {
    let (result, seals, advances, rewrites, restores) =
        run_finish(vec![Err("working copy is stale"), Ok("recovered")]);
    assert_eq!(result.unwrap(), "recovered");
    assert_eq!((advances, seals, rewrites, restores), (1, 2, 1, 0));
}

#[test]
fn finish_commit_recovers_lost_seal_like_stale() {
    let lost = "seal captured no change (the working copy was reset under a concurrent store advance)";
    let (result, _, advances, _, restores) = run_finish(vec![Err(lost), Ok("recovered")]);
    assert_eq!(result.unwrap(), "recovered");
    assert_eq!(advances, 1);
    assert_eq!(restores, 0);
}

#[test]
fn finish_commit_conflicted_branch_refuses_without_stale_retry() {
    let (result, seals, advances, _, restores) = run_finish(vec![Err(CONFLICTED)]);
    assert_eq!((advances, seals, restores), (0, 1, 1));
    let error = result.unwrap_err();
    assert!(error.contains("mid-rebase or conflicted"), "{error}");
}

#[test]
fn finish_commit_reports_generic_seal_failure() {
    let (result, _, advances, _, restores) = run_finish(vec![Err("disk full")]);
    assert_eq!(advances, 0);
    assert_eq!(restores, 1);
    let error = result.unwrap_err();
    assert!(error.contains("disk full"), "{error}");
}

#[test]
fn a_worktree_of_another_lineage_is_restored_too() {
    let mismatch = "workspace lineage mismatch: the branch belongs elsewhere";
    let (result, seals, advances, _, restores) = run_finish(vec![Err(mismatch)]);
    assert_eq!((seals, advances, restores), (1, 0, 1));
    assert_eq!(
        result.unwrap_err(),
        format!("Couldn't save your edit: {mismatch}. Nothing was changed.")
    );
}

fn ground() -> EditGround {
    EditGround {
        is_worktree: true,
        project: Some(worktree_project(
            "j".to_string(),
            "p".to_string(),
            "/repo".to_string(),
            Some("main".to_string()),
            Some("agent/x".to_string()),
        )),
        jobs: Ok(strings(&["j"])),
        active_turn: false,
        windows: false,
    }
}

#[test]
fn non_jj_worktree_is_rejected() {
    let mut bare = ground();
    bare.is_worktree = false;
    assert_eq!(
        admit_user_file_edit(&bare, "a.txt", "msg").unwrap_err(),
        NON_JJ_WORKTREE_ERROR
    );
    assert_eq!(admit_user_file_edit(&ground(), "a.txt", "msg").unwrap(), "a.txt");
}

#[test]
fn empty_commit_message_is_rejected() {
    assert!(admit_user_file_edit(&ground(), "a.txt", "  ").is_err());
}

#[test]
fn active_turn_blocks_the_save() {
    let mut busy = ground();
    busy.active_turn = true;
    assert!(admit_user_file_edit(&busy, "a.txt", "msg").is_err());
}

#[test]
fn paths_that_lead_upwards_are_refused() {
    let refusal = "Invalid path: path traversal not allowed";
    for windows in [false, true] {
        for path in ["a/b", "a\\b", "ab:c/..d", "a..b/c", "", ":a", "1:x"] {
            assert_eq!(validate_relative(path, windows).unwrap(), path);
        }
        for path in ["/a", "../a", "a/../b", "a/..", "a\\..\\b", "\\x", "\\\\h\\s"] {
            assert_eq!(validate_relative(path, windows).unwrap_err(), refusal);
        }
    }
}

#[test]
fn a_drive_is_refused_only_where_there_are_drives() {
    for path in ["c:notes", "a:b", "Z:", "C:\\x", "c:/x"] {
        assert_eq!(validate_relative(path, false).unwrap(), path);
        assert_eq!(
            validate_relative(path, true).unwrap_err(),
            "Invalid path: path traversal not allowed"
        );
    }
    let mut place = ground();
    assert_eq!(admit_user_file_edit(&place, "c:notes", "msg").unwrap(), "c:notes");
    place.windows = true;
    assert!(admit_user_file_edit(&place, "c:notes", "msg").is_err());
}

#[test]
fn a_saved_edit_tells_the_agents_what_changed() {
    let saved = commit_user_file_edit("a.rs", "a\n", "b\n", Ok("sha".into()), Some(Ok(()))).unwrap();
    assert_eq!(saved.head, "sha");
    assert_eq!((saved.additions, saved.deletions), (1, 1));
    assert!(saved.note.contains("+b"));
    assert!(commit_user_file_edit("a", "", "", Err(PublishFault::Refused("no".into())), None).is_err());
    assert!(edit_notification("a.rs", "+x").contains("a.rs"));
    assert_eq!(text_at_head("a.rs", Some(b"x".to_vec())).unwrap(), "x");
    assert!(text_at_head("a.rs", Some(vec![0xff])).is_err());
    let project: WorktreeProject =
        worktree_project("j".into(), "p".into(), "r".into(), Some(String::new()), None);
    assert_eq!((project.default_branch, project.branch.as_str()), (None, "main"));
}

// ---------------------------------------------------------------- replays

const HOME_URI: &str = "cairn://p/CAIRN/3264/1/builder";

/// The targets of a batch, and everything else that it says.
fn split(payload: &str) -> (Vec<String>, String) {
    let mut value: serde_json::Value = serde_json::from_str(payload).unwrap();
    let mut targets = Vec::new();
    for item in value["changes"].as_array_mut().unwrap() {
        let object = item.as_object_mut().unwrap();
        targets.push(object.remove("target").unwrap().as_str().unwrap().to_string());
    }
    (targets, value.to_string())
}

fn identity(payload: &str) -> ChangeIdentity {
    let (targets, rest) = split(payload);
    change_identity(&targets, &rest, HOME_URI)
}

fn same(a: &str, b: &str) -> bool {
    is_this_writes_call("write", &Some(identity(a)), &identity(b))
}

const FILE_EDIT: &str = r#"{"target":"file:src/lib.rs","mode":"patch","payload":{"old_string":"anchor","new_string":"inserted\nanchor"}}"#;

#[test]
fn a_resolved_resource_target_does_not_change_a_batchs_identity() {
    let batch = |target: &str| {
        format!(
            r#"{{"changes":[{FILE_EDIT},{{"target":"{target}","mode":"patch","payload":{{"updates":[]}}}}],"commit_msg":"insert before the anchor"}}"#
        )
    };
    assert!(same(&batch("cairn:~/todos"), &batch("cairn://p/CAIRN/3264/1/builder/todos")));
}

#[test]
fn batches_that_edit_differently_have_different_identities() {
    let base = format!(r#"{{"changes":[{FILE_EDIT}],"commit_msg":"one"}}"#);
    let other_file = base.replace("file:src/lib.rs", "file:src/other.rs");
    let other_message = base.replace("\"one\"", "\"two\"");
    assert!(same(&base, &base));
    assert!(!same(&base, &other_file));
    assert!(!same(&base, &other_message));
}

#[test]
fn resource_only_batches_have_distinct_identities() {
    let batch = |content: &str| {
        format!(
            r#"{{"changes":[{{"target":"cairn://p/CAIRN/3264","mode":"append","payload":{{"content":"{content}"}}}}]}}"#
        )
    };
    assert!(same(&batch("a comment"), &batch("a comment")));
    assert!(!same(&batch("a comment"), &batch("a different comment")));
}

#[test]
fn only_a_matching_write_invocation_is_this_deliverys_call() {
    let payload = format!(r#"{{"changes":[{FILE_EDIT}],"commit_msg":"one"}}"#);
    let other = payload.replace("\"one\"", "\"two\"");
    let expected = identity(&payload);
    let is_call =
        |name: &str, text: &str| is_this_writes_call(name, &Some(identity(text)), &expected);
    assert!(is_call("write", &payload));
    assert!(is_call("mcp__cairn__write", &payload));
    assert!(!is_call("run", &payload));
    assert!(!is_call("write", &other));
    assert!(!is_this_writes_call("write", &None, &expected));
}

#[test]
fn home_targets_are_spelled_out() {
    assert_eq!(canonicalize_target("cairn:~", HOME_URI), HOME_URI);
    assert_eq!(canonicalize_target("cairn:~/x", "cairn://h//"), "cairn://h/x");
    assert_eq!(canonicalize_target("file:a", HOME_URI), "file:a");
}

#[test]
fn a_replayed_report_is_marked_and_otherwise_unchanged() {
    let recorded = r#"{"applied":[{"index":0,"target":"file:src/lib.rs","mode":"patch","kind":"file","summary":"~file:src/lib.rs"}],"commit":{"status":"committed","sha":"abc123","pr_number":null,"message":null}}"#;
    let marked: serde_json::Value = serde_json::from_str(&mark_as_replay(recorded)).unwrap();
    assert!(marked["replayed"].is_string());
    assert_eq!(marked["commit"]["sha"], "abc123");
    assert_eq!(marked["applied"].as_array().unwrap().len(), 1);
}

#[test]
fn a_marked_report_is_marked_once() {
    let once = mark_as_replay(r#"{"applied":[-1,18446744073709551615],"ok":true}"#);
    assert_eq!(mark_as_replay(&once), once);
    let marked: serde_json::Value = serde_json::from_str(&once).unwrap();
    assert_eq!(marked.as_object().unwrap().len(), 3);
    assert_eq!(marked["applied"][0], -1);
    assert_eq!(marked["applied"][1], 18446744073709551615u64);
    assert_eq!(marked["ok"], true);
}

#[test]
fn setting_a_member_leaves_the_others() {
    let set = set_member(r#"{"a":[1],"b":"x"}"#, "b", "y").unwrap();
    let object: serde_json::Value = serde_json::from_str(&set).unwrap();
    assert_eq!(object["a"][0], 1);
    assert_eq!(object["b"], "y");
    assert_eq!(set_member(&set, "b", "y").unwrap(), set);
    assert_eq!(set_member("[]", "b", "y"), None);
}

#[test]
fn an_unmarkable_report_is_returned_verbatim() {
    assert_eq!(mark_as_replay("not json"), "not json");
    assert_eq!(mark_as_replay("[1,2,3]"), "[1,2,3]");
}

#[test]
fn only_the_first_record_is_claimed() {
    assert!(matches!(ledger_claim(Ok(1)), LedgerClaim::Claimed));
    assert!(matches!(ledger_claim(Ok(0)), LedgerClaim::NotClaimed));
    assert!(matches!(ledger_claim(Err("db".into())), LedgerClaim::NotClaimed));
    assert!(matches!(
        claim_resource_call(LedgerClaim::Claimed, None, false),
        ClaimStep::Decided(ResourceClaim::Claimed)
    ));
    match claim_resource_call(LedgerClaim::NotClaimed, Some("report".into()), false) {
        ClaimStep::Decided(ResourceClaim::Replayed(report)) => assert_eq!(report, "report"),
        other => panic!("unexpected {:?}", other),
    }
    let pending = "__cairn_write_resource_pending__".to_string();
    assert!(matches!(
        claim_resource_call(LedgerClaim::NotClaimed, Some(pending.clone()), false),
        ClaimStep::Wait
    ));
    assert!(matches!(
        claim_resource_call(LedgerClaim::NotClaimed, Some(pending), true),
        ClaimStep::Decided(ResourceClaim::Stalled)
    ));
    assert!(matches!(
        claim_resource_call(LedgerClaim::NotClaimed, None, false),
        ClaimStep::Decided(ResourceClaim::Unguarded)
    ));
}
