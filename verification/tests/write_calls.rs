use cairn_core::handlers::write::batch::{
    apply_prepared_logical, prepare_file_changes, IndexedChange, Stretch,
};
use cairn_core::handlers::write::call::{
    open_call, Admitted, AtFileFence, AtLock, AtSnapshot, Crossing, FenceDecision, FenceWalk,
    Opening, Passage, RunFence, TargetFamily, TreeFile, WriteCall, WriteItem, SUSPENDED_TEXT,
};
use cairn_core::handlers::write::closing::{
    AtCommit, AtPush, AtReply, CommitPassage, Promotion, Step, WriteReply,
};
use cairn_core::handlers::write::commit::{
    finalize_file_commit, PublicationRequirement, PublishOutcome,
};
use cairn_core::handlers::write::file_mutations::{
    DiskFile, OldString, ResolvedPath, TargetFacts,
};
use cairn_core::handlers::write::preview_run::{HashedEdit, PreviewRun, PreviewStep, TargetHash};
use cairn_core::handlers::write::progress::{Applying, Promoted, Settled, Work};
use cairn_core::handlers::write::rename::{PlacedPath, RenameEdit};
use cairn_core::handlers::write::types::{
    AppliedChange, ChangeFailure, ChangeItem, ChangeMode, ChangeReport, FileChangePayload,
    IndexedFailure,
};

fn change(target: &str, mode: ChangeMode, content: Option<&str>) -> ChangeItem {
    ChangeItem {
        target: target.to_string(),
        mode,
        payload: Ok(FileChangePayload {
            content: content.map(str::to_string),
            ..FileChangePayload::default()
        }),
    }
}

fn file(target: &str) -> WriteItem {
    WriteItem {
        item: change(target, ChangeMode::Create, Some("x\n")),
        family: Ok(TargetFamily::File),
        blocking: false,
        workspace_config: false,
    }
}

fn resource(target: &str) -> WriteItem {
    WriteItem {
        item: change(target, ChangeMode::Append, Some("x")),
        family: Ok(TargetFamily::Resource),
        blocking: false,
        workspace_config: false,
    }
}

fn call(items: Vec<WriteItem>, atomic: bool) -> WriteCall {
    WriteCall { items, atomic, commit_msg: Some("message".to_string()) }
}

fn open<T: std::fmt::Debug>(passage: Passage<T>) -> T {
    match passage {
        Passage::Open(next) => next,
        other => panic!("unexpected {:?}", other),
    }
}

fn refused<T: std::fmt::Debug>(passage: Passage<T>) -> ChangeReport {
    match passage {
        Passage::Refused(report) => report,
        other => panic!("unexpected {:?}", other),
    }
}

fn at_fence(call: WriteCall) -> AtFileFence {
    match open_call(call, Some(false)) {
        Opening::Proceed(worktree) => open(worktree.located(true)),
        other => panic!("unexpected {:?}", other),
    }
}

fn behind_fence(walk: FenceWalk) -> AtLock {
    let config = walk.passed().unwrap();
    let project = open(config.fenced(RunFence::NoRun, FenceDecision::Allow));
    open(project.fenced(None, RunFence::NoRun, FenceDecision::Allow))
}

fn at_lock(call: WriteCall) -> AtLock {
    behind_fence(at_fence(call).fenced(RunFence::NoRun, Vec::new()))
}

fn at_snapshot(call: WriteCall) -> AtSnapshot {
    match at_lock(call).locked(Ok(())) {
        Passage::Open(head) => match head.resolved(Ok(())) {
            Passage::Open(next) => next,
            _ => panic!("the head was refused"),
        },
        _ => panic!("the lock was refused"),
    }
}

fn admitted(call: WriteCall, group: bool) -> Admitted {
    let blocking = match at_snapshot(call).read(Ok(Vec::new())) {
        Passage::Open(next) => next,
        _ => panic!("the snapshot was refused"),
    };
    match blocking.validated(Ok(group)) {
        Passage::Open(next) => next,
        _ => panic!("the group was refused"),
    }
}

fn failed(index: usize, error: &str) -> IndexedFailure {
    IndexedFailure {
        failure: ChangeFailure {
            index,
            target: "cairn://p/P/1".to_string(),
            mode: "append".to_string(),
            kind: "resource".to_string(),
            error: error.to_string(),
        },
        commit: None,
    }
}

fn applied(index: usize, summary: &str) -> AppliedChange {
    AppliedChange {
        index,
        target: "cairn://p/P/1".to_string(),
        mode: "append".to_string(),
        kind: "resource".to_string(),
        summary: summary.to_string(),
        data: None,
    }
}

fn facts(target: &str) -> TargetFacts {
    TargetFacts {
        normalized: Ok(target.to_string()),
        resolved: Ok(ResolvedPath {
            full_path: format!("/w/{target}"),
            outside_worktree: false,
        }),
        disk: DiskFile::Missing,
        suggestion: String::new(),
        old_string: OldString::Literal(String::new()),
    }
}

/// Applies the files at `start` to `end`.
fn apply_files(applying: &mut Applying, start: usize, end: usize) {
    for (from, to) in applying.batches(start, end) {
        let changes: Vec<IndexedChange> = (from..to).map(|index| applying.change(index)).collect();
        let known: Vec<TargetFacts> =
            changes.iter().map(|change| facts(&change.item.target)).collect();
        let mut stage = applying.stage();
        assert!(matches!(
            prepare_file_changes(&mut stage, &changes, &known, 0),
            Stretch::Complete
        ));
        let done =
            apply_prepared_logical(&changes, &stage.prepared, &stage.summaries, &stage.in_flight);
        assert!(matches!(applying.files_done(from, to, Ok(done)), Settled::Goes { .. }));
    }
}

/// A call with one file, behind its commit.
fn at_push(managed: Option<PublicationRequirement>) -> AtPush {
    let mut applying = Applying::start(admitted(call(vec![file("file:a.txt")], false), false));
    match applying.next() {
        Work::Files { start, end } => apply_files(&mut applying, start, end),
        other => panic!("unexpected {:?}", other),
    }
    assert!(matches!(applying.next(), Work::Done));
    let commit = AtCommit::start(applying.finish().ok().unwrap());
    let first = commit.change().unwrap();
    assert_eq!(first.index, 0);
    assert_eq!(commit.mutations().len(), 1);
    let plan = commit.plan("[A] ").unwrap();
    let published = PublishOutcome::Published { head: "sha".to_string(), amend_note: None };
    let settled =
        finalize_file_commit(first.index, &first.item, plan, Some((published, managed)));
    match commit.committed(Some(settled)) {
        CommitPassage::Open(next) => next,
        CommitPassage::Ended { .. } => panic!("the call ended early"),
    }
}

// ---------------------------------------------------------------- fences

#[test]
fn only_files_meet_the_fence() {
    let fence = at_fence(call(vec![resource("cairn://p/P/1")], false));
    assert!(!fence.needs_fence());
    let walk = fence.fenced(RunFence::Deny, vec![Crossing::Outside]);
    assert_eq!(walk.next(), None);
    assert!(at_fence(call(vec![file("file:a.txt")], false)).needs_fence());
}

#[test]
fn each_crossing_is_decided_before_anything_is_applied() {
    let items = || vec![file("file:a.txt"), file("file:/etc/b"), file("file:/tmp/c"), file("file:/d")];
    let crossings =
        || vec![Crossing::Inside, Crossing::Outside, Crossing::Writable, Crossing::Outside];
    let walk = || at_fence(call(items(), false)).fenced(RunFence::Ask, crossings());
    assert_eq!(walk().next(), Some(1));
    assert!(walk().passed().is_err());
    let second = open(walk().decided(FenceDecision::Allow));
    assert_eq!(second.next(), Some(3));
    let report = refused(second.decided(FenceDecision::Deny("no".to_string())));
    assert_eq!(report.failures[0].index, 3);
    assert_eq!(report.failures[0].target, "file:/d");
    assert_eq!(report.failures[0].error, "no");
    match walk().decided(FenceDecision::Suspended) {
        Passage::Suspended(text) => assert_eq!(text, SUSPENDED_TEXT),
        other => panic!("unexpected {:?}", other),
    }
    let walk = open(open(walk().decided(FenceDecision::Allow)).decided(FenceDecision::Allow));
    assert_eq!(walk.next(), None);
    let snapshot = match behind_fence(walk).locked(Ok(())) {
        Passage::Open(head) => match head.resolved(Ok(())) {
            Passage::Open(next) => next,
            _ => panic!("the head was refused"),
        },
        _ => panic!("the lock was refused"),
    };
    assert!(snapshot.may_escape());
}

#[test]
fn a_fence_that_allows_is_not_raised() {
    let fenced = |fence| {
        at_fence(call(vec![file("file:/etc/b")], false)).fenced(fence, vec![Crossing::Outside])
    };
    assert_eq!(fenced(RunFence::Allow).next(), None);
    assert_eq!(fenced(RunFence::NoRun).next(), None);
    assert_eq!(fenced(RunFence::Deny).next(), Some(0));
}

#[test]
fn configuration_and_projects_need_a_run() {
    let config = || {
        let mut item = resource("cairn://settings");
        item.workspace_config = true;
        at_fence(call(vec![resource("cairn://p/P/1"), item], false))
            .fenced(RunFence::NoRun, Vec::new())
            .passed()
            .unwrap()
    };
    assert_eq!(config().config_change(), Some(1));
    let report = refused(config().fenced(RunFence::NoRun, FenceDecision::Allow));
    assert_eq!(report.failures[0].index, 1);
    assert!(report.failures[0].error.starts_with("Denied: a workspace-scope cairn://mcp write"));
    let report =
        refused(config().fenced(RunFence::Ask, FenceDecision::Deny("not now".to_string())));
    assert_eq!(report.failures[0].error, "not now");
    let project = open(config().fenced(RunFence::Allow, FenceDecision::Allow));
    let report = refused(project.fenced(Some(0), RunFence::NoRun, FenceDecision::Allow));
    assert_eq!(report.failures[0].index, 0);
    assert!(report.failures[0].error.starts_with("Denied: creating a project"));
}

// ---------------------------------------------------------------- lock, head and content

#[test]
fn a_call_on_resources_takes_no_lock() {
    let lock = at_lock(call(vec![resource("cairn://p/P/1")], false));
    assert!(!lock.needs_lock());
}

#[test]
fn failures_ahead_of_the_changes_are_charged_to_the_first() {
    let items = || vec![file("file:a.txt"), file("file:b.txt")];
    let report = match at_lock(call(items(), true)).locked(Err("busy".to_string())) {
        Passage::Refused(report) => report,
        _ => panic!("the lock was not refused"),
    };
    assert_eq!(report.failures[0].error, "busy");
    assert_eq!(report.failures[0].target, "file:a.txt");
    assert_eq!(report.failures[0].mode, "create");
    let head = match at_lock(call(items(), false)).locked(Ok(())) {
        Passage::Open(next) => next,
        _ => panic!("the lock was refused"),
    };
    let report = match head.resolved(Err("gone".to_string())) {
        Passage::Refused(report) => report,
        _ => panic!("the head was not refused"),
    };
    assert_eq!(
        report.failures[0].error,
        "Resolve authoritative logical head for write: gone"
    );
    let report = match at_snapshot(call(items(), false)).read(Err("unread".to_string())) {
        Passage::Refused(report) => report,
        _ => panic!("the snapshot was not refused"),
    };
    assert_eq!(
        report.failures[0].error,
        "Read authoritative logical head for write: unread"
    );
    let bytes = TreeFile { path: "a.bin".to_string(), bytes: Some(vec![0xff]) };
    let report = match at_snapshot(call(items(), false)).read(Ok(vec![bytes])) {
        Passage::Refused(report) => report,
        _ => panic!("the snapshot was not refused"),
    };
    assert_eq!(report.failures[0].error, "File `a.bin` is not valid UTF-8");
    assert_eq!(report.failures[0].target, "file:a.bin");
    assert_eq!(report.failures[0].mode, "write");
}

#[test]
fn a_rename_reads_the_whole_tree() {
    let mut rename = file("file:a.rs");
    rename.item.mode = ChangeMode::Rename;
    assert!(at_snapshot(call(vec![rename], false)).needs_whole_tree());
    assert!(!at_snapshot(call(vec![file("file:a.rs")], false)).needs_whole_tree());
}

#[test]
fn a_group_that_does_not_hold_together_refuses_the_call() {
    let mut task = resource("cairn:~/tasks");
    task.blocking = true;
    let blocking = match at_snapshot(call(vec![resource("cairn://p/P/1"), task], false))
        .read(Ok(Vec::new()))
    {
        Passage::Open(next) => next,
        _ => panic!("the snapshot was refused"),
    };
    assert_eq!(blocking.group(), vec![1]);
    let report = match blocking.validated(Err("mixed".to_string())) {
        Passage::Refused(report) => report,
        _ => panic!("the group was not refused"),
    };
    assert_eq!(report.failures[0].index, 1);
    assert_eq!(report.failures[0].kind, "resource");
    assert_eq!(report.failures[0].error, "mixed");
}

// ---------------------------------------------------------------- applying

#[test]
fn a_failure_ends_an_atomic_call_and_no_other() {
    let items = || vec![resource("cairn://p/P/1"), resource("cairn://p/P/2")];
    let start = |atomic| {
        let mut applying = Applying::start(admitted(call(items(), atomic), false));
        assert!(matches!(applying.next(), Work::Resource(0)));
        applying
    };
    let mut atomic = start(true);
    match atomic.resource_done(Err(failed(0, "no"))) {
        Settled::Ends { report, refresh } => {
            assert_eq!(report.failures[0].error, "no");
            assert!(report.transactional);
            assert!(!refresh);
        }
        other => panic!("unexpected {:?}", other),
    }
    let mut loose = start(false);
    assert!(matches!(
        loose.resource_done(Err(failed(0, "no"))),
        Settled::Goes { refresh: false }
    ));
    assert!(matches!(loose.next(), Work::Resource(1)));
    assert!(matches!(
        loose.resource_done(Ok((applied(1, "added"), None))),
        Settled::Goes { refresh: false }
    ));
    assert!(matches!(loose.next(), Work::Done));
    let commit = AtCommit::start(loose.finish().ok().unwrap());
    assert!(commit.change().is_none());
    assert!(commit.plan("").is_none());
}

#[test]
fn loose_files_are_applied_one_by_one() {
    let items = || vec![file("file:a.txt"), file("file:b.txt"), resource("cairn://p/P/1")];
    let mut loose = Applying::start(admitted(call(items(), false), false));
    assert!(matches!(loose.next(), Work::Files { start: 0, end: 2 }));
    assert_eq!(loose.batches(0, 2), vec![(0, 1), (1, 2)]);
    assert!(!loose.may_escape());
    let mut atomic = Applying::start(admitted(call(items(), true), false));
    assert!(matches!(atomic.next(), Work::Files { start: 0, end: 2 }));
    assert_eq!(atomic.batches(0, 2), vec![(0, 2)]);
}

fn place(relative: &str) -> PlacedPath {
    PlacedPath { full: format!("/w/{relative}"), relative: relative.to_string() }
}

#[test]
fn a_rename_is_reported_file_by_file() {
    let mut rename = file("file:a.rs");
    rename.item.mode = ChangeMode::Rename;
    let mut applying = Applying::start(admitted(call(vec![rename], false), false));
    assert!(matches!(applying.next(), Work::Rename(0)));
    let plan = vec![
        RenameEdit {
            source: place("a.rs"),
            new_content: Some("new\n".to_string()),
            move_to: None,
            site_count: 2,
        },
        RenameEdit {
            source: place("old.rs"),
            new_content: Some("moved\n".to_string()),
            move_to: Some(place("new.rs")),
            site_count: 1,
        },
    ];
    assert!(matches!(applying.rename_planned(0, Ok(plan)), Settled::Goes { .. }));
    let mut files = applying.files();
    files.sort();
    let names: Vec<&str> = files.iter().map(|(name, _)| name.as_str()).collect();
    assert_eq!(names, vec!["file:a.rs", "file:new.rs"]);
    assert!(matches!(applying.next(), Work::Done));
    let commit = AtCommit::start(applying.finish().ok().unwrap());
    assert_eq!(commit.change().unwrap().index, 0);
    assert_eq!(commit.mutations().len(), 3);
    let reply = reply_of(commit);
    let summaries: Vec<&str> =
        reply.applied.iter().map(|change| change.summary.as_str()).collect();
    assert_eq!(
        summaries,
        vec!["~file:a.rs (2 sites)", "R file:old.rs\u{2192}file:new.rs (1 sites)"]
    );
}

/// The report of a call without a commit.
fn reply_of(commit: AtCommit) -> ChangeReport {
    let push = match commit.committed(None) {
        CommitPassage::Open(next) => next,
        CommitPassage::Ended { .. } => panic!("the call ended early"),
    };
    match finish(push, Ok(()), None).reply(None) {
        WriteReply::Report { report, .. } => report,
        other => panic!("unexpected {:?}", other),
    }
}

fn finish(push: AtPush, pack: Result<(), String>, summary: Option<String>) -> AtReply {
    let at_pack = match push.pushed(Ok(())) {
        Step::Open(next) => next,
        Step::Ended(report) => panic!("unexpected {:?}", report),
    };
    let promotion = at_pack.packed(pack).acknowledged(Ok(())).checked(summary);
    match promotion.promoted(Ok(())) {
        Step::Open(next) => next,
        Step::Ended(report) => panic!("unexpected {:?}", report),
    }
}

#[test]
fn a_bad_target_and_a_missing_plan_are_charged_to_their_change() {
    let mut bad = file("nonsense");
    bad.family = Err("no such family".to_string());
    let mut applying = Applying::start(admitted(call(vec![bad], false), false));
    assert!(matches!(applying.next(), Work::BadTarget(0)));
    assert!(matches!(applying.bad_target(0), Settled::Goes { .. }));
    assert!(matches!(applying.next(), Work::Done));
    let report = reply_of(AtCommit::start(applying.finish().ok().unwrap()));
    assert_eq!(report.failures[0].error, "no such family");

    let mut rename = file("file:a.rs");
    rename.item.mode = ChangeMode::Rename;
    let mut applying = Applying::start(admitted(call(vec![rename], true), false));
    assert!(matches!(applying.next(), Work::Rename(0)));
    match applying.rename_planned(0, Err("no symbol".to_string())) {
        Settled::Ends { report, refresh } => {
            assert_eq!(report.failures[0].error, "no symbol");
            assert!(!refresh);
        }
        other => panic!("unexpected {:?}", other),
    }
}

// ---------------------------------------------------------------- closing

#[test]
fn a_commit_that_must_be_pushed_and_is_not_ends_the_call() {
    let push = at_push(None);
    assert!(push.needs_push());
    assert_eq!(push.records().unwrap().len(), 1);
    match push.pushed(Err("offline".to_string())) {
        Step::Ended(report) => {
            let commit = report.commit.unwrap();
            assert_eq!(commit.status, "sealed locally; unpublished");
            assert_eq!(commit.sha.as_deref(), Some("sha"));
            assert_eq!(report.failures[0].kind, "publication");
            assert_eq!(
                report.failures[0].error,
                "Commit sha was sealed locally but remains unpublished because the required open-PR origin push failed: offline. Retry a file-touching write to publish the current bookmark."
            );
        }
        Step::Open(_) => panic!("the push was not needed"),
    }
}

#[test]
fn a_pack_that_is_not_published_is_a_warning() {
    let push = at_push(Some(PublicationRequirement::DeferredUntilPublication));
    assert!(!push.needs_push());
    let reply = finish(push, Err("cloud".to_string()), Some("checks ok".to_string()));
    assert!(!reply.needs_group());
    match reply.reply(None) {
        WriteReply::Report { report, behind } => {
            assert_eq!(
                report.commit.unwrap().message.as_deref(),
                Some("sealed commit cloud publication failed: cloud")
            );
            assert_eq!(behind, "\n\nchecks ok");
        }
        other => panic!("unexpected {:?}", other),
    }
}

#[test]
fn an_unacknowledged_advance_is_a_failure() {
    let pack = match at_push(Some(PublicationRequirement::DeferredUntilPublication)).pushed(Ok(())) {
        Step::Open(next) => next,
        Step::Ended(report) => panic!("unexpected {:?}", report),
    };
    assert_eq!(pack.pack().as_deref(), Some("sha"));
    let checks = pack.packed(Ok(())).acknowledged(Err("moved".to_string()));
    assert!(checks.needs_checks());
    let reply = match checks.checked(None).promoted(Ok(())) {
        Step::Open(next) => next.reply(None),
        Step::Ended(report) => panic!("unexpected {:?}", report),
    };
    match reply {
        WriteReply::Report { report, .. } => {
            assert_eq!(
                report.failures[0].error,
                "Managed branch advancement was committed, but logical bookmark validation failed: moved"
            );
            assert!(report.partial_success);
        }
        other => panic!("unexpected {:?}", other),
    }
}

#[test]
fn a_promotion_without_a_commit_is_taken_back() {
    let start = |atomic| {
        let items = vec![resource("cairn://p/P/1")];
        let mut applying = Applying::start(admitted(call(items, atomic), false));
        assert!(matches!(applying.next(), Work::Resource(0)));
        let memory = Promoted {
            index: 0,
            target: "cairn://p/P/1".to_string(),
            mode: "append".to_string(),
            memory_id: "m1".to_string(),
            memory_uri: "cairn://memories/m1".to_string(),
        };
        applying.resource_done(Ok((applied(0, "promoted"), Some(memory))));
        assert!(matches!(applying.next(), Work::Done));
        let push = match AtCommit::start(applying.finish().ok().unwrap()).committed(None) {
            CommitPassage::Open(next) => next,
            CommitPassage::Ended { .. } => panic!("the call ended early"),
        };
        assert!(push.records().is_none());
        let pack = match push.pushed(Ok(())) {
            Step::Open(next) => next,
            Step::Ended(report) => panic!("unexpected {:?}", report),
        };
        let promotion = pack.packed(Ok(())).acknowledged(Ok(())).checked(None);
        match promotion.promotion() {
            Promotion::RollBack { ids } => assert_eq!(ids, vec!["m1".to_string()]),
            _ => panic!("the promotion was kept"),
        }
        promotion.promoted(Ok(()))
    };
    let error = "promote_memory requires a committed file change in the same write";
    match start(true) {
        Step::Ended(report) => {
            assert_eq!(report.failures[0].error, error);
            assert!(report.applied.is_empty());
        }
        Step::Open(_) => panic!("the atomic call went on"),
    }
    match start(false) {
        Step::Open(reply) => match reply.reply(None) {
            WriteReply::Report { report, .. } => assert_eq!(report.failures[0].error, error),
            other => panic!("unexpected {:?}", other),
        },
        Step::Ended(report) => panic!("unexpected {:?}", report),
    }
}

#[test]
fn what_a_group_brings_is_the_answer() {
    let run = |outcome: Result<(AppliedChange, Option<Promoted>), IndexedFailure>| {
        let mut task = resource("cairn:~/tasks");
        task.blocking = true;
        let items = vec![resource("cairn://p/P/1"), task];
        let mut applying = Applying::start(admitted(call(items, false), true));
        assert!(matches!(applying.next(), Work::Resource(0)));
        applying.resource_done(outcome);
        assert!(matches!(applying.next(), Work::Deferred(1)));
        assert!(matches!(applying.next(), Work::Done));
        let push = match AtCommit::start(applying.finish().ok().unwrap()).committed(None) {
            CommitPassage::Open(next) => next,
            CommitPassage::Ended { .. } => panic!("the call ended early"),
        };
        let reply = finish(push, Ok(()), None);
        assert!(reply.needs_group());
        reply.reply(Some("the task is done".to_string()))
    };
    match run(Ok((applied(0, "added a note"), None))) {
        WriteReply::Text(text) => {
            assert_eq!(text, "Applied 1 change(s): added a note\n\nthe task is done")
        }
        other => panic!("unexpected {:?}", other),
    }
    match run(Err(failed(0, "no"))) {
        WriteReply::Report { report, behind } => {
            assert_eq!(report.failures[0].error, "no");
            assert_eq!(behind, "\n\nthe task is done");
        }
        other => panic!("unexpected {:?}", other),
    }
}

// ---------------------------------------------------------------- previews

fn hash(target: &str) -> TargetHash {
    TargetHash {
        target: target.to_string(),
        kind: "file".to_string(),
        exists: true,
        hash: "h".to_string(),
    }
}

#[test]
fn a_preview_of_a_resource_needs_its_hash() {
    let start = || {
        let mut run = PreviewRun::start(call(vec![resource("cairn://p/P/1")], false)).unwrap();
        assert!(matches!(run.next(), Work::Resource(0)));
        run
    };
    match start().resource_shown(0, Ok(applied(0, "would add")), Ok(hash("cairn://p/P/1"))) {
        PreviewStep::Goes(run) => {
            assert_eq!(run.applied.len(), 1);
            assert_eq!(run.hashes.len(), 1);
        }
        other => panic!("unexpected {:?}", other),
    }
    match start().resource_shown(0, Ok(applied(0, "would add")), Err("unread".to_string())) {
        PreviewStep::Ends(report) => {
            assert_eq!(report.applied.len(), 1);
            assert_eq!(report.failures[0].error, "unread");
        }
        other => panic!("unexpected {:?}", other),
    }
    match start().resource_shown(0, Err(failed(0, "no")), Ok(hash("cairn://p/P/1"))) {
        PreviewStep::Ends(report) => {
            assert!(report.applied.is_empty());
            assert_eq!(report.failures[0].error, "no");
        }
        other => panic!("unexpected {:?}", other),
    }
}

#[test]
fn a_preview_of_a_rename_hashes_both_ends_of_a_move() {
    let mut rename = file("file:a.rs");
    rename.item.mode = ChangeMode::Rename;
    let mut run = PreviewRun::start(call(vec![rename], false)).unwrap();
    assert!(matches!(run.next(), Work::Rename(0)));
    let edit = HashedEdit {
        edit: RenameEdit {
            source: place("old.rs"),
            new_content: Some("moved\n".to_string()),
            move_to: Some(place("new.rs")),
            site_count: 3,
        },
        source_hash: Ok(hash("file:old.rs")),
        dest_hash: Ok(hash("file:new.rs")),
    };
    match run.rename_shown(0, Ok(vec![edit])) {
        PreviewStep::Goes(run) => {
            assert_eq!(run.hashes.len(), 2);
            assert_eq!(
                run.applied[0].summary,
                "Would apply R file:old.rs\u{2192}file:new.rs (3 sites)"
            );
            assert_eq!(run.applied[0].target, "file:new.rs");
        }
        other => panic!("unexpected {:?}", other),
    }
}
