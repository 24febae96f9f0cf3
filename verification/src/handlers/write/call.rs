//! A `write` call up to the point where its changes may be applied.
//!
//! A call goes through one passage after the other: the worktree, the three fences around
//! what lies outside it, the lock of the store, the head that the changes build
//! on, the content they build on, and the group of blocking appends. Each passage is
//! a type of its own that only the passage before it hands out, so no passage can be
//! left out and nothing is applied before the last one is open.
use vstd::prelude::*;
use vstd::string::*;
use crate::handlers::write::file_mutations::contents;
use crate::handlers::write::types::{
    build_failure, change_report, failure_models, file_failure, mode_name, mode_text,
    report_model, ChangeFailure, ChangeItem, ChangeMode, ChangeReport, FailureModel, ReportModel,
};
use crate::json::{models, Json, JsonModel};
use crate::text::{opt_text, text2, text3};
use crate::textmap::TextMap;

verus! {

/// What a target names.
#[derive(Clone, Copy, Debug, PartialEq, Eq, Structural)]
pub enum TargetFamily {
    File,
    Resource,
}

/// A change of the call with what its target tells: which family it is of, whether
/// it is a blocking append, and whether it edits the workspace configuration.
#[derive(Debug)]
pub struct WriteItem {
    pub item: ChangeItem,
    pub family: Result<TargetFamily, String>,
    pub blocking: bool,
    pub workspace_config: bool,
}

impl WriteItem {
    /// Whether the change is to a file.
    pub open spec fn is_file(self) -> bool {
        self.family matches Ok(family) && family == TargetFamily::File
    }

    /// Whether the change is to a file.
    pub fn targets_file(&self) -> (file: bool)
        ensures
            file == self.is_file(),
    {
        match &self.family {
            Ok(family) => *family == TargetFamily::File,
            Err(_) => false,
        }
    }
}

/// The changes of a call, whether they stand or fall together, and the message of
/// their commit.
#[derive(Debug)]
pub struct WriteCall {
    pub items: Vec<WriteItem>,
    pub atomic: bool,
    pub commit_msg: Option<String>,
}

/// The first place from `from` on whose change `wanted` holds of.
pub open spec fn first_where(
    items: Seq<WriteItem>,
    wanted: spec_fn(WriteItem) -> bool,
    from: int,
) -> Option<int>
    decreases items.len() - from,
{
    if from >= items.len() {
        None
    } else if wanted(items[from]) {
        Some(from)
    } else {
        first_where(items, wanted, from + 1)
    }
}

/// Whether any change is to a file.
pub open spec fn has_file(items: Seq<WriteItem>) -> bool {
    exists|i: int| 0 <= i < items.len() && (#[trigger] items[i]).is_file()
}

/// Whether any change is of mode `mode`.
pub open spec fn has_mode(items: Seq<WriteItem>, mode: ChangeMode) -> bool {
    exists|i: int| 0 <= i < items.len() && (#[trigger] items[i]).item.mode == mode
}

/// Whether any change renames a symbol through a file target.
pub open spec fn has_file_rename(items: Seq<WriteItem>) -> bool {
    exists|i: int|
        0 <= i < items.len() && (#[trigger] items[i]).item.mode == ChangeMode::Rename
            && items[i].is_file()
}

/// A target that stands for the caller's own home.
pub open spec fn is_home_relative(target: Seq<char>) -> bool {
    "cairn:~"@.is_prefix_of(target)
}

/// Whether a target stands for the caller's own home and has to be resolved.
pub fn needs_home_resolution(target: &str) -> (needed: bool)
    ensures
        needed == is_home_relative(target@),
{
    crate::scan::starts_with(target, "cairn:~")
}

/// Whether a change goes on like this after its target was resolved.
pub open spec fn takes_home(
    item: ChangeItem,
    after: ChangeItem,
    resolved: Result<String, String>,
) -> bool {
    &&& after.mode == item.mode
    &&& after.payload == item.payload
    &&& after.target == match resolved {
        Ok(target) => if is_home_relative(item.target@) {
            target
        } else {
            item.target
        },
        Err(_) => item.target,
    }
}

/// Gives a change the target that its home-relative one resolves to. A target that
/// does not resolve stays, and is reported where it is used.
pub fn take_home_resolution(item: &mut ChangeItem, resolved: Result<String, String>)
    ensures
        takes_home(*old(item), *final(item), resolved),
{
    if needs_home_resolution(item.target.as_str()) {
        if let Ok(target) = resolved {
            item.target = target;
        }
    }
}

/// The text, or nothing.
pub open spec fn or_empty(text: Option<Seq<char>>) -> Seq<char> {
    match text {
        Some(found) => found,
        None => Seq::empty(),
    }
}

/// The first place that an error names.
pub open spec fn first_index(errors: Seq<Option<usize>>) -> Option<usize>
    decreases errors.len(),
{
    if errors.len() == 0 {
        None
    } else if errors[0] is Some {
        errors[0]
    } else {
        first_index(errors.skip(1))
    }
}

/// The change at a place of a payload as it came, if the place is one.
pub open spec fn raw_change(payload: JsonModel, index: int) -> Option<JsonModel> {
    match payload.member("changes"@) {
        Some(changes) => match changes.items() {
            Some(items) => if index < items.len() {
                Some(items[index])
            } else {
                None
            },
            None => None,
        },
        None => None,
    }
}

/// A member of a value where it is a text, or nothing.
pub open spec fn text_member(value: JsonModel, name: Seq<char>) -> Seq<char> {
    match value.member(name) {
        Some(found) => or_empty(found.text()),
        None => Seq::empty(),
    }
}

/// What is reported of a payload that is not valid: all errors at once, charged to
/// the first place that one of them names.
pub open spec fn validation_failure(
    errors: Seq<Option<usize>>,
    message: Seq<char>,
    payload: JsonModel,
) -> FailureModel {
    let change = match first_index(errors) {
        Some(index) => raw_change(payload, index as int),
        None => None,
    };
    FailureModel {
        index: match first_index(errors) {
            Some(index) => index as nat,
            None => 0,
        },
        target: match change {
            Some(change) => text_member(change, "target"@),
            None => Seq::empty(),
        },
        mode: match change {
            Some(change) => text_member(change, "mode"@),
            None => Seq::empty(),
        },
        kind: "validation"@,
        error: message,
    }
}

/// A member of a value where it is a text, or nothing.
fn get_text(value: &Json, name: &str) -> (text: String)
    ensures
        text@ == text_member(value.model(), name@),
{
    match value.get(name) {
        Some(found) => match found.as_str() {
            Some(found) => found.to_owned(),
            None => String::new(),
        },
        None => String::new(),
    }
}

/// The report of a payload that is not valid. `errors` holds the place of each
/// error, `message` all of them rendered.
pub fn validation_failure_report(
    errors: &Vec<Option<usize>>,
    message: String,
    payload: &Json,
) -> (report: ChangeReport)
    ensures
        report@ == report_model(
            Seq::empty(),
            seq![validation_failure(errors@, message@, payload.model())],
            None,
            false,
        ),
{
    let mut found: Option<usize> = None;
    let mut i: usize = 0;
    assert(errors@.skip(0) =~= errors@);
    while i < errors.len() && found.is_none()
        invariant
            i <= errors@.len(),
            found is None ==> first_index(errors@) == first_index(errors@.skip(i as int)),
            found is Some ==> first_index(errors@) == found,
        decreases errors.len() - i,
    {
        found = errors[i];
        assert(errors@.skip(i as int).skip(1) =~= errors@.skip(i + 1));
        i += 1;
    }
    let mut target = String::new();
    let mut mode = String::new();
    let mut index: usize = 0;
    if let Some(place) = found {
        index = place;
        if let Some(changes) = payload.get("changes") {
            if let Some(items) = changes.as_array() {
                assert(models(items@).len() == items@.len());
                if place < items.len() {
                    assert(models(items@)[place as int] == items@[place as int].model());
                    target = get_text(&items[place], "target");
                    mode = get_text(&items[place], "mode");
                }
            }
        }
    }
    let failure = ChangeFailure {
        index,
        target,
        mode,
        kind: "validation".to_owned(),
        error: message,
    };
    refuse(failure)
}

/// The report of a call that did nothing but fail.
fn refuse(failure: ChangeFailure) -> (report: ChangeReport)
    ensures
        report@ == report_model(Seq::empty(), seq![failure@], None, false),
{
    let ghost said = failure@;
    let mut failures: Vec<ChangeFailure> = Vec::new();
    failures.push(failure);
    let applied = Vec::new();
    proof {
        assert(failure_models(failures@) =~= seq![said]);
        assert(crate::handlers::write::types::applied_models(applied@) =~= Seq::empty());
    }
    change_report(applied, failures, None, false)
}

/// What a passage answers: the report of a refused call, a text for one that waits,
/// or the next passage.
#[derive(Debug)]
pub enum Passage<T> {
    Refused(ChangeReport),
    Suspended(String),
    Open(T),
}

/// The first file change from `from` on.
fn find_file(items: &Vec<WriteItem>, from: usize) -> (found: Option<usize>)
    ensures
        match found {
            Some(at) => first_where(items@, |item: WriteItem| item.is_file(), from as int) == Some(
                at as int,
            ) && from <= at < items@.len() && items@[at as int].is_file(),
            None => first_where(items@, |item: WriteItem| item.is_file(), from as int) is None,
        },
        found is None ==> forall|i: int|
            from <= i < items@.len() ==> !(#[trigger] items@[i]).is_file(),
{
    let mut at: usize = from;
    while at < items.len()
        invariant
            from <= at,
            first_where(items@, |item: WriteItem| item.is_file(), at as int) == first_where(
                items@,
                |item: WriteItem| item.is_file(),
                from as int,
            ),
            forall|i: int| from <= i < at && i < items@.len() ==> !(#[trigger] items@[i]).is_file(),
        decreases items.len() - at,
    {
        if items[at].targets_file() {
            return Some(at);
        }
        at += 1;
    }
    None
}

/// Whether any change is to a file.
fn any_file(items: &Vec<WriteItem>) -> (any: bool)
    ensures
        any == has_file(items@),
{
    find_file(items, 0).is_some()
}

/// What is to be done with a call: shown in advance, or carried out.
#[derive(Debug)]
pub enum Opening {
    Preview(WriteCall),
    Proceed(AtWorktree),
}

/// A rename is shown in advance unless the call says otherwise; every other call
/// only where it asks for it.
pub open spec fn is_preview(items: Seq<WriteItem>, preview: Option<bool>) -> bool {
    match preview {
        Some(wanted) => wanted,
        None => has_mode(items, ChangeMode::Rename),
    }
}

/// Opens a call.
pub fn open_call(call: WriteCall, preview: Option<bool>) -> (opening: Opening)
    ensures
        match opening {
            Opening::Preview(shown) => is_preview(call.items@, preview) && shown == call,
            Opening::Proceed(passage) => !is_preview(call.items@, preview) && passage.call() == call,
        },
{
    let shown = match preview {
        Some(wanted) => wanted,
        None => {
            let mut renames = false;
            let mut i: usize = 0;
            while i < call.items.len()
                invariant
                    i <= call.items@.len(),
                    renames <==> exists|k: int|
                        0 <= k < i && (#[trigger] call.items@[k]).item.mode == ChangeMode::Rename,
                decreases call.items.len() - i,
            {
                if call.items[i].item.mode == ChangeMode::Rename {
                    renames = true;
                    assert(call.items@[i as int].item.mode == ChangeMode::Rename);
                }
                i += 1;
            }
            renames
        },
    };
    if shown {
        Opening::Preview(call)
    } else {
        Opening::Proceed(AtWorktree { call })
    }
}

/// Why files cannot be changed outside a worktree.
pub const NON_WORKTREE_CHANGE_ERROR: &'static str =
    "Changes can only be made in a worktree. This agent runs on the project's live checkout (no worktree); file edits are rejected here and the checkout is left untouched. Resource writes (issues, messages, todos, tasks) still work.";

/// The call before it is known where it runs.
#[derive(Debug)]
pub struct AtWorktree {
    call: WriteCall,
}

impl AtWorktree {
    /// The call at this passage.
    pub closed spec fn call(self) -> WriteCall {
        self.call
    }

    /// Whether the call goes on like this from where it is made.
    pub open spec fn is_located(self, in_worktree: bool, passage: Passage<AtFileFence>) -> bool {
    let items = self.call().items@;
    let first = first_where(items, |item: WriteItem| item.is_file(), 0);
    match passage {
        Passage::Refused(report) => {
            &&& !in_worktree
            &&& first is Some
            &&& report@ == report_model(
                Seq::empty(),
                seq![
                    file_failure(
                        first->Some_0 as nat,
                        items[first->Some_0].item.target@,
                        items[first->Some_0].item.mode,
                        NON_WORKTREE_CHANGE_ERROR@,
                    ),
                ],
                None,
                false,
            )
        },
        Passage::Suspended(_) => false,
        Passage::Open(next) => (in_worktree || first is None) && next.call()
            == self.call(),
    }
    }

    /// A call that changes files goes on only in a worktree; the first file change
    /// is charged otherwise.
    pub fn located(self, in_worktree: bool) -> (passage: Passage<AtFileFence>)
        ensures
            self.is_located(in_worktree, passage),
    {
        if !in_worktree {
            if let Some(index) = find_file(&self.call.items, 0) {
                let failure = build_failure(
                    index,
                    &self.call.items[index].item,
                    NON_WORKTREE_CHANGE_ERROR.to_owned(),
                );
                return Passage::Refused(refuse(failure));
            }
        }
        Passage::Open(AtFileFence { call: self.call })
    }
}

/// The fence of the run that makes the call.
#[derive(Clone, Copy, Debug, PartialEq, Eq, Structural)]
pub enum RunFence {
    NoRun,
    Allow,
    Ask,
    Deny,
}

/// How a file target lies to the worktree.
#[derive(Clone, Copy, Debug, PartialEq, Eq, Structural)]
pub enum Crossing {
    /// The target is not valid; applying it reports so.
    Invalid,
    /// Inside the worktree.
    Inside,
    /// Outside, but where every sandbox may write.
    Writable,
    /// Outside.
    Outside,
}

/// What became of a raised fence.
#[derive(Debug)]
pub enum FenceDecision {
    Allow,
    Deny(String),
    Suspended,
}

/// The answer to a call that waits for a fence.
pub const SUSPENDED_TEXT: &'static str =
    "Change suspended pending worktree fence approval; resume will continue once it is answered.";

/// The call before the fence around its file targets.
#[derive(Debug)]
pub struct AtFileFence {
    call: WriteCall,
}

/// Whether any change is to a file outside the worktree.
pub open spec fn any_escape(items: Seq<WriteItem>, crossings: Seq<Crossing>) -> bool {
    exists|i: int|
        #![trigger items[i], crossings[i]]
        0 <= i < items.len() && i < crossings.len() && items[i].is_file() && (crossings[i]
            == Crossing::Outside || crossings[i] == Crossing::Writable)
}

impl AtFileFence {
    /// The call at this passage.
    pub closed spec fn call(self) -> WriteCall {
        self.call
    }

    /// Whether the fence of the run matters: only files can cross it.
    pub fn needs_fence(&self) -> (needed: bool)
        ensures
            needed == has_file(self.call().items@),
    {
        any_file(&self.call.items)
    }

    /// Whether the fence of the run is raised like this.
    pub open spec fn is_fenced(
        self,
        fence: RunFence,
        crossings: Vec<Crossing>,
        walk: FenceWalk,
    ) -> bool {
        &&& walk.call() == self.call()
        &&& walk.crossings() == crossings@
        &&& walk.at() == 0
        &&& walk.raised() <==> has_file(self.call().items@) && (fence == RunFence::Ask || fence
            == RunFence::Deny)
        &&& walk.allow_escape() <==> has_file(self.call().items@) && match fence {
            RunFence::NoRun => false,
            RunFence::Allow => true,
            _ => any_escape(self.call().items@, crossings@),
        }
    }

    /// Starts the walk along the file targets. `crossings` tells how each target
    /// lies; it is only read where the fence asks or denies.
    pub fn fenced(self, fence: RunFence, crossings: Vec<Crossing>) -> (walk: FenceWalk)
        ensures
            self.is_fenced(fence, crossings, walk),
    {
        let files = any_file(&self.call.items);
        let raised = files && (fence == RunFence::Ask || fence == RunFence::Deny);
        let mut escape = files && fence == RunFence::Allow;
        if raised {
            let items = &self.call.items;
            let mut i: usize = 0;
            while i < items.len() && i < crossings.len()
                invariant
                    i <= items@.len(),
                    i <= crossings@.len(),
                    escape <==> exists|k: int|
                        #![trigger items@[k], crossings@[k]]
                        0 <= k < i && items@[k].is_file() && (crossings@[k] == Crossing::Outside
                            || crossings@[k] == Crossing::Writable),
                decreases items.len() - i,
            {
                if items[i].targets_file() && (crossings[i] == Crossing::Outside || crossings[i]
                    == Crossing::Writable) {
                    assert(items@[i as int].is_file());
                    escape = true;
                }
                i += 1;
            }
        }
        FenceWalk { call: self.call, crossings, at: 0, raised, allow_escape: escape }
    }
}

/// The walk along the file targets that cross the fence.
#[derive(Debug)]
pub struct FenceWalk {
    call: WriteCall,
    crossings: Vec<Crossing>,
    at: usize,
    raised: bool,
    allow_escape: bool,
}

impl FenceWalk {
    /// The call on this walk.
    pub closed spec fn call(self) -> WriteCall {
        self.call
    }

    /// How the targets lie.
    pub closed spec fn crossings(self) -> Seq<Crossing> {
        self.crossings@
    }

    /// The place from which on targets are still to be looked at.
    pub closed spec fn at(self) -> int {
        self.at as int
    }

    /// Whether the fence is raised at all.
    pub closed spec fn raised(self) -> bool {
        self.raised
    }

    /// Whether targets outside the worktree are permitted once the walk is over.
    pub closed spec fn allow_escape(self) -> bool {
        self.allow_escape
    }

    /// The next target for which the fence is to be raised.
    pub open spec fn pending(self) -> Option<int> {
        if self.raised() {
            next_crossing(self.call().items@, self.crossings(), self.at())
        } else {
            None
        }
    }

    /// The next target for which the fence is to be raised.
    pub fn next(&self) -> (place: Option<usize>)
        ensures
            match place {
                Some(i) => self.pending() == Some(i as int) && i < self.call().items@.len(),
                None => self.pending() is None,
            },
    {
        if !self.raised {
            return None;
        }
        let items = &self.call.items;
        let mut i: usize = self.at;
        while i < items.len() && i < self.crossings.len()
            invariant
                items@ == self.call.items@,
                self.raised,
                next_crossing(items@, self.crossings@, i as int) == next_crossing(
                    items@,
                    self.crossings@,
                    self.at as int,
                ),
            decreases items.len() - i,
        {
            if items[i].targets_file() && self.crossings[i] == Crossing::Outside {
                return Some(i);
            }
            i += 1;
        }
        proof {
            lemma_no_crossing_behind(items@, self.crossings@, i as int);
        }
        None
    }

    /// Whether the walk goes on like this after a decision.
    pub open spec fn is_decided(
        self,
        decision: FenceDecision,
        passage: Passage<FenceWalk>,
    ) -> bool {
        match self.pending() {
            None => passage == Passage::Open(self),
            Some(place) => match (passage, decision) {
                (Passage::Open(walk), FenceDecision::Allow) => {
                    &&& walk.call() == self.call()
                    &&& walk.crossings() == self.crossings()
                    &&& walk.raised() == self.raised()
                    &&& walk.allow_escape() == self.allow_escape()
                    &&& walk.at() == place + 1
                },
                (Passage::Refused(report), FenceDecision::Deny(message)) => report@
                    == report_model(
                    Seq::empty(),
                    seq![
                        file_failure(
                            place as nat,
                            self.call().items@[place].item.target@,
                            self.call().items@[place].item.mode,
                            message@,
                        ),
                    ],
                    None,
                    false,
                ),
                (Passage::Suspended(text), FenceDecision::Suspended) => text@ == SUSPENDED_TEXT@,
                _ => false,
            },
        }
    }

    /// Takes up the decision on the pending target: a denied one refuses the call,
    /// a suspended one ends it for now.
    pub fn decided(self, decision: FenceDecision) -> (passage: Passage<FenceWalk>)
        ensures
            self.is_decided(decision, passage),
    {
        let _count: usize = self.call.items.len();
        match self.next() {
            None => Passage::Open(self),
            Some(place) => match decision {
                FenceDecision::Allow => Passage::Open(
                    FenceWalk {
                        call: self.call,
                        crossings: self.crossings,
                        at: place + 1,
                        raised: self.raised,
                        allow_escape: self.allow_escape,
                    },
                ),
                FenceDecision::Deny(message) => {
                    let failure = build_failure(place, &self.call.items[place].item, message);
                    Passage::Refused(refuse(failure))
                },
                FenceDecision::Suspended => Passage::Suspended(SUSPENDED_TEXT.to_owned()),
            },
        }
    }

    /// Leaves the walk once no target is pending.
    pub fn passed(self) -> (passage: Result<AtConfigFence, FenceWalk>)
        ensures
            match passage {
                Ok(next) => self.pending() is None && next.call() == self.call()
                    && next.allow_escape() == self.allow_escape(),
                Err(walk) => self.pending() is Some && walk == self,
            },
    {
        if self.next().is_none() {
            Ok(AtConfigFence { call: self.call, allow_escape: self.allow_escape })
        } else {
            Err(self)
        }
    }
}

/// The first file target outside the worktree from `from` on.
pub open spec fn next_crossing(
    items: Seq<WriteItem>,
    crossings: Seq<Crossing>,
    from: int,
) -> Option<int>
    decreases items.len() - from,
{
    if from >= items.len() || from >= crossings.len() {
        None
    } else if items[from].is_file() && crossings[from] == Crossing::Outside {
        Some(from)
    } else {
        next_crossing(items, crossings, from + 1)
    }
}

/// Behind the last change there is no target.
proof fn lemma_no_crossing_behind(items: Seq<WriteItem>, crossings: Seq<Crossing>, from: int)
    requires
        from >= items.len() || from >= crossings.len(),
    ensures
        next_crossing(items, crossings, from) is None,
{
}

/// What the denial of a write to a repository or configuration outside any run
/// says.
pub const CONFIG_NEEDS_RUN: &'static str =
    "Denied: a workspace-scope cairn://mcp write edits ~/.cairn/settings.yaml (outside the worktree) and requires an active run to gate via the worktree fence. Use scope:\"project\" to edit the project's .cairn/config.yaml instead.";

/// What the denial of a project write outside any run says.
pub const PROJECT_NEEDS_RUN: &'static str =
    "Denied: creating a project or attaching a remote writes to a git repo outside the worktree and requires an active run to gate via the worktree fence.";

/// What a fence comes to for the change at `place`, if any. `decision` is what the
/// raised fence was answered.
pub enum FenceOutcome {
    Open,
    Denied(FailureModel),
    Suspended,
}

/// What a fence comes to: it is not there without a change, denied outside any run
/// and raised where the run's fence asks or denies.
pub open spec fn fence_outcome(
    items: Seq<WriteItem>,
    place: Option<int>,
    fence: RunFence,
    decision: FenceDecision,
    no_run: Seq<char>,
) -> FenceOutcome {
    match place {
        None => FenceOutcome::Open,
        Some(i) => {
            let deny = |error: Seq<char>| FenceOutcome::Denied(
                file_failure(i as nat, items[i].item.target@, items[i].item.mode, error),
            );
            match fence {
                RunFence::Allow => FenceOutcome::Open,
                RunFence::NoRun => deny(no_run),
                _ => match decision {
                    FenceDecision::Allow => FenceOutcome::Open,
                    FenceDecision::Deny(message) => deny(message@),
                    FenceDecision::Suspended => FenceOutcome::Suspended,
                },
            }
        },
    }
}

/// What a passage behind a fence answers, apart from the next passage.
pub open spec fn passage_is<T>(passage: Passage<T>, outcome: FenceOutcome) -> bool {
    match (passage, outcome) {
        (Passage::Open(_), FenceOutcome::Open) => true,
        (Passage::Refused(report), FenceOutcome::Denied(failure)) => report@ == report_model(
            Seq::empty(),
            seq![failure],
            None,
            false,
        ),
        (Passage::Suspended(text), FenceOutcome::Suspended) => text@ == SUSPENDED_TEXT@,
        _ => false,
    }
}

/// Passes a fence for the change at `place`.
fn pass_fence(
    items: &Vec<WriteItem>,
    place: Option<usize>,
    fence: RunFence,
    decision: FenceDecision,
    no_run: &str,
) -> (passage: Passage<()>)
    requires
        place matches Some(i) ==> i < items@.len(),
    ensures
        passage_is(
            passage,
            fence_outcome(
                items@,
                match place {
                    Some(i) => Some(i as int),
                    None => None,
                },
                fence,
                decision,
                no_run@,
            ),
        ),
{
    match place {
        None => Passage::Open(()),
        Some(i) => match fence {
            RunFence::Allow => Passage::Open(()),
            RunFence::NoRun => Passage::Refused(
                refuse(build_failure(i, &items[i].item, no_run.to_owned())),
            ),
            _ => match decision {
                FenceDecision::Allow => Passage::Open(()),
                FenceDecision::Deny(message) => Passage::Refused(
                    refuse(build_failure(i, &items[i].item, message)),
                ),
                FenceDecision::Suspended => Passage::Suspended(SUSPENDED_TEXT.to_owned()),
            },
        },
    }
}

/// The call before the fence around the workspace configuration.
#[derive(Debug)]
pub struct AtConfigFence {
    call: WriteCall,
    allow_escape: bool,
}

impl AtConfigFence {
    /// The call at this passage.
    pub closed spec fn call(self) -> WriteCall {
        self.call
    }

    /// Whether targets outside the worktree are permitted.
    pub closed spec fn allow_escape(self) -> bool {
        self.allow_escape
    }

    /// The first change that edits the workspace configuration.
    pub open spec fn place(self) -> Option<int> {
        first_where(self.call().items@, |item: WriteItem| item.workspace_config, 0)
    }

    /// The first change that edits the workspace configuration.
    pub fn config_change(&self) -> (place: Option<usize>)
        ensures
            match place {
                Some(i) => self.place() == Some(i as int) && i < self.call().items@.len(),
                None => self.place() is None,
            },
    {
        let items = &self.call.items;
        let mut at: usize = 0;
        while at < items.len()
            invariant
                items@ == self.call.items@,
                first_where(items@, |item: WriteItem| item.workspace_config, at as int)
                    == first_where(items@, |item: WriteItem| item.workspace_config, 0),
            decreases items.len() - at,
        {
            if items[at].workspace_config {
                return Some(at);
            }
            at += 1;
        }
        None
    }

    /// Passes the fence. The decision is read only where the fence is raised.
    pub fn fenced(self, fence: RunFence, decision: FenceDecision) -> (passage: Passage<AtProjectFence>)
        ensures
            passage_is(
                passage,
                fence_outcome(
                    self.call().items@,
                    self.place(),
                    fence,
                    decision,
                    CONFIG_NEEDS_RUN@,
                ),
            ),
            passage matches Passage::Open(next) ==> next.call() == self.call() && next.allow_escape()
                == self.allow_escape(),
    {
        let place = self.config_change();
        match pass_fence(&self.call.items, place, fence, decision, CONFIG_NEEDS_RUN) {
            Passage::Open(_) => Passage::Open(
                AtProjectFence { call: self.call, allow_escape: self.allow_escape },
            ),
            Passage::Refused(report) => Passage::Refused(report),
            Passage::Suspended(text) => Passage::Suspended(text),
        }
    }
}

/// The call before the fence around project repositories.
#[derive(Debug)]
pub struct AtProjectFence {
    call: WriteCall,
    allow_escape: bool,
}

impl AtProjectFence {
    /// The call at this passage.
    pub closed spec fn call(self) -> WriteCall {
        self.call
    }

    /// Whether targets outside the worktree are permitted.
    pub closed spec fn allow_escape(self) -> bool {
        self.allow_escape
    }

    /// Passes the fence. `place` is the first change that writes to a project
    /// repository outside the worktree; a place behind the last change is none.
    pub fn fenced(
        self,
        place: Option<usize>,
        fence: RunFence,
        decision: FenceDecision,
    ) -> (passage: Passage<AtLock>)
        ensures
            passage_is(
                passage,
                fence_outcome(
                    self.call().items@,
                    match place {
                        Some(i) => if i < self.call().items@.len() {
                            Some(i as int)
                        } else {
                            None
                        },
                        None => None,
                    },
                    fence,
                    decision,
                    PROJECT_NEEDS_RUN@,
                ),
            ),
            passage matches Passage::Open(next) ==> next.call() == self.call() && next.allow_escape()
                == self.allow_escape(),
    {
        let known = match place {
            Some(i) => {
                if i < self.call.items.len() {
                    Some(i)
                } else {
                    None
                }
            },
            None => None,
        };
        match pass_fence(&self.call.items, known, fence, decision, PROJECT_NEEDS_RUN) {
            Passage::Open(_) => Passage::Open(AtLock { call: self.call, allow_escape: self.allow_escape }),
            Passage::Refused(report) => Passage::Refused(report),
            Passage::Suspended(text) => Passage::Suspended(text),
        }
    }
}

/// What is reported of a call that fails before any change is applied, once its
/// files are under way.
pub open spec fn early_failure(atomic: bool, failure: FailureModel) -> ReportModel {
    ReportModel {
        applied: Seq::empty(),
        failures: seq![failure],
        commit: None,
        partial_success: atomic,
        transactional: false,
    }
}

/// A failure charged to the first change of the call.
pub open spec fn first_change_failure(items: Seq<WriteItem>, error: Seq<char>) -> FailureModel {
    FailureModel {
        index: 0,
        target: if items.len() > 0 {
            items[0].item.target@
        } else {
            Seq::empty()
        },
        mode: if items.len() > 0 {
            mode_text(items[0].item.mode)
        } else {
            "patch"@
        },
        kind: "file"@,
        error,
    }
}

/// The report of a call that fails before any change is applied.
fn fail_early(atomic: bool, failure: ChangeFailure) -> (report: ChangeReport)
    ensures
        report@ == early_failure(atomic, failure@),
{
    let ghost said = failure@;
    let mut failures: Vec<ChangeFailure> = Vec::new();
    failures.push(failure);
    let applied = Vec::new();
    proof {
        assert(failure_models(failures@) =~= seq![said]);
        assert(crate::handlers::write::types::applied_models(applied@) =~= Seq::empty());
    }
    ChangeReport { applied, failures, commit: None, partial_success: atomic, transactional: false }
}

/// A failure charged to the first change of the call.
fn charge_first(items: &Vec<WriteItem>, error: String) -> (failure: ChangeFailure)
    ensures
        failure@ == first_change_failure(items@, error@),
{
    let (target, mode) = if items.len() > 0 {
        (items[0].item.target.clone(), mode_name(items[0].item.mode))
    } else {
        (String::new(), "patch".to_owned())
    };
    ChangeFailure { index: 0, target, mode, kind: "file".to_owned(), error }
}

/// The call before it holds the lock of the store.
#[derive(Debug)]
pub struct AtLock {
    call: WriteCall,
    allow_escape: bool,
}

impl AtLock {
    /// The call at this passage.
    pub closed spec fn call(self) -> WriteCall {
        self.call
    }

    /// Whether targets outside the worktree are permitted.
    pub closed spec fn allow_escape(self) -> bool {
        self.allow_escape
    }

    /// Whether the call needs the lock: only one that changes files does.
    pub fn needs_lock(&self) -> (needed: bool)
        ensures
            needed == has_file(self.call().items@),
    {
        any_file(&self.call.items)
    }

    /// Whether the call goes on like this after its lock.
    pub open spec fn is_locked(self, lock: Result<(), String>, passage: Passage<AtHead>) -> bool {
        match passage {
            Passage::Open(next) => (!has_file(self.call().items@) || lock is Ok) && next.call()
                == self.call() && next.allow_escape() == self.allow_escape(),
            Passage::Refused(report) => {
                &&& has_file(self.call().items@)
                &&& lock matches Err(error)
                &&& report@ == early_failure(
                    self.call().atomic,
                    first_change_failure(self.call().items@, error@),
                )
            },
            Passage::Suspended(_) => false,
        }
    }

    /// Goes on with the lock. What came of taking it is read only where it is
    /// needed.
    pub fn locked(self, lock: Result<(), String>) -> (passage: Passage<AtHead>)
        ensures
            self.is_locked(lock, passage),
    {
        if self.needs_lock() {
            if let Err(error) = lock {
                let failure = charge_first(&self.call.items, error);
                return Passage::Refused(fail_early(self.call.atomic, failure));
            }
        }
        Passage::Open(AtHead { call: self.call, allow_escape: self.allow_escape })
    }
}

/// The call before the head that its files build on is known. It holds the lock.
#[derive(Debug)]
pub struct AtHead {
    call: WriteCall,
    allow_escape: bool,
}

impl AtHead {
    /// The call at this passage.
    pub closed spec fn call(self) -> WriteCall {
        self.call
    }

    /// Whether targets outside the worktree are permitted.
    pub closed spec fn allow_escape(self) -> bool {
        self.allow_escape
    }

    /// Whether the head matters: only for files.
    pub fn needs_head(&self) -> (needed: bool)
        ensures
            needed == has_file(self.call().items@),
    {
        any_file(&self.call.items)
    }

    /// Whether the call goes on like this after its head.
    pub open spec fn is_resolved(
        self,
        head: Result<(), String>,
        passage: Passage<AtSnapshot>,
    ) -> bool {
        match passage {
            Passage::Open(next) => (!has_file(self.call().items@) || head is Ok) && next.call()
                == self.call() && next.allow_escape() == self.allow_escape(),
            Passage::Refused(report) => {
                &&& has_file(self.call().items@)
                &&& head matches Err(error)
                &&& report@ == early_failure(
                    self.call().atomic,
                    first_change_failure(
                        self.call().items@,
                        "Resolve authoritative logical head for write: "@ + error@,
                    ),
                )
            },
            Passage::Suspended(_) => false,
        }
    }

    /// Goes on with the head.
    pub fn resolved(self, head: Result<(), String>) -> (passage: Passage<AtSnapshot>)
        ensures
            self.is_resolved(head, passage),
    {
        if self.needs_head() {
            if let Err(error) = head {
                let message = text2(
                    "Resolve authoritative logical head for write: ",
                    error.as_str(),
                );
                let failure = charge_first(&self.call.items, message);
                return Passage::Refused(fail_early(self.call.atomic, failure));
            }
        }
        Passage::Open(AtSnapshot { call: self.call, allow_escape: self.allow_escape })
    }
}

/// A file of the committed tree; without bytes there is none at the path.
#[derive(Debug)]
pub struct TreeFile {
    pub path: String,
    pub bytes: Option<Vec<u8>>,
}

/// The contents of the first `k` files by target, or the path of the first that is
/// no text.
pub open spec fn tree_contents(files: Seq<TreeFile>, k: int) -> Result<
    Map<Seq<char>, Option<Seq<char>>>,
    Seq<char>,
>
    decreases k,
{
    if k <= 0 {
        Ok(Map::empty())
    } else {
        let file = files[k - 1];
        match tree_contents(files, k - 1) {
            Err(path) => Err(path),
            Ok(before) => match file.bytes {
                None => Ok(before.insert("file:"@ + file.path@, None)),
                Some(bytes) => if vstd::utf8::valid_utf8(bytes@) {
                    Ok(
                        before.insert(
                            "file:"@ + file.path@,
                            Some(vstd::utf8::decode_utf8(bytes@)),
                        ),
                    )
                } else {
                    Err(file.path@)
                },
            },
        }
    }
}

/// A file that is no text settles the matter.
proof fn lemma_no_text_stays(files: Seq<TreeFile>, k: int, n: int)
    requires
        0 <= k <= n,
        tree_contents(files, k) is Err,
    ensures
        tree_contents(files, n) == tree_contents(files, k),
    decreases n - k,
{
    if k < n {
        lemma_no_text_stays(files, k, n - 1);
    }
}

/// What is said of a file of the committed tree that is no text.
pub open spec fn not_text_failure(path: Seq<char>) -> FailureModel {
    FailureModel {
        index: 0,
        target: "file:"@ + path,
        mode: "write"@,
        kind: "file"@,
        error: "File `"@ + path + "` is not valid UTF-8"@,
    }
}

/// The contents of files by target, or the path of the first that is no text.
fn read_tree(files: Vec<TreeFile>) -> (read: Result<TextMap<Option<String>>, String>)
    ensures
        match (read, tree_contents(files@, files@.len() as int)) {
            (Ok(snapshot), Ok(model)) => contents(snapshot@) == model,
            (Err(path), Err(model)) => path@ == model,
            _ => false,
        },
{
    let ghost all = files@;
    let mut snapshot: TextMap<Option<String>> = TextMap::new();
    assert(contents(snapshot@) =~= Map::empty());
    for file in it: files
        invariant
            it.seq() == all,
            tree_contents(all, it.index() as int) == Ok::<
                Map<Seq<char>, Option<Seq<char>>>,
                Seq<char>,
            >(contents(snapshot@)),
    {
        assert(file == all[it.index() as int]);
        let ghost before = snapshot@;
        let target = text2("file:", file.path.as_str());
        match file.bytes {
            None => {
                snapshot.insert(target, None);
                assert(contents(snapshot@) =~= contents(before).insert(target@, None));
            },
            Some(bytes) => match crate::text::string_from_utf8(bytes) {
                Some(text) => {
                    snapshot.insert(target, Some(text));
                    assert(contents(snapshot@) =~= contents(before).insert(target@, Some(text@)));
                },
                None => {
                    proof {
                        lemma_no_text_stays(all, it.index() + 1, all.len() as int);
                    }
                    return Err(file.path);
                },
            },
        }
    }
    Ok(snapshot)
}

/// The call before the content that its files build on is read.
#[derive(Debug)]
pub struct AtSnapshot {
    call: WriteCall,
    allow_escape: bool,
}

impl AtSnapshot {
    /// The call at this passage.
    pub closed spec fn call(self) -> WriteCall {
        self.call
    }

    /// Whether targets outside the worktree are permitted.
    pub closed spec fn allow_escape(self) -> bool {
        self.allow_escape
    }

    /// Whether targets outside the worktree are permitted.
    pub fn may_escape(&self) -> (permitted: bool)
        ensures
            permitted == self.allow_escape(),
    {
        self.allow_escape
    }

    /// Whether the whole tree is to be read: a rename may touch any file.
    pub fn needs_whole_tree(&self) -> (needed: bool)
        ensures
            needed == has_file_rename(self.call().items@),
    {
        let items = &self.call.items;
        let mut i: usize = 0;
        while i < items.len()
            invariant
                items@ == self.call.items@,
                forall|k: int|
                    0 <= k < i && k < items@.len() ==> !((
                    #[trigger] items@[k]).item.mode == ChangeMode::Rename && items@[k].is_file()),
            decreases items.len() - i,
        {
            if items[i].item.mode == ChangeMode::Rename && items[i].targets_file() {
                assert(items@[i as int].is_file());
                return true;
            }
            i += 1;
        }
        false
    }

    /// Whether the call goes on like this after its tree was read.
    pub open spec fn is_read(
        self,
        files: Result<Vec<TreeFile>, String>,
        passage: Passage<AtBlocking>,
    ) -> bool {
        match passage {
            Passage::Open(next) => {
                &&& next.call() == self.call()
                &&& next.allow_escape() == self.allow_escape()
                &&& if has_file(self.call().items@) {
                    files matches Ok(tree) && tree_contents(tree@, tree@.len() as int) == Ok::<
                        Map<Seq<char>, Option<Seq<char>>>,
                        Seq<char>,
                    >(next.snapshot())
                } else {
                    next.snapshot() == Map::<Seq<char>, Option<Seq<char>>>::empty()
                }
            },
            Passage::Refused(report) => {
                &&& has_file(self.call().items@)
                &&& report@ == early_failure(
                    self.call().atomic,
                    match files {
                        Err(error) => first_change_failure(
                            self.call().items@,
                            "Read authoritative logical head for write: "@ + error@,
                        ),
                        Ok(tree) => not_text_failure(
                            tree_contents(tree@, tree@.len() as int)->Err_0,
                        ),
                    },
                )
                &&& files matches Ok(tree) ==> tree_contents(tree@, tree@.len() as int) is Err
            },
            Passage::Suspended(_) => false,
        }
    }

    /// Goes on with the content of the committed tree.
    pub fn read(self, files: Result<Vec<TreeFile>, String>) -> (passage: Passage<AtBlocking>)
        ensures
            self.is_read(files, passage),
    {
        if !any_file(&self.call.items) {
            let snapshot: TextMap<Option<String>> = TextMap::new();
            assert(contents(snapshot@) =~= Map::empty());
            return Passage::Open(
                AtBlocking { call: self.call, allow_escape: self.allow_escape, snapshot },
            );
        }
        match files {
            Err(error) => {
                let message = text2("Read authoritative logical head for write: ", error.as_str());
                let failure = charge_first(&self.call.items, message);
                Passage::Refused(fail_early(self.call.atomic, failure))
            },
            Ok(tree) => match read_tree(tree) {
                Ok(snapshot) => Passage::Open(
                    AtBlocking { call: self.call, allow_escape: self.allow_escape, snapshot },
                ),
                Err(path) => {
                    let failure = ChangeFailure {
                        index: 0,
                        target: text2("file:", path.as_str()),
                        mode: "write".to_owned(),
                        kind: "file".to_owned(),
                        error: text3("File `", path.as_str(), "` is not valid UTF-8"),
                    };
                    Passage::Refused(fail_early(self.call.atomic, failure))
                },
            },
        }
    }
}

/// The call before the group of its blocking appends is known to be sound.
pub struct AtBlocking {
    call: WriteCall,
    allow_escape: bool,
    snapshot: TextMap<Option<String>>,
}

/// A call whose changes may be applied.
pub struct Admitted {
    call: WriteCall,
    allow_escape: bool,
    snapshot: TextMap<Option<String>>,
    runs_group: bool,
}

impl Admitted {
    /// The admitted call.
    pub closed spec fn call(self) -> WriteCall {
        self.call
    }

    /// Whether targets outside the worktree are permitted.
    pub closed spec fn allow_escape(self) -> bool {
        self.allow_escape
    }

    /// The committed contents that the changes build on.
    pub closed spec fn snapshot(self) -> Map<Seq<char>, Option<Seq<char>>> {
        contents(self.snapshot@)
    }

    /// Whether a group of blocking appends runs behind the changes.
    pub closed spec fn runs_group(self) -> bool {
        self.runs_group
    }

    /// Takes the admitted call apart.
    pub(crate) fn into_parts(self) -> (parts: (WriteCall, bool, TextMap<Option<String>>, bool))
        ensures
            parts.0 == self.call(),
            parts.1 == self.allow_escape(),
            contents(parts.2@) == self.snapshot(),
            parts.3 == self.runs_group(),
    {
        (self.call, self.allow_escape, self.snapshot, self.runs_group)
    }
}

/// What is said of a group of blocking appends that is not sound.
pub open spec fn group_failure(items: Seq<WriteItem>, error: Seq<char>) -> FailureModel {
    let index = match first_where(items, |item: WriteItem| item.blocking, 0) {
        Some(place) => place,
        None => 0,
    };
    FailureModel {
        index: index as nat,
        target: if index < items.len() {
            items[index].item.target@
        } else {
            Seq::empty()
        },
        mode: "append"@,
        kind: "resource"@,
        error,
    }
}

impl AtBlocking {
    /// The call at this passage.
    pub closed spec fn call(self) -> WriteCall {
        self.call
    }

    /// Whether targets outside the worktree are permitted.
    pub closed spec fn allow_escape(self) -> bool {
        self.allow_escape
    }

    /// The committed contents that the changes build on.
    pub closed spec fn snapshot(self) -> Map<Seq<char>, Option<Seq<char>>> {
        contents(self.snapshot@)
    }

    /// The places of the blocking appends, which run as one group behind all other
    /// changes.
    pub fn group(&self) -> (places: Vec<usize>)
        ensures
            forall|k: int|
                0 <= k < places@.len() ==> (#[trigger] places@[k]) < self.call().items@.len()
                    && self.call().items@[places@[k] as int].blocking,
            forall|j: int, k: int|
                0 <= j < k < places@.len() ==> #[trigger] places@[j] < #[trigger] places@[k],
            forall|i: int|
                0 <= i < self.call().items@.len() && (#[trigger] self.call().items@[i]).blocking
                    ==> places@.contains(i as usize),
    {
        let items = &self.call.items;
        let mut places: Vec<usize> = Vec::new();
        let mut i: usize = 0;
        while i < items.len()
            invariant
                items@ == self.call.items@,
                i <= items@.len(),
                forall|k: int|
                    0 <= k < places@.len() ==> (#[trigger] places@[k]) < i
                        && items@[places@[k] as int].blocking,
                forall|j: int, k: int|
                    0 <= j < k < places@.len() ==> #[trigger] places@[j] < #[trigger] places@[k],
                forall|m: int|
                    0 <= m < i && (#[trigger] items@[m]).blocking ==> places@.contains(m as usize),
            decreases items.len() - i,
        {
            if items[i].blocking {
                let ghost before = places@;
                places.push(i);
                assert forall|m: int| 0 <= m < i + 1 && (
                #[trigger] items@[m]).blocking implies places@.contains(m as usize) by {
                    if m < i {
                        let at = choose|at: int|
                            0 <= at < before.len() && before[at] == m as usize;
                        assert(places@[at] == m as usize);
                    } else {
                        assert(places@[places@.len() - 1] == m as usize);
                    }
                }
            }
            i += 1;
        }
        places
    }

    /// Whether the call goes on like this after its group was checked.
    pub open spec fn is_validated(
        self,
        sound: Result<bool, String>,
        passage: Passage<Admitted>,
    ) -> bool {
        match (passage, sound) {
            (Passage::Open(next), Ok(runs_group)) => {
                &&& next.call() == self.call()
                &&& next.allow_escape() == self.allow_escape()
                &&& next.snapshot() == self.snapshot()
                &&& next.runs_group() == runs_group
            },
            (Passage::Refused(report), Err(error)) => report@ == report_model(
                Seq::empty(),
                seq![group_failure(self.call().items@, error@)],
                None,
                false,
            ),
            _ => false,
        }
    }

    /// Goes on with the group: `sound` tells whether there is one to run, or why it
    /// cannot.
    pub fn validated(self, sound: Result<bool, String>) -> (passage: Passage<Admitted>)
        ensures
            self.is_validated(sound, passage),
    {
        match sound {
            Ok(runs_group) => Passage::Open(
                Admitted {
                    call: self.call,
                    allow_escape: self.allow_escape,
                    snapshot: self.snapshot,
                    runs_group,
                },
            ),
            Err(error) => {
                let items = &self.call.items;
                let mut index: usize = 0;
                while index < items.len() && !items[index].blocking
                    invariant
                        index <= items@.len(),
                        first_where(items@, |item: WriteItem| item.blocking, index as int)
                            == first_where(items@, |item: WriteItem| item.blocking, 0),
                    decreases items.len() - index,
                {
                    index += 1;
                }
                if index == items.len() {
                    index = 0;
                }
                let target = if index < items.len() {
                    items[index].item.target.clone()
                } else {
                    String::new()
                };
                let failure = ChangeFailure {
                    index,
                    target,
                    mode: "append".to_owned(),
                    kind: "resource".to_owned(),
                    error,
                };
                Passage::Refused(refuse(failure))
            },
        }
    }
}

/// A call is previewed where that is asked for, and not where it is declined; where nothing
/// is said it is previewed exactly if it renames anything.
pub proof fn law_renames_are_previewed(items: Seq<WriteItem>, preview: Option<bool>)
    ensures
        preview == Some(true) ==> is_preview(items, preview),
        preview == Some(false) ==> !is_preview(items, preview),
        preview is None ==> (is_preview(items, preview) <==> exists|i: int|
            0 <= i < items.len() && (#[trigger] items[i]).item.mode == ChangeMode::Rename),
{
}

/// The first item of a kind is one of that kind, with none before it; there is none exactly
/// if no item is of that kind.
pub proof fn law_first_item_is_found(
    items: Seq<WriteItem>,
    wanted: spec_fn(WriteItem) -> bool,
    from: int,
)
    requires
        0 <= from <= items.len(),
    ensures
        match first_where(items, wanted, from) {
            Some(at) => {
                &&& from <= at < items.len()
                &&& wanted(items[at])
                &&& forall|i: int| from <= i < at ==> !wanted(#[trigger] items[i])
            },
            None => forall|i: int| from <= i < items.len() ==> !wanted(#[trigger] items[i]),
        },
    decreases items.len() - from,
{
    if from < items.len() && !wanted(items[from]) {
        law_first_item_is_found(items, wanted, from + 1);
    }
}

/// Every file that leaves the worktree stops at the fence, in order, and nothing else does.
pub proof fn law_every_crossing_stops_at_the_fence(
    items: Seq<WriteItem>,
    crossings: Seq<Crossing>,
    from: int,
)
    requires
        0 <= from <= items.len(),
        crossings.len() == items.len(),
    ensures
        match next_crossing(items, crossings, from) {
            Some(at) => {
                &&& from <= at < items.len()
                &&& items[at].is_file()
                &&& crossings[at] == Crossing::Outside
                &&& forall|i: int|
                    from <= i < at ==> !((#[trigger] items[i]).is_file() && crossings[i]
                        == Crossing::Outside)
            },
            None => forall|i: int|
                from <= i < items.len() ==> !((#[trigger] items[i]).is_file() && crossings[i]
                    == Crossing::Outside),
        },
    decreases items.len() - from,
{
    if from < items.len() && !(items[from].is_file() && crossings[from] == Crossing::Outside) {
        law_every_crossing_stops_at_the_fence(items, crossings, from + 1);
    }
}

/// A fence lets pass what has nothing to stop, what the run allows, and what is allowed
/// when it is asked about. Without a run, or where it is denied, the change that was
/// stopped is charged, with the reason; a question that is open suspends the call.
pub proof fn law_fence_stops_what_is_not_allowed(
    items: Seq<WriteItem>,
    place: int,
    fence: RunFence,
    decision: FenceDecision,
    no_run: Seq<char>,
)
    requires
        0 <= place < items.len(),
    ensures
        fence_outcome(items, None, fence, decision, no_run) is Open,
        ({
            let outcome = fence_outcome(items, Some(place), fence, decision, no_run);
            &&& outcome is Open <==> fence == RunFence::Allow || (fence != RunFence::NoRun
                && decision is Allow)
            &&& outcome is Suspended <==> fence != RunFence::Allow && fence != RunFence::NoRun
                && decision is Suspended
            &&& outcome matches FenceOutcome::Denied(failure) ==> {
                &&& failure.index == place
                &&& failure.target == items[place].item.target@
                &&& fence == RunFence::NoRun ==> failure.error == no_run
                &&& fence != RunFence::NoRun ==> (decision matches FenceDecision::Deny(message)
                    && failure.error == message@)
            }
        }),
{
}

/// The snapshot holds each file of the tree under its target, as text, and the files that
/// are not there as missing.
pub proof fn law_snapshot_holds_the_tree(files: Seq<TreeFile>, k: int, i: int)
    requires
        0 <= i < k <= files.len(),
        tree_contents(files, k) is Ok,
        forall|j: int| i < j < k ==> (#[trigger] files[j]).path@ != files[i].path@,
    ensures
        ({
            let held = tree_contents(files, k)->Ok_0;
            let target = "file:"@ + files[i].path@;
            &&& held.contains_key(target)
            &&& files[i].bytes is None ==> held[target] is None
            &&& files[i].bytes matches Some(bytes) ==> held[target] == Some(
                vstd::utf8::decode_utf8(bytes@),
            )
        }),
    decreases k,
{
    if i < k - 1 {
        law_snapshot_holds_the_tree(files, k - 1, i);
        let here = "file:"@ + files[i].path@;
        let last = "file:"@ + files[k - 1].path@;
        assert(files[k - 1].path@ != files[i].path@);
        if here == last {
            assert(here.skip("file:"@.len() as int) =~= files[i].path@);
            assert(last.skip("file:"@.len() as int) =~= files[k - 1].path@);
        }
    }
}

/// Whether a file of the tree is no text.
pub open spec fn is_not_text(file: TreeFile) -> bool {
    file.bytes matches Some(bytes) && !vstd::utf8::valid_utf8(bytes@)
}

/// A tree is refused exactly if a file of it is not text, and the first such file is named.
pub proof fn law_tree_of_texts_is_read(files: Seq<TreeFile>, k: int)
    requires
        0 <= k <= files.len(),
    ensures
        tree_contents(files, k) is Ok <==> forall|i: int|
            0 <= i < k ==> !is_not_text(#[trigger] files[i]),
        tree_contents(files, k) matches Err(path) ==> exists|i: int|
            0 <= i < k && is_not_text(#[trigger] files[i]) && files[i].path@ == path && forall|
                j: int,
            |
                0 <= j < i ==> !is_not_text(#[trigger] files[j]),
    decreases k,
{
    if k > 0 {
        law_tree_of_texts_is_read(files, k - 1);
        let file = files[k - 1];
        if tree_contents(files, k - 1) is Ok {
            if is_not_text(file) {
                assert(is_not_text(files[k - 1]));
            } else {
                assert(tree_contents(files, k) is Ok);
            }
        } else {
            let i = choose|i: int|
                0 <= i < k - 1 && is_not_text(#[trigger] files[i]) && files[i].path@
                    == tree_contents(files, k - 1)->Err_0 && forall|j: int|
                    0 <= j < i ==> !is_not_text(#[trigger] files[j]);
            assert(is_not_text(files[i]));
        }
    }
}

/// What stops a call before it is applied is reported as its one failure: nothing is
/// applied and nothing committed. It is charged to the first change of the call.
pub proof fn law_early_failure_applies_nothing(
    items: Seq<WriteItem>,
    atomic: bool,
    error: Seq<char>,
)
    requires
        items.len() > 0,
    ensures
        ({
            let report = early_failure(atomic, first_change_failure(items, error));
            &&& report.applied.len() == 0
            &&& report.commit is None
            &&& report.failures.len() == 1
            &&& report.failures[0].error == error
            &&& report.failures[0].index == 0
            &&& report.failures[0].target == items[0].item.target@
            &&& report.failures[0].mode == mode_text(items[0].item.mode)
        }),
{
}

/// A call that is not valid names the first change that is wrong, by its place, its target
/// and its mode as they were written, and says what is wrong.
pub proof fn law_validation_names_the_first_wrong_change(
    errors: Seq<Option<usize>>,
    message: Seq<char>,
    payload: JsonModel,
)
    ensures
        ({
            let failure = validation_failure(errors, message, payload);
            &&& failure.error == message
            &&& failure.kind == "validation"@
            &&& match first_index(errors) {
                Some(index) => {
                    &&& failure.index == index
                    &&& exists|i: int|
                        0 <= i < errors.len() && #[trigger] errors[i] == Some(index) && forall|
                            j: int,
                        |
                            0 <= j < i ==> (#[trigger] errors[j]) is None
                },
                None => failure.index == 0 && failure.target.len() == 0 && failure.mode.len() == 0
                    && forall|i: int| 0 <= i < errors.len() ==> (#[trigger] errors[i]) is None,
            }
        }),
{
    lemma_first_index(errors);
}

/// The first place that is named, with none named before it.
proof fn lemma_first_index(errors: Seq<Option<usize>>)
    ensures
        match first_index(errors) {
            Some(index) => exists|i: int|
                0 <= i < errors.len() && #[trigger] errors[i] == Some(index) && forall|j: int|
                    0 <= j < i ==> (#[trigger] errors[j]) is None,
            None => forall|i: int| 0 <= i < errors.len() ==> (#[trigger] errors[i]) is None,
        },
    decreases errors.len(),
{
    if errors.len() > 0 {
        if errors[0] is Some {
            assert(errors[0] == first_index(errors));
        } else {
            let rest = errors.skip(1);
            lemma_first_index(rest);
            match first_index(rest) {
                Some(index) => {
                    let i = choose|i: int|
                        0 <= i < rest.len() && #[trigger] rest[i] == Some(index) && forall|j: int|
                            0 <= j < i ==> (#[trigger] rest[j]) is None;
                    assert(errors[i + 1] == Some(index));
                    assert forall|j: int| 0 <= j < i + 1 implies (#[trigger] errors[j]) is None by {
                        if j > 0 {
                            assert(rest[j - 1] == errors[j]);
                        }
                    }
                },
                None => {
                    assert forall|i: int| 0 <= i < errors.len() implies (
                    #[trigger] errors[i]) is None by {
                        if i > 0 {
                            assert(rest[i - 1] == errors[i]);
                        }
                    }
                },
            }
        }
    }
}

/// A group that cannot run is charged to the first change that would wait for it.
pub proof fn law_group_failure_is_charged_to_the_group(items: Seq<WriteItem>, error: Seq<char>, i: int)
    requires
        0 <= i < items.len(),
        items[i].blocking,
        forall|j: int| 0 <= j < i ==> !(#[trigger] items[j]).blocking,
    ensures
        group_failure(items, error).index == i,
        group_failure(items, error).target == items[i].item.target@,
        group_failure(items, error).error == error,
        group_failure(items, error).kind == "resource"@,
{
    law_first_item_is_found(items, |item: WriteItem| item.blocking, 0);
}

/// A call that changes files is refused outside a worktree, at its first file; any other
/// call goes on as it is.
pub proof fn law_files_change_in_worktrees_only(
    at: AtWorktree,
    in_worktree: bool,
    passage: Passage<AtFileFence>,
)
    requires
        at.is_located(in_worktree, passage),
    ensures
        passage matches Passage::Open(next) ==> next.call() == at.call(),
        in_worktree ==> passage is Open,
        passage matches Passage::Refused(report) ==> report@.applied.len() == 0
            && report@.failures.len() == 1 && report@.failures[0].error
            == NON_WORKTREE_CHANGE_ERROR@,
{
}

/// The fence of a run is raised exactly if files change and the run asks or denies; what
/// escapes is let out exactly if the run allows it or a crossing is an escape, and never
/// without a run.
pub proof fn law_fence_is_raised_by_asking_runs(
    at: AtFileFence,
    fence: RunFence,
    crossings: Vec<Crossing>,
    walk: FenceWalk,
)
    requires
        at.is_fenced(fence, crossings, walk),
    ensures
        walk.call() == at.call() && walk.crossings() == crossings@ && walk.at() == 0,
        walk.raised() ==> fence == RunFence::Ask || fence == RunFence::Deny,
        !has_file(at.call().items@) ==> !walk.raised() && !walk.allow_escape(),
        has_file(at.call().items@) && (fence == RunFence::Ask || fence == RunFence::Deny)
            ==> walk.raised(),
        fence == RunFence::NoRun ==> !walk.allow_escape(),
        has_file(at.call().items@) && fence == RunFence::Allow ==> walk.allow_escape(),
{
}

/// A crossing that is allowed leads on to the next, one that is denied ends the call at its
/// change with the reason, and one that waits suspends it.
pub proof fn law_decisions_settle_their_crossing(
    walk: FenceWalk,
    decision: FenceDecision,
    passage: Passage<FenceWalk>,
)
    requires
        walk.is_decided(decision, passage),
        walk.pending() is Some,
    ensures
        passage is Open <==> decision is Allow,
        passage is Refused <==> decision is Deny,
        passage is Suspended <==> decision is Suspended,
        passage matches Passage::Open(next) ==> next.call() == walk.call() && next.crossings()
            == walk.crossings() && next.allow_escape() == walk.allow_escape() && next.raised()
            == walk.raised() && next.at() == walk.pending()->Some_0 + 1,
        (passage, decision) matches (Passage::Refused(report), FenceDecision::Deny(message))
            ==> report@.failures.len() == 1 && report@.failures[0].error == message@
            && report@.failures[0].index == walk.pending()->Some_0 as nat && report@.applied.len()
            == 0,
{
}

/// A call that changes files needs its lock, its head and its tree, and is refused without
/// any change where one of them is missing; a call that changes none needs none of them.
pub proof fn law_files_need_lock_and_head(
    lock: AtLock,
    locked: Result<(), String>,
    behind_lock: Passage<AtHead>,
    head: AtHead,
    resolved: Result<(), String>,
    behind_head: Passage<AtSnapshot>,
)
    requires
        lock.is_locked(locked, behind_lock),
        head.is_resolved(resolved, behind_head),
    ensures
        behind_lock is Open <==> !has_file(lock.call().items@) || locked is Ok,
        behind_head is Open <==> !has_file(head.call().items@) || resolved is Ok,
        behind_lock matches Passage::Open(next) ==> next.call() == lock.call()
            && next.allow_escape() == lock.allow_escape(),
        behind_head matches Passage::Open(next) ==> next.call() == head.call()
            && next.allow_escape() == head.allow_escape(),
        behind_lock matches Passage::Refused(report) ==> report@.applied.len() == 0
            && report@.failures.len() == 1,
        behind_head matches Passage::Refused(report) ==> report@.applied.len() == 0
            && report@.failures.len() == 1,
{
}

/// What a call works on is the tree that was read, and nothing where it changes no file.
pub proof fn law_call_works_on_the_tree_that_was_read(
    at: AtSnapshot,
    files: Result<Vec<TreeFile>, String>,
    passage: Passage<AtBlocking>,
)
    requires
        at.is_read(files, passage),
    ensures
        !has_file(at.call().items@) ==> (passage matches Passage::Open(next)
            && next.snapshot().dom().is_empty()),
        has_file(at.call().items@) ==> (passage is Open <==> (files matches Ok(tree)
            && tree_contents(tree@, tree@.len() as int) is Ok)),
        passage matches Passage::Open(next) ==> next.call() == at.call() && next.allow_escape()
            == at.allow_escape(),
        passage matches Passage::Refused(report) ==> report@.applied.len() == 0
            && report@.failures.len() == 1,
{
}

/// A group that is not sound stops the call before anything is changed; otherwise the call
/// goes on with its tree, and runs the group where there is one.
pub proof fn law_unsound_group_stops_the_call(
    at: AtBlocking,
    sound: Result<bool, String>,
    passage: Passage<Admitted>,
)
    requires
        at.is_validated(sound, passage),
    ensures
        passage is Open <==> sound is Ok,
        passage matches Passage::Open(next) ==> next.call() == at.call() && next.snapshot()
            == at.snapshot() && next.allow_escape() == at.allow_escape() && sound == Ok::<
            bool,
            String,
        >(next.runs_group()),
        passage matches Passage::Refused(report) ==> report@.applied.len() == 0
            && report@.failures.len() == 1,
{
}

/// A target is relative to the home exactly if it begins there.
pub proof fn law_home_targets_begin_at_home(rest: Seq<char>, target: Seq<char>)
    ensures
        is_home_relative("cairn:~"@ + rest),
        is_home_relative(target) ==> exists|below: Seq<char>|
            target == #[trigger] ("cairn:~"@ + below),
{
    let whole = "cairn:~"@ + rest;
    assert("cairn:~"@ =~= whole.subrange(0, "cairn:~"@.len() as int));
    if is_home_relative(target) {
        let below = target.skip("cairn:~"@.len() as int);
        assert(target =~= "cairn:~"@ + below);
    }
}

/// A call changes files, renames them or has a mode exactly if one of its items does; it
/// escapes exactly if a file of it lies outside or at a place that may be written.
pub proof fn law_call_does_what_its_items_do(
    items: Seq<WriteItem>,
    crossings: Seq<Crossing>,
    mode: ChangeMode,
    at: int,
)
    requires
        0 <= at < items.len(),
        crossings.len() == items.len(),
    ensures
        items[at].item.mode == mode ==> has_mode(items, mode),
        (forall|i: int| 0 <= i < items.len() ==> (#[trigger] items[i]).item.mode != mode)
            ==> !has_mode(items, mode),
        items[at].is_file() && items[at].item.mode == ChangeMode::Rename ==> has_file_rename(items),
        (forall|i: int| 0 <= i < items.len() ==> !(#[trigger] items[i]).is_file())
            ==> !has_file_rename(items) && !any_escape(items, crossings),
        items[at].is_file() && (crossings[at] == Crossing::Outside || crossings[at]
            == Crossing::Writable) ==> any_escape(items, crossings),
        (forall|i: int|
            0 <= i < crossings.len() ==> #[trigger] crossings[i] != Crossing::Outside
                && crossings[i] != Crossing::Writable) ==> !any_escape(items, crossings),
{
    if any_escape(items, crossings) {
        let i = choose|i: int|
            #![trigger items[i], crossings[i]]
            0 <= i < items.len() && i < crossings.len() && items[i].is_file() && (crossings[i]
                == Crossing::Outside || crossings[i] == Crossing::Writable);
        assert(items[i].is_file());
        assert(crossings[i] == Crossing::Outside || crossings[i] == Crossing::Writable);
    }
}

/// A file of the tree that is no text is named where the call fails for it.
pub proof fn law_file_that_is_no_text_is_named(path: Seq<char>)
    ensures
        not_text_failure(path).target == "file:"@ + path,
        not_text_failure(path).error == "File `"@ + path + "` is not valid UTF-8"@,
        not_text_failure(path).kind == "file"@,
{
}

/// A change of a call is the item at its place, and what it does not say in text is empty.
pub proof fn law_raw_change_is_the_item(
    payload: JsonModel,
    items: Seq<JsonModel>,
    index: int,
    value: JsonModel,
    name: Seq<char>,
    text: Seq<char>,
)
    requires
        payload.member("changes"@) == Some(JsonModel::Array(items)),
        0 <= index,
    ensures
        index < items.len() ==> raw_change(payload, index) == Some(items[index]),
        index >= items.len() ==> raw_change(payload, index) is None,
        value.member(name) == Some(JsonModel::Text(text)) ==> text_member(value, name) == text,
        value.member(name) is None ==> text_member(value, name).len() == 0,
{
}

/// Only a target that begins at the home is replaced, by what it was resolved to; all else of
/// a change stays.
pub proof fn law_only_home_targets_are_resolved(
    item: ChangeItem,
    after: ChangeItem,
    resolved: Result<String, String>,
)
    requires
        takes_home(item, after, resolved),
    ensures
        after.mode == item.mode && after.payload == item.payload,
        !is_home_relative(item.target@) || resolved is Err ==> after.target == item.target,
        is_home_relative(item.target@) ==> (resolved matches Ok(target) ==> after.target == target),
{
}

} // verus!
