//! Applying a preview, from the call that asks for it to what becomes of the preview.
//!
//! The event of the preview is loaded, then the result that the preview gave, then
//! the call that was previewed. Every target that the preview hashed is hashed again,
//! and only where nothing has changed is the call carried out. Each step is a type of
//! its own that only the step before it hands out.
use vstd::prelude::*;
use vstd::string::*;
use crate::handlers::write::apply::{
    apply_check, check_apply, check_fresh, law_apply_stands_alone, load_apply_event, loaded_event,
    staleness, ActualTarget, ApplyCheck,
};
use crate::handlers::write::preview::{
    event_input, result_from, tool_input_from_event, tool_result_in_rows, ChangePreviewEvent,
    EventModel,
};
use crate::handlers::write::preview_run::{hash_models, TargetHash};
use crate::handlers::write::types::ChangeMode;
use crate::json::{Json, JsonModel};
use crate::text::{opt_text, same_text, text2, texts};

verus! {

/// What a call means for applying a preview.
#[derive(Debug)]
pub enum ApplyStart {
    /// The call applies no preview.
    Unrelated,
    /// The call is answered with this.
    Answer(String),
    /// The event of the preview is to be loaded.
    Load(AtEvent),
}

/// Before the event of the preview is loaded.
#[derive(Debug)]
pub struct AtEvent {
    run_id: String,
    sequence: i32,
    commit_msg: String,
}

/// Whether an apply starts like this.
pub open spec fn starts(
    modes: &Vec<ChangeMode>,
    preview: Option<bool>,
    run_id: Option<String>,
    commit_msg: Option<String>,
    event_seq: Option<i32>,
    start: ApplyStart,
) -> bool {
    match (
        start,
        apply_check(modes@, preview, run_id is Some, commit_msg is Some, event_seq),
    ) {
        (ApplyStart::Unrelated, Ok(None)) => true,
        (ApplyStart::Answer(answer), Err(reason)) => answer@ == reason,
        (ApplyStart::Load(next), Ok(Some(sequence))) => {
            &&& opt_text(run_id) == Some(next.run())
            &&& opt_text(commit_msg) == Some(next.message())
            &&& next.place() == sequence
        },
        _ => false,
    }
}

/// Takes up a call that may apply a preview.
pub fn handle_apply_change(
    modes: &Vec<ChangeMode>,
    preview: Option<bool>,
    run_id: Option<String>,
    commit_msg: Option<String>,
    event_seq: Option<i32>,
) -> (start: ApplyStart)
    ensures
        starts(modes, preview, run_id, commit_msg, event_seq, start),
{
    match check_apply(modes, preview, run_id.is_some(), commit_msg.is_some(), event_seq) {
        ApplyCheck::Unrelated => ApplyStart::Unrelated,
        ApplyCheck::Refused(reason) => ApplyStart::Answer(reason),
        ApplyCheck::Load(sequence) => match (run_id, commit_msg) {
            (Some(run_id), Some(commit_msg)) => ApplyStart::Load(
                AtEvent { run_id, sequence, commit_msg },
            ),
            _ => ApplyStart::Unrelated,
        },
    }
}

impl AtEvent {
    /// The run of the call.
    pub closed spec fn run(self) -> Seq<char> {
        self.run_id@
    }

    /// The place of the event.
    pub closed spec fn place(self) -> i32 {
        self.sequence
    }

    /// The message of the commit.
    pub closed spec fn message(self) -> Seq<char> {
        self.commit_msg@
    }

    /// The run of the call.
    pub fn run_id(&self) -> (run_id: &str)
        ensures
            run_id@ == self.run(),
    {
        self.run_id.as_str()
    }

    /// The place of the event.
    pub fn sequence(&self) -> (sequence: i32)
        ensures
            sequence == self.place(),
    {
        self.sequence
    }

    /// Takes the row of the event: its data, and what became of its preview.
    pub fn loaded(self, row: Result<Option<(String, Option<String>)>, String>) -> (next: Result<
        AtResult,
        String,
    >)
        ensures
            match (next, loaded_event(self.run(), self.place(), row)) {
                (Ok(next), Ok(event)) => next.event() == event && next.message() == self.message(),
                (Err(answer), Err(reason)) => answer@ == reason,
                _ => false,
            },
    {
        match load_apply_event(self.run_id.as_str(), self.sequence, row) {
            Ok(event) => Ok(AtResult { event, commit_msg: self.commit_msg }),
            Err(reason) => Err(reason),
        }
    }
}

/// Before the result of the preview is loaded.
#[derive(Debug)]
pub struct AtResult {
    event: ChangePreviewEvent,
    commit_msg: String,
}

/// The result of a preview among the events behind it, or the answer where there is
/// none.
pub open spec fn preview_result(event: EventModel, rows: Result<Vec<String>, String>) -> Result<
    Seq<char>,
    Seq<char>,
> {
    match rows {
        Err(error) => Err("Failed to load preview result: "@ + error@),
        Ok(rows) => match result_from(texts(rows@), event.tool_use_id, 0) {
            Some(result) => Ok(result),
            None => Err("Preview tool result is not available yet"@),
        },
    }
}

impl AtResult {
    /// The event of the preview.
    pub closed spec fn event(self) -> EventModel {
        self.event@
    }

    /// The message of the commit.
    pub closed spec fn message(self) -> Seq<char> {
        self.commit_msg@
    }

    /// Takes the events behind the preview, the earliest first.
    pub fn loaded(self, rows: Result<Vec<String>, String>) -> (next: Result<AtReport, String>)
        ensures
            match (next, preview_result(self.event(), rows)) {
                (Ok(next), Ok(result)) => {
                    &&& next.event() == self.event()
                    &&& next.message() == self.message()
                    &&& next.stored() == result
                },
                (Err(answer), Err(reason)) => answer@ == reason,
                _ => false,
            },
    {
        match rows {
            Err(error) => Err(text2("Failed to load preview result: ", error.as_str())),
            Ok(rows) => match tool_result_in_rows(&rows, self.event.tool_use_id.as_str()) {
                Some(result) => Ok(
                    AtReport { event: self.event, commit_msg: self.commit_msg, result },
                ),
                None => Err("Preview tool result is not available yet".to_owned()),
            },
        }
    }
}

/// Before the result of the preview is read as a report.
#[derive(Debug)]
pub struct AtReport {
    event: ChangePreviewEvent,
    commit_msg: String,
    result: String,
}

/// The call that was previewed, as it was recorded, or the answer where it cannot be
/// had. `hashes` is what the report of the preview promises of its targets.
pub open spec fn recorded_call(event: EventModel, hashes: Result<Vec<TargetHash>, String>) -> Result<
    JsonModel,
    Seq<char>,
> {
    match hashes {
        Err(error) => Err("Preview result is not a change report: "@ + error@),
        Ok(_) => event_input(event),
    }
}

impl AtReport {
    /// The event of the preview.
    pub closed spec fn event(self) -> EventModel {
        self.event@
    }

    /// The message of the commit.
    pub closed spec fn message(self) -> Seq<char> {
        self.commit_msg@
    }

    /// The result of the preview.
    pub closed spec fn stored(self) -> Seq<char> {
        self.result@
    }

    /// The result of the preview.
    pub fn result(&self) -> (result: &str)
        ensures
            result@ == self.stored(),
    {
        self.result.as_str()
    }

    /// Takes the target hashes of the report, or why the result is no report.
    pub fn read(self, hashes: Result<Vec<TargetHash>, String>) -> (next: Result<AtPayload, String>)
        ensures
            match (next, recorded_call(self.event(), hashes)) {
                (Ok(next), Ok(input)) => {
                    &&& next.event() == self.event()
                    &&& next.message() == self.message()
                    &&& hashes matches Ok(hashes) && next.expected() == hashes@
                    &&& next.recorded() == input
                },
                (Err(answer), Err(reason)) => answer@ == reason,
                _ => false,
            },
    {
        match hashes {
            Err(error) => Err(text2("Preview result is not a change report: ", error.as_str())),
            Ok(expected) => match tool_input_from_event(&self.event) {
                Ok(input) => Ok(
                    AtPayload { event: self.event, commit_msg: self.commit_msg, expected, input },
                ),
                Err(reason) => Err(reason),
            },
        }
    }
}

/// Before the recorded call is read.
#[derive(Debug)]
pub struct AtPayload {
    event: ChangePreviewEvent,
    commit_msg: String,
    expected: Vec<TargetHash>,
    input: Json,
}

impl AtPayload {
    /// The event of the preview.
    pub closed spec fn event(self) -> EventModel {
        self.event@
    }

    /// The message of the commit.
    pub closed spec fn message(self) -> Seq<char> {
        self.commit_msg@
    }

    /// The targets as they were previewed.
    pub closed spec fn expected(self) -> Seq<TargetHash> {
        self.expected@
    }

    /// The recorded call.
    pub closed spec fn recorded(self) -> JsonModel {
        self.input.model()
    }

    /// The recorded call.
    pub fn input(&self) -> (input: &Json)
        ensures
            input.model() == self.recorded(),
    {
        &self.input
    }

    /// Takes the targets of the changes of the recorded call, or why it cannot be
    /// read.
    pub fn read(self, targets: Result<Vec<String>, String>) -> (next: Result<AtTargets, String>)
        ensures
            match (next, targets) {
                (Ok(next), Ok(targets)) => {
                    &&& next.event() == self.event()
                    &&& next.message() == self.message()
                    &&& next.expected() == self.expected()
                    &&& next.changed() == texts(targets@)
                },
                (Err(answer), Err(error)) => answer@ == "Stored preview payload is invalid: "@
                    + error@,
                _ => false,
            },
    {
        match targets {
            Ok(targets) => Ok(
                AtTargets {
                    event: self.event,
                    commit_msg: self.commit_msg,
                    expected: self.expected,
                    targets,
                },
            ),
            Err(error) => Err(text2("Stored preview payload is invalid: ", error.as_str())),
        }
    }
}

/// How a target is hashed again.
#[derive(Clone, Copy, Debug, PartialEq, Eq, Structural)]
pub enum HashOrder {
    /// As a file.
    File,
    /// By the change at this place.
    Resource(usize),
    /// Not at all: no change is there to hash it by.
    Missing,
}

/// The place of the first change from `from` on with the given target.
pub open spec fn change_of(targets: Seq<Seq<char>>, target: Seq<char>, from: int) -> Option<int>
    decreases targets.len() - from,
{
    if from >= targets.len() {
        None
    } else if targets[from] == target {
        Some(from)
    } else {
        change_of(targets, target, from + 1)
    }
}

/// How a target is hashed again: a file by itself, anything else by the change to it,
/// and by the first change where none is to it.
pub open spec fn hash_order(targets: Seq<Seq<char>>, hash: TargetHash) -> HashOrder {
    if hash.kind@ == "file"@ {
        HashOrder::File
    } else {
        match change_of(targets, hash.target@, 0) {
            Some(place) => HashOrder::Resource(place as usize),
            None => if targets.len() > 0 {
                HashOrder::Resource(0)
            } else {
                HashOrder::Missing
            },
        }
    }
}

/// How targets are hashed again.
pub open spec fn hash_orders(targets: Seq<Seq<char>>, hashes: Seq<TargetHash>) -> Seq<HashOrder> {
    hashes.map_values(|hash: TargetHash| hash_order(targets, hash))
}

/// A target as it is now, where it was hashed as ordered.
pub open spec fn actual_target(
    order: HashOrder,
    found: Result<TargetHash, String>,
) -> ActualTarget {
    match (order, found) {
        (HashOrder::Missing, _) => ActualTarget::NoChange,
        (_, Ok(hash)) => ActualTarget::Found(hash),
        (_, Err(error)) => ActualTarget::Failed(error),
    }
}

/// Targets as they are now.
pub open spec fn actual_targets(
    orders: Seq<HashOrder>,
    found: Seq<Result<TargetHash, String>>,
) -> Seq<ActualTarget> {
    Seq::new(orders.len(), |i: int| actual_target(orders[i], found[i]))
}

/// What becomes of a preview.
#[derive(Debug)]
pub struct StatusChange {
    pub run_id: String,
    pub sequence: i32,
    pub status: &'static str,
}

/// The status of a preview whose targets have changed.
pub const STALE: &'static str = "stale";

/// The status of a preview that was applied.
pub const APPLIED: &'static str = "applied";

/// Whether a change of status is about this event, and to this status.
pub open spec fn status_is(change: StatusChange, event: EventModel, status: Seq<char>) -> bool {
    &&& change.run_id@ == event.run_id
    &&& change.sequence == event.sequence
    &&& change.status@ == status
}

/// What hashing the targets again came to.
#[derive(Debug)]
pub enum Freshness {
    /// The preview is marked, and the call is answered with this.
    Stale(StatusChange, String),
    /// The recorded call is carried out.
    Fresh(AtWrite),
}

/// Before the targets are hashed again.
#[derive(Debug)]
pub struct AtTargets {
    event: ChangePreviewEvent,
    commit_msg: String,
    expected: Vec<TargetHash>,
    targets: Vec<String>,
}

impl AtTargets {
    /// The event of the preview.
    pub closed spec fn event(self) -> EventModel {
        self.event@
    }

    /// The message of the commit.
    pub closed spec fn message(self) -> Seq<char> {
        self.commit_msg@
    }

    /// The targets as they were previewed.
    pub closed spec fn expected(self) -> Seq<TargetHash> {
        self.expected@
    }

    /// The targets of the changes.
    pub closed spec fn changed(self) -> Seq<Seq<char>> {
        texts(self.targets@)
    }

    /// The targets as they were previewed.
    pub fn hashes(&self) -> (hashes: &Vec<TargetHash>)
        ensures
            hashes@ == self.expected(),
    {
        &self.expected
    }

    fn find_change(&self, target: &str) -> (place: Option<usize>)
        ensures
            match (place, change_of(self.changed(), target@, 0)) {
                (Some(place), Some(found)) => place == found,
                (None, None) => true,
                _ => false,
            },
    {
        let ghost all = self.changed();
        let mut i: usize = 0;
        while i < self.targets.len()
            invariant
                i <= self.targets@.len(),
                all == texts(self.targets@),
                change_of(all, target@, i as int) == change_of(all, target@, 0),
            decreases self.targets.len() - i,
        {
            assert(all[i as int] == self.targets@[i as int]@);
            if same_text(self.targets[i].as_str(), target) {
                return Some(i);
            }
            i += 1;
        }
        None
    }

    fn order(&self, hash: &TargetHash) -> (order: HashOrder)
        ensures
            order == hash_order(self.changed(), *hash),
    {
        if same_text(hash.kind.as_str(), "file") {
            return HashOrder::File;
        }
        match self.find_change(hash.target.as_str()) {
            Some(place) => HashOrder::Resource(place),
            None => if self.targets.len() > 0 {
                HashOrder::Resource(0)
            } else {
                HashOrder::Missing
            },
        }
    }

    /// How the targets are to be hashed again, in their order.
    pub fn orders(&self) -> (orders: Vec<HashOrder>)
        ensures
            orders@ == hash_orders(self.changed(), self.expected()),
    {
        let mut orders: Vec<HashOrder> = Vec::new();
        let mut i: usize = 0;
        while i < self.expected.len()
            invariant
                i <= self.expected@.len(),
                orders@ == hash_orders(self.changed(), self.expected@.take(i as int)),
            decreases self.expected.len() - i,
        {
            let ghost before = self.expected@.take(i as int);
            orders.push(self.order(&self.expected[i]));
            proof {
                assert(self.expected@.take(i + 1) =~= before.push(self.expected@[i as int]));
            }
            assert(orders@ =~= hash_orders(self.changed(), self.expected@.take(i + 1)));
            i += 1;
        }
        assert(self.expected@.take(i as int) =~= self.expected@);
        orders
    }

    /// Whether this follows from the hashes that were found.
    pub open spec fn is_fresh_as(
        self,
        found: Vec<Result<TargetHash, String>>,
        freshness: Freshness,
    ) -> bool {
    let actual = actual_targets(
        hash_orders(self.changed(), self.expected()),
        found@,
    );
    match (freshness, staleness(hash_models(self.expected()), actual)) {
        (Freshness::Fresh(next), None) => next.event() == self.event()
            && next.message() == self.message(),
        (Freshness::Stale(change, answer), Some(reason)) => status_is(
            change,
            self.event(),
            STALE@,
        ) && answer@ == reason,
        _ => false,
    }
    }

    /// Takes the targets as they are now, one for each order.
    pub fn hashed(self, found: Vec<Result<TargetHash, String>>) -> (freshness: Freshness)
        requires
            found@.len() == self.expected().len(),
        ensures
            self.is_fresh_as(found, freshness),
    {
        let orders = self.orders();
        let ghost given = found@;
        let ghost wanted = actual_targets(orders@, given);
        let mut actual: Vec<ActualTarget> = Vec::new();
        for one in it: found
            invariant
                it.seq() == given,
                orders@.len() == given.len(),
                wanted == actual_targets(orders@, given),
                actual@ == wanted.take(it.index() as int),
        {
            let place: usize = actual.len();
            actual.push(
                match orders[place] {
                    HashOrder::Missing => ActualTarget::NoChange,
                    _ => match one {
                        Ok(hash) => ActualTarget::Found(hash),
                        Err(error) => ActualTarget::Failed(error),
                    },
                },
            );
            assert(actual@ =~= wanted.take(it.index() + 1));
        }
        assert(actual@ =~= wanted);
        match check_fresh(&self.expected, &actual) {
            Some(reason) => Freshness::Stale(
                StatusChange {
                    run_id: self.event.run_id,
                    sequence: self.event.sequence,
                    status: STALE,
                },
                reason,
            ),
            None => Freshness::Fresh(AtWrite { event: self.event, commit_msg: self.commit_msg }),
        }
    }
}

/// Before the recorded call is carried out.
#[derive(Debug)]
pub struct AtWrite {
    event: ChangePreviewEvent,
    commit_msg: String,
}

impl AtWrite {
    /// The event of the preview.
    pub closed spec fn event(self) -> EventModel {
        self.event@
    }

    /// The message of the commit.
    pub closed spec fn message(self) -> Seq<char> {
        self.commit_msg@
    }

    /// The message that the recorded call is carried out with. A preview carries none
    /// of its own, since it writes nothing.
    pub fn commit_msg(&self) -> (message: &str)
        ensures
            message@ == self.message(),
    {
        self.commit_msg.as_str()
    }

    /// Whether the event is marked like this after so many failures.
    pub open spec fn marks(self, failures: Option<usize>, change: Option<StatusChange>) -> bool {
        match change {
            Some(change) => failures == Some(0usize) && status_is(
                change,
                self.event(),
                APPLIED@,
            ),
            None => failures != Some(0usize),
        }
    }

    /// Takes what the recorded call came to: how many of its changes failed, if it was
    /// answered with a report.
    pub fn written(self, failures: Option<usize>) -> (change: Option<StatusChange>)
        ensures
            self.marks(failures, change),
    {
        match failures {
            Some(0) => Some(
                StatusChange {
                    run_id: self.event.run_id,
                    sequence: self.event.sequence,
                    status: APPLIED,
                },
            ),
            _ => None,
        }
    }
}

/// A preview is loaded only where it is pending still, so one that was applied or
/// found stale is not applied.
pub proof fn law_only_pending_previews_are_applied(
    run_id: Seq<char>,
    sequence: i32,
    row: Result<Option<(String, Option<String>)>, String>,
)
    ensures
        loaded_event(run_id, sequence, row) matches Ok(event) ==> {
            &&& event.status == Some("pending"@)
            &&& event.run_id == run_id
            &&& event.sequence == sequence
            &&& event.status != Some(STALE@)
            &&& event.status != Some(APPLIED@)
        },
{
    reveal_strlit("pending");
    reveal_strlit("stale");
    reveal_strlit("applied");
    assert("pending"@.len() == 7 && "stale"@.len() == 5);
    assert("pending"@[0] == 'p' && "applied"@[0] == 'a');
}

/// A target belongs to the first change that names it, and to none that does not.
pub proof fn law_first_change_of_a_target_counts(
    targets: Seq<Seq<char>>,
    target: Seq<char>,
    from: int,
)
    requires
        0 <= from <= targets.len(),
    ensures
        match change_of(targets, target, from) {
            Some(i) => from <= i < targets.len() && targets[i] == target && forall|j: int|
                from <= j < i ==> #[trigger] targets[j] != target,
            None => forall|j: int| from <= j < targets.len() ==> #[trigger] targets[j] != target,
        },
    decreases targets.len() - from,
{
    if from < targets.len() && targets[from] != target {
        law_first_change_of_a_target_counts(targets, target, from + 1);
    }
}

/// A file is hashed as a file; anything else by the change that names it, or else by the
/// first change, and not at all where there is none.
pub proof fn law_targets_are_hashed_by_their_change(
    targets: Seq<Seq<char>>,
    hash: TargetHash,
    at: int,
)
    requires
        targets.len() <= usize::MAX,
    ensures
        hash.kind@ == "file"@ <==> hash_order(targets, hash) is File,
        hash.kind@ != "file"@ ==> (hash_order(targets, hash) is Missing <==> targets.len() == 0),
        hash_order(targets, hash) matches HashOrder::Resource(place) ==> {
            &&& place < targets.len()
            &&& targets[place as int] == hash.target@ || (place == 0 && forall|j: int|
                0 <= j < targets.len() ==> #[trigger] targets[j] != hash.target@)
            &&& 0 <= at < targets.len() && targets[at] == hash.target@ ==> place <= at
        },
{
    law_first_change_of_a_target_counts(targets, hash.target@, 0);
}

/// What a target is found to be is what its hashing gave, unless there is no change to hash
/// it by.
pub proof fn law_found_hashes_are_compared(order: HashOrder, found: Result<TargetHash, String>)
    ensures
        actual_target(order, found) is NoChange <==> order is Missing,
        !(order is Missing) ==> (found matches Ok(hash) ==> actual_target(order, found)
            == ActualTarget::Found(hash)),
        !(order is Missing) ==> (found matches Err(error) ==> actual_target(order, found)
            == ActualTarget::Failed(error)),
{
}

/// The result of a preview is the one that is stored under its call.
pub proof fn law_preview_result_is_the_stored_one(
    event: EventModel,
    rows: Result<Vec<String>, String>,
)
    ensures
        rows is Err ==> preview_result(event, rows) is Err,
        rows matches Ok(found) ==> match preview_result(event, rows) {
            Ok(result) => result_from(texts(found@), event.tool_use_id, 0) == Some(result),
            Err(_) => result_from(texts(found@), event.tool_use_id, 0) is None,
        },
{
}

/// A preview is applied exactly if each of its targets is as it was; otherwise its event is
/// marked as stale, and nothing is written.
pub proof fn law_stale_preview_is_not_applied(
    at: AtTargets,
    found: Vec<Result<TargetHash, String>>,
    freshness: Freshness,
)
    requires
        found@.len() == at.expected().len(),
        at.is_fresh_as(found, freshness),
    ensures
        ({
            let actual = actual_targets(hash_orders(at.changed(), at.expected()), found@);
            let stale = staleness(hash_models(at.expected()), actual);
            &&& freshness is Fresh <==> stale is None
            &&& freshness matches Freshness::Fresh(next) ==> next.event() == at.event()
                && next.message() == at.message()
            &&& freshness matches Freshness::Stale(change, answer) ==> change.status@ == "stale"@
                && change.run_id@ == at.event().run_id && change.sequence == at.event().sequence
                && stale == Some(answer@)
        }),
{
}

/// A preview is marked as applied exactly if its changes were written without a failure.
pub proof fn law_preview_is_applied_once_it_is_written(
    at: AtWrite,
    failures: Option<usize>,
    change: Option<StatusChange>,
)
    requires
        at.marks(failures, change),
    ensures
        change is Some <==> failures == Some(0usize),
        change matches Some(marked) ==> marked.status@ == "applied"@ && marked.run_id@
            == at.event().run_id && marked.sequence == at.event().sequence,
{
}

/// An apply that starts has the run, the message and the event that the call names.
pub proof fn law_apply_keeps_run_and_message(
    modes: &Vec<ChangeMode>,
    preview: Option<bool>,
    run_id: Option<String>,
    commit_msg: Option<String>,
    event_seq: Option<i32>,
    start: ApplyStart,
)
    requires
        starts(modes, preview, run_id, commit_msg, event_seq, start),
    ensures
        start is Unrelated <==> forall|i: int|
            0 <= i < modes@.len() ==> #[trigger] modes@[i] != ChangeMode::Apply,
        start matches ApplyStart::Load(next) ==> opt_text(run_id) == Some(next.run()) && opt_text(
            commit_msg,
        ) == Some(next.message()) && event_seq == Some(next.place()) && preview != Some(true)
            && modes@.len() == 1,
{
    law_apply_stands_alone(modes@, preview, run_id is Some, commit_msg is Some, event_seq);
}

/// The call that is carried out is the one that was previewed, and only if its result can be
/// read as a preview.
pub proof fn law_previewed_call_is_carried_out(
    event: EventModel,
    hashes: Result<Vec<TargetHash>, String>,
)
    ensures
        hashes matches Err(error) ==> recorded_call(event, hashes) == Err::<JsonModel, Seq<char>>(
            "Preview result is not a change report: "@ + error@,
        ),
        hashes is Ok ==> recorded_call(event, hashes) == event_input(event),
{
}

} // verus!
