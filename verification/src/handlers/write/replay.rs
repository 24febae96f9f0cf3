//! What makes a second delivery of one `write` call a no-op.
//!
//! The first record of a call wins. Only the delivery that made it may correct it,
//! and every later delivery is given it as its answer, marked as a repetition.
use vstd::prelude::*;
use vstd::string::*;
use crate::handlers::tool_use_correlation::Claim;
use crate::json::{
    has_whole_numbers, is_set, json_text, json_value, json_with, set_member, JsonModel,
};
use crate::scan::{ends_with, slice_of, strip_prefix, stripped_prefix};
use crate::text::{chars_of, opt_text, same_text, string_of, text3, texts};

verus! {

/// The provider call that a delivery of a `write` belongs to.
#[derive(Debug)]
pub struct DeliveredCall {
    pub run_id: String,
    pub id: String,
}

/// What identifies a batch: the targets of its items, and everything else that it
/// says in one canonical text.
#[derive(Debug)]
pub struct ChangeIdentity {
    pub targets: Vec<String>,
    pub rest: String,
}

/// What an identity says.
pub open spec fn identity_model(identity: ChangeIdentity) -> (Seq<Seq<char>>, Seq<char>) {
    (texts(identity.targets@), identity.rest@)
}

/// `text` without the slashes at its back.
pub open spec fn without_trailing_slashes(text: Seq<char>) -> Seq<char>
    decreases text.len(),
{
    if text.len() > 0 && text.last() == '/' {
        without_trailing_slashes(text.drop_last())
    } else {
        text
    }
}

/// `text` without the slashes at its back.
pub fn trim_trailing_slashes(text: &str) -> (out: String)
    ensures
        out@ == without_trailing_slashes(text@),
{
    let chars = chars_of(text);
    let mut to: usize = chars.len();
    assert(text@.take(text@.len() as int) =~= text@);
    while to > 0 && chars[to - 1] == '/'
        invariant
            to <= chars@.len(),
            chars@ == text@,
            without_trailing_slashes(text@.take(to as int)) == without_trailing_slashes(text@),
        decreases to,
    {
        to = to - 1;
        assert(text@.take(to + 1).drop_last() =~= text@.take(to as int));
    }
    let part = slice_of(&chars, 0, to);
    assert(part@ =~= text@.take(to as int));
    string_of(part.as_slice())
}

/// A target with the caller's home spelled out.
pub open spec fn canonical_target(target: Seq<char>, home: Seq<char>) -> Seq<char> {
    match stripped_prefix(target, "cairn:~/"@) {
        Some(suffix) => if suffix.len() == 0 {
            home
        } else {
            without_trailing_slashes(home) + "/"@ + suffix
        },
        None => if target == "cairn:~"@ {
            home
        } else {
            target
        },
    }
}

/// A target with the caller's home spelled out.
pub fn canonicalize_target(target: &str, home_uri: &str) -> (out: String)
    ensures
        out@ == canonical_target(target@, home_uri@),
{
    match strip_prefix(target, "cairn:~/") {
        Some(suffix) => {
            if suffix.as_str().is_empty() {
                home_uri.to_owned()
            } else {
                text3(trim_trailing_slashes(home_uri).as_str(), "/", suffix.as_str())
            }
        },
        None => {
            if same_text(target, "cairn:~") {
                home_uri.to_owned()
            } else {
                target.to_owned()
            }
        },
    }
}

/// The targets of a batch with the caller's home spelled out.
pub open spec fn canonical_targets(targets: Seq<Seq<char>>, home: Seq<char>) -> Seq<Seq<char>> {
    targets.map_values(|target: Seq<char>| canonical_target(target, home))
}

/// The identity of a batch. Two spellings of one batch, with the home written as
/// `cairn:~` or spelled out, have the same identity; batches aimed at different
/// resources do not.
pub fn change_identity(targets: &Vec<String>, rest: &str, home_uri: &str) -> (identity:
    ChangeIdentity)
    ensures
        identity_model(identity) == (canonical_targets(texts(targets@), home_uri@), rest@),
{
    let ghost wanted = canonical_targets(texts(targets@), home_uri@);
    let mut canonical: Vec<String> = Vec::new();
    let mut i: usize = 0;
    while i < targets.len()
        invariant
            i <= targets@.len(),
            wanted == canonical_targets(texts(targets@), home_uri@),
            texts(canonical@) == wanted.take(i as int),
        decreases targets.len() - i,
    {
        let ghost done = texts(canonical@);
        assert(texts(targets@)[i as int] == targets@[i as int]@);
        let target = canonicalize_target(targets[i].as_str(), home_uri);
        canonical.push(target);
        i += 1;
        assert(texts(canonical@) =~= done.push(target@));
        assert(wanted.take(i as int) =~= wanted.take(i - 1).push(target@));
    }
    assert(wanted.take(i as int) =~= wanted);
    ChangeIdentity { targets: canonical, rest: rest.to_owned() }
}

/// Whether a tool name is that of the `write` tool, alone or behind a server name.
pub open spec fn is_write_name(name: Seq<char>) -> bool {
    name == "write"@ || "__write"@.is_suffix_of(name)
}

/// Whether two lists hold the same texts in the same order.
fn same_list(a: &Vec<String>, b: &Vec<String>) -> (same: bool)
    ensures
        same == (texts(a@) == texts(b@)),
{
    if a.len() != b.len() {
        assert(texts(a@).len() != texts(b@).len());
        return false;
    }
    let mut i: usize = 0;
    while i < a.len()
        invariant
            i <= a@.len(),
            a@.len() == b@.len(),
            forall|k: int| 0 <= k < i ==> (#[trigger] a@[k])@ == b@[k]@,
        decreases a.len() - i,
    {
        if a[i] != b[i] {
            assert(texts(a@)[i as int] != texts(b@)[i as int]);
            return false;
        }
        i += 1;
    }
    assert(texts(a@) =~= texts(b@));
    true
}

/// Whether the answer tells if a call is this write.
pub open spec fn is_same_write(
    name: &str,
    identity: &Option<ChangeIdentity>,
    expected: &ChangeIdentity,
    is: bool,
) -> bool {
    is == (is_write_name(name@) && (*identity matches Some(found) && identity_model(found)
        == identity_model(*expected)))
}

/// Whether a recorded invocation is the `write` call that a delivery came from.
/// `identity` is that of the invocation, where its input is a batch at all.
pub fn is_this_writes_call(
    name: &str,
    identity: &Option<ChangeIdentity>,
    expected: &ChangeIdentity,
) -> (is: bool)
    ensures
        is_same_write(name, identity, expected, is),
{
    if !(same_text(name, "write") || ends_with(name, "__write")) {
        return false;
    }
    match identity {
        Some(found) => same_list(&found.targets, &expected.targets) && same_text(
            found.rest.as_str(),
            expected.rest.as_str(),
        ),
        None => false,
    }
}

/// What stands in the ledger while the delivery that made the record is at work.
pub const RESOURCE_PENDING: &'static str = "__cairn_write_resource_pending__";

/// How long a delivery waits for another one's report, in milliseconds.
pub const CLAIM_TIMEOUT_MS: u64 = 30_000;

/// How long a delivery waits between two looks at the ledger, in milliseconds.
pub const CLAIM_POLL_MS: u64 = 50;

/// Whether a delivery made the record of its call.
#[derive(Clone, Copy, Debug, PartialEq, Eq, Structural)]
pub enum LedgerClaim {
    Claimed,
    NotClaimed,
}

/// Whether an insertion comes to this claim.
pub open spec fn is_claim(inserted: Result<u64, String>, claim: LedgerClaim) -> bool {
    claim == LedgerClaim::Claimed <==> (inserted matches Ok(rows) && rows == 1)
}

/// Reads off whether a delivery made the record: exactly where it added one row.
/// A ledger that cannot be written makes none.
pub fn ledger_claim(inserted: Result<u64, String>) -> (claim: LedgerClaim)
    ensures
        is_claim(inserted, claim),
{
    match inserted {
        Ok(rows) => {
            if rows == 1 {
                LedgerClaim::Claimed
            } else {
                LedgerClaim::NotClaimed
            }
        },
        Err(_) => LedgerClaim::NotClaimed,
    }
}

/// What a delivery of a call on resources is to do.
#[derive(Debug)]
pub enum ResourceClaim {
    /// It made the record and applies the changes.
    Claimed,
    /// Another delivery settled the call with this report.
    Replayed(String),
    /// Another delivery made the record and has not settled it in time.
    Stalled,
    /// There is no record to go by.
    Unguarded,
}

/// What a look at the ledger means for a delivery that did not make the record.
#[derive(Debug)]
pub enum ClaimStep {
    Wait,
    Decided(ResourceClaim),
}

/// Whether this step follows from what became of the claim.
pub open spec fn claims(
    claim: LedgerClaim,
    recorded: Option<String>,
    timed_out: bool,
    step: ClaimStep,
) -> bool {
    match claim {
        LedgerClaim::Claimed => step == ClaimStep::Decided(ResourceClaim::Claimed),
        LedgerClaim::NotClaimed => match recorded {
            None => step == ClaimStep::Decided(ResourceClaim::Unguarded),
            Some(report) => if report@ != RESOURCE_PENDING@ {
                step == ClaimStep::Decided(ResourceClaim::Replayed(report))
            } else if timed_out {
                step == ClaimStep::Decided(ResourceClaim::Stalled)
            } else {
                step == ClaimStep::Wait
            },
        },
    }
}

/// Decides what a delivery is to do from its claim and, where it made none, the
/// report that the ledger holds and whether the time to wait is over.
pub fn claim_resource_call(
    claim: LedgerClaim,
    recorded: Option<String>,
    timed_out: bool,
) -> (step: ClaimStep)
    ensures
        claims(claim, recorded, timed_out, step),
{
    match claim {
        LedgerClaim::Claimed => ClaimStep::Decided(ResourceClaim::Claimed),
        LedgerClaim::NotClaimed => match recorded {
            None => ClaimStep::Decided(ResourceClaim::Unguarded),
            Some(report) => {
                if !same_text(report.as_str(), RESOURCE_PENDING) {
                    ClaimStep::Decided(ResourceClaim::Replayed(report))
                } else if timed_out {
                    ClaimStep::Decided(ResourceClaim::Stalled)
                } else {
                    ClaimStep::Wait
                }
            },
        },
    }
}

/// The records of calls, each under the run and the id of the call.
pub type Ledger = Map<(Seq<char>, Seq<char>), Seq<char>>;

/// The ledger after a delivery of `call` recorded `report`: the first record wins.
pub open spec fn recorded(ledger: Ledger, call: (Seq<char>, Seq<char>), report: Seq<char>) -> Ledger {
    if ledger.contains_key(call) {
        ledger
    } else {
        ledger.insert(call, report)
    }
}

/// The ledger after a delivery with the claim `claim` finalized `report`: only the
/// one that made the record may correct it.
pub open spec fn finalized(
    ledger: Ledger,
    call: (Seq<char>, Seq<char>),
    claim: LedgerClaim,
    report: Seq<char>,
) -> Ledger {
    if claim == LedgerClaim::Claimed && ledger.contains_key(call) {
        ledger.insert(call, report)
    } else {
        ledger
    }
}

/// The claim that a delivery has on the record of its call.
pub open spec fn claim_on(ledger: Ledger, call: (Seq<char>, Seq<char>)) -> LedgerClaim {
    if ledger.contains_key(call) {
        LedgerClaim::NotClaimed
    } else {
        LedgerClaim::Claimed
    }
}

/// Of two deliveries of one call only the first makes the record, and whatever the
/// second one reports, the record stays as the first one left it.
pub proof fn law_first_record_wins(
    ledger: Ledger,
    call: (Seq<char>, Seq<char>),
    first: Seq<char>,
    second: Seq<char>,
    correction: Seq<char>,
)
    ensures
        claim_on(recorded(ledger, call, first), call) == LedgerClaim::NotClaimed,
        recorded(recorded(ledger, call, first), call, second) == recorded(ledger, call, first),
        finalized(
            recorded(ledger, call, first),
            call,
            claim_on(recorded(ledger, call, first), call),
            correction,
        ) == recorded(ledger, call, first),
        claim_on(ledger, call) == LedgerClaim::Claimed ==> finalized(
            recorded(ledger, call, first),
            call,
            LedgerClaim::Claimed,
            correction,
        )[call] == correction,
{
}

/// Records of other calls are left alone.
pub proof fn law_other_calls_are_left_alone(
    ledger: Ledger,
    call: (Seq<char>, Seq<char>),
    other: (Seq<char>, Seq<char>),
    claim: LedgerClaim,
    report: Seq<char>,
)
    requires
        call != other,
    ensures
        recorded(ledger, call, report).contains_key(other) <==> ledger.contains_key(other),
        ledger.contains_key(other) ==> recorded(ledger, call, report)[other] == ledger[other],
        finalized(ledger, call, claim, report).contains_key(other) <==> ledger.contains_key(other),
        ledger.contains_key(other) ==> finalized(ledger, call, claim, report)[other]
            == ledger[other],
{
}

/// The home may be written either way: a batch aimed at `cairn:~/x` and one aimed
/// at the same place below the home spelled out have the same targets. A home that is
/// itself written with `cairn:~/` is not spelled out.
pub proof fn law_home_spelling_does_not_matter(home: Seq<char>, suffix: Seq<char>)
    requires
        suffix.len() > 0,
        !"cairn:~/"@.is_prefix_of(without_trailing_slashes(home)),
    ensures
        canonical_target("cairn:~/"@ + suffix, home) == canonical_target(
            without_trailing_slashes(home) + "/"@ + suffix,
            home,
        ),
{
    reveal_strlit("cairn:~/");
    reveal_strlit("cairn:~");
    reveal_strlit("/");
    let base = without_trailing_slashes(home);
    let spelled = base + "/"@ + suffix;
    let short = "cairn:~/"@ + suffix;
    assert(short.take(8) =~= "cairn:~/"@);
    assert(short.skip(8) =~= suffix);
    assert("cairn:~/"@.is_prefix_of(short));
    assert(spelled[base.len() as int] == '/');
    if "cairn:~/"@.is_prefix_of(spelled) {
        assert forall|i: int| 0 <= i < 8 implies spelled[i] == "cairn:~/"@[i] by {
            assert(spelled.take(8)[i] == "cairn:~/"@[i]);
        }
        if base.len() >= 8 {
            assert(base.take(8) =~= "cairn:~/"@);
        }
        assert(base.len() == 7);
        assert(spelled.skip(8) =~= suffix);
    }
    assert(spelled != "cairn:~"@);
}

/// The call that a delivery belongs to: the one that it names, or else the one that
/// was claimed for its run. A delivery without a run, or whose call is not certain,
/// belongs to none and is not guarded against a second one.
pub open spec fn delivered_call(
    run_id: Option<Seq<char>>,
    tool_use_id: Option<Seq<char>>,
    claimed: Option<(String, Claim)>,
) -> Option<(Seq<char>, Seq<char>)> {
    match (run_id, tool_use_id, claimed) {
        (None, _, _) => None,
        (Some(run), Some(id), _) => Some((run, id)),
        (Some(_), None, Some((run, Claim::One(id)))) => Some((run@, id@)),
        (Some(_), None, _) => None,
    }
}

/// The call that a delivery belongs to. `claimed` is the run that was looked up for
/// it, with the claim on a call of that run.
pub fn invoking_write_call(
    run_id: Option<String>,
    tool_use_id: Option<String>,
    claimed: Option<(String, Claim)>,
) -> (call: Option<DeliveredCall>)
    ensures
        match (call, delivered_call(opt_text(run_id), opt_text(tool_use_id), claimed)) {
            (Some(found), Some(model)) => found.run_id@ == model.0 && found.id@ == model.1,
            (None, None) => true,
            _ => false,
        },
{
    match (run_id, tool_use_id, claimed) {
        (None, _, _) => None,
        (Some(run_id), Some(id), _) => Some(DeliveredCall { run_id, id }),
        (Some(_), None, Some((run_id, Claim::One(id)))) => Some(DeliveredCall { run_id, id }),
        (Some(_), None, _) => None,
    }
}

/// The note on a report that is given a second time.
pub const REPLAY_NOTE: &'static str =
    "This write was delivered more than once. The report below is the one the first delivery produced; nothing was applied a second time.";

/// A recorded report with the note: a report that is no JSON object cannot carry
/// one and stays as it is.
pub open spec fn marked_report(report: Seq<char>) -> Seq<char> {
    match json_value(report) {
        Ok(value) => if value is Object {
            match json_text(json_with(value, "replayed"@, REPLAY_NOTE@)) {
                Some(marked) => marked,
                None => report,
            }
        } else {
            report
        },
        Err(_) => report,
    }
}

/// Whether a recorded report can carry the note: it is a JSON object, and its numbers
/// are whole, as those of every report are.
pub open spec fn is_markable(report: Seq<char>) -> bool {
    json_value(report) matches Ok(value) && value is Object && has_whole_numbers(value)
}

/// Marks a recorded report as the repetition that it is. What is marked reads as the
/// report with the note among its members and all else unchanged, and is not changed
/// when it is marked again; what is no object comes back as it is.
pub fn mark_as_replay(report: &str) -> (marked: String)
    ensures
        marked@ == marked_report(report@),
        match json_value(report@) {
            Ok(value) => value is Object || marked@ == report@,
            Err(_) => marked@ == report@,
        },
        is_markable(report@) ==> {
            &&& json_value(marked@) matches Ok(after)
            &&& is_set(json_value(report@)->Ok_0, after, "replayed"@, REPLAY_NOTE@)
            &&& marked_report(marked@) == marked@
        },
{
    match set_member(report, "replayed", REPLAY_NOTE) {
        Some(marked) => marked,
        None => report.to_owned(),
    }
}

/// A target that begins at the home is spelled out below it, with one slash between, and
/// the home itself is the home; every other target stays as it is.
pub proof fn law_targets_are_spelled_out(target: Seq<char>, home: Seq<char>, suffix: Seq<char>)
    ensures
        suffix.len() > 0 ==> exists|base: Seq<char>|
            base.is_prefix_of(home) && (base.len() > 0 ==> base.last() != '/') && (forall|i: int|
                base.len() <= i < home.len() ==> #[trigger] home[i] == '/')
                && canonical_target("cairn:~/"@ + suffix, home) == #[trigger] (base + "/"@ + suffix),
        canonical_target("cairn:~"@, home) == home,
        canonical_target("cairn:~/"@, home) == home,
        target != "cairn:~"@ && !"cairn:~/"@.is_prefix_of(target) ==> canonical_target(target, home)
            == target,
{
    reveal_strlit("cairn:~/");
    reveal_strlit("cairn:~");
    let base = without_trailing_slashes(home);
    lemma_base_of_home(home);
    let short = "cairn:~/"@ + suffix;
    assert(short.subrange(0, 8) =~= "cairn:~/"@);
    assert(short.skip(8) =~= suffix);
    assert("cairn:~/"@.skip(8) =~= Seq::empty());
    if "cairn:~/"@.is_prefix_of("cairn:~"@) {
        assert(false);
    }
    assert(canonical_target(short, home) == if suffix.len() == 0 {
        home
    } else {
        base + "/"@ + suffix
    });
}

/// What is left of a home without the slashes at its end.
proof fn lemma_base_of_home(home: Seq<char>)
    ensures
        without_trailing_slashes(home).is_prefix_of(home),
        without_trailing_slashes(home).len() > 0 ==> without_trailing_slashes(home).last() != '/',
        forall|i: int|
            without_trailing_slashes(home).len() <= i < home.len() ==> #[trigger] home[i] == '/',
    decreases home.len(),
{
    if home.len() > 0 && home.last() == '/' {
        lemma_base_of_home(home.drop_last());
        let base = without_trailing_slashes(home);
        assert(base =~= home.subrange(0, base.len() as int));
        assert forall|i: int| base.len() <= i < home.len() implies #[trigger] home[i] == '/' by {
            if i < home.len() - 1 {
                assert(home.drop_last()[i] == home[i]);
            }
        }
    }
}

/// A `write` is known by its own name, or by that name behind two underscores.
pub proof fn law_write_is_known_by_its_name(front: Seq<char>)
    ensures
        is_write_name("write"@),
        is_write_name(front + "__write"@),
        is_write_name(front) ==> front == "write"@ || exists|before: Seq<char>|
            front == #[trigger] (before + "__write"@),
{
    let named = front + "__write"@;
    assert("__write"@ =~= named.subrange(named.len() - "__write"@.len(), named.len() as int));
    if "__write"@.is_suffix_of(front) {
        let before = front.take(front.len() - "__write"@.len());
        assert(front =~= before + "__write"@);
    }
}

/// The targets of a call are compared in their order, each spelled out.
pub proof fn law_targets_keep_their_order(targets: Seq<Seq<char>>, home: Seq<char>)
    ensures
        canonical_targets(targets, home).len() == targets.len(),
        forall|i: int|
            0 <= i < targets.len() ==> #[trigger] canonical_targets(targets, home)[i]
                == canonical_target(targets[i], home),
{
}

/// A delivery is known by its run and its call: by the id that it came with, or else by the
/// one call that it can only be. Without a run, or without such a call, it is not known.
pub proof fn law_delivery_is_known_by_its_call(
    run_id: Option<Seq<char>>,
    tool_use_id: Option<Seq<char>>,
    claimed: Option<(String, Claim)>,
)
    ensures
        run_id is None ==> delivered_call(run_id, tool_use_id, claimed) is None,
        run_id matches Some(run) ==> (tool_use_id matches Some(id) ==> delivered_call(
            run_id,
            tool_use_id,
            claimed,
        ) == Some((run, id))),
        run_id is Some && tool_use_id is None ==> match claimed {
            Some((run, Claim::One(id))) => delivered_call(run_id, tool_use_id, claimed) == Some(
                (run@, id@),
            ),
            _ => delivered_call(run_id, tool_use_id, claimed) is None,
        },
{
}

/// A write runs exactly if it holds the claim or nothing is recorded of it; a report that
/// is there is given back, and while another delivery is at work there is a wait, up to its
/// end.
pub proof fn law_write_runs_once(
    claim: LedgerClaim,
    recorded: Option<String>,
    timed_out: bool,
    step: ClaimStep,
)
    requires
        claims(claim, recorded, timed_out, step),
    ensures
        claim is Claimed <==> step == ClaimStep::Decided(ResourceClaim::Claimed),
        step == ClaimStep::Decided(ResourceClaim::Unguarded) <==> claim is NotClaimed && recorded
            is None,
        step matches ClaimStep::Decided(ResourceClaim::Replayed(report)) ==> claim is NotClaimed
            && recorded == Some(report) && report@ != "__cairn_write_resource_pending__"@,
        claim is NotClaimed ==> (recorded matches Some(report) ==> (report@
            == "__cairn_write_resource_pending__"@ ==> (step is Wait <==> !timed_out) && (step
            == ClaimStep::Decided(ResourceClaim::Stalled) <==> timed_out))),
        claim is NotClaimed ==> (recorded matches Some(report) ==> (report@
            != "__cairn_write_resource_pending__"@ ==> step == ClaimStep::Decided(
            ResourceClaim::Replayed(report),
        ))),
{
}

/// Two calls are the same write exactly if both are writes, of the same targets in the same
/// order and with the same rest.
pub proof fn law_same_write_has_the_same_targets(
    name: &str,
    identity: &Option<ChangeIdentity>,
    expected: &ChangeIdentity,
    is: bool,
)
    requires
        is_same_write(name, identity, expected, is),
    ensures
        is ==> is_write_name(name@) && identity is Some,
        *identity matches Some(found) ==> (is <==> is_write_name(name@) && texts(found.targets@)
            == texts(expected.targets@) && found.rest@ == expected.rest@),
{
}

/// A report that is no object is replayed as it is; any other is marked.
pub proof fn law_only_objects_are_marked(report: Seq<char>, value: JsonModel, marked: Seq<char>)
    ensures
        json_value(report) is Err ==> marked_report(report) == report,
        json_value(report) == Ok::<JsonModel, Seq<char>>(value) && !(value is Object)
            ==> marked_report(report) == report,
        json_value(report) == Ok::<JsonModel, Seq<char>>(value) && value is Object && json_text(
            json_with(value, "replayed"@, REPLAY_NOTE@),
        ) == Some(marked) ==> marked_report(report) == marked,
{
}

/// A delivery holds the claim exactly if its insertion made a row.
pub proof fn law_claim_is_held_by_who_inserts(inserted: Result<u64, String>, claim: LedgerClaim)
    requires
        is_claim(inserted, claim),
    ensures
        claim is Claimed <==> inserted == Ok::<u64, String>(1),
        inserted is Err ==> claim is NotClaimed,
{
}

} // verus!
