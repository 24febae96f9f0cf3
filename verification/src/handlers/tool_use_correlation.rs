//! Finding the provider call that a callback belongs to.
//!
//! A callback carries no id of its own, so it is matched against the calls in the
//! transcript of its turn. What makes a claim safe is that it is exclusive: a call
//! that is answered or claimed is no candidate, and a tie is refused.
use vstd::prelude::*;
use crate::json::{clone_json, json_value, models, parse_json, Json, JsonModel};
use crate::text::{contains_item, opt_str, texts};

verus! {

/// What correlating a callback with its provider call found.
#[derive(Debug)]
pub enum Claim {
    /// Exactly one call matched; this is its id.
    One(String),
    /// No call matched.
    Missing,
    /// This many calls matched and nothing tells them apart.
    Ambiguous(usize),
}

/// What a claim says.
pub enum ClaimModel {
    One(Seq<char>),
    Missing,
    Ambiguous(nat),
}

impl View for Claim {
    type V = ClaimModel;

    open spec fn view(&self) -> ClaimModel {
        match *self {
            Claim::One(id) => ClaimModel::One(id@),
            Claim::Missing => ClaimModel::Missing,
            Claim::Ambiguous(count) => ClaimModel::Ambiguous(count as nat),
        }
    }
}

/// A call of a tool in an assistant event.
#[derive(Debug)]
pub struct ToolUse {
    pub id: String,
    pub name: String,
    pub input: Json,
}

/// What a tool call says.
pub struct UseModel {
    pub id: Seq<char>,
    pub name: Seq<char>,
    pub input: JsonModel,
}

impl View for ToolUse {
    type V = UseModel;

    open spec fn view(&self) -> UseModel {
        UseModel { id: self.id@, name: self.name@, input: self.input.model() }
    }
}

/// What tool calls say.
pub open spec fn use_models(uses: Seq<ToolUse>) -> Seq<UseModel> {
    uses.map_values(|call: ToolUse| call@)
}

/// The id of a call: its member `id`, or where it has none `toolUseId`.
pub open spec fn use_id(tool: JsonModel) -> Option<Seq<char>> {
    match tool.member("id"@) {
        Some(id) => id.text(),
        None => match tool.member("toolUseId"@) {
            Some(id) => id.text(),
            None => None,
        },
    }
}

/// The call that an item of an event records, where it has a name, an input and an
/// id.
pub open spec fn use_of(tool: JsonModel) -> Option<UseModel> {
    match (tool.member("name"@), tool.member("input"@), use_id(tool)) {
        (Some(name), Some(input), Some(id)) => match name.text() {
            Some(name) => Some(UseModel { id, name, input }),
            None => None,
        },
        _ => None,
    }
}

/// The calls among the first `k` items of an event, the last one first.
pub open spec fn uses_among(tools: Seq<JsonModel>, k: int) -> Seq<UseModel>
    decreases k,
{
    if k <= 0 {
        Seq::empty()
    } else {
        let rest = uses_among(tools, k - 1);
        match use_of(tools[k - 1]) {
            Some(call) => seq![call] + rest,
            None => rest,
        }
    }
}

/// The calls that the text of an event records, the last one first. Text that is
/// no such event records none.
pub open spec fn uses_in_event(data: Seq<char>) -> Seq<UseModel> {
    match json_value(data) {
        Ok(event) => match event.member("toolUses"@) {
            Some(tools) => match tools.items() {
                Some(items) => uses_among(items, items.len() as int),
                None => Seq::empty(),
            },
            None => Seq::empty(),
        },
        Err(_) => Seq::empty(),
    }
}

/// The calls that the first `k` events record.
pub open spec fn uses_in_events(events: Seq<Seq<char>>, k: int) -> Seq<UseModel>
    decreases k,
{
    if k <= 0 {
        Seq::empty()
    } else {
        uses_in_events(events, k - 1) + uses_in_event(events[k - 1])
    }
}

/// The id of a call.
pub fn read_id(tool: &Json) -> (id: Option<&str>)
    ensures
        opt_str(id) == use_id(tool.model()),
{
    match tool.get("id") {
        Some(id) => id.as_str(),
        None => match tool.get("toolUseId") {
            Some(id) => id.as_str(),
            None => None,
        },
    }
}

/// Reads one item of an event.
fn read_use(tool: &Json) -> (call: Option<ToolUse>)
    ensures
        match call {
            Some(found) => use_of(tool.model()) == Some(found@),
            None => use_of(tool.model()) is None,
        },
{
    let name = match tool.get("name") {
        Some(name) => match name.as_str() {
            Some(name) => name,
            None => return None,
        },
        None => return None,
    };
    let input = match tool.get("input") {
        Some(input) => input,
        None => return None,
    };
    match read_id(tool) {
        Some(id) => Some(
            ToolUse { id: id.to_owned(), name: name.to_owned(), input: clone_json(input) },
        ),
        None => None,
    }
}

/// Adds the calls of one event.
fn add_event_uses(uses: &mut Vec<ToolUse>, data: &str)
    ensures
        use_models(final(uses)@) == use_models(old(uses)@) + uses_in_event(data@),
{
    let ghost start = use_models(uses@);
    assert(start + Seq::<UseModel>::empty() =~= start);
    let event = match parse_json(data) {
        Ok(event) => event,
        Err(_) => return ,
    };
    let tools = match event.get("toolUses") {
        Some(tools) => match tools.as_array() {
            Some(tools) => tools,
            None => return ,
        },
        None => return ,
    };
    let ghost items = models(tools@);
    let ghost all = uses_among(items, items.len() as int);
    let mut k: usize = tools.len();
    while k > 0
        invariant
            k <= tools@.len(),
            items == models(tools@),
            all == uses_among(items, items.len() as int),
            use_models(uses@) + uses_among(items, k as int) == start + all,
        decreases k,
    {
        let ghost done = use_models(uses@);
        let ghost rest = uses_among(items, k - 1);
        assert(items[k - 1] == tools@[k - 1].model());
        if let Some(call) = read_use(&tools[k - 1]) {
            let ghost said = call@;
            uses.push(call);
            assert(use_models(uses@) =~= done.push(said));
            assert(done.push(said) + rest =~= done + (seq![said] + rest));
        }
        k = k - 1;
    }
    assert(use_models(uses@) + Seq::<UseModel>::empty() =~= use_models(uses@));
}

/// The calls that assistant events record, in the order of the events and within
/// each event the last one first. The events are given newest first.
pub fn tool_uses(event_data: &Vec<String>) -> (uses: Vec<ToolUse>)
    ensures
        use_models(uses@) == uses_in_events(texts(event_data@), event_data@.len() as int),
{
    let mut uses: Vec<ToolUse> = Vec::new();
    assert(use_models(uses@) =~= Seq::empty());
    let mut k: usize = 0;
    while k < event_data.len()
        invariant
            k <= event_data@.len(),
            use_models(uses@) == uses_in_events(texts(event_data@), k as int),
        decreases event_data.len() - k,
    {
        assert(texts(event_data@)[k as int] == event_data@[k as int]@);
        add_event_uses(&mut uses, event_data[k].as_str());
        k += 1;
    }
    uses
}

/// The ids of the first `k` calls that are accepted and not spoken for, each once,
/// in order.
pub open spec fn free_ids(
    uses: Seq<UseModel>,
    accepted: Seq<bool>,
    spoken_for: Seq<Seq<char>>,
    k: int,
) -> Seq<Seq<char>>
    decreases k,
{
    if k <= 0 {
        Seq::empty()
    } else {
        let before = free_ids(uses, accepted, spoken_for, k - 1);
        let id = uses[k - 1].id;
        if accepted[k - 1] && !spoken_for.contains(id) && !before.contains(id) {
            before.push(id)
        } else {
            before
        }
    }
}

/// What a list of candidates comes to.
pub open spec fn claim_on(candidates: Seq<Seq<char>>) -> ClaimModel {
    if candidates.len() == 0 {
        ClaimModel::Missing
    } else if candidates.len() == 1 {
        ClaimModel::One(candidates[0])
    } else {
        ClaimModel::Ambiguous(candidates.len())
    }
}

/// Claims the one call that is accepted and not spoken for.
pub fn claim_from_uses(
    uses: &Vec<ToolUse>,
    accepted: &Vec<bool>,
    spoken_for: &Vec<String>,
) -> (claim: Claim)
    requires
        accepted@.len() == uses@.len(),
    ensures
        claim@ == claim_on(
            free_ids(use_models(uses@), accepted@, texts(spoken_for@), uses@.len() as int),
        ),
{
    let ghost calls = use_models(uses@);
    let mut candidates: Vec<String> = Vec::new();
    assert(texts(candidates@) =~= Seq::empty());
    let mut k: usize = 0;
    while k < uses.len()
        invariant
            k <= uses@.len(),
            accepted@.len() == uses@.len(),
            calls == use_models(uses@),
            texts(candidates@) == free_ids(calls, accepted@, texts(spoken_for@), k as int),
        decreases uses.len() - k,
    {
        let ghost before = texts(candidates@);
        assert(calls[k as int] == uses@[k as int]@);
        let id = uses[k].id.as_str();
        if accepted[k] && !contains_item(spoken_for, id) && !contains_item(&candidates, id) {
            candidates.push(id.to_owned());
            assert(texts(candidates@) =~= before.push(id@));
        }
        k += 1;
    }
    assert(texts(candidates@).len() == candidates@.len());
    if candidates.len() == 0 {
        Claim::Missing
    } else if candidates.len() == 1 {
        assert(texts(candidates@)[0] == candidates@[0]@);
        Claim::One(candidates[0].clone())
    } else {
        Claim::Ambiguous(candidates.len())
    }
}

/// Whether `accepted` is what `matches` answered for each call.
pub open spec fn answered_by<P: Fn(&str, &Json) -> bool>(
    matches: P,
    uses: Seq<ToolUse>,
    accepted: Seq<bool>,
) -> bool {
    &&& accepted.len() == uses.len()
    &&& forall|i: int|
        0 <= i < uses.len() ==> answers_for(matches, #[trigger] uses[i], accepted[i])
}

/// Whether `answer` is what `matches` may answer for a call.
pub open spec fn answers_for<P: Fn(&str, &Json) -> bool>(
    matches: P,
    call: ToolUse,
    answer: bool,
) -> bool {
    exists|name: &str| #[trigger]
        call_ensures(matches, (name, &call.input), answer) && name@ == call.name@
}

/// Claims the one call in the events that `matches` accepts and that is not spoken
/// for. The events are given newest first.
pub fn claim_from_events<P: Fn(&str, &Json) -> bool>(
    event_data: &Vec<String>,
    spoken_for: &Vec<String>,
    matches: P,
) -> (claim: Claim)
    requires
        forall|name: &str, input: &Json| #[trigger] call_requires(matches, (name, input)),
    ensures
        exists|uses: Seq<ToolUse>, accepted: Seq<bool>| #[trigger]
            answered_by(matches, uses, accepted) && use_models(uses) == uses_in_events(
                texts(event_data@),
                event_data@.len() as int,
            ) && claim@ == claim_on(
                free_ids(use_models(uses), accepted, texts(spoken_for@), uses.len() as int),
            ),
{
    let uses = tool_uses(event_data);
    let mut accepted: Vec<bool> = Vec::new();
    let mut i: usize = 0;
    while i < uses.len()
        invariant
            i <= uses@.len(),
            accepted@.len() == i,
            forall|name: &str, input: &Json| #[trigger] call_requires(matches, (name, input)),
            forall|k: int|
                0 <= k < i ==> answers_for(matches, #[trigger] uses@[k], accepted@[k]),
        decreases uses.len() - i,
    {
        let name = uses[i].name.as_str();
        let answer = matches(name, &uses[i].input);
        assert(call_ensures(matches, (name, &uses@[i as int].input), answer));
        assert(answers_for(matches, uses@[i as int], answer));
        accepted.push(answer);
        i += 1;
    }
    assert(answered_by(matches, uses@, accepted@));
    claim_from_uses(&uses, &accepted, spoken_for)
}

/// How often a claim is tried while the transcript may still be on its way.
pub const CLAIM_ATTEMPTS: u32 = 20;

/// How long a claim waits between two tries, in milliseconds.
pub const CLAIM_RETRY_MS: u64 = 50;

/// Whether to look again: only where nothing matched, and not for ever.
pub fn try_again(claim: &Claim, attempts: u32) -> (again: bool)
    ensures
        again == (claim@ is Missing && attempts < CLAIM_ATTEMPTS),
{
    match claim {
        Claim::Missing => attempts < CLAIM_ATTEMPTS,
        _ => false,
    }
}

/// The candidates are accepted, not spoken for and all different, and every call
/// that is accepted and not spoken for is among them.
pub proof fn lemma_free_ids(
    uses: Seq<UseModel>,
    accepted: Seq<bool>,
    spoken_for: Seq<Seq<char>>,
    k: int,
)
    requires
        0 <= k <= uses.len(),
        accepted.len() == uses.len(),
    ensures
        free_ids(uses, accepted, spoken_for, k).no_duplicates(),
        forall|j: int|
            0 <= j < free_ids(uses, accepted, spoken_for, k).len() ==> !spoken_for.contains(
                #[trigger] free_ids(uses, accepted, spoken_for, k)[j],
            ),
        forall|i: int|
            0 <= i < k && accepted[i] && !spoken_for.contains((#[trigger] uses[i]).id)
                ==> free_ids(uses, accepted, spoken_for, k).contains(uses[i].id),
    decreases k,
{
    if k > 0 {
        lemma_free_ids(uses, accepted, spoken_for, k - 1);
        let before = free_ids(uses, accepted, spoken_for, k - 1);
        let after = free_ids(uses, accepted, spoken_for, k);
        assert forall|i: int|
            0 <= i < k && accepted[i] && !spoken_for.contains(
                (#[trigger] uses[i]).id,
            ) implies after.contains(uses[i].id) by {
            if i < k - 1 {
                assert(before.contains(uses[i].id));
                let j = choose|j: int| 0 <= j < before.len() && before[j] == uses[i].id;
                assert(after[j] == uses[i].id);
            } else if before.contains(uses[i].id) {
                assert(after == before);
            } else {
                assert(after[after.len() - 1] == uses[i].id);
            }
        }
    }
}

/// A claim is exclusive: a claimed call is not spoken for, and every other call
/// that could be meant is spoken for or is the same one.
pub proof fn law_claim_is_exclusive(
    uses: Seq<UseModel>,
    accepted: Seq<bool>,
    spoken_for: Seq<Seq<char>>,
)
    requires
        accepted.len() == uses.len(),
    ensures
        match claim_on(free_ids(uses, accepted, spoken_for, uses.len() as int)) {
            ClaimModel::One(id) => !spoken_for.contains(id) && forall|i: int|
                0 <= i < uses.len() && accepted[i] ==> (#[trigger] uses[i]).id == id
                    || spoken_for.contains(uses[i].id),
            ClaimModel::Missing => forall|i: int|
                0 <= i < uses.len() && accepted[i] ==> spoken_for.contains(
                    (#[trigger] uses[i]).id,
                ),
            ClaimModel::Ambiguous(count) => count >= 2,
        },
{
    let ids = free_ids(uses, accepted, spoken_for, uses.len() as int);
    lemma_free_ids(uses, accepted, spoken_for, uses.len() as int);
    assert forall|i: int|
        0 <= i < uses.len() && accepted[i] && !spoken_for.contains(
            (#[trigger] uses[i]).id,
        ) implies ids.contains(uses[i].id) by {}
    if ids.len() == 1 {
        assert(!spoken_for.contains(ids[0]));
    }
}

/// The id of a call is the text under `id`, or where there is nothing under that, under
/// `toolUseId`.
pub proof fn law_call_goes_by_its_id(tool: JsonModel, id: Seq<char>)
    ensures
        tool.member("id"@) == Some(JsonModel::Text(id)) ==> use_id(tool) == Some(id),
        tool.member("id"@) is None && tool.member("toolUseId"@) == Some(JsonModel::Text(id))
            ==> use_id(tool) == Some(id),
        use_id(tool) == Some(id) ==> tool.member("id"@) == Some(JsonModel::Text(id))
            || tool.member("toolUseId"@) == Some(JsonModel::Text(id)),
{
}

/// A call is read with its id, its name and its input, and not read if one of them is
/// missing.
pub proof fn law_call_is_read_whole(tool: JsonModel)
    ensures
        use_of(tool) is Some <==> use_id(tool) is Some && tool.member("input"@) is Some && (
        tool.member("name"@) matches Some(name) && name is Text),
        use_of(tool) matches Some(call) ==> {
            &&& use_id(tool) == Some(call.id)
            &&& tool.member("name"@) == Some(JsonModel::Text(call.name))
            &&& tool.member("input"@) == Some(call.input)
        },
{
}

/// The calls of an event come out newest first: a call behind the others comes before them.
pub proof fn law_newest_call_comes_first(tools: Seq<JsonModel>, k: int)
    requires
        0 < k <= tools.len(),
    ensures
        use_of(tools[k - 1]) matches Some(call) ==> uses_among(tools, k).len() == uses_among(
            tools,
            k - 1,
        ).len() + 1 && uses_among(tools, k)[0] == call && uses_among(tools, k).skip(1)
            == uses_among(tools, k - 1),
        use_of(tools[k - 1]) is None ==> uses_among(tools, k) == uses_among(tools, k - 1),
        uses_among(tools, 0) == Seq::<UseModel>::empty(),
{
    if let Some(call) = use_of(tools[k - 1]) {
        assert(uses_among(tools, k).skip(1) =~= uses_among(tools, k - 1));
    }
}

/// The calls of the events stand in the order of the events, none left out.
pub proof fn law_events_keep_their_order(events: Seq<Seq<char>>, k: int)
    requires
        0 < k <= events.len(),
    ensures
        uses_in_events(events, k) == uses_in_events(events, k - 1) + uses_in_event(events[k - 1]),
        uses_in_events(events, 0) == Seq::<UseModel>::empty(),
{
}

/// An event that is no JSON, or has no list of calls, has no calls; another has those of its
/// list.
pub proof fn law_calls_are_those_of_the_list(
    data: Seq<char>,
    event: JsonModel,
    items: Seq<JsonModel>,
)
    ensures
        json_value(data) is Err ==> uses_in_event(data).len() == 0,
        json_value(data) == Ok::<JsonModel, Seq<char>>(event) && event.member("toolUses"@)
            is None ==> uses_in_event(data).len() == 0,
        json_value(data) == Ok::<JsonModel, Seq<char>>(event) && event.member("toolUses"@) == Some(
            JsonModel::Array(items),
        ) ==> uses_in_event(data) == uses_among(items, items.len() as int),
{
}

/// An id can be claimed exactly if a call with it was accepted and nobody else spoke for it;
/// no id stands twice.
pub proof fn law_free_ids_are_accepted_and_not_spoken_for(
    uses: Seq<UseModel>,
    accepted: Seq<bool>,
    spoken_for: Seq<Seq<char>>,
    k: int,
)
    requires
        0 <= k <= uses.len(),
        accepted.len() == uses.len(),
    ensures
        free_ids(uses, accepted, spoken_for, k).no_duplicates(),
        forall|id: Seq<char>| #[trigger]
            free_ids(uses, accepted, spoken_for, k).contains(id) <==> !spoken_for.contains(id)
                && exists|i: int| 0 <= i < k && accepted[i] && (#[trigger] uses[i]).id == id,
    decreases k,
{
    if k > 0 {
        law_free_ids_are_accepted_and_not_spoken_for(uses, accepted, spoken_for, k - 1);
        let before = free_ids(uses, accepted, spoken_for, k - 1);
        let after = free_ids(uses, accepted, spoken_for, k);
        let last = uses[k - 1].id;
        assert forall|id: Seq<char>| #[trigger]
            after.contains(id) <==> !spoken_for.contains(id) && exists|i: int|
                0 <= i < k && accepted[i] && (#[trigger] uses[i]).id == id by {
            if after.contains(id) {
                let j = choose|j: int| 0 <= j < after.len() && after[j] == id;
                if j < before.len() {
                    assert(before[j] == id);
                    assert(before.contains(id));
                    let i = choose|i: int|
                        0 <= i < k - 1 && accepted[i] && (#[trigger] uses[i]).id == id;
                    assert(uses[i].id == id);
                } else {
                    assert(uses[k - 1].id == id);
                }
            }
            if !spoken_for.contains(id) && exists|i: int|
                0 <= i < k && accepted[i] && (#[trigger] uses[i]).id == id {
                let i = choose|i: int| 0 <= i < k && accepted[i] && (#[trigger] uses[i]).id == id;
                if i < k - 1 || before.contains(id) {
                    assert(before.contains(id));
                    let j = choose|j: int| 0 <= j < before.len() && before[j] == id;
                    assert(after[j] == id);
                } else {
                    assert(after[before.len() as int] == id);
                }
            }
        }
    }
}

/// A claim succeeds exactly if one id alone can be claimed, and with that id; with none it
/// is missing, and with more it is not decided and says how many there are.
pub proof fn law_claim_is_made_iff_one_is_left(candidates: Seq<Seq<char>>, id: Seq<char>)
    ensures
        claim_on(candidates) == ClaimModel::One(id) <==> candidates == seq![id],
        claim_on(candidates) is Missing <==> candidates == Seq::<Seq<char>>::empty(),
        candidates.len() > 1 ==> claim_on(candidates) == ClaimModel::Ambiguous(candidates.len()),
{
    if candidates.len() == 1 {
        assert(candidates =~= seq![candidates[0]]);
    }
    if candidates.len() == 0 {
        assert(candidates =~= Seq::<Seq<char>>::empty());
    }
    if candidates == seq![id] {
        assert(candidates[0] == id);
    }
}

} // verus!
