//! Showing a batch of changes before it is applied, and applying what was shown.
//!
//! A preview is tied to the transcript event of the call that asked for it, and to
//! a hash of every target as it was. Applying it goes through only while the event
//! is pending and every target still has its hash.
use vstd::prelude::*;
use vstd::string::*;
use crate::handlers::tool_use_correlation::{read_id, use_id};
use crate::json::{clone_json, json_value, models, parse_json, Json, JsonModel};
use crate::scan::ends_with;
use crate::text::{opt_str, opt_text, same_text, texts};

verus! {

/// Whether a tool name is that of the tool that changes things: `write`, or
/// `change` as it was called before, alone or behind a server name.
pub open spec fn names_change_tool(name: Seq<char>) -> bool {
    ||| name == "write"@
    ||| "__write"@.is_suffix_of(name)
    ||| name == "change"@
    ||| "__change"@.is_suffix_of(name)
}

/// Whether a tool name is that of the tool that changes things.
pub fn is_change_tool_name(name: &str) -> (is: bool)
    ensures
        is == names_change_tool(name@),
{
    same_text(name, "write") || ends_with(name, "__write") || same_text(name, "change")
        || ends_with(name, "__change")
}

/// Whether an item of an input renames a symbol.
pub open spec fn renames(item: JsonModel) -> bool {
    item.member("mode"@) matches Some(mode) && mode.text() == Some("rename"@)
}

/// Whether any item of an input renames a symbol.
pub open spec fn any_renames(items: Seq<JsonModel>) -> bool {
    exists|i: int| 0 <= i < items.len() && renames(#[trigger] items[i])
}

/// Whether an input asks for a preview: it says so, or says nothing of it and
/// renames a symbol.
pub open spec fn preview_shaped(input: JsonModel) -> bool {
    let explicit = match input.member("preview"@) {
        Some(preview) => preview.flag(),
        None => None,
    };
    match explicit {
        Some(wanted) => wanted,
        None => match input.member("changes"@) {
            Some(changes) => match changes.items() {
                Some(items) => any_renames(items),
                None => false,
            },
            None => false,
        },
    }
}

/// Whether an input asks for a preview.
pub fn input_is_preview_shaped(input: &Json) -> (is: bool)
    ensures
        is == preview_shaped(input.model()),
{
    if let Some(preview) = input.get("preview") {
        if let Some(wanted) = preview.as_bool() {
            return wanted;
        }
    }
    let changes = match input.get("changes") {
        Some(changes) => match changes.as_array() {
            Some(changes) => changes,
            None => return false,
        },
        None => return false,
    };
    let ghost items = models(changes@);
    let mut i: usize = 0;
    while i < changes.len()
        invariant
            i <= changes@.len(),
            items == models(changes@),
            preview_shaped(input.model()) == any_renames(items),
            forall|k: int| 0 <= k < i ==> !renames(#[trigger] items[k]),
        decreases changes.len() - i,
    {
        assert(items[i as int] == changes@[i as int].model());
        if let Some(mode) = changes[i].get("mode") {
            if let Some(mode) = mode.as_str() {
                if same_text(mode, "rename") {
                    assert(renames(items[i as int]));
                    return true;
                }
            }
        }
        i += 1;
    }
    false
}

/// The transcript event of a call that asked for a preview.
#[derive(Debug)]
pub struct ChangePreviewEvent {
    pub run_id: String,
    pub sequence: i32,
    pub tool_use_id: String,
    pub data: Json,
    pub status: Option<String>,
}

/// What a preview event says.
pub struct EventModel {
    pub run_id: Seq<char>,
    pub sequence: i32,
    pub tool_use_id: Seq<char>,
    pub data: JsonModel,
    pub status: Option<Seq<char>>,
}

impl View for ChangePreviewEvent {
    type V = EventModel;

    open spec fn view(&self) -> EventModel {
        EventModel {
            run_id: self.run_id@,
            sequence: self.sequence,
            tool_use_id: self.tool_use_id@,
            data: self.data.model(),
            status: opt_text(self.status),
        }
    }
}

/// An assistant event as it is stored: its place in the run, its data, and what
/// became of the preview it asked for.
#[derive(Debug)]
pub struct AssistantRow {
    pub sequence: i32,
    pub data: String,
    pub status: Option<String>,
}

/// Whether an item of an event is a call that asked for a preview, with the wanted
/// id where one is wanted.
pub open spec fn is_preview_call(tool: JsonModel, wanted: Option<Seq<char>>) -> bool {
    &&& wanted is Some ==> use_id(tool) == wanted
    &&& use_id(tool) is Some
    &&& tool.member("name"@) matches Some(name) && (name.text() matches Some(name)
        && names_change_tool(name))
    &&& tool.member("input"@) matches Some(input) && preview_shaped(input)
}

/// The ids of the calls among the first `k` items that asked for a preview.
pub open spec fn preview_ids(
    tools: Seq<JsonModel>,
    wanted: Option<Seq<char>>,
    k: int,
) -> Seq<Seq<char>>
    decreases k,
{
    if k <= 0 {
        Seq::empty()
    } else {
        let before = preview_ids(tools, wanted, k - 1);
        if is_preview_call(tools[k - 1], wanted) {
            before.push(use_id(tools[k - 1])->Some_0)
        } else {
            before
        }
    }
}

/// The items of an event that records tool calls.
pub open spec fn event_tools(data: Seq<char>) -> Option<Seq<JsonModel>> {
    match json_value(data) {
        Ok(event) => match event.member("toolUses"@) {
            Some(tools) => tools.items(),
            None => None,
        },
        Err(_) => None,
    }
}

/// What one row comes to.
pub enum RowOutcome {
    /// The search is over without a find.
    Over,
    /// The next row is looked at.
    Next,
    /// The call with this id is the one.
    Found(Seq<char>),
    /// Several calls could be meant.
    Tie,
}

/// What a row comes to. Without a wanted id only the newest event counts, and it
/// must hold exactly one call that asked for a preview.
pub open spec fn row_outcome(
    row: AssistantRow,
    latest: Option<i32>,
    wanted: Option<Seq<char>>,
) -> RowOutcome {
    if latest matches Some(sequence) && sequence != row.sequence {
        RowOutcome::Over
    } else {
        let ids = match event_tools(row.data@) {
            Some(tools) => preview_ids(tools, wanted, tools.len() as int),
            None => Seq::empty(),
        };
        if ids.len() > 1 && wanted is None {
            RowOutcome::Tie
        } else if ids.len() > 0 {
            RowOutcome::Found(ids.last())
        } else if wanted is None {
            RowOutcome::Over
        } else {
            RowOutcome::Next
        }
    }
}

/// What the rows from `from` on come to: the row and the id of the call, or none,
/// or a tie.
pub open spec fn preview_search(
    rows: Seq<AssistantRow>,
    latest: Option<i32>,
    wanted: Option<Seq<char>>,
    from: int,
) -> Result<Option<(int, Seq<char>)>, ()>
    decreases rows.len() - from,
{
    if from >= rows.len() {
        Ok(None)
    } else {
        match row_outcome(rows[from], latest, wanted) {
            RowOutcome::Over => Ok(None),
            RowOutcome::Found(id) => Ok(Some((from, id))),
            RowOutcome::Tie => Err(()),
            RowOutcome::Next => preview_search(rows, latest, wanted, from + 1),
        }
    }
}

/// What is said where several calls of one event asked for a preview.
pub const PREVIEW_TIE: &'static str =
    "Current assistant event contains multiple preview change calls; cannot attach event-level preview status without tool_use_id";

/// The id of a call that asked for a preview.
fn read_preview_call(tool: &Json, wanted: Option<&str>) -> (id: Option<String>)
    ensures
        match id {
            Some(found) => is_preview_call(tool.model(), opt_str(wanted)) && use_id(tool.model())
                == Some(found@),
            None => !is_preview_call(tool.model(), opt_str(wanted)),
        },
{
    let id = match read_id(tool) {
        Some(id) => id,
        None => return None,
    };
    if let Some(expected) = wanted {
        if !same_text(id, expected) {
            return None;
        }
    }
    let is_change = match tool.get("name") {
        Some(name) => match name.as_str() {
            Some(name) => is_change_tool_name(name),
            None => false,
        },
        None => false,
    };
    let is_preview = match tool.get("input") {
        Some(input) => input_is_preview_shaped(input),
        None => false,
    };
    if is_change && is_preview {
        Some(id.to_owned())
    } else {
        None
    }
}

/// The ids of the calls of an event that asked for a preview.
fn collect_preview_ids(tools: &Vec<Json>, wanted: Option<&str>) -> (ids: Vec<String>)
    ensures
        texts(ids@) == preview_ids(models(tools@), opt_str(wanted), tools@.len() as int),
{
    let ghost items = models(tools@);
    let mut ids: Vec<String> = Vec::new();
    assert(texts(ids@) =~= Seq::empty());
    let mut k: usize = 0;
    while k < tools.len()
        invariant
            k <= tools@.len(),
            items == models(tools@),
            texts(ids@) == preview_ids(items, opt_str(wanted), k as int),
        decreases tools.len() - k,
    {
        let ghost before = texts(ids@);
        assert(items[k as int] == tools@[k as int].model());
        if let Some(id) = read_preview_call(&tools[k], wanted) {
            let ghost said = id@;
            ids.push(id);
            assert(texts(ids@) =~= before.push(said));
        }
        k += 1;
    }
    ids
}

/// Finds the event of the call that asks for a preview. Rows come newest first.
/// With `latest_sequence` only the row at that place counts.
pub fn find_change_preview_in_assistant_rows(
    run_id: &str,
    rows: &Vec<AssistantRow>,
    latest_sequence: Option<i32>,
    tool_use_id: Option<&str>,
) -> (found: Result<Option<ChangePreviewEvent>, String>)
    ensures
        match (found, preview_search(rows@, latest_sequence, opt_str(tool_use_id), 0)) {
            (Ok(None), Ok(None)) => true,
            (Ok(Some(event)), Ok(Some((at, id)))) => {
                &&& 0 <= at < rows@.len()
                &&& event@ == (EventModel {
                    run_id: run_id@,
                    sequence: rows@[at].sequence,
                    tool_use_id: id,
                    data: json_value(rows@[at].data@)->Ok_0,
                    status: opt_text(rows@[at].status),
                })
            },
            (Err(error), Err(_)) => error@ == PREVIEW_TIE@,
            _ => false,
        },
{
    let ghost wanted = opt_str(tool_use_id);
    let mut at: usize = 0;
    while at < rows.len()
        invariant
            at <= rows@.len(),
            wanted == opt_str(tool_use_id),
            preview_search(rows@, latest_sequence, wanted, at as int) == preview_search(
                rows@,
                latest_sequence,
                wanted,
                0,
            ),
        decreases rows.len() - at,
    {
        let row = &rows[at];
        if let Some(latest) = latest_sequence {
            if row.sequence != latest {
                return Ok(None);
            }
        }
        if let Ok(event) = parse_json(row.data.as_str()) {
            if let Some(uses) = event.get("toolUses") {
                if let Some(tools) = uses.as_array() {
                    assert(event_tools(row.data@) == Some(models(tools@)));
                    assert(models(tools@).len() == tools@.len());
                    let ids = collect_preview_ids(tools, tool_use_id);
                    assert(texts(ids@).len() == ids@.len());
                    if ids.len() > 1 && tool_use_id.is_none() {
                        return Err(PREVIEW_TIE.to_owned());
                    }
                    if ids.len() > 0 {
                        assert(texts(ids@).last() == ids@[ids@.len() - 1]@);
                        let id = ids[ids.len() - 1].clone();
                        return Ok(
                            Some(
                                ChangePreviewEvent {
                                    run_id: run_id.to_owned(),
                                    sequence: row.sequence,
                                    tool_use_id: id,
                                    data: event,
                                    status: crate::text::clone_opt(&row.status),
                                },
                            ),
                        );
                    }
                }
            }
        }
        if tool_use_id.is_none() {
            return Ok(None);
        }
        at += 1;
    }
    Ok(None)
}

/// A preview without a given id is never attached to an earlier event than the
/// newest one.
pub proof fn law_preview_without_id_is_the_newest(rows: Seq<AssistantRow>, latest: i32)
    ensures
        match preview_search(rows, Some(latest), None, 0) {
            Ok(Some((at, _))) => at == 0 && rows[0].sequence == latest,
            _ => true,
        },
{
}

/// The input of the first call from `from` on that has the given id and changes
/// things, or why there is none.
pub open spec fn stored_input(tools: Seq<JsonModel>, id: Seq<char>, from: int) -> Result<
    JsonModel,
    Seq<char>,
>
    decreases tools.len() - from,
{
    if from >= tools.len() {
        Err("Preview event does not contain the matching change tool use"@)
    } else if use_id(tools[from]) == Some(id) && (tools[from].member("name"@) matches Some(name)
        && (name.text() matches Some(name) && names_change_tool(name))) {
        match tools[from].member("input"@) {
            Some(input) => Ok(input),
            None => Err("Preview change event is missing tool input"@),
        }
    } else {
        stored_input(tools, id, from + 1)
    }
}

/// The input that a preview event stores, or why there is none.
pub open spec fn event_input(event: EventModel) -> Result<JsonModel, Seq<char>> {
    let tools = match event.data.member("toolUses"@) {
        Some(tools) => tools.items(),
        None => None,
    };
    match tools {
        Some(items) => stored_input(items, event.tool_use_id, 0),
        None => Err("Preview event does not contain tool uses"@),
    }
}

/// The input that a preview event stores.
pub fn tool_input_from_event(event: &ChangePreviewEvent) -> (input: Result<Json, String>)
    ensures
        match (input, event_input(event@)) {
            (Ok(found), Ok(model)) => found.model() == model,
            (Err(error), Err(reason)) => error@ == reason,
            _ => false,
        },
{
    let tools = match event.data.get("toolUses") {
        Some(tools) => match tools.as_array() {
            Some(tools) => tools,
            None => return Err("Preview event does not contain tool uses".to_owned()),
        },
        None => return Err("Preview event does not contain tool uses".to_owned()),
    };
    let ghost items = models(tools@);
    let ghost id = event.tool_use_id@;
    let mut i: usize = 0;
    while i < tools.len()
        invariant
            i <= tools@.len(),
            items == models(tools@),
            id == event.tool_use_id@,
            stored_input(items, id, i as int) == stored_input(items, id, 0),
            event_input(event@) == stored_input(items, id, 0),
        decreases tools.len() - i,
    {
        assert(items[i as int] == tools@[i as int].model());
        let id_matches = match read_id(&tools[i]) {
            Some(found) => same_text(found, event.tool_use_id.as_str()),
            None => false,
        };
        let is_change = match tools[i].get("name") {
            Some(name) => match name.as_str() {
                Some(name) => is_change_tool_name(name),
                None => false,
            },
            None => false,
        };
        if id_matches && is_change {
            return match tools[i].get("input") {
                Some(input) => Ok(clone_json(input)),
                None => Err("Preview change event is missing tool input".to_owned()),
            };
        }
        i += 1;
    }
    Err("Preview event does not contain the matching change tool use".to_owned())
}

/// The first member of the two names that there is.
pub open spec fn either_member(value: JsonModel, first: Seq<char>, second: Seq<char>) -> Option<
    JsonModel,
> {
    match value.member(first) {
        Some(found) => Some(found),
        None => value.member(second),
    }
}

/// The result of a tool call in the rows from `from` on. The first row for the call
/// counts.
pub open spec fn result_from(rows: Seq<Seq<char>>, id: Seq<char>, from: int) -> Option<Seq<char>>
    decreases rows.len() - from,
{
    if from >= rows.len() {
        None
    } else {
        match json_value(rows[from]) {
            Ok(value) => if either_member(value, "toolUseId"@, "tool_use_id"@) matches Some(found)
                && found.text() == Some(id) {
                match either_member(value, "toolResult"@, "tool_result"@) {
                    Some(result) => result.text(),
                    None => None,
                }
            } else {
                result_from(rows, id, from + 1)
            },
            Err(_) => result_from(rows, id, from + 1),
        }
    }
}

/// The first member of the two names that there is.
fn get_either<'a>(value: &'a Json, first: &str, second: &str) -> (member: Option<&'a Json>)
    ensures
        match member {
            Some(found) => either_member(value.model(), first@, second@) == Some(found.model()),
            None => either_member(value.model(), first@, second@) is None,
        },
{
    match value.get(first) {
        Some(found) => Some(found),
        None => value.get(second),
    }
}

/// The result of a tool call among the events behind it.
pub fn tool_result_in_rows(rows: &Vec<String>, tool_use_id: &str) -> (result: Option<String>)
    ensures
        opt_text(result) == result_from(texts(rows@), tool_use_id@, 0),
{
    let mut i: usize = 0;
    while i < rows.len()
        invariant
            i <= rows@.len(),
            result_from(texts(rows@), tool_use_id@, i as int) == result_from(
                texts(rows@),
                tool_use_id@,
                0,
            ),
        decreases rows.len() - i,
    {
        assert(texts(rows@)[i as int] == rows@[i as int]@);
        if let Ok(value) = parse_json(rows[i].as_str()) {
            let matches_id = match get_either(&value, "toolUseId", "tool_use_id") {
                Some(found) => match found.as_str() {
                    Some(found) => same_text(found, tool_use_id),
                    None => false,
                },
                None => false,
            };
            if matches_id {
                return match get_either(&value, "toolResult", "tool_result") {
                    Some(result) => match result.as_str() {
                        Some(result) => Some(result.to_owned()),
                        None => None,
                    },
                    None => None,
                };
            }
        }
        i += 1;
    }
    None
}

/// A tool changes things exactly if it is called `write` or `change`, with or without a
/// prefix that ends in two underscores.
pub proof fn law_change_tools_are_known_by_name(front: Seq<char>)
    ensures
        names_change_tool("write"@),
        names_change_tool("change"@),
        names_change_tool(front + "__write"@),
        names_change_tool(front + "__change"@),
        names_change_tool(front) ==> front == "write"@ || front == "change"@ || exists|
            before: Seq<char>,
            name: Seq<char>,
        |
            (name == "__write"@ || name == "__change"@) && front == #[trigger] (before + name),
{
    let written = front + "__write"@;
    let changed = front + "__change"@;
    assert("__write"@ =~= written.subrange(written.len() - "__write"@.len(), written.len() as int));
    assert("__change"@ =~= changed.subrange(
        changed.len() - "__change"@.len(),
        changed.len() as int,
    ));
    if "__write"@.is_suffix_of(front) {
        assert(front =~= front.take(front.len() - "__write"@.len()) + "__write"@);
    }
    if "__change"@.is_suffix_of(front) {
        assert(front =~= front.take(front.len() - "__change"@.len()) + "__change"@);
    }
}

/// A call was a preview where it says so, and not where it says not; where it says nothing
/// it was one exactly if it renames anything.
pub proof fn law_preview_is_told_by_its_input(input: JsonModel, said: JsonModel)
    ensures
        input.member("preview"@) == Some(said) && said.flag() == Some(true) ==> preview_shaped(
            input,
        ),
        input.member("preview"@) == Some(said) && said.flag() == Some(false) ==> !preview_shaped(
            input,
        ),
        input.member("preview"@) is None ==> (preview_shaped(input) <==> (input.member(
            "changes"@,
        ) matches Some(changes) && changes.items() matches Some(items) && exists|i: int|
            0 <= i < items.len() && ((#[trigger] items[i]).member("mode"@) matches Some(mode)
                && mode.text() == Some("rename"@)))),
{
    if input.member("preview"@) is None {
        if let Some(changes) = input.member("changes"@) {
            if let Some(items) = changes.items() {
                if any_renames(items) {
                    let i = choose|i: int| 0 <= i < items.len() && renames(#[trigger] items[i]);
                    assert(items[i].member("mode"@) is Some);
                }
                if exists|i: int|
                    0 <= i < items.len() && ((#[trigger] items[i]).member("mode"@) matches Some(
                        mode,
                    ) && mode.text() == Some("rename"@)) {
                    let i = choose|i: int|
                        0 <= i < items.len() && ((#[trigger] items[i]).member("mode"@) matches Some(
                            mode,
                        ) && mode.text() == Some("rename"@));
                    assert(renames(items[i]));
                }
            }
        }
    }
}

/// Whether one of the first `k` calls is a preview that goes by this id.
pub open spec fn previewed_by(
    tools: Seq<JsonModel>,
    wanted: Option<Seq<char>>,
    k: int,
    id: Seq<char>,
) -> bool {
    exists|i: int|
        0 <= i < k && is_preview_call(#[trigger] tools[i], wanted) && use_id(tools[i]) == Some(id)
}

/// The ids of the previews of an event are the ids of its calls that are previews, in their
/// order, of the wanted one where one is wanted.
pub proof fn law_previews_are_found_in_order(
    tools: Seq<JsonModel>,
    wanted: Option<Seq<char>>,
    k: int,
)
    requires
        0 <= k <= tools.len(),
    ensures
        forall|j: int|
            0 <= j < preview_ids(tools, wanted, k).len() ==> previewed_by(
                tools,
                wanted,
                k,
                #[trigger] preview_ids(tools, wanted, k)[j],
            ),
        forall|i: int|
            0 <= i < k && is_preview_call(#[trigger] tools[i], wanted) ==> preview_ids(
                tools,
                wanted,
                k,
            ).contains(use_id(tools[i])->Some_0),
        wanted matches Some(id) ==> forall|j: int|
            0 <= j < preview_ids(tools, wanted, k).len() ==> #[trigger] preview_ids(
                tools,
                wanted,
                k,
            )[j] == id,
        k > 0 && is_preview_call(tools[k - 1], wanted) ==> preview_ids(tools, wanted, k).last()
            == use_id(tools[k - 1])->Some_0,
    decreases k,
{
    if k > 0 {
        law_previews_are_found_in_order(tools, wanted, k - 1);
        let before = preview_ids(tools, wanted, k - 1);
        let after = preview_ids(tools, wanted, k);
        assert forall|j: int| 0 <= j < after.len() implies previewed_by(
            tools,
            wanted,
            k,
            #[trigger] after[j],
        ) by {
            if j < before.len() {
                assert(after[j] == before[j]);
                let i = choose|i: int|
                    0 <= i < k - 1 && is_preview_call(#[trigger] tools[i], wanted) && use_id(
                        tools[i],
                    ) == Some(before[j]);
                assert(is_preview_call(tools[i], wanted));
            } else {
                assert(is_preview_call(tools[k - 1], wanted));
            }
        }
        assert forall|i: int|
            0 <= i < k && is_preview_call(#[trigger] tools[i], wanted) implies after.contains(
            use_id(tools[i])->Some_0,
        ) by {
            if i < k - 1 {
                let id = use_id(tools[i])->Some_0;
                let j = choose|j: int| 0 <= j < before.len() && before[j] == id;
                assert(after[j] == id);
            } else {
                assert(after[before.len() as int] == use_id(tools[i])->Some_0);
            }
        }
    }
}

/// Without a wanted id a row with two previews is a tie and one with none ends the search;
/// with one the search goes on until it is found. A row that is not the newest is not
/// looked at where the newest is asked for.
pub proof fn law_row_gives_its_preview(
    row: AssistantRow,
    latest: Option<i32>,
    wanted: Option<Seq<char>>,
    tools: Seq<JsonModel>,
)
    requires
        event_tools(row.data@) == Some(tools),
    ensures
        ({
            let ids = preview_ids(tools, wanted, tools.len() as int);
            let outcome = row_outcome(row, latest, wanted);
            let other = latest matches Some(sequence) && sequence != row.sequence;
            &&& other ==> outcome is Over
            &&& !other && wanted is None && ids.len() == 0 ==> outcome is Over
            &&& !other && wanted is None && ids.len() == 1 ==> outcome == RowOutcome::Found(ids[0])
            &&& !other && wanted is None && ids.len() > 1 ==> outcome is Tie
            &&& !other && wanted is Some && ids.len() == 0 ==> outcome is Next
            &&& !other && wanted is Some && ids.len() > 0 ==> outcome == RowOutcome::Found(
                wanted->Some_0,
            )
        }),
{
    law_previews_are_found_in_order(tools, wanted, tools.len() as int);
}

/// The search of a preview takes the first row that decides it: all rows before it were
/// passed over.
pub proof fn law_first_deciding_row_counts(
    rows: Seq<AssistantRow>,
    latest: Option<i32>,
    wanted: Option<Seq<char>>,
    from: int,
)
    requires
        0 <= from <= rows.len(),
    ensures
        match preview_search(rows, latest, wanted, from) {
            Ok(Some((at, id))) => {
                &&& from <= at < rows.len()
                &&& row_outcome(rows[at], latest, wanted) == RowOutcome::Found(id)
                &&& forall|i: int|
                    from <= i < at ==> row_outcome(#[trigger] rows[i], latest, wanted) is Next
            },
            Err(_) => exists|at: int|
                from <= at < rows.len() && row_outcome(#[trigger] rows[at], latest, wanted) is Tie
                    && forall|i: int|
                    from <= i < at ==> row_outcome(#[trigger] rows[i], latest, wanted) is Next,
            Ok(None) => forall|i: int|
                from <= i < rows.len() && (forall|j: int|
                    from <= j < i ==> row_outcome(#[trigger] rows[j], latest, wanted) is Next)
                    ==> row_outcome(#[trigger] rows[i], latest, wanted) is Next || row_outcome(
                    rows[i],
                    latest,
                    wanted,
                ) is Over,
        },
    decreases rows.len() - from,
{
    if from < rows.len() {
        let here = row_outcome(rows[from], latest, wanted);
        if here is Next {
            law_first_deciding_row_counts(rows, latest, wanted, from + 1);
        } else if here is Over {
            assert forall|i: int|
                from <= i < rows.len() && (forall|j: int|
                    from <= j < i ==> row_outcome(#[trigger] rows[j], latest, wanted) is Next)
                implies row_outcome(#[trigger] rows[i], latest, wanted) is Next || row_outcome(
                rows[i],
                latest,
                wanted,
            ) is Over by {
                if i > from {
                    assert(row_outcome(rows[from], latest, wanted) is Next);
                }
            }
        } else if here is Tie {
            assert(row_outcome(rows[from], latest, wanted) is Tie);
        }
    }
}

/// The input of a preview is that of the first call of a change tool with its id; calls with
/// other ids and of other tools are passed over.
pub proof fn law_stored_input_is_that_of_the_call(
    tools: Seq<JsonModel>,
    id: Seq<char>,
    name: Seq<char>,
    at: int,
    from: int,
)
    requires
        0 <= from <= at < tools.len(),
        use_id(tools[at]) == Some(id),
        tools[at].member("name"@) == Some(JsonModel::Text(name)),
        name == "write"@ || name == "change"@,
        forall|i: int| from <= i < at ==> use_id(#[trigger] tools[i]) != Some(id),
    ensures
        tools[at].member("input"@) matches Some(input) ==> stored_input(tools, id, from) == Ok::<
            JsonModel,
            Seq<char>,
        >(input),
        tools[at].member("input"@) is None ==> stored_input(tools, id, from) is Err,
    decreases at - from,
{
    if from < at {
        law_stored_input_is_that_of_the_call(tools, id, name, at, from + 1);
    }
}

/// An input that is found is that of a call with the id that was asked for.
pub proof fn law_stored_input_has_its_id(tools: Seq<JsonModel>, id: Seq<char>, from: int)
    requires
        0 <= from <= tools.len(),
    ensures
        stored_input(tools, id, from) matches Ok(input) ==> exists|i: int|
            from <= i < tools.len() && use_id(#[trigger] tools[i]) == Some(id)
                && tools[i].member("input"@) == Some(input),
    decreases tools.len() - from,
{
    if from < tools.len() {
        law_stored_input_has_its_id(tools, id, from + 1);
        if stored_input(tools, id, from) is Ok {
            if !(use_id(tools[from]) == Some(id) && tools[from].member("input"@) == Some(
                stored_input(tools, id, from)->Ok_0,
            )) {
                let i = choose|i: int|
                    from + 1 <= i < tools.len() && use_id(#[trigger] tools[i]) == Some(id)
                        && tools[i].member("input"@) == Some(stored_input(tools, id, from)->Ok_0);
                assert(use_id(tools[i]) == Some(id));
            }
        }
    }
}

/// The result of a call is the text that the first row with its id holds, under either
/// spelling of the names; rows of other calls and rows that cannot be read are passed over.
pub proof fn law_result_is_that_of_the_call(
    rows: Seq<Seq<char>>,
    id: Seq<char>,
    result: Seq<char>,
    at: int,
    from: int,
)
    requires
        0 <= from <= at < rows.len(),
        json_value(rows[at]) matches Ok(value) && (value.member("toolUseId"@) == Some(
            JsonModel::Text(id),
        ) || (value.member("toolUseId"@) is None && value.member("tool_use_id"@) == Some(
            JsonModel::Text(id),
        ))) && (value.member("toolResult"@) == Some(JsonModel::Text(result)) || (value.member(
            "toolResult"@,
        ) is None && value.member("tool_result"@) == Some(JsonModel::Text(result)))),
        forall|i: int|
            from <= i < at ==> match json_value(#[trigger] rows[i]) {
                Ok(value) => value.member("toolUseId"@) != Some(JsonModel::Text(id))
                    && value.member("tool_use_id"@) != Some(JsonModel::Text(id)),
                Err(_) => true,
            },
    ensures
        result_from(rows, id, from) == Some(result),
    decreases at - from,
{
    if from < at {
        assert(json_value(rows[from]) == json_value(rows[from]));
        law_result_is_that_of_the_call(rows, id, result, at, from + 1);
    }
}

/// The input of a preview is looked for among the calls of its event, under its own id.
pub proof fn law_input_is_that_of_the_event(event: EventModel, items: Seq<JsonModel>)
    ensures
        event.data.member("toolUses"@) == Some(JsonModel::Array(items)) ==> event_input(event)
            == stored_input(items, event.tool_use_id, 0),
        event.data.member("toolUses"@) is None ==> event_input(event) is Err,
{
}

} // verus!
