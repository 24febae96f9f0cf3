//! JSON values as the handlers read and write them.
use vstd::prelude::*;
use crate::text::same_text;

verus! {

/// A JSON value. A number is kept as it is written. The members of an object are
/// in the order in which they are written out, each name once.
#[derive(Debug)]
pub enum Json {
    Null,
    Bool(bool),
    Number(String),
    Text(String),
    Array(Vec<Json>),
    Object(Vec<(String, Json)>),
}

/// What a JSON value says.
pub enum JsonModel {
    Null,
    Bool(bool),
    Number(Seq<char>),
    Text(Seq<char>),
    Array(Seq<JsonModel>),
    Object(Seq<(Seq<char>, JsonModel)>),
}

impl Json {
    /// What the value says.
    pub open spec fn model(self) -> JsonModel
        decreases self,
    {
        match self {
            Json::Null => JsonModel::Null,
            Json::Bool(value) => JsonModel::Bool(value),
            Json::Number(text) => JsonModel::Number(text@),
            Json::Text(text) => JsonModel::Text(text@),
            Json::Array(items) => JsonModel::Array(
                Seq::new(
                    items@.len(),
                    |i: int|
                        if 0 <= i < items@.len() {
                            items@[i].model()
                        } else {
                            JsonModel::Null
                        },
                ),
            ),
            Json::Object(members) => JsonModel::Object(
                Seq::new(
                    members@.len(),
                    |i: int|
                        if 0 <= i < members@.len() {
                            (members@[i].0@, members@[i].1.model())
                        } else {
                            (Seq::empty(), JsonModel::Null)
                        },
                ),
            ),
        }
    }
}

/// A value as `serde_json` holds it.
#[verifier::external_type_specification]
#[verifier::external_body]
pub struct ExJsonValue(serde_json::Value);

/// What a value of `serde_json` holds: the tree of its variants, with a number as
/// its `Display` writes it and the members of an object in the order of the map.
pub uninterp spec fn held(value: serde_json::Value) -> JsonModel;

/// What `serde_json::from_str` reads from a text; where the text is not one JSON
/// value, what its error says.
pub uninterp spec fn json_value(text: Seq<char>) -> Result<JsonModel, Seq<char>>;

/// How deep arrays and objects may lie in each other in a text that is read.
pub const MAX_NESTING: usize = 127;

/// Whether arrays and objects lie in each other at most `depth` deep.
pub open spec fn nests_within(value: JsonModel, depth: nat) -> bool
    decreases value,
{
    match value {
        JsonModel::Array(items) => depth > 0 && forall|i: int|
            0 <= i < items.len() ==> nests_within(#[trigger] items[i], (depth - 1) as nat),
        JsonModel::Object(members) => depth > 0 && forall|i: int|
            0 <= i < members.len() ==> nests_within(
                (#[trigger] members[i]).1,
                (depth - 1) as nat,
            ),
        _ => true,
    }
}

/// Whether every number in a value is written as a whole one, by its digits and its
/// sign alone.
pub open spec fn has_whole_numbers(value: JsonModel) -> bool
    decreases value,
{
    match value {
        JsonModel::Number(text) => forall|i: int|
            0 <= i < text.len() ==> #[trigger] text[i] == '-' || ('0' <= text[i] && text[i]
                <= '9'),
        JsonModel::Array(items) => forall|i: int|
            0 <= i < items.len() ==> has_whole_numbers(#[trigger] items[i]),
        JsonModel::Object(members) => forall|i: int|
            0 <= i < members.len() ==> has_whole_numbers((#[trigger] members[i]).1),
        _ => true,
    }
}

/// Calls `serde_json::from_str` for a `serde_json::Value`. What it accepts, what
/// the value then holds, and what it says otherwise is a function of the text
/// alone. A text that nests too deep is not accepted.
#[verifier::external_body]
fn value_from_str(text: &str) -> (value: Result<serde_json::Value, String>)
    ensures
        match value {
            Ok(found) => json_value(text@) == Ok::<JsonModel, Seq<char>>(held(found))
                && nests_within(held(found), MAX_NESTING as nat),
            Err(error) => json_value(text@) == Err::<JsonModel, Seq<char>>(error@),
        },
{
    serde_json::from_str(text).map_err(|error| error.to_string())
}

/// A value taken apart by one level.
enum Parts {
    Null,
    Bool(bool),
    Number(String),
    Text(String),
    Array(Vec<serde_json::Value>),
    Object(Vec<(String, serde_json::Value)>),
}

/// What values of `serde_json` hold.
pub open spec fn held_items(items: Seq<serde_json::Value>) -> Seq<JsonModel> {
    items.map_values(|item: serde_json::Value| held(item))
}

/// What members of an object of `serde_json` hold.
pub open spec fn held_members(members: Seq<(String, serde_json::Value)>) -> Seq<
    (Seq<char>, JsonModel),
> {
    members.map_values(|member: (String, serde_json::Value)| (member.0@, held(member.1)))
}

/// Tells the variants of `serde_json::Value` apart, with the text that the `Display`
/// of a number writes and the members of an object in the order of `into_iter` of its
/// map. A value holds what its parts hold.
#[verifier::external_body]
fn take_apart(value: serde_json::Value) -> (parts: Parts)
    ensures
        match parts {
            Parts::Null => held(value) == JsonModel::Null,
            Parts::Bool(flag) => held(value) == JsonModel::Bool(flag),
            Parts::Number(text) => held(value) == JsonModel::Number(text@),
            Parts::Text(text) => held(value) == JsonModel::Text(text@),
            Parts::Array(items) => held(value) == JsonModel::Array(held_items(items@)),
            Parts::Object(members) => held(value) == JsonModel::Object(held_members(members@)),
        },
{
    match value {
        serde_json::Value::Null => Parts::Null,
        serde_json::Value::Bool(flag) => Parts::Bool(flag),
        serde_json::Value::Number(number) => Parts::Number(number.to_string()),
        serde_json::Value::String(text) => Parts::Text(text),
        serde_json::Value::Array(items) => Parts::Array(items),
        serde_json::Value::Object(members) => Parts::Object(members.into_iter().collect()),
    }
}

/// Takes a value over.
fn json_from_value(value: serde_json::Value) -> (json: Json)
    ensures
        json.model() == held(value),
    decreases held(value),
{
    match take_apart(value) {
        Parts::Null => Json::Null,
        Parts::Bool(flag) => Json::Bool(flag),
        Parts::Number(text) => Json::Number(text),
        Parts::Text(text) => Json::Text(text),
        Parts::Array(items) => {
            let ghost all = items@;
            let mut taken: Vec<Json> = Vec::new();
            for item in it: items
                invariant
                    it.seq() == all,
                    held(value) == JsonModel::Array(held_items(all)),
                    taken@.len() == it.index(),
                    forall|k: int|
                        0 <= k < taken@.len() ==> (#[trigger] taken@[k]).model() == held(all[k]),
            {
                let ghost place = it.index() as int;
                assert(held_items(all)[place] == held(item));
                assert(decreases_to!(held(value) => held(value)->Array_0));
                assert(decreases_to!(held(value)->Array_0 => held(value)->Array_0[place]));
                taken.push(json_from_value(item));
            }
            let json = Json::Array(taken);
            assert(json.model()->Array_0 =~= held_items(all));
            json
        },
        Parts::Object(members) => {
            let ghost all = members@;
            let mut taken: Vec<(String, Json)> = Vec::new();
            for member in it: members
                invariant
                    it.seq() == all,
                    held(value) == JsonModel::Object(held_members(all)),
                    taken@.len() == it.index(),
                    forall|k: int|
                        0 <= k < taken@.len() ==> (#[trigger] taken@[k]).0@ == all[k].0@
                            && taken@[k].1.model() == held(all[k].1),
            {
                let ghost held_now = held(value)->Object_0;
                let ghost place = it.index() as int;
                assert(held_members(all)[place] == (member.0@, held(member.1)));
                assert(decreases_to!(held(value) => held(value)->Object_0));
                assert(decreases_to!(held_now => held_now[place]));
                assert(decreases_to!(held_now[place] => held_now[place].1));
                let (name, item) = member;
                taken.push((name, json_from_value(item)));
            }
            let json = Json::Object(taken);
            assert(json.model()->Object_0 =~= held_members(all));
            json
        },
    }
}

/// An object with a member set to a text, as `serde_json` holds it.
pub uninterp spec fn json_with(object: JsonModel, name: Seq<char>, text: Seq<char>) -> JsonModel;

/// Whether `after` is the object `before` with a member set to a text: in the place of
/// the member of that name, or else added somewhere.
pub open spec fn is_set(
    before: JsonModel,
    after: JsonModel,
    name: Seq<char>,
    text: Seq<char>,
) -> bool {
    match (before, after) {
        (JsonModel::Object(old_members), JsonModel::Object(members)) => exists|place: int|
            #[trigger] sets_at(old_members, members, name, text, place),
        _ => false,
    }
}

/// Whether members differ by the one of a name, which is set to a text at `place`.
pub open spec fn sets_at(
    before: Seq<(Seq<char>, JsonModel)>,
    after: Seq<(Seq<char>, JsonModel)>,
    name: Seq<char>,
    text: Seq<char>,
    place: int,
) -> bool {
    let member = (name, JsonModel::Text(text));
    &&& 0 <= place <= before.len()
    &&& forall|i: int| 0 <= i < place ==> (#[trigger] before[i]).0 != name
    &&& if place < before.len() && before[place].0 == name {
        after == before.update(place, member)
    } else {
        &&& forall|i: int| 0 <= i < before.len() ==> (#[trigger] before[i]).0 != name
        &&& after == before.insert(place, member)
    }
}

/// Calls `insert` of the map of an object, with a text as the value; there is none
/// in any other value. The member of that name is set, or one is added, and all else
/// is as it was; setting it again changes nothing. Where a new member comes among the
/// others is left to the name.
#[verifier::external_body]
fn value_with_text(value: serde_json::Value, name: &str, text: &str) -> (with: Option<
    serde_json::Value,
>)
    ensures
        match with {
            Some(after) => {
                &&& held(after) == json_with(held(value), name@, text@)
                &&& is_set(held(value), held(after), name@, text@)
                &&& json_with(held(after), name@, text@) == held(after)
            },
            None => !(held(value) is Object),
        },
{
    let mut value = value;
    let text = serde_json::Value::String(text.to_string());
    value.as_object_mut()?.insert(name.to_string(), text);
    Some(value)
}

/// The text that `serde_json::to_string` writes for a value, if it writes one.
pub uninterp spec fn json_text(value: JsonModel) -> Option<Seq<char>>;

/// Whether a text reads back as a value that does not nest too deep and has whole
/// numbers only; nothing is said of other values.
pub open spec fn reads_as(text: Seq<char>, value: JsonModel) -> bool {
    nests_within(value, MAX_NESTING as nat) && has_whole_numbers(value) ==> json_value(text) == Ok::<
        JsonModel,
        Seq<char>,
    >(value)
}

/// Calls `serde_json::to_string`: there is a text for every value, and it depends on
/// the value alone. It reads back as the value where the value does not nest too deep
/// and has whole numbers only; a number with a fraction may be read back as another
/// one. How a value is written is left to the name.
#[verifier::external_body]
fn value_to_text(value: &serde_json::Value) -> (text: Option<String>)
    ensures
        crate::text::opt_text(text) == json_text(held(*value)),
        match text {
            Some(written) => reads_as(written@, held(*value)),
            None => false,
        },
{
    serde_json::to_string(value).ok()
}

/// Setting a member of an object sets that member and leaves every other as it was.
pub proof fn law_set_member_changes_no_other(
    before: JsonModel,
    after: JsonModel,
    name: Seq<char>,
    text: Seq<char>,
)
    requires
        is_set(before, after, name, text),
    ensures
        after is Object,
        after.member(name) == Some(JsonModel::Text(text)),
        forall|other: Seq<char>|
            other != name ==> #[trigger] after.member(other) == before.member(other),
{
    let old_members = before->Object_0;
    let members = after->Object_0;
    let place = choose|place: int| #[trigger] sets_at(old_members, members, name, text, place);
    lemma_member_at(members, name, 0, place);
    assert forall|other: Seq<char>| other != name implies #[trigger] after.member(other)
        == before.member(other) by {
        lemma_other_member(old_members, members, name, text, place, other, 0);
    }
}

/// The first member of a name is the one that is found.
proof fn lemma_member_at(
    members: Seq<(Seq<char>, JsonModel)>,
    name: Seq<char>,
    from: int,
    at: int,
)
    requires
        0 <= from <= at < members.len(),
        forall|i: int| from <= i < at ==> (#[trigger] members[i]).0 != name,
        members[at].0 == name,
    ensures
        member_from(members, name, from) == Some(members[at].1),
    decreases at - from,
{
    if from < at {
        assert(members[from].0 != name);
        lemma_member_at(members, name, from + 1, at);
    }
}

/// A member of another name is found as before.
proof fn lemma_other_member(
    before: Seq<(Seq<char>, JsonModel)>,
    after: Seq<(Seq<char>, JsonModel)>,
    name: Seq<char>,
    text: Seq<char>,
    place: int,
    other: Seq<char>,
    from: int,
)
    requires
        sets_at(before, after, name, text, place),
        other != name,
        0 <= from <= before.len(),
    ensures
        ({
            let replaced = place < before.len() && before[place].0 == name;
            let there = if replaced || from < place {
                from
            } else {
                from + 1
            };
            &&& member_from(after, other, there) == member_from(before, other, from)
            &&& !replaced && from == place ==> member_from(after, other, from) == member_from(
                before,
                other,
                from,
            )
        }),
    decreases before.len() - from,
{
    let replaced = place < before.len() && before[place].0 == name;
    if from < before.len() {
        lemma_other_member(before, after, name, text, place, other, from + 1);
    }
    if !replaced && from == place {
        assert(after[place] == (name, JsonModel::Text(text)));
    }
}

/// A member that is set to a text keeps the nesting and the numbers of an object.
proof fn lemma_set_keeps(before: JsonModel, after: JsonModel, name: Seq<char>, text: Seq<char>)
    requires
        is_set(before, after, name, text),
    ensures
        nests_within(before, MAX_NESTING as nat) ==> nests_within(after, MAX_NESTING as nat),
        has_whole_numbers(before) ==> has_whole_numbers(after),
{
    let old_members = before->Object_0;
    let members = after->Object_0;
    let place = choose|place: int| #[trigger] sets_at(old_members, members, name, text, place);
    let replaced = place < old_members.len() && old_members[place].0 == name;
    let below = (MAX_NESTING - 1) as nat;
    let said = JsonModel::Text(text);
    assert(nests_within(said, below));
    assert(has_whole_numbers(said));
    if nests_within(before, MAX_NESTING as nat) {
        assert forall|i: int| 0 <= i < members.len() implies nests_within(
            (#[trigger] members[i]).1,
            below,
        ) by {
            if i < place || (replaced && i > place) {
                assert(members[i] == old_members[i]);
            } else if i > place {
                assert(members[i] == old_members[i - 1]);
            }
        }
    }
    if has_whole_numbers(before) {
        assert forall|i: int| 0 <= i < members.len() implies has_whole_numbers(
            (#[trigger] members[i]).1,
        ) by {
            if i < place || (replaced && i > place) {
                assert(members[i] == old_members[i]);
            } else if i > place {
                assert(members[i] == old_members[i - 1]);
            }
        }
    }
}

/// Sets a member of the object that a text spells; a text that spells none, or
/// that cannot be written again, has no such member. An object of whole numbers is read
/// back with the member set, and setting it again changes nothing.
pub fn set_member(object: &str, name: &str, text: &str) -> (set: Option<String>)
    ensures
        crate::text::opt_text(set) == match json_value(object@) {
            Ok(value) => if value is Object {
                json_text(json_with(value, name@, text@))
            } else {
                None
            },
            Err(_) => None,
        },
        match (json_value(object@), set) {
            (Ok(value), Some(written)) => has_whole_numbers(value) ==> {
                &&& json_value(written@) matches Ok(after)
                &&& is_set(value, after, name@, text@)
                &&& json_text(json_with(after, name@, text@)) == Some(written@)
            },
            (Ok(value), None) => !(value is Object),
            (Err(_), written) => written is None,
        },
{
    match value_from_str(object) {
        Err(_) => None,
        Ok(value) => match value_with_text(value, name, text) {
            None => None,
            Some(after) => {
                proof {
                    lemma_set_keeps(held(value), held(after), name@, text@);
                }
                value_to_text(&after)
            },
        },
    }
}

/// Reads a JSON value, or tells why the text is not one.
pub fn parse_json(text: &str) -> (json: Result<Json, String>)
    ensures
        match json {
            Ok(found) => json_value(text@) == Ok::<JsonModel, Seq<char>>(found.model()),
            Err(error) => json_value(text@) == Err::<JsonModel, Seq<char>>(error@),
        },
{
    match value_from_str(text) {
        Ok(value) => Ok(json_from_value(value)),
        Err(error) => Err(error),
    }
}

impl JsonModel {
    /// The member of an object with the given name.
    pub open spec fn member(self, name: Seq<char>) -> Option<JsonModel> {
        match self {
            JsonModel::Object(members) => member_from(members, name, 0),
            _ => None,
        }
    }

    /// The text of a string.
    pub open spec fn text(self) -> Option<Seq<char>> {
        match self {
            JsonModel::Text(text) => Some(text),
            _ => None,
        }
    }

    /// The truth value of a boolean.
    pub open spec fn flag(self) -> Option<bool> {
        match self {
            JsonModel::Bool(flag) => Some(flag),
            _ => None,
        }
    }

    /// The items of an array.
    pub open spec fn items(self) -> Option<Seq<JsonModel>> {
        match self {
            JsonModel::Array(items) => Some(items),
            _ => None,
        }
    }
}

/// The first member from `from` on with the given name.
pub open spec fn member_from(
    members: Seq<(Seq<char>, JsonModel)>,
    name: Seq<char>,
    from: int,
) -> Option<JsonModel>
    decreases members.len() - from,
{
    if from >= members.len() {
        None
    } else if members[from].0 == name {
        Some(members[from].1)
    } else {
        member_from(members, name, from + 1)
    }
}

impl Json {
    /// The member of an object with the given name.
    pub fn get(&self, name: &str) -> (member: Option<&Json>)
        ensures
            match member {
                Some(found) => self.model().member(name@) == Some(found.model()),
                None => self.model().member(name@) is None,
            },
    {
        match self {
            Json::Object(members) => {
                let ghost models = self.model()->Object_0;
                let mut i: usize = 0;
                while i < members.len()
                    invariant
                        *self == Json::Object(*members),
                        models == self.model()->Object_0,
                        models.len() == members@.len(),
                        i <= members@.len(),
                        member_from(models, name@, i as int) == member_from(models, name@, 0),
                    decreases members.len() - i,
                {
                    assert(models[i as int] == (
                        members@[i as int].0@,
                        members@[i as int].1.model(),
                    ));
                    if same_text(members[i].0.as_str(), name) {
                        return Some(&members[i].1);
                    }
                    i += 1;
                }
                None
            },
            _ => None,
        }
    }

    /// The text of a string.
    pub fn as_str(&self) -> (text: Option<&str>)
        ensures
            crate::text::opt_str(text) == self.model().text(),
    {
        match self {
            Json::Text(text) => Some(text.as_str()),
            _ => None,
        }
    }

    /// The truth value of a boolean.
    pub fn as_bool(&self) -> (flag: Option<bool>)
        ensures
            flag == self.model().flag(),
    {
        match self {
            Json::Bool(flag) => Some(*flag),
            _ => None,
        }
    }

    /// The items of an array.
    pub fn as_array(&self) -> (items: Option<&Vec<Json>>)
        ensures
            match items {
                Some(found) => self.model().items() == Some(models(found@)),
                None => self.model().items() is None,
            },
    {
        match self {
            Json::Array(items) => {
                assert(self.model()->Array_0 =~= models(items@));
                Some(items)
            },
            _ => None,
        }
    }
}

/// What JSON values say.
pub open spec fn models(items: Seq<Json>) -> Seq<JsonModel> {
    items.map_values(|item: Json| item.model())
}

/// A copy of a JSON value.
pub fn clone_json(value: &Json) -> (copy: Json)
    ensures
        copy.model() == value.model(),
    decreases value,
{
    match value {
        Json::Null => Json::Null,
        Json::Bool(flag) => Json::Bool(*flag),
        Json::Number(text) => Json::Number(text.clone()),
        Json::Text(text) => Json::Text(text.clone()),
        Json::Array(items) => {
            let mut copies: Vec<Json> = Vec::new();
            let mut i: usize = 0;
            while i < items.len()
                invariant
                    *value == Json::Array(*items),
                    i <= items@.len(),
                    copies@.len() == i,
                    forall|k: int|
                        0 <= k < i ==> (#[trigger] copies@[k]).model() == items@[k].model(),
                decreases items.len() - i,
            {
                assert(*items == (*value)->Array_0);
                assert(decreases_to!(*value => (*value)->Array_0));
                assert(decreases_to!(*items => items[i as int]));
                copies.push(clone_json(&items[i]));
                i += 1;
            }
            let copy = Json::Array(copies);
            assert(copy.model()->Array_0 =~= value.model()->Array_0);
            copy
        },
        Json::Object(members) => {
            let mut copies: Vec<(String, Json)> = Vec::new();
            let mut i: usize = 0;
            while i < members.len()
                invariant
                    *value == Json::Object(*members),
                    i <= members@.len(),
                    copies@.len() == i,
                    forall|k: int|
                        0 <= k < i ==> (#[trigger] copies@[k]).0 == members@[k].0
                            && copies@[k].1.model() == members@[k].1.model(),
                decreases members.len() - i,
            {
                let name = members[i].0.clone();
                assert(*members == (*value)->Object_0);
                assert(decreases_to!(*value => (*value)->Object_0));
                assert(decreases_to!(*members => members[i as int]));
                let member = clone_json(&members[i].1);
                copies.push((name, member));
                i += 1;
            }
            let copy = Json::Object(copies);
            assert(copy.model()->Object_0 =~= value.model()->Object_0);
            copy
        },
    }
}

/// A member of an object is the value of the first member with its name; nothing but an
/// object has members.
pub proof fn law_first_member_of_a_name_counts(
    members: Seq<(Seq<char>, JsonModel)>,
    name: Seq<char>,
    from: int,
)
    requires
        0 <= from <= members.len(),
    ensures
        match member_from(members, name, from) {
            Some(value) => exists|i: int|
                from <= i < members.len() && #[trigger] members[i] == (name, value) && forall|
                    j: int,
                |
                    from <= j < i ==> (#[trigger] members[j]).0 != name,
            None => forall|j: int| from <= j < members.len() ==> (#[trigger] members[j]).0 != name,
        },
        JsonModel::Object(members).member(name) == member_from(members, name, 0),
        JsonModel::Text(name).member(name) is None,
        JsonModel::Text(name).text() == Some(name),
        JsonModel::Number(name).text() is None,
        JsonModel::Bool(true).flag() == Some(true),
        JsonModel::Bool(false).flag() == Some(false),
        JsonModel::Text(name).flag() is None,
        JsonModel::Object(members).items() is None,
    decreases members.len() - from,
{
    if from < members.len() {
        law_first_member_of_a_name_counts(members, name, from + 1);
        if members[from].0 == name {
            assert(members[from] == (name, members[from].1));
        } else if let Some(value) = member_from(members, name, from) {
            let i = choose|i: int|
                from + 1 <= i < members.len() && #[trigger] members[i] == (name, value) && forall|
                    j: int,
                |
                    from + 1 <= j < i ==> (#[trigger] members[j]).0 != name;
            assert(members[i] == (name, value));
        }
    }
}

} // verus!
