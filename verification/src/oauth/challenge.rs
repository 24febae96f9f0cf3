//! The challenge that a protected endpoint answers with, and what a probe of an
//! endpoint says of it.
use vstd::prelude::*;
use vstd::string::*;
use crate::oauth::store::OAuthStatus;
use crate::scan::{
    find_char, find_space, is_space, lemma_next_char, lemma_next_char_is, lemma_trimmed_holds,
    lemma_trimmed_ignores_back, lemma_trimmed_keeps, lemma_trimmed_start_of_pair,
    lemma_trimmed_twice, lemma_trimmed_end, next_char, next_space, slice_of, trim, trimmed,
    trimmed_start,
};
use crate::text::{chars_of, joined, opt_text, same_text, string_of, text3};

verus! {

/// What a challenge says of the authorization that an endpoint asks for.
#[derive(Debug, Clone)]
pub struct WwwAuthenticate {
    /// Where the metadata of the resource is found.
    pub resource_metadata: Option<String>,
    /// The scopes that the resource asks for, with spaces between them.
    pub scope: Option<String>,
    /// Why the request was refused.
    pub error: Option<String>,
}

/// What a challenge says.
#[verifier::ext_equal]
pub struct ChallengeModel {
    pub resource_metadata: Option<Seq<char>>,
    pub scope: Option<Seq<char>>,
    pub error: Option<Seq<char>>,
}

impl View for WwwAuthenticate {
    type V = ChallengeModel;

    open spec fn view(&self) -> ChallengeModel {
        ChallengeModel {
            resource_metadata: opt_text(self.resource_metadata),
            scope: opt_text(self.scope),
            error: opt_text(self.error),
        }
    }
}

impl Default for WwwAuthenticate {
    /// A challenge that says nothing.
    fn default() -> (empty: Self)
        ensures
            empty@ == (ChallengeModel { resource_metadata: None, scope: None, error: None }),
    {
        WwwAuthenticate { resource_metadata: None, scope: None, error: None }
    }
}

impl WwwAuthenticate {
    /// Whether the challenge asks for more scopes than the token has.
    pub fn is_insufficient_scope(&self) -> (insufficient: bool)
        ensures
            insufficient == (self@.error == Some("insufficient_scope"@)),
    {
        match &self.error {
            Some(error) => same_text(error.as_str(), "insufficient_scope"),
            None => false,
        }
    }
}

/// Whether `c` stands between two parameters: a comma, or white space of ASCII.
pub open spec fn is_separator(c: char) -> bool {
    c == ',' || c == ' ' || c == '\t' || c == '\n' || c == '\r' || c as u32 == 12
}

/// The first index from `from` on that holds no separator.
pub open spec fn param_start(s: Seq<char>, from: int) -> int
    decreases s.len() - from,
{
    if from < s.len() && is_separator(s[from]) {
        param_start(s, from + 1)
    } else {
        from
    }
}

/// What stands behind a key: its value and where the next parameter may begin. A
/// value in quotes reaches up to the closing quote, or to the end without one; any
/// other up to the next comma, without the white space around it.
pub open spec fn value_at(s: Seq<char>, from: int) -> (Seq<char>, int) {
    if from < s.len() && s[from] == '"' {
        let close = next_char(s, '"', from + 1);
        (s.subrange(from + 1, close), if close < s.len() {
            close + 1
        } else {
            close
        })
    } else {
        let end = next_char(s, ',', from);
        (trimmed(s.subrange(from, end)), end)
    }
}

/// The parameters of a list `key=value, key="value"` from index `from` on. A value
/// without a key is passed over.
pub open spec fn params_from(s: Seq<char>, from: int) -> Seq<(Seq<char>, Seq<char>)>
    decreases s.len() - from,
    when 0 <= from <= s.len()
    via params_from_decreases
{
    let start = param_start(s, from);
    let equals = next_char(s, '=', start);
    if equals >= s.len() {
        Seq::empty()
    } else {
        let key = trimmed(s.subrange(start, equals));
        let (value, next) = value_at(s, equals + 1);
        if key.len() > 0 {
            seq![(key, value)] + params_from(s, next)
        } else {
            params_from(s, next)
        }
    }
}

#[via_fn]
proof fn params_from_decreases(s: Seq<char>, from: int) {
    lemma_param(s, from);
}

/// A parameter ends behind where it begins, and within the list.
proof fn lemma_param(s: Seq<char>, from: int)
    requires
        0 <= from <= s.len(),
    ensures
        from <= param_start(s, from) <= s.len(),
        param_start(s, from) <= next_char(s, '=', param_start(s, from)) <= s.len(),
        next_char(s, '=', param_start(s, from)) < s.len() ==> {
            let (value, next) = value_at(s, next_char(s, '=', param_start(s, from)) + 1);
            from < next <= s.len()
        },
{
    lemma_param_start(s, from);
    let start = param_start(s, from);
    lemma_next_char(s, '=', start);
    let equals = next_char(s, '=', start);
    if equals < s.len() {
        if equals + 1 < s.len() && s[equals + 1] == '"' {
            lemma_next_char(s, '"', equals + 2);
        } else {
            lemma_next_char(s, ',', equals + 1);
        }
    }
}

/// A parameter begins within the list.
proof fn lemma_param_start(s: Seq<char>, from: int)
    requires
        0 <= from <= s.len(),
    ensures
        from <= param_start(s, from) <= s.len(),
    decreases s.len() - from,
{
    if from < s.len() && is_separator(s[from]) {
        lemma_param_start(s, from + 1);
    }
}

/// The parameters of a list.
pub open spec fn params_of(s: Seq<char>) -> Seq<(Seq<char>, Seq<char>)> {
    params_from(s, 0)
}

/// What pairs of strings say.
pub open spec fn pair_models(pairs: Seq<(String, String)>) -> Seq<(Seq<char>, Seq<char>)> {
    pairs.map_values(|pair: (String, String)| (pair.0@, pair.1@))
}

/// The value at `from` and where the next parameter may begin.
fn read_value(text: &Vec<char>, from: usize) -> (read: (String, usize))
    requires
        from <= text@.len(),
    ensures
        read.0@ == value_at(text@, from as int).0,
        read.1 == value_at(text@, from as int).1,
{
    if from < text.len() && text[from] == '"' {
        let close: usize = find_char(text, '"', from + 1);
        let value = string_of(slice_of(text, from + 1, close).as_slice());
        if close < text.len() {
            (value, close + 1)
        } else {
            (value, close)
        }
    } else {
        let end: usize = find_char(text, ',', from);
        let value = string_of(slice_of(text, from, end).as_slice());
        (trim(value.as_str()), end)
    }
}

/// The first index from `from` on that holds no separator.
fn find_param_start(text: &Vec<char>, from: usize) -> (start: usize)
    requires
        from <= text@.len(),
    ensures
        start == param_start(text@, from as int),
        from <= start <= text@.len(),
{
    let mut start: usize = from;
    while start < text.len() && (text[start] == ',' || text[start] == ' ' || text[start] == '\t'
        || text[start] == '\n' || text[start] == '\r' || text[start] as u32 == 12)
        invariant
            from <= start <= text@.len(),
            param_start(text@, start as int) == param_start(text@, from as int),
        decreases text.len() - start,
    {
        start += 1;
    }
    start
}

/// The parameters of a list `key=value, key="value"`.
pub fn parse_auth_params(input: &str) -> (params: Vec<(String, String)>)
    ensures
        pair_models(params@) == params_of(input@),
{
    let text = chars_of(input);
    let mut params: Vec<(String, String)> = Vec::new();
    let mut from: usize = 0;
    assert(pair_models(params@) + params_of(input@) =~= params_of(input@));
    while from < text.len()
        invariant
            text@ == input@,
            from <= text@.len(),
            pair_models(params@) + params_from(input@, from as int) == params_of(input@),
        decreases text.len() - from,
    {
        proof {
            lemma_param(input@, from as int);
        }
        let ghost done = pair_models(params@);
        let start: usize = find_param_start(&text, from);
        let equals: usize = find_char(&text, '=', start);
        if equals >= text.len() {
            assert(done + Seq::<(Seq<char>, Seq<char>)>::empty() =~= done);
            return params;
        }
        let name = string_of(slice_of(&text, start, equals).as_slice());
        let key = trim(name.as_str());
        let (value, next) = read_value(&text, equals + 1);
        if !key.as_str().is_empty() {
            let ghost said = (key@, value@);
            params.push((key, value));
            assert(pair_models(params@) =~= done.push(said));
            assert(done.push(said) + params_from(input@, next as int) =~= done + (seq![said]
                + params_from(input@, next as int)));
        }
        from = next;
    }
    assert(next_char(input@, '=', param_start(input@, from as int)) >= input@.len()) by {
        lemma_param(input@, from as int);
    }
    assert(pair_models(params@) + Seq::<(Seq<char>, Seq<char>)>::empty() =~= pair_models(params@));
    params
}

/// What stands behind the scheme of a text: behind its first word, where that holds no
/// equals sign and something follows it, else all of it.
pub open spec fn behind_scheme(text: Seq<char>) -> Seq<char> {
    let space = next_space(text, true, 0);
    if space < text.len() && !text.take(space).contains('=') {
        text.skip(space + 1)
    } else {
        text
    }
}

/// The parameters of a challenge: what stands behind its scheme, without the white
/// space around the challenge.
pub open spec fn challenge_params(header: Seq<char>) -> Seq<char> {
    behind_scheme(trimmed(header))
}

/// The value of the last of the first `k` parameters with a name.
pub open spec fn last_value(
    params: Seq<(Seq<char>, Seq<char>)>,
    name: Seq<char>,
    k: int,
) -> Option<Seq<char>>
    decreases k,
{
    if k <= 0 {
        None
    } else if params[k - 1].0 == name {
        Some(params[k - 1].1)
    } else {
        last_value(params, name, k - 1)
    }
}

/// What a challenge says: of each parameter known here, its last value.
pub open spec fn challenge_of(header: Seq<char>) -> ChallengeModel {
    let params = params_of(challenge_params(header));
    let k = params.len() as int;
    ChallengeModel {
        resource_metadata: last_value(params, "resource_metadata"@, k),
        scope: last_value(params, "scope"@, k),
        error: last_value(params, "error"@, k),
    }
}

/// What stands behind the scheme of a text.
fn without_scheme(text: &str) -> (params: String)
    ensures
        params@ == behind_scheme(text@),
{
    let chars = chars_of(text);
    let space: usize = find_space(&chars, true, 0);
    let equals: usize = find_char(&chars, '=', 0);
    proof {
        lemma_next_char(text@, '=', 0);
        if equals < space {
            assert(text@.take(space as int)[equals as int] == '=');
        } else {
            assert(!text@.take(space as int).contains('=')) by {
                if text@.take(space as int).contains('=') {
                    let at = choose|at: int|
                        0 <= at < space && text@.take(space as int)[at] == '=';
                    assert(text@[at] == '=');
                }
            }
        }
    }
    if space < chars.len() && equals >= space {
        let rest = slice_of(&chars, space + 1, chars.len());
        assert(rest@ =~= text@.skip(space + 1));
        string_of(rest.as_slice())
    } else {
        text.to_owned()
    }
}

/// Reads a challenge. A scheme at its front and quotes are optional, white space around
/// the challenge and around values is passed over, and parameters unknown here are
/// ignored.
pub fn parse_www_authenticate(header: &str) -> (challenge: WwwAuthenticate)
    ensures
        challenge@ == challenge_of(header@),
{
    reveal_names();
    let rest = without_scheme(trim(header).as_str());
    let params = parse_auth_params(rest.as_str());
    let ghost all = params_of(challenge_params(header@));
    let mut challenge = WwwAuthenticate::default();
    let mut k: usize = 0;
    while k < params.len()
        invariant
            k <= params@.len(),
            all == pair_models(params@),
            challenge@.resource_metadata == last_value(all, "resource_metadata"@, k as int),
            challenge@.scope == last_value(all, "scope"@, k as int),
            challenge@.error == last_value(all, "error"@, k as int),
            "resource_metadata"@ != "scope"@,
            "resource_metadata"@ != "error"@,
            "scope"@ != "error"@,
        decreases params.len() - k,
    {
        let (key, value) = (&params[k].0, &params[k].1);
        assert(all[k as int] == (key@, value@));
        if same_text(key.as_str(), "resource_metadata") {
            challenge.resource_metadata = Some(value.clone());
        } else if same_text(key.as_str(), "scope") {
            challenge.scope = Some(value.clone());
        } else if same_text(key.as_str(), "error") {
            challenge.error = Some(value.clone());
        }
        k += 1;
    }
    challenge
}

/// White space around a challenge does not matter.
pub proof fn law_challenge_ignores_white_space_around(header: Seq<char>)
    ensures
        challenge_of(header) == challenge_of(trimmed(header)),
{
    lemma_trimmed_twice(header);
}

/// Whether a text can be the name of a parameter: it is not empty, and holds no equals
/// sign, no comma, no quote and no white space.
pub open spec fn is_name(name: Seq<char>) -> bool {
    &&& name.len() > 0
    &&& forall|i: int|
        0 <= i < name.len() ==> {
            let c = #[trigger] name[i];
            c != '=' && c != ',' && c != '"' && !is_space(c)
        }
}

/// A parameter as it is written with its value in quotes.
pub open spec fn written_param(name: Seq<char>, value: Seq<char>) -> Seq<char> {
    name + "=\""@ + value + "\""@
}

/// Parameters as they are written one behind the other.
pub open spec fn written_params(params: Seq<(Seq<char>, Seq<char>)>) -> Seq<char> {
    joined(
        params.map_values(|param: (Seq<char>, Seq<char>)| written_param(param.0, param.1)),
        ", "@,
    )
}

/// Whether a parameter from index `from` on begins a quote that is not closed.
pub open spec fn left_open(s: Seq<char>, from: int) -> bool
    decreases s.len() - from,
    when 0 <= from <= s.len()
    via left_open_decreases
{
    let equals = next_char(s, '=', param_start(s, from));
    if equals >= s.len() {
        false
    } else if equals + 1 < s.len() && s[equals + 1] == '"' && next_char(s, '"', equals + 2)
        >= s.len() {
        true
    } else {
        left_open(s, value_at(s, equals + 1).1)
    }
}

#[via_fn]
proof fn left_open_decreases(s: Seq<char>, from: int) {
    lemma_param(s, from);
}

/// Whether nothing but whole parameters stands from index `from` on.
pub open spec fn all_whole(s: Seq<char>, from: int) -> bool
    decreases s.len() - from,
    when 0 <= from <= s.len()
    via all_whole_decreases
{
    let equals = next_char(s, '=', param_start(s, from));
    if from == s.len() {
        true
    } else if equals >= s.len() {
        false
    } else {
        all_whole(s, value_at(s, equals + 1).1)
    }
}

#[via_fn]
proof fn all_whole_decreases(s: Seq<char>, from: int) {
    lemma_param(s, from);
}

/// The index behind separators that holds none is where a parameter begins.
proof fn lemma_param_start_is(s: Seq<char>, from: int, at: int)
    requires
        0 <= from <= at <= s.len(),
        forall|i: int| from <= i < at ==> is_separator(#[trigger] s[i]),
        at < s.len() ==> !is_separator(s[at]),
    ensures
        param_start(s, from) == at,
    decreases at - from,
{
    if from < at {
        assert(is_separator(s[from]));
        lemma_param_start_is(s, from + 1, at);
    }
}

/// Only separators are passed over up to where a parameter begins.
proof fn lemma_param_start_passes(s: Seq<char>, from: int)
    requires
        0 <= from <= s.len(),
    ensures
        from <= param_start(s, from) <= s.len(),
        forall|i: int| from <= i < param_start(s, from) ==> is_separator(#[trigger] s[i]),
        param_start(s, from) < s.len() ==> !is_separator(s[param_start(s, from)]),
    decreases s.len() - from,
{
    if from < s.len() && is_separator(s[from]) {
        lemma_param_start_passes(s, from + 1);
    }
}

/// What is read from an index on is the parameter that begins there, and what is read
/// behind it.
proof fn lemma_params_step(s: Seq<char>, from: int, equals: int, next: int)
    requires
        0 <= from <= s.len(),
        equals == next_char(s, '=', param_start(s, from)),
        equals < s.len(),
        next == value_at(s, equals + 1).1,
    ensures
        from < next <= s.len(),
        ({
            let key = trimmed(s.subrange(param_start(s, from), equals));
            let value = value_at(s, equals + 1).0;
            params_from(s, from) == if key.len() > 0 {
                seq![(key, value)] + params_from(s, next)
            } else {
                params_from(s, next)
            }
        }),
        all_whole(s, from) == all_whole(s, next),
        left_open(s, from) == (equals + 1 < s.len() && s[equals + 1] == '"' && next_char(
            s,
            '"',
            equals + 2,
        ) >= s.len() || left_open(s, next)),
{
    lemma_param(s, from);
}

/// Nothing is read at the end.
proof fn lemma_params_end(s: Seq<char>)
    ensures
        params_from(s, s.len() as int) == Seq::<(Seq<char>, Seq<char>)>::empty(),
        all_whole(s, s.len() as int),
        !left_open(s, s.len() as int),
{
    lemma_param(s, s.len() as int);
}

/// A comma, a space and a parameter in quotes, behind white space.
#[verifier::opaque]
spec fn param_behind(space: Seq<char>, name: Seq<char>, value: Seq<char>) -> Seq<char> {
    space + ", "@ + written_param(name, value)
}

/// What stands where in a parameter that is written behind others.
proof fn lemma_param_behind(space: Seq<char>, name: Seq<char>, value: Seq<char>)
    requires
        is_name(name),
    ensures
        ({
            let more = param_behind(space, name, value);
            let at = space.len() as int + 2;
            &&& more.len() == at + name.len() + 2 + value.len() + 1
            &&& forall|i: int| 0 <= i < space.len() ==> more[i] == #[trigger] space[i]
            &&& more[space.len() as int] == ','
            &&& more[space.len() as int + 1] == ' '
            &&& forall|i: int| 0 <= i < name.len() ==> more[at + i] == #[trigger] name[i]
            &&& more.subrange(at, at + name.len()) == name
            &&& more[at + name.len()] == '='
            &&& more[at + name.len() + 1] == '"'
            &&& forall|i: int|
                0 <= i < value.len() ==> more[at + name.len() + 2 + i] == #[trigger] value[i]
            &&& more.subrange(at + name.len() + 2, at + name.len() + 2 + value.len()) == value
            &&& more[more.len() - 1] == '"'
        }),
{
    reveal(param_behind);
    reveal_strlit(", ");
    reveal_strlit("=\"");
    reveal_strlit("\"");
    let more = param_behind(space, name, value);
    let at = space.len() as int + 2;
    assert(more.subrange(at, at + name.len()) =~= name);
    assert(more.subrange(at + name.len() + 2, at + name.len() + 2 + value.len()) =~= value);
}

/// A parameter that is written behind a text, read from an index on that lies before
/// its equals sign and behind those of the text.
proof fn lemma_param_read(
    s: Seq<char>,
    from: int,
    space: Seq<char>,
    name: Seq<char>,
    value: Seq<char>,
    start: int,
)
    requires
        0 <= from <= start <= s.len() + space.len() + 2,
        start == param_start(s + param_behind(space, name, value), from),
        forall|i: int| start <= i < s.len() ==> #[trigger] s[i] != '=',
        forall|i: int| 0 <= i < space.len() ==> is_space(#[trigger] space[i]),
        is_name(name),
        !value.contains('"'),
    ensures
        ({
            let all = s + param_behind(space, name, value);
            let equals = s.len() as int + space.len() + 2 + name.len();
            &&& next_char(all, '=', start) == equals
            &&& value_at(all, equals + 1) == (value, all.len() as int)
            &&& all[equals + 1] == '"'
            &&& next_char(all, '"', equals + 2) == all.len() - 1
        }),
{
    let more = param_behind(space, name, value);
    let all = s + more;
    lemma_param_behind(space, name, value);
    let base = s.len() as int;
    let gap = space.len() as int;
    let first = base + gap + 2;
    let equals = first + name.len();
    assert forall|i: int| start <= i < equals implies #[trigger] all[i] != '=' by {
        if i >= base {
            assert(all[i] == more[i - base]);
            if i < base + gap {
                assert(more[i - base] == space[i - base]);
                assert(is_space(space[i - base]));
            } else if i >= first {
                assert(more[gap + 2 + (i - first)] == name[i - first]);
            }
        } else {
            assert(all[i] == s[i]);
        }
    }
    assert(all[equals] == more[equals - base]);
    lemma_next_char_is(all, '=', start, equals);
    assert(all[equals + 1] == more[equals + 1 - base]);
    let last = all.len() - 1;
    assert forall|i: int| equals + 2 <= i < last implies #[trigger] all[i] != '"' by {
        let at = i - equals - 2;
        assert(all[i] == more[i - base]);
        assert(more[gap + 2 + name.len() + 2 + at] == value[at]);
        assert(value.contains(value[at]));
    }
    assert(all[last] == more[more.len() - 1]);
    lemma_next_char_is(all, '"', equals + 2, last);
    assert(all.subrange(equals + 2, last) =~= more.subrange(equals + 2 - base, last - base));
}

/// The name of a parameter that is written behind a text: its own, or one that has
/// taken up the comma before it.
proof fn lemma_name_read(
    s: Seq<char>,
    from: int,
    space: Seq<char>,
    name: Seq<char>,
    value: Seq<char>,
)
    requires
        0 <= from <= s.len() + space.len(),
        is_name(name),
    ensures
        ({
            let all = s + param_behind(space, name, value);
            let first = s.len() as int + space.len() + 2;
            let start = param_start(all, from);
            let key = trimmed(all.subrange(start, first + name.len()));
            &&& from <= start <= first
            &&& key == name || key.contains(',')
            &&& from == s.len() + space.len() ==> key == name
        }),
{
    let more = param_behind(space, name, value);
    let all = s + more;
    lemma_param_behind(space, name, value);
    let base = s.len() as int;
    let gap = space.len() as int;
    let comma = base + gap;
    let first = comma + 2;
    let equals = first + name.len();
    assert(all[comma] == more[gap]);
    assert(all[comma + 1] == more[gap + 1]);
    assert(all[first] == more[gap + 2]);
    assert(more[gap + 2 + 0] == name[0]);
    assert(!is_separator(all[first]));
    lemma_param_start_passes(all, from);
    let start = param_start(all, from);
    assert(start <= first);
    let key_text = all.subrange(start, equals);
    if start <= comma {
        assert(key_text[comma - start] == ',');
        lemma_trimmed_holds(key_text, comma - start);
        if from == comma {
            assert(is_separator(all[comma]));
            assert(false);
        }
    } else {
        assert(is_separator(all[comma + 1]));
        assert(start == first);
        assert(key_text =~= more.subrange(gap + 2, gap + 2 + name.len()));
        assert(!is_space(name[0]) && !is_space(name[name.len() - 1]));
        lemma_trimmed_keeps(name);
    }
}

/// The parameter that is read where one was written behind a text that has no more
/// parameters: its value, and its name with what was left before it.
proof fn lemma_last_param(
    s: Seq<char>,
    from: int,
    space: Seq<char>,
    name: Seq<char>,
    value: Seq<char>,
)
    requires
        0 <= from <= s.len() || from == s.len() + space.len(),
        from < s.len() ==> next_char(s, '=', param_start(s, from)) >= s.len(),
        forall|i: int| 0 <= i < space.len() ==> is_space(#[trigger] space[i]),
        is_name(name),
        !value.contains('"'),
    ensures
        ({
            let all = s + param_behind(space, name, value);
            let params = params_from(all, from);
            &&& params.len() == 1
            &&& !left_open(all, from)
            &&& all_whole(all, from)
            &&& params[0].1 == value
            &&& params[0].0 == name || params[0].0.contains(',')
            &&& from == s.len() + space.len() ==> params[0].0 == name
        }),
{
    let all = s + param_behind(space, name, value);
    lemma_param_behind(space, name, value);
    lemma_name_read(s, from, space, name, value);
    lemma_param_start_passes(all, from);
    let start = param_start(all, from);
    let equals = s.len() as int + space.len() + 2 + name.len();
    assert forall|i: int| start <= i < s.len() implies #[trigger] s[i] != '=' by {
        lemma_param_start_passes(s, from);
        let there = param_start(s, from);
        lemma_next_char(s, '=', there);
        if i < there {
            assert(is_separator(s[i]));
        }
    }
    lemma_param_read(s, from, space, name, value, start);
    lemma_params_step(all, from, equals, all.len() as int);
    lemma_params_end(all);
    let key = trimmed(all.subrange(start, equals));
    assert(params_from(all, from) =~= seq![(key, value)]);
}

/// A parameter that is written behind a text is read behind those of the text. Its name
/// may have taken up what the text had left over, and is then no name.
proof fn lemma_param_appended(
    s: Seq<char>,
    from: int,
    space: Seq<char>,
    name: Seq<char>,
    value: Seq<char>,
)
    requires
        0 <= from <= s.len(),
        !left_open(s, from),
        forall|i: int| 0 <= i < space.len() ==> is_space(#[trigger] space[i]),
        is_name(name),
        !value.contains('"'),
    ensures
        ({
            let all = s + param_behind(space, name, value);
            let params = params_from(all, from);
            &&& !left_open(all, from)
            &&& params.len() == params_from(s, from).len() + 1
            &&& params.drop_last() == params_from(s, from)
            &&& params.last().1 == value
            &&& params.last().0 == name || params.last().0.contains(',')
            &&& all_whole(s, from) && space.len() == 0 ==> params.last().0 == name && all_whole(
                all,
                from,
            )
        }),
    decreases s.len() - from,
{
    let more = param_behind(space, name, value);
    let all = s + more;
    lemma_param_behind(space, name, value);
    lemma_param(s, from);
    lemma_param_start_passes(s, from);
    let start = param_start(s, from);
    let equals = next_char(s, '=', start);
    lemma_next_char(s, '=', start);
    if equals >= s.len() {
        lemma_last_param(s, from, space, name, value);
        assert(params_from(all, from).drop_last() =~= Seq::empty());
        assert(params_from(s, from) =~= Seq::empty());
        if from < s.len() {
            assert(!all_whole(s, from));
        }
    } else {
        let base = s.len() as int;
        lemma_param_start_is(all, from, start);
        assert forall|i: int| start <= i < equals implies #[trigger] all[i] != '=' by {
            assert(s[i] != '=');
        }
        lemma_next_char_is(all, '=', start, equals);
        let key = trimmed(s.subrange(start, equals));
        assert(all.subrange(start, equals) =~= s.subrange(start, equals));
        let (found, next) = value_at(s, equals + 1);
        lemma_params_step(s, from, equals, next);
        let quoted = equals + 1 < base && s[equals + 1] == '"';
        assert(all[base] == more[0]);
        if space.len() > 0 {
            assert(more[0] == space[0] && is_space(space[0]));
        }
        if quoted {
            let close = next_char(s, '"', equals + 2);
            lemma_next_char(s, '"', equals + 2);
            assert(close < base);
            assert forall|i: int| equals + 2 <= i < close implies #[trigger] all[i] != '"' by {
                assert(s[i] != '"');
            }
            lemma_next_char_is(all, '"', equals + 2, close);
            assert(all.subrange(equals + 2, close) =~= s.subrange(equals + 2, close));
            assert(value_at(all, equals + 1) == (found, next));
            lemma_param_appended(s, next, space, name, value);
            lemma_step_appended(s, all, from, key, found, next, next, value);
        } else {
            let end = next_char(s, ',', equals + 1);
            lemma_next_char(s, ',', equals + 1);
            if end < base {
                assert forall|i: int| equals + 1 <= i < end implies #[trigger] all[i] != ',' by {
                    assert(s[i] != ',');
                }
                lemma_next_char_is(all, ',', equals + 1, end);
                assert(all.subrange(equals + 1, end) =~= s.subrange(equals + 1, end));
                assert(value_at(all, equals + 1) == (found, next));
                lemma_param_appended(s, next, space, name, value);
                lemma_step_appended(s, all, from, key, found, next, next, value);
            } else {
                let comma = base + space.len();
                assert forall|i: int| equals + 1 <= i < comma implies #[trigger] all[i] != ',' by {
                    if i < base {
                        assert(s[i] != ',');
                    } else {
                        assert(more[i - base] == space[i - base]);
                        assert(is_space(space[i - base]));
                    }
                }
                assert(all[comma] == more[space.len() as int]);
                lemma_next_char_is(all, ',', equals + 1, comma);
                assert(all.subrange(equals + 1, comma) =~= s.subrange(equals + 1, base) + space);
                lemma_trimmed_ignores_back(s.subrange(equals + 1, base), space);
                assert(value_at(all, equals + 1) == (found, comma));
                lemma_last_param(s, comma, space, name, value);
                lemma_params_end(s);
                assert(params_from(all, comma).drop_last() =~= params_from(s, base));
                lemma_step_appended(s, all, from, key, found, next, comma, value);
            }
        }
    }
}

/// One parameter in front changes nothing about the ones that are read behind it.
proof fn lemma_step_appended(
    s: Seq<char>,
    all: Seq<char>,
    from: int,
    key: Seq<char>,
    found: Seq<char>,
    next: int,
    next_all: int,
    value: Seq<char>,
)
    requires
        0 <= from <= s.len() < all.len(),
        next_char(s, '=', param_start(s, from)) < s.len(),
        next_char(all, '=', param_start(all, from)) == next_char(s, '=', param_start(s, from)),
        key == trimmed(s.subrange(param_start(s, from), next_char(s, '=', param_start(s, from)))),
        key == trimmed(
            all.subrange(param_start(all, from), next_char(all, '=', param_start(all, from))),
        ),
        value_at(s, next_char(s, '=', param_start(s, from)) + 1) == (found, next),
        value_at(all, next_char(s, '=', param_start(s, from)) + 1) == (found, next_all),
        params_from(all, next_all).len() == params_from(s, next).len() + 1,
        params_from(all, next_all).drop_last() == params_from(s, next),
        params_from(all, next_all).last().1 == value,
    ensures
        params_from(all, from).len() == params_from(s, from).len() + 1,
        params_from(all, from).drop_last() == params_from(s, from),
        params_from(all, from).last() == params_from(all, next_all).last(),
        all_whole(s, from) == all_whole(s, next),
        all_whole(all, from) == all_whole(all, next_all),
        left_open(all, from) == (all[next_char(s, '=', param_start(s, from)) + 1] == '"'
            && next_char(all, '"', next_char(s, '=', param_start(s, from)) + 2) >= all.len()
            || left_open(all, next_all)),
{
    let behind = params_from(all, next_all);
    let equals = next_char(s, '=', param_start(s, from));
    lemma_params_step(s, from, equals, next);
    lemma_params_step(all, from, equals, next_all);
    if key.len() > 0 {
        let here = seq![(key, found)];
        assert(params_from(all, from) == here + behind);
        assert((here + behind).drop_last() =~= here + behind.drop_last());
        assert((here + behind).last() == behind.last());
    } else {
        assert(params_from(all, from) == behind);
    }
}

/// Parameters that are written with their values in quotes are read as they were
/// written: all of them, in their order, with commas and spaces in their values.
pub proof fn law_written_params_are_read(params: Seq<(Seq<char>, Seq<char>)>)
    requires
        forall|i: int|
            0 <= i < params.len() ==> is_name((#[trigger] params[i]).0)
                && !params[i].1.contains('"'),
    ensures
        params_of(written_params(params)) == params,
{
    lemma_written_params(params);
}

/// Parameters that are written are whole and are read as they were written.
proof fn lemma_written_params(params: Seq<(Seq<char>, Seq<char>)>)
    requires
        forall|i: int|
            0 <= i < params.len() ==> is_name((#[trigger] params[i]).0)
                && !params[i].1.contains('"'),
    ensures
        params_of(written_params(params)) == params,
        all_whole(written_params(params), 0),
        !left_open(written_params(params), 0),
    decreases params.len(),
{
    let parts = params.map_values(
        |param: (Seq<char>, Seq<char>)| written_param(param.0, param.1),
    );
    let text = written_params(params);
    if params.len() == 0 {
        assert(text =~= Seq::empty());
        assert(params_of(text) =~= params);
    } else {
        let front = params.drop_last();
        let (name, value) = params.last();
        assert(is_name(params[params.len() - 1].0));
        assert forall|i: int| 0 <= i < front.len() implies is_name((#[trigger] front[i]).0)
            && !front[i].1.contains('"') by {
            assert(front[i] == params[i]);
        }
        lemma_written_params(front);
        let front_parts = front.map_values(
            |param: (Seq<char>, Seq<char>)| written_param(param.0, param.1),
        );
        assert(front_parts =~= parts.drop_last());
        let none = Seq::<char>::empty();
        if params.len() == 1 {
            assert(text == written_param(name, value));
            lemma_param_alone(name, value);
            assert(params_of(text) =~= params);
        } else {
            let written = written_params(front);
            assert(text == written + ", "@ + written_param(name, value));
            assert(text =~= written + param_behind(none, name, value)) by {
                reveal(param_behind);
            }
            lemma_param_appended(written, 0, none, name, value);
            let read = params_of(text);
            assert(read.last() == params.last());
            assert(read =~= read.drop_last().push(read.last()));
            assert(params =~= front.push(params.last()));
        }
    }
}

/// A parameter in quotes alone is read as it was written.
proof fn lemma_param_alone(name: Seq<char>, value: Seq<char>)
    requires
        is_name(name),
        !value.contains('"'),
    ensures
        params_of(written_param(name, value)) == seq![(name, value)],
        all_whole(written_param(name, value), 0),
        !left_open(written_param(name, value), 0),
{
    reveal_strlit("=\"");
    reveal_strlit("\"");
    let text = written_param(name, value);
    let equals = name.len() as int;
    let last = text.len() - 1;
    assert(text[0] == name[0]);
    lemma_param_start_is(text, 0, 0);
    assert forall|i: int| 0 <= i < equals implies #[trigger] text[i] != '=' by {
        assert(text[i] == name[i]);
    }
    lemma_next_char_is(text, '=', 0, equals);
    assert(text[equals + 1] == '"');
    assert forall|i: int| equals + 2 <= i < last implies #[trigger] text[i] != '"' by {
        assert(text[i] == value[i - equals - 2]);
        assert(value.contains(value[i - equals - 2]));
    }
    lemma_next_char_is(text, '"', equals + 2, last);
    assert(text.subrange(0, equals) =~= name);
    assert(!is_space(name[0]) && !is_space(name[name.len() - 1]));
    lemma_trimmed_keeps(name);
    assert(text.subrange(equals + 2, last) =~= value);
    lemma_params_step(text, 0, equals, text.len() as int);
    lemma_params_end(text);
    assert(params_of(text) =~= seq![(name, value)]);
}

/// Whether a challenge takes no notice of a parameter: its name is none of the names
/// known here.
pub open spec fn is_unknown(name: Seq<char>) -> bool {
    name != "resource_metadata"@ && name != "scope"@ && name != "error"@
}

/// What the last parameter says is passed over where its name is not asked for.
proof fn lemma_last_value(params: Seq<(Seq<char>, Seq<char>)>, name: Seq<char>, k: int)
    requires
        0 <= k < params.len(),
    ensures
        last_value(params, name, k) == last_value(params.drop_last(), name, k),
    decreases k,
{
    if k > 0 {
        assert(params.drop_last()[k - 1] == params[k - 1]);
        lemma_last_value(params, name, k - 1);
    }
}

/// A name with a comma in it is unknown.
proof fn lemma_comma_is_unknown(name: Seq<char>)
    requires
        name.contains(','),
    ensures
        is_unknown(name),
{
    reveal_strlit("resource_metadata");
    reveal_strlit("scope");
    reveal_strlit("error");
    let at = choose|at: int| 0 <= at < name.len() && name[at] == ',';
    assert("resource_metadata"@ =~= seq![
        'r', 'e', 's', 'o', 'u', 'r', 'c', 'e', '_', 'm', 'e', 't', 'a', 'd', 'a', 't', 'a',
    ]);
    assert("scope"@ =~= seq!['s', 'c', 'o', 'p', 'e']);
    assert("error"@ =~= seq!['e', 'r', 'r', 'o', 'r']);
}

/// What a list of parameters says of the names known here.
spec fn said_by(params: Seq<(Seq<char>, Seq<char>)>) -> ChallengeModel {
    let k = params.len() as int;
    ChallengeModel {
        resource_metadata: last_value(params, "resource_metadata"@, k),
        scope: last_value(params, "scope"@, k),
        error: last_value(params, "error"@, k),
    }
}

/// An unknown parameter at the end of a list changes nothing.
proof fn lemma_unknown_last(params: Seq<(Seq<char>, Seq<char>)>)
    requires
        params.len() > 0,
        is_unknown(params.last().0),
    ensures
        said_by(params) == said_by(params.drop_last()),
{
    let k = params.len() - 1;
    lemma_last_value(params, "resource_metadata"@, k);
    lemma_last_value(params, "scope"@, k);
    lemma_last_value(params, "error"@, k);
}

/// An unknown parameter behind a text of parameters changes nothing.
proof fn lemma_unknown_behind(
    s: Seq<char>,
    space: Seq<char>,
    name: Seq<char>,
    value: Seq<char>,
)
    requires
        !left_open(s, 0),
        forall|i: int| 0 <= i < space.len() ==> is_space(#[trigger] space[i]),
        is_name(name),
        is_unknown(name),
        !value.contains('"'),
    ensures
        said_by(params_of(s + param_behind(space, name, value))) == said_by(params_of(s)),
{
    lemma_param_appended(s, 0, space, name, value);
    let params = params_of(s + param_behind(space, name, value));
    if params.last().0.contains(',') {
        lemma_comma_is_unknown(params.last().0);
    }
    lemma_unknown_last(params);
}

/// The first white space lies where the first one is, with none before it.
proof fn lemma_next_space_is(s: Seq<char>, from: int, at: int)
    requires
        0 <= from <= at <= s.len(),
        forall|i: int| from <= i < at ==> !is_space(#[trigger] s[i]),
        at < s.len() ==> is_space(s[at]),
    ensures
        next_space(s, true, from) == at,
    decreases at - from,
{
    if from < at {
        assert(!is_space(s[from]));
        lemma_next_space_is(s, from + 1, at);
    }
}

/// Nothing before the first white space is one.
proof fn lemma_no_space_before(s: Seq<char>, from: int)
    requires
        0 <= from <= s.len(),
    ensures
        from <= next_space(s, true, from) <= s.len(),
        forall|i: int| from <= i < next_space(s, true, from) ==> !is_space(#[trigger] s[i]),
        next_space(s, true, from) < s.len() ==> is_space(s[next_space(s, true, from)]),
    decreases s.len() - from,
{
    if from < s.len() && !is_space(s[from]) {
        lemma_no_space_before(s, from + 1);
    }
}

/// Behind the scheme of a text with an unknown parameter at its end stands what stands
/// there without it, and the parameter.
proof fn lemma_unknown_behind_scheme(
    text: Seq<char>,
    space: Seq<char>,
    name: Seq<char>,
    value: Seq<char>,
)
    requires
        !left_open(behind_scheme(text), 0),
        forall|i: int| 0 <= i < space.len() ==> is_space(#[trigger] space[i]),
        is_name(name),
        is_unknown(name),
        !value.contains('"'),
    ensures
        said_by(params_of(behind_scheme(text + param_behind(space, name, value)))) == said_by(
            params_of(behind_scheme(text)),
        ),
{
    let more = param_behind(space, name, value);
    let all = text + more;
    lemma_param_behind(space, name, value);
    lemma_no_space_before(text, 0);
    let at = next_space(text, true, 0);
    if at < text.len() {
        assert forall|i: int| 0 <= i < at implies !is_space(#[trigger] all[i]) by {
            assert(all[i] == text[i]);
        }
        lemma_next_space_is(all, 0, at);
        assert(all.take(at) =~= text.take(at));
        assert(all.skip(at + 1) =~= text.skip(at + 1) + more);
        lemma_unknown_behind(behind_scheme(text), space, name, value);
    } else {
        let gap = space.len() as int;
        let found = if gap > 0 {
            text.len() as int
        } else {
            text.len() as int + 1
        };
        assert(all[text.len() as int] == more[0]);
        assert(all[text.len() as int + 1] == more[1]);
        assert(gap > 0 ==> more[0] == space[0] && is_space(space[0]));
        assert forall|i: int| 0 <= i < found implies !is_space(#[trigger] all[i]) by {
            if i < text.len() {
                assert(all[i] == text[i]);
            }
        }
        lemma_next_space_is(all, 0, found);
        let scheme = all.take(found);
        if text.contains('=') {
            let k = choose|k: int| 0 <= k < text.len() && text[k] == '=';
            assert(scheme[k] == '=');
            lemma_unknown_behind(text, space, name, value);
        } else {
            if scheme.contains('=') {
                let k = choose|k: int| 0 <= k < scheme.len() && scheme[k] == '=';
                if k < text.len() {
                    assert(text[k] == '=');
                }
                assert(false);
            }
            lemma_param(text, 0);
            lemma_next_char(text, '=', param_start(text, 0));
            assert(params_of(text) =~= Seq::empty());
            let rest = all.skip(found + 1);
            if gap > 0 {
                let less = space.skip(1);
                assert forall|i: int| 0 <= i < less.len() implies is_space(#[trigger] less[i]) by {
                    assert(less[i] == space[i + 1]);
                }
                let none = Seq::<char>::empty();
                assert(rest =~= none + param_behind(less, name, value)) by {
                    reveal(param_behind);
                }
                lemma_params_end(none);
                lemma_unknown_behind(none, less, name, value);
            } else {
                assert(rest =~= written_param(name, value)) by {
                    reveal(param_behind);
                    reveal_strlit(", ");
                }
                lemma_param_alone(name, value);
                let one = seq![(name, value)];
                lemma_unknown_last(one);
                assert(one.drop_last() =~= Seq::empty());
            }
        }
    }
}

/// A parameter that is unknown here changes nothing when it is written, in quotes,
/// behind a challenge that leaves no quote open, whatever its value holds.
pub proof fn law_unknown_param_changes_nothing(
    header: Seq<char>,
    name: Seq<char>,
    value: Seq<char>,
)
    requires
        !left_open(challenge_params(header), 0),
        is_name(name),
        is_unknown(name),
        !value.contains('"'),
    ensures
        challenge_of(header + ", "@ + written_param(name, value)) == challenge_of(header),
{
    reveal_strlit(", ");
    reveal_strlit("=\"");
    reveal_strlit("\"");
    let behind = ", "@ + written_param(name, value);
    let front = trimmed_start(header);
    let text = trimmed(header);
    assert(header + ", "@ + written_param(name, value) =~= header + behind);
    assert(behind[0] == ',');
    lemma_trimmed_start_of_pair(header, behind);
    lemma_trimmed_end(front);
    assert((front + behind).last() == '"');
    assert(trimmed(header + behind) == front + behind);
    let space = front.skip(text.len() as int);
    assert forall|i: int| 0 <= i < space.len() implies is_space(#[trigger] space[i]) by {
        assert(space[i] == front[text.len() + i]);
    }
    assert(front + behind =~= text + param_behind(space, name, value)) by {
        reveal(param_behind);
        assert(front =~= text + space);
    }
    lemma_unknown_behind_scheme(text, space, name, value);
}

/// The names of the parameters differ.
fn reveal_names()
    ensures
        "resource_metadata"@ != "scope"@,
        "resource_metadata"@ != "error"@,
        "scope"@ != "error"@,
{
    proof {
        reveal_strlit("resource_metadata");
        reveal_strlit("scope");
        reveal_strlit("error");
        assert("resource_metadata"@.len() != "scope"@.len());
        assert("resource_metadata"@.len() != "error"@.len());
        assert("scope"@[0] == 's');
        assert("error"@[0] == 'e');
    }
}

/// What a request to an endpoint says of it.
#[derive(Debug)]
pub struct Probe {
    pub requires_auth: bool,
    pub challenge: WwwAuthenticate,
}

/// Whether this is what the response to a probe says.
pub open spec fn is_probe_of(status: u16, header: Option<&str>, probe: Probe) -> bool {
    &&& probe.requires_auth == (status == 401 || status == 403)
    &&& probe.challenge@ == match header {
        Some(value) => challenge_of(value@),
        None => ChallengeModel { resource_metadata: None, scope: None, error: None },
    }
}

/// Takes up the response to a probe: 401 and 403 ask for authorization.
pub fn probe_of_response(status: u16, header: Option<&str>) -> (probe: Probe)
    ensures
        is_probe_of(status, header, probe),
{
    let challenge = match header {
        Some(value) => parse_www_authenticate(value),
        None => WwwAuthenticate::default(),
    };
    Probe { requires_auth: status == 401 || status == 403, challenge }
}

/// Whether a probe asked for authorization.
pub open spec fn asks_auth(probe: Option<Probe>) -> bool {
    probe matches Some(answered) && answered.requires_auth
}

/// Whether a probe asked for authorization.
pub fn probe_asks_auth(probe: &Option<Probe>) -> (asks: bool)
    ensures
        asks == asks_auth(*probe),
{
    match probe {
        Some(answered) => answered.requires_auth,
        None => false,
    }
}

/// Whether the probes of an endpoint say this.
pub open spec fn is_probed(
    url: &str,
    post: Option<Probe>,
    get: Option<Probe>,
    probe: Result<Probe, String>,
) -> bool {
    match probe {
        Ok(found) => if !asks_auth(post) && asks_auth(get) {
            Some(found) == get
        } else {
            Some(found) == post
        },
        Err(error) => post is None && !asks_auth(get) && error@ == "Probe request to '"@ + url@
            + "' failed"@,
    }
}

/// What the probes of an endpoint say: the first that asked for authorization, or
/// else the first one, where it was answered. `get` is only needed where `post`
/// did not ask for it.
pub fn probe_endpoint(url: &str, post: Option<Probe>, get: Option<Probe>) -> (probe: Result<
    Probe,
    String,
>)
    ensures
        is_probed(url, post, get, probe),
{
    if !probe_asks_auth(&post) {
        if let Some(answered) = get {
            if answered.requires_auth {
                return Ok(answered);
            }
        }
    }
    match post {
        Some(answered) => Ok(answered),
        None => Err(text3("Probe request to '", url, "' failed")),
    }
}

/// Whether an endpoint asks for authorization.
#[derive(Debug, Clone, Copy, PartialEq, Eq, Structural)]
pub enum ProbeOutcome {
    /// It asks for authorization.
    RequiresAuth,
    /// It answered, and did not.
    NoAuth,
    /// It could not be reached.
    Unknown,
}

impl ProbeOutcome {
    /// Whether this is the status of a server without a token.
    pub open spec fn is_status_without_token(self, status: OAuthStatus) -> bool {
        &&& status.state@ == if self == ProbeOutcome::NoAuth {
            "none"@
        } else {
            "needs_auth"@
        }
        &&& status.detail is None
        &&& status.scopes@.len() == 0
        &&& status.needs_scopes@.len() == 0
    }

    /// The status of a server for which no usable token is held: only a definite
    /// answer that it asks for none takes the offer to authorize away.
    pub fn into_unauthenticated_status(self) -> (status: OAuthStatus)
        ensures
            self.is_status_without_token(status),
    {
        match self {
            ProbeOutcome::RequiresAuth => OAuthStatus::needs_auth(),
            ProbeOutcome::Unknown => OAuthStatus::needs_auth(),
            ProbeOutcome::NoAuth => OAuthStatus::none(),
        }
    }
}

/// Whether two probes come to this.
pub open spec fn is_outcome(
    post: &Option<Probe>,
    get: &Option<Probe>,
    outcome: ProbeOutcome,
) -> bool {
    outcome == if asks_auth(*post) || asks_auth(*get) {
        ProbeOutcome::RequiresAuth
    } else if *post is Some || *get is Some {
        ProbeOutcome::NoAuth
    } else {
        ProbeOutcome::Unknown
    }
}

/// Whether an endpoint asks for authorization, as two probes say. That neither was
/// answered is no answer.
pub fn probe_requires_auth_quick(post: &Option<Probe>, get: &Option<Probe>) -> (outcome:
    ProbeOutcome)
    ensures
        is_outcome(post, get, outcome),
{
    if probe_asks_auth(post) || probe_asks_auth(get) {
        ProbeOutcome::RequiresAuth
    } else if post.is_some() || get.is_some() {
        ProbeOutcome::NoAuth
    } else {
        ProbeOutcome::Unknown
    }
}

/// Of several values of one name the last one counts; a name without a value says nothing.
pub proof fn law_last_value_counts(
    params: Seq<(Seq<char>, Seq<char>)>,
    name: Seq<char>,
    k: int,
)
    requires
        0 <= k <= params.len(),
    ensures
        match last_value(params, name, k) {
            Some(value) => exists|i: int|
                0 <= i < k && #[trigger] params[i] == (name, value) && forall|j: int|
                    i < j < k ==> (#[trigger] params[j]).0 != name,
            None => forall|i: int| 0 <= i < k ==> (#[trigger] params[i]).0 != name,
        },
    decreases k,
{
    if k > 0 {
        if params[k - 1].0 == name {
            assert(params[k - 1] == (name, params[k - 1].1));
        } else {
            law_last_value_counts(params, name, k - 1);
            if let Some(value) = last_value(params, name, k - 1) {
                let i = choose|i: int|
                    0 <= i < k - 1 && #[trigger] params[i] == (name, value) && forall|j: int|
                        i < j < k - 1 ==> (#[trigger] params[j]).0 != name;
                assert(params[i] == (name, value));
            }
        }
    }
}

/// Whether a part of a challenge is what its parameters say under a name: the last value
/// of that name, or nothing where they do not name it.
pub open spec fn is_said(
    params: Seq<(Seq<char>, Seq<char>)>,
    name: Seq<char>,
    said: Option<Seq<char>>,
) -> bool {
    match said {
        Some(value) => exists|i: int|
            0 <= i < params.len() && #[trigger] params[i] == (name, value) && forall|j: int|
                i < j < params.len() ==> (#[trigger] params[j]).0 != name,
        None => forall|i: int| 0 <= i < params.len() ==> (#[trigger] params[i]).0 != name,
    }
}

/// A challenge is read by the names of its parameters: each part of it is what stands
/// under its own name.
pub proof fn law_challenge_is_read_by_names(header: Seq<char>)
    ensures
        ({
            let params = params_of(challenge_params(header));
            &&& is_said(params, "resource_metadata"@, challenge_of(header).resource_metadata)
            &&& is_said(params, "scope"@, challenge_of(header).scope)
            &&& is_said(params, "error"@, challenge_of(header).error)
        }),
{
    let params = params_of(challenge_params(header));
    let k = params.len() as int;
    law_last_value_counts(params, "resource_metadata"@, k);
    law_last_value_counts(params, "scope"@, k);
    law_last_value_counts(params, "error"@, k);
}

/// The scheme before the parameters is dropped, and nothing else: a word without an equals
/// sign at the front is the scheme; one with an equals sign is a parameter already.
pub proof fn law_only_the_scheme_is_dropped(word: Seq<char>, rest: Seq<char>)
    requires
        forall|i: int| 0 <= i < word.len() ==> !is_space(#[trigger] word[i]),
        trimmed(word + " "@ + rest) == word + " "@ + rest,
    ensures
        !word.contains('=') ==> challenge_params(word + " "@ + rest) == rest,
        word.contains('=') ==> challenge_params(word + " "@ + rest) == word + " "@ + rest,
{
    reveal_strlit(" ");
    let text = word + " "@ + rest;
    lemma_next_space_is(text, 0, word.len() as int);
    assert(text.take(word.len() as int) =~= word);
    assert(text.skip(word.len() as int + 1) =~= rest);
}

/// A probe that asks for authorization is heard before one that does not, the first before
/// the second; a probe fails only if none was answered in a way that counts.
pub proof fn law_asking_probe_is_heard(
    url: &str,
    post: Option<Probe>,
    get: Option<Probe>,
    probe: Result<Probe, String>,
    outcome: ProbeOutcome,
)
    requires
        is_probed(url, post, get, probe),
        is_outcome(&post, &get, outcome),
    ensures
        post matches Some(found) ==> (found.requires_auth ==> probe == Ok::<Probe, String>(found)
            && outcome is RequiresAuth),
        !asks_auth(post) ==> (get matches Some(found) ==> (found.requires_auth ==> probe == Ok::<
            Probe,
            String,
        >(found) && outcome is RequiresAuth)),
        !asks_auth(post) && !asks_auth(get) ==> (probe is Ok <==> post is Some),
        !asks_auth(post) && !asks_auth(get) ==> (outcome is NoAuth <==> post is Some || get
            is Some),
        post is None && get is None ==> outcome is Unknown,
{
}

/// Only a server that was heard to ask for nothing needs no authorization.
pub proof fn law_unknown_server_needs_authorization(outcome: ProbeOutcome, status: OAuthStatus)
    requires
        outcome.is_status_without_token(status),
    ensures
        status.state@ == "none"@ <==> outcome is NoAuth,
        status.state@ == "needs_auth"@ <==> outcome is RequiresAuth || outcome is Unknown,
        status.detail is None && status.scopes@.len() == 0 && status.needs_scopes@.len() == 0,
{
    reveal_strlit("none");
    reveal_strlit("needs_auth");
    assert("none"@.len() != "needs_auth"@.len());
}

/// A response asks for authorization exactly if it is one of the two that do, and its
/// challenge is that of its header.
pub proof fn law_refusals_ask_for_authorization(status: u16, header: Option<&str>, probe: Probe)
    requires
        is_probe_of(status, header, probe),
    ensures
        probe.requires_auth <==> status == 401 || status == 403,
        header matches Some(value) ==> probe.challenge@ == challenge_of(value@),
        header is None ==> probe.challenge.resource_metadata is None && probe.challenge.scope
            is None && probe.challenge.error is None,
{
}

} // verus!
