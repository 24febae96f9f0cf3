//! Short names for terminals, readable and fit for an address.
use vstd::prelude::*;
use vstd::string::*;
use crate::handlers::terminal::output::{first_chars, take_chars};
use crate::scan::{
    fields_from, fields_of, law_affixes_are_taken_off,
    law_what_stands_between_separators_is_a_field, lemma_next_char, next_char, occurs_at, split_on,
    split_words, stands_between, trim_leading_text, trim_trailing_text, without_leading_text,
    without_trailing_text, words_of,
};
use crate::text::{chars_of, join, joined, lowercase, string_of, texts, to_lowercase};

verus! {

/// How many characters a slug has at most.
pub const MAX_SLUG_CHARS: usize = 30;

/// How many words of a command its slug is made of.
pub const SLUG_WORDS: usize = 3;

/// Whether a slug keeps a character: a small letter or a digit of ASCII, which stand
/// in an address as they are.
pub open spec fn is_slug_char(c: char) -> bool {
    ('a' <= c && c <= 'z') || ('0' <= c && c <= '9')
}

/// A text with a dash for each character that a slug does not keep.
pub open spec fn dashed(text: Seq<char>) -> Seq<char> {
    text.map_values(
        |c: char|
            if is_slug_char(c) {
                c
            } else {
                '-'
            },
    )
}

/// Those of the first `k` parts that are not empty.
pub open spec fn non_empty_parts(parts: Seq<Seq<char>>, k: int) -> Seq<Seq<char>>
    decreases k,
{
    if k <= 0 {
        Seq::empty()
    } else if parts[k - 1].len() == 0 {
        non_empty_parts(parts, k - 1)
    } else {
        non_empty_parts(parts, k - 1).push(parts[k - 1])
    }
}

/// The runs of kept characters of a text in lower case.
pub open spec fn slug_parts(text: Seq<char>) -> Seq<Seq<char>> {
    let fields = fields_of(dashed(lowercase(text)), '-');
    non_empty_parts(fields, fields.len() as int)
}

/// The slug of a text: the runs of small letters and digits of ASCII that it has in
/// lower case, with a dash between two of them, and cut to its length.
pub open spec fn slug_of(text: Seq<char>) -> Seq<char> {
    first_chars(joined(slug_parts(text), "-"@), MAX_SLUG_CHARS as nat)
}

/// The text with a dash for each character that a slug does not keep.
fn with_dashes(text: &str) -> (out: String)
    ensures
        out@ == dashed(text@),
{
    let chars = chars_of(text);
    let mut out: Vec<char> = Vec::new();
    let mut i: usize = 0;
    while i < chars.len()
        invariant
            chars@ == text@,
            i <= chars@.len(),
            out@ == dashed(text@).take(i as int),
        decreases chars.len() - i,
    {
        let c = chars[i];
        out.push(
            if ('a' <= c && c <= 'z') || ('0' <= c && c <= '9') {
                c
            } else {
                '-'
            },
        );
        assert(out@ =~= dashed(text@).take(i + 1));
        i += 1;
    }
    assert(out@ =~= dashed(text@));
    string_of(out.as_slice())
}

/// The parts that are not empty.
fn keep_non_empty(parts: &Vec<String>) -> (kept: Vec<String>)
    ensures
        texts(kept@) == non_empty_parts(texts(parts@), parts@.len() as int),
{
    let mut kept: Vec<String> = Vec::new();
    assert(texts(kept@) =~= Seq::empty());
    let mut k: usize = 0;
    while k < parts.len()
        invariant
            k <= parts@.len(),
            texts(kept@) == non_empty_parts(texts(parts@), k as int),
        decreases parts.len() - k,
    {
        let ghost before = texts(kept@);
        assert(texts(parts@)[k as int] == parts@[k as int]@);
        if !parts[k].as_str().is_empty() {
            let part = parts[k].clone();
            let ghost said = part@;
            kept.push(part);
            assert(texts(kept@) =~= before.push(said));
        }
        k += 1;
    }
    kept
}

/// The slug of a text.
pub fn slugify(text: &str) -> (slug: String)
    ensures
        slug@ == slug_of(text@),
{
    let dashes = with_dashes(to_lowercase(text).as_str());
    let fields = split_on(dashes.as_str(), '-');
    assert(texts(fields@).len() == fields@.len());
    let parts = keep_non_empty(&fields);
    take_chars(join(&parts, "-").as_str(), MAX_SLUG_CHARS)
}

/// A word of a command without the decoration of a program's name.
pub open spec fn plain_word(word: Seq<char>) -> Seq<char> {
    without_trailing_text(
        without_trailing_text(
            without_leading_text(without_leading_text(word, "./"@), "npx"@),
            ".js"@,
        ),
        ".sh"@,
    )
}

/// The plain words that a command's slug is made of.
pub open spec fn command_words(command: Seq<char>) -> Seq<Seq<char>> {
    let words = words_of(command);
    let taken = if words.len() > SLUG_WORDS {
        words.take(SLUG_WORDS as int)
    } else {
        words
    };
    let plain = taken.map_values(|word: Seq<char>| plain_word(word));
    non_empty_parts(plain, plain.len() as int)
}

/// The slug of a command: that of its first words, or `term` where nothing is left
/// of them.
pub open spec fn command_slug(command: Seq<char>) -> Seq<char> {
    let text = joined(command_words(command), "-"@);
    if text.len() == 0 {
        "term"@
    } else {
        slug_of(text)
    }
}

/// A word of a command without the decoration of a program's name.
fn strip_word(word: &str) -> (plain: String)
    ensures
        plain@ == plain_word(word@),
{
    proof {
        reveal_strlit("./");
        reveal_strlit("npx");
        reveal_strlit(".js");
        reveal_strlit(".sh");
    }
    let bare = trim_leading_text(word, "./");
    let bare = trim_leading_text(bare.as_str(), "npx");
    let bare = trim_trailing_text(bare.as_str(), ".js");
    trim_trailing_text(bare.as_str(), ".sh")
}

/// The slug of a command.
pub fn slugify_command(command: &str) -> (slug: String)
    ensures
        slug@ == command_slug(command@),
{
    let words = split_words(command);
    let ghost all = words_of(command@);
    assert(texts(words@).len() == words@.len());
    let count: usize = if words.len() > SLUG_WORDS {
        SLUG_WORDS
    } else {
        words.len()
    };
    let ghost taken = if all.len() > SLUG_WORDS {
        all.take(SLUG_WORDS as int)
    } else {
        all
    };
    let ghost wanted = taken.map_values(|word: Seq<char>| plain_word(word));
    let mut plain: Vec<String> = Vec::new();
    let mut i: usize = 0;
    while i < count
        invariant
            i <= count <= words@.len(),
            texts(words@) == all,
            taken.len() == count,
            forall|j: int| 0 <= j < count ==> #[trigger] taken[j] == all[j],
            wanted == taken.map_values(|word: Seq<char>| plain_word(word)),
            texts(plain@) == wanted.take(i as int),
        decreases count - i,
    {
        assert(texts(words@)[i as int] == words@[i as int]@);
        assert(taken[i as int] == all[i as int]);
        let ghost before = texts(plain@);
        let word = strip_word(words[i].as_str());
        let ghost said = word@;
        plain.push(word);
        assert(texts(plain@) =~= before.push(said));
        assert(wanted.take(i + 1) =~= before.push(said));
        i += 1;
    }
    assert(wanted.take(i as int) =~= wanted);
    assert(texts(plain@).len() == plain@.len());
    let parts = keep_non_empty(&plain);
    let text = join(&parts, "-");
    if text.as_str().is_empty() {
        "term".to_owned()
    } else {
        slugify(text.as_str())
    }
}

/// Whether a text begins with no dash and has no two dashes in a row.
pub open spec fn is_tidy(text: Seq<char>) -> bool {
    &&& text.len() > 0 ==> text[0] != '-'
    &&& forall|i: int| 0 <= i < text.len() - 1 && #[trigger] text[i] == '-' ==> text[i + 1] != '-'
}

/// Whether a text is a part of a slug: it is not empty and holds only kept
/// characters, none of them a dash.
pub open spec fn is_part(part: Seq<char>) -> bool {
    &&& part.len() > 0
    &&& forall|i: int| 0 <= i < part.len() ==> #[trigger] part[i] != '-' && is_slug_char(part[i])
}

/// Every field of a text between dashes holds no dash, and comes from the text.
proof fn lemma_fields(s: Seq<char>, from: int)
    requires
        0 <= from <= s.len(),
        forall|i: int| 0 <= i < s.len() ==> #[trigger] s[i] == '-' || is_slug_char(s[i]),
    ensures
        forall|f: int, i: int|
            0 <= f < fields_from(s, '-', from).len() && 0 <= i < fields_from(s, '-', from)[f].len()
                ==> (#[trigger] fields_from(s, '-', from)[f][i]) != '-' && is_slug_char(
                fields_from(s, '-', from)[f][i],
            ),
    decreases s.len() - from,
{
    lemma_next_char(s, '-', from);
    let end = next_char(s, '-', from);
    let fields = fields_from(s, '-', from);
    let head = s.subrange(from, end);
    assert forall|i: int| 0 <= i < head.len() implies (#[trigger] head[i]) != '-' && is_slug_char(
        head[i],
    ) by {
        assert(head[i] == s[from + i]);
    }
    if end < s.len() {
        lemma_fields(s, end + 1);
        let rest = fields_from(s, '-', end + 1);
        assert(fields =~= seq![head] + rest);
        assert forall|f: int, i: int|
            0 <= f < fields.len() && 0 <= i < fields[f].len() implies (#[trigger] fields[f][i])
            != '-' && is_slug_char(fields[f][i]) by {
            if f > 0 {
                assert(fields[f] == rest[f - 1]);
                assert(rest[f - 1][i] != '-');
            } else {
                assert(fields[0] == head);
            }
        }
    } else {
        assert(fields =~= seq![head]);
    }
}

/// The parts that are kept are parts of a slug.
proof fn lemma_parts(fields: Seq<Seq<char>>, k: int)
    requires
        0 <= k <= fields.len(),
        forall|f: int, i: int|
            0 <= f < fields.len() && 0 <= i < fields[f].len() ==> (#[trigger] fields[f][i]) != '-'
                && is_slug_char(fields[f][i]),
    ensures
        forall|p: int|
            0 <= p < non_empty_parts(fields, k).len() ==> is_part(
                #[trigger] non_empty_parts(fields, k)[p],
            ),
    decreases k,
{
    if k > 0 {
        lemma_parts(fields, k - 1);
        let before = non_empty_parts(fields, k - 1);
        let kept = non_empty_parts(fields, k);
        assert forall|p: int| 0 <= p < kept.len() implies is_part(#[trigger] kept[p]) by {
            if p < before.len() {
                assert(kept[p] == before[p]);
            } else {
                let last = fields[k - 1];
                assert(kept[p] == last);
                assert forall|i: int| 0 <= i < last.len() implies #[trigger] last[i] != '-'
                    && is_slug_char(last[i]) by {
                    assert(fields[k - 1][i] != '-');
                }
            }
        }
    }
}

/// Parts that are joined by dashes give a tidy text that does not end in a dash.
proof fn lemma_joined(parts: Seq<Seq<char>>)
    requires
        forall|p: int| 0 <= p < parts.len() ==> is_part(#[trigger] parts[p]),
    ensures
        is_tidy(joined(parts, "-"@)),
        parts.len() > 0 ==> joined(parts, "-"@).len() > 0 && joined(parts, "-"@).last() != '-',
        forall|i: int|
            0 <= i < joined(parts, "-"@).len() ==> (#[trigger] joined(parts, "-"@)[i] == '-')
                || is_slug_char(joined(parts, "-"@)[i]),
    decreases parts.len(),
{
    reveal_strlit("-");
    if parts.len() == 1 {
        let only = joined(parts, "-"@);
        assert(only == parts[0]);
        assert(is_part(parts[0]));
        assert forall|i: int| 0 <= i < only.len() implies (#[trigger] only[i] == '-')
            || is_slug_char(only[i]) by {
            assert(parts[0][i] != '-');
        }
    } else if parts.len() > 1 {
        let front = parts.drop_last();
        assert forall|p: int| 0 <= p < front.len() implies is_part(#[trigger] front[p]) by {
            assert(front[p] == parts[p]);
        }
        lemma_joined(front);
        let a = joined(front, "-"@);
        let last = parts.last();
        let b = a.push('-');
        let whole = joined(parts, "-"@);
        assert(is_part(parts[parts.len() - 1]));
        assert(a + "-"@ =~= b);
        assert(whole =~= b + last);
        assert(whole[0] == a[0]);
        assert forall|i: int| 0 <= i < whole.len() - 1 && #[trigger] whole[i] == '-' implies whole[i
            + 1] != '-' by {
            if i + 1 < a.len() {
                assert(a[i] == whole[i]);
                assert(a[i + 1] == whole[i + 1]);
            } else if i + 1 == a.len() {
                assert(whole[i] == a.last());
            } else if i == a.len() {
                assert(whole[i + 1] == last[0]);
            } else {
                assert(whole[i] == last[i - b.len()]);
            }
        }
        assert(whole.last() == last[last.len() - 1]);
        assert forall|i: int| 0 <= i < whole.len() implies (#[trigger] whole[i] == '-')
            || is_slug_char(whole[i]) by {
            if i < a.len() {
                assert(whole[i] == a[i]);
            } else if i > a.len() {
                assert(whole[i] == last[i - b.len()]);
            }
        }
    } else {
        assert(joined(parts, "-"@).len() == 0);
    }
}

/// A slug is short and safe in an address: it holds only small letters and digits of
/// ASCII and dashes, begins with no dash and has no two dashes in a row.
pub proof fn law_slug_is_tidy(text: Seq<char>)
    ensures
        slug_of(text).len() <= MAX_SLUG_CHARS,
        is_tidy(slug_of(text)),
        forall|i: int|
            0 <= i < slug_of(text).len() ==> (#[trigger] slug_of(text)[i] == '-') || is_slug_char(
                slug_of(text)[i],
            ),
{
    let s = dashed(lowercase(text));
    let fields = fields_of(s, '-');
    lemma_fields(s, 0);
    lemma_parts(fields, fields.len() as int);
    let parts = slug_parts(text);
    lemma_joined(parts);
    let whole = joined(parts, "-"@);
    let slug = slug_of(text);
    assert forall|i: int| 0 <= i < slug.len() implies (#[trigger] slug[i] == '-') || is_slug_char(
        slug[i],
    ) by {
        assert(slug[i] == whole[i]);
    }
    assert forall|i: int| 0 <= i < slug.len() - 1 && #[trigger] slug[i] == '-' implies slug[i + 1]
        != '-' by {
        assert(slug[i] == whole[i]);
        assert(slug[i + 1] == whole[i + 1]);
    }
}

/// The slug of a command is short and safe in an address; a command of which nothing
/// is left has one too.
pub proof fn law_command_slug_is_short(command: Seq<char>)
    ensures
        command_slug(command).len() <= MAX_SLUG_CHARS,
        forall|i: int|
            0 <= i < command_slug(command).len() ==> (#[trigger] command_slug(command)[i] == '-')
                || is_slug_char(command_slug(command)[i]),
        words_of(command).len() == 0 ==> command_slug(command) == "term"@,
{
    reveal_strlit("term");
    assert("term"@ =~= seq!['t', 'e', 'r', 'm']);
    law_slug_is_tidy(joined(command_words(command), "-"@));
    if words_of(command).len() == 0 {
        assert(command_words(command).len() == 0);
    }
}

/// Whether `part` stands at `at` with neither a letter nor a digit before or behind it.
pub open spec fn stands_alone(low: Seq<char>, part: Seq<char>, at: int) -> bool {
    &&& occurs_at(low, part, at)
    &&& at == 0 || !is_slug_char(low[at - 1])
    &&& at + part.len() == low.len() || !is_slug_char(low[at + part.len()])
}

/// The parts of a slug are the runs of letters and digits of the text in lower case: each
/// run is one, and there are no others.
pub proof fn law_slug_is_made_of_the_runs(text: Seq<char>, part: Seq<char>)
    requires
        is_part(part),
    ensures
        slug_parts(text).contains(part) <==> exists|at: int| #[trigger]
            stands_alone(lowercase(text), part, at),
{
    let low = lowercase(text);
    let marked = dashed(low);
    let fields = fields_of(marked, '-');
    if part.contains('-') {
        let i = choose|i: int| 0 <= i < part.len() && part[i] == '-';
        assert(part[i] != '-');
    }
    law_what_stands_between_separators_is_a_field(marked, '-', part);
    lemma_kept_parts(fields, part, fields.len() as int);
    assert forall|at: int| #[trigger]
        stands_alone(low, part, at) == stands_between(marked, '-', 0, part, at) by {
        if stands_alone(low, part, at) {
            assert forall|i: int| 0 <= i < part.len() implies marked[at + i] == part[i] by {
                assert(low.subrange(at, at + part.len())[i] == low[at + i]);
                assert(part[i] != '-');
            }
            assert(marked.subrange(at, at + part.len()) =~= part);
        }
        if stands_between(marked, '-', 0, part, at) {
            assert forall|i: int| 0 <= i < part.len() implies low[at + i] == part[i] by {
                assert(marked.subrange(at, at + part.len())[i] == marked[at + i]);
                assert(part[i] != '-');
            }
            assert(low.subrange(at, at + part.len()) =~= part);
        }
    }
    if slug_parts(text).contains(part) {
        assert(fields.contains(part));
        let at = choose|at: int| #[trigger] stands_between(marked, '-', 0, part, at);
        assert(stands_alone(low, part, at));
    }
    if exists|at: int| #[trigger] stands_alone(low, part, at) {
        let at = choose|at: int| #[trigger] stands_alone(low, part, at);
        assert(stands_between(marked, '-', 0, part, at));
        assert(fields.contains(part));
        let i = choose|i: int| 0 <= i < fields.len() && fields[i] == part;
        assert(fields[i].len() > 0);
    }
}

/// A part that is not empty is kept, and no other is.
proof fn lemma_kept_parts(parts: Seq<Seq<char>>, part: Seq<char>, k: int)
    requires
        0 <= k <= parts.len(),
        part.len() > 0,
    ensures
        non_empty_parts(parts, k).contains(part) <==> exists|i: int|
            0 <= i < k && #[trigger] parts[i] == part,
    decreases k,
{
    if k > 0 {
        lemma_kept_parts(parts, part, k - 1);
        let before = non_empty_parts(parts, k - 1);
        let after = non_empty_parts(parts, k);
        if after.contains(part) {
            let j = choose|j: int| 0 <= j < after.len() && after[j] == part;
            if j < before.len() {
                assert(before[j] == part);
                assert(before.contains(part));
                let i = choose|i: int| 0 <= i < k - 1 && #[trigger] parts[i] == part;
                assert(parts[i] == part);
            } else {
                assert(parts[k - 1] == part);
            }
        }
        if exists|i: int| 0 <= i < k && #[trigger] parts[i] == part {
            let i = choose|i: int| 0 <= i < k && #[trigger] parts[i] == part;
            if i == k - 1 {
                assert(after[before.len() as int] == part);
            } else {
                assert(before.contains(part));
                let j = choose|j: int| 0 <= j < before.len() && before[j] == part;
                assert(after[j] == part);
            }
        }
    }
}

/// A slug is its parts with a dash between each two, cut off behind the thirtieth
/// character.
pub proof fn law_slug_is_the_front_of_its_parts(text: Seq<char>)
    ensures
        slug_of(text).is_prefix_of(joined(slug_parts(text), "-"@)),
        slug_of(text).len() <= 30,
        joined(slug_parts(text), "-"@).len() <= 30 ==> slug_of(text) == joined(
            slug_parts(text),
            "-"@,
        ),
        joined(slug_parts(text), "-"@).len() > 30 ==> slug_of(text).len() == 30,
{
    let whole = joined(slug_parts(text), "-"@);
    let slug = slug_of(text);
    assert(slug =~= whole.subrange(0, slug.len() as int));
}

/// A word of a command loses the front that starts it from here or by `npx` and the back
/// that says it is a script; another word stays.
pub proof fn law_words_are_made_plain(word: Seq<char>)
    requires
        word.len() >= 3,
        !"./"@.is_prefix_of(word),
        !"npx"@.is_prefix_of(word),
        !".js"@.is_suffix_of(word),
        !".sh"@.is_suffix_of(word),
    ensures
        plain_word(word) == word,
        plain_word("./"@ + word) == word,
        plain_word("npx"@ + word) == word,
        plain_word(word + ".js"@) == word,
        plain_word(word + ".sh"@) == word,
{
    reveal_strlit("./");
    reveal_strlit("npx");
    reveal_strlit(".js");
    reveal_strlit(".sh");
    law_affixes_are_taken_off(word, "./"@);
    law_affixes_are_taken_off(word, "npx"@);
    law_affixes_are_taken_off(word, ".js"@);
    law_affixes_are_taken_off(word, ".sh"@);
    let run = "npx"@ + word;
    assert(run[0] == 'n');
    assert(!"./"@.is_prefix_of(run)) by {
        if "./"@.is_prefix_of(run) {
            assert(run.subrange(0, 2)[0] == run[0]);
        }
    }
    let js = word + ".js"@;
    let sh = word + ".sh"@;
    assert(js.subrange(0, 2) =~= word.subrange(0, 2));
    assert(js.subrange(0, 3) =~= word.subrange(0, 3));
    assert(sh.subrange(0, 2) =~= word.subrange(0, 2));
    assert(sh.subrange(0, 3) =~= word.subrange(0, 3));
    assert(!".js"@.is_suffix_of(sh)) by {
        if ".js"@.is_suffix_of(sh) {
            assert(sh.subrange(sh.len() - 3, sh.len() as int)[1] == sh[sh.len() - 2]);
            assert(sh[sh.len() - 2] == 's');
        }
    }
}

/// The name of a command is made of its first three words at most, each made plain; a
/// command without such words is called `term`.
pub proof fn law_command_is_named_by_its_first_words(command: Seq<char>, part: Seq<char>)
    requires
        part.len() > 0,
    ensures
        command_words(command).contains(part) <==> exists|i: int|
            0 <= i < 3 && i < words_of(command).len() && plain_word(#[trigger] words_of(command)[i])
                == part,
        words_of(command).len() == 0 ==> command_slug(command) == "term"@,
        command_words(command).len() > 0 && joined(command_words(command), "-"@).len() > 0
            ==> command_slug(command) == slug_of(joined(command_words(command), "-"@)),
{
    let words = words_of(command);
    let taken = if words.len() > 3 {
        words.take(3)
    } else {
        words
    };
    let plain = taken.map_values(|word: Seq<char>| plain_word(word));
    lemma_kept_parts(plain, part, plain.len() as int);
    if command_words(command).contains(part) {
        let i = choose|i: int| 0 <= i < plain.len() && #[trigger] plain[i] == part;
        assert(taken[i] == words[i]);
        assert(plain_word(words[i]) == part);
    }
    if exists|i: int|
        0 <= i < 3 && i < words.len() && plain_word(#[trigger] words[i]) == part {
        let i = choose|i: int|
            0 <= i < 3 && i < words.len() && plain_word(#[trigger] words[i]) == part;
        assert(taken[i] == words[i]);
        assert(plain[i] == part);
    }
}

} // verus!
