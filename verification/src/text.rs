//! Text primitives shared by the handlers.
//!
//! A string is modelled by the sequence of its characters. The functions here
//! turn strings into character vectors and back, build messages piece by piece
//! and render numbers.
use vstd::prelude::*;
use vstd::string::*;
use vstd::utf8::{decode_utf8, encode_utf8, valid_utf8};

verus! {

/// The texts held by a sequence of strings.
pub open spec fn texts(items: Seq<String>) -> Seq<Seq<char>> {
    items.map_values(|item: String| item@)
}

/// The text held by an optional string.
pub open spec fn opt_text(item: Option<String>) -> Option<Seq<char>> {
    match item {
        Some(text) => Some(text@),
        None => None,
    }
}

/// The text held by an optional string slice.
pub open spec fn opt_str(item: Option<&str>) -> Option<Seq<char>> {
    match item {
        Some(text) => Some(text@),
        None => None,
    }
}

/// The number of bytes that `text` takes in UTF-8.
pub open spec fn utf8_len(text: Seq<char>) -> nat {
    encode_utf8(text).len()
}

/// The pieces of `parts` in order, with `separator` between two of them.
pub open spec fn joined(parts: Seq<Seq<char>>, separator: Seq<char>) -> Seq<char>
    decreases parts.len(),
{
    if parts.len() == 0 {
        Seq::empty()
    } else if parts.len() == 1 {
        parts[0]
    } else {
        joined(parts.drop_last(), separator) + separator + parts.last()
    }
}

/// The decimal digit that stands for `n`.
pub open spec fn digit(n: nat) -> char
    recommends
        n < 10,
{
    ((48 + n) as u8) as char
}

/// `n` in decimal, without leading zeros.
pub open spec fn decimal(n: nat) -> Seq<char>
    decreases n,
{
    if n < 10 {
        seq![digit(n)]
    } else {
        decimal(n / 10).push(digit(n % 10))
    }
}

/// `n` in decimal, with a minus sign where it is negative.
pub open spec fn signed_decimal(n: int) -> Seq<char> {
    if n < 0 {
        seq!['-'] + decimal((-n) as nat)
    } else {
        decimal(n as nat)
    }
}

/// `count` times the character `c`.
pub open spec fn repeated(c: char, count: nat) -> Seq<char> {
    Seq::new(count, |i: int| c)
}

/// `text` behind as many spaces as fill it up to `width` characters.
pub open spec fn right_aligned(text: Seq<char>, width: nat) -> Seq<char> {
    if text.len() < width {
        repeated(' ', (width - text.len()) as nat) + text
    } else {
        text
    }
}

/// The characters of `s`, in order.
pub fn chars_of(s: &str) -> (chars: Vec<char>)
    ensures
        chars@ == s@,
{
    let mut chars: Vec<char> = Vec::new();
    for c in it: s.chars()
        invariant
            chars@ == s@.take(it.index() as int),
            it.seq() == s@,
    {
        chars.push(c);
    }
    chars
}

/// Calls `String::from_iter` on the characters: the string holds exactly
/// these characters, in this order.
#[verifier::external_body]
pub(crate) fn string_of(chars: &[char]) -> (s: String)
    ensures
        s@ == chars@,
{
    String::from_iter(chars)
}

/// Calls `String::from_utf8`: valid UTF-8 becomes the text that it encodes, and
/// nothing else becomes one.
#[verifier::external_body]
pub(crate) fn string_from_utf8(bytes: Vec<u8>) -> (s: Option<String>)
    ensures
        match s {
            Some(text) => valid_utf8(bytes@) && text@ == decode_utf8(bytes@),
            None => !valid_utf8(bytes@),
        },
{
    String::from_utf8(bytes).ok()
}

/// The text that a sequence of bytes shows, with a replacement character for what
/// is not UTF-8.
pub uninterp spec fn utf8_lossy(bytes: Seq<u8>) -> Seq<char>;

/// Calls `String::from_utf8_lossy`: the text depends on the bytes alone, and valid
/// UTF-8 becomes exactly the text that it encodes. How the rest is replaced is
/// left to the name.
#[verifier::external_body]
pub(crate) fn string_from_utf8_lossy(bytes: &[u8]) -> (s: String)
    ensures
        s@ == utf8_lossy(bytes@),
        valid_utf8(bytes@) ==> s@ == decode_utf8(bytes@),
{
    String::from_utf8_lossy(bytes).into_owned()
}

/// `text` in upper case.
pub uninterp spec fn uppercase(text: Seq<char>) -> Seq<char>;

/// Calls `str::to_uppercase`: the upper case of a text depends on the text alone.
#[verifier::external_body]
pub(crate) fn to_uppercase(s: &str) -> (upper: String)
    ensures
        upper@ == uppercase(s@),
{
    s.to_uppercase()
}

/// `text` in lower case.
pub uninterp spec fn lowercase(text: Seq<char>) -> Seq<char>;

/// Calls `str::to_lowercase`: the lower case of a text depends on the text alone.
#[verifier::external_body]
pub(crate) fn to_lowercase(s: &str) -> (lower: String)
    ensures
        lower@ == lowercase(s@),
{
    s.to_lowercase()
}

/// `text` as its `Debug` form shows it, in quotes and with escapes.
pub uninterp spec fn debug_form(text: Seq<char>) -> Seq<char>;

/// Calls the `Debug` formatting of `str`: the form depends on the text alone.
#[verifier::external_body]
pub(crate) fn render_debug(s: &str) -> (form: String)
    ensures
        form@ == debug_form(s@),
{
    format!("{:?}", s)
}

/// Whether two strings hold the same text.
pub fn same_text(a: &str, b: &str) -> (same: bool)
    ensures
        same == (a@ == b@),
{
    a.to_owned() == b.to_owned()
}

/// The number of bytes of `s` in UTF-8.
pub fn byte_len(s: &str) -> (len: usize)
    ensures
        len == utf8_len(s@),
{
    s.as_bytes().len()
}

/// A copy of the string inside an option.
pub fn clone_opt(item: &Option<String>) -> (copy: Option<String>)
    ensures
        copy == *item,
{
    match item {
        Some(text) => Some(text.clone()),
        None => None,
    }
}

/// A copy of a list of strings.
pub fn clone_all(items: &Vec<String>) -> (copy: Vec<String>)
    ensures
        copy@ == items@,
{
    let mut copy: Vec<String> = Vec::new();
    let mut i: usize = 0;
    while i < items.len()
        invariant
            i <= items.len(),
            copy@ == items@.take(i as int),
        decreases items.len() - i,
    {
        copy.push(items[i].clone());
        i += 1;
    }
    copy
}

/// Whether `items` holds `needle`.
pub fn contains_item(items: &Vec<String>, needle: &str) -> (found: bool)
    ensures
        found == texts(items@).contains(needle@),
{
    let mut i: usize = 0;
    while i < items.len()
        invariant
            i <= items.len(),
            forall|k: int| 0 <= k < i ==> #[trigger] items@[k]@ != needle@,
        decreases items.len() - i,
    {
        if same_text(items[i].as_str(), needle) {
            assert(texts(items@)[i as int] == needle@);
            return true;
        }
        i += 1;
    }
    assert forall|k: int| 0 <= k < texts(items@).len() implies texts(items@)[k] != needle@ by {
        assert(items@[k]@ != needle@);
    }
    false
}

/// The strings of `parts` in order, with `separator` between two of them.
pub fn join(parts: &Vec<String>, separator: &str) -> (s: String)
    ensures
        s@ == joined(texts(parts@), separator@),
{
    let mut s = String::new();
    let mut i: usize = 0;
    while i < parts.len()
        invariant
            i <= parts.len(),
            s@ == joined(texts(parts@).take(i as int), separator@),
        decreases parts.len() - i,
    {
        let ghost done = texts(parts@).take(i as int);
        let ghost next = texts(parts@).take(i + 1);
        assert(next.drop_last() =~= done);
        assert(next.last() == parts@[i as int]@);
        if i > 0 {
            s.append(separator);
        }
        s.append(parts[i].as_str());
        assert(s@ =~= joined(next, separator@));
        i += 1;
    }
    assert(texts(parts@).take(i as int) =~= texts(parts@));
    s
}

/// The digit character for `n`.
fn digit_char(n: u64) -> (c: char)
    requires
        n < 10,
    ensures
        c == digit(n as nat),
{
    (48u8 + n as u8) as char
}

/// `n` in decimal.
fn decimal_chars(n: u64) -> (chars: Vec<char>)
    ensures
        chars@ == decimal(n as nat),
    decreases n,
{
    if n < 10 {
        let mut chars: Vec<char> = Vec::new();
        chars.push(digit_char(n));
        chars
    } else {
        let mut chars = decimal_chars(n / 10);
        chars.push(digit_char(n % 10));
        chars
    }
}

/// `n` in decimal.
pub fn render_u64(n: u64) -> (s: String)
    ensures
        s@ == decimal(n as nat),
{
    string_of(decimal_chars(n).as_slice())
}

/// `n` in decimal.
pub fn render_usize(n: usize) -> (s: String)
    ensures
        s@ == decimal(n as nat),
{
    render_u64(n as u64)
}

/// `n` in decimal, with its sign where it is negative.
pub fn render_i64(n: i64) -> (s: String)
    ensures
        s@ == signed_decimal(n as int),
{
    if n < 0 {
        let mut s = "-".to_owned();
        let magnitude: u64 = (-(n as i128)) as u64;
        s.append(render_u64(magnitude).as_str());
        proof {
            reveal_strlit("-");
        }
        assert(s@ =~= signed_decimal(n as int));
        s
    } else {
        render_u64(n as u64)
    }
}

/// `n` in decimal, with its sign where it is negative.
pub fn render_i32(n: i32) -> (s: String)
    ensures
        s@ == signed_decimal(n as int),
{
    render_i64(n as i64)
}

/// `count` times the character `c`.
pub fn repeat(c: char, count: usize) -> (chars: Vec<char>)
    ensures
        chars@ == repeated(c, count as nat),
{
    let mut chars: Vec<char> = Vec::new();
    while chars.len() < count
        invariant
            chars@ == repeated(c, chars@.len()),
            chars@.len() <= count,
        decreases count - chars.len(),
    {
        chars.push(c);
    }
    chars
}

/// `s` behind as many spaces as fill it up to `width` characters.
pub fn align_right(s: &str, width: usize) -> (aligned: String)
    ensures
        aligned@ == right_aligned(s@, width as nat),
{
    let len: usize = s.unicode_len();
    if len < width {
        let mut aligned = string_of(repeat(' ', width - len).as_slice());
        aligned.append(s);
        aligned
    } else {
        s.to_owned()
    }
}

/// `front` followed by `back`.
pub(crate) fn text2(front: &str, back: &str) -> (s: String)
    ensures
        s@ == front@ + back@,
{
    let mut s = front.to_owned();
    s.append(back);
    s
}

/// `a`, `b` and `c`, one behind the other.
pub(crate) fn text3(a: &str, b: &str, c: &str) -> (s: String)
    ensures
        s@ == a@ + b@ + c@,
{
    let mut s = a.to_owned();
    s.append(b);
    s.append(c);
    s
}

/// The number that a row of decimal digits stands for.
pub open spec fn number_of(digits: Seq<char>) -> int
    decreases digits.len(),
{
    if digits.len() == 0 {
        0
    } else {
        10 * number_of(digits.drop_last()) + (digits.last() as int - '0' as int)
    }
}

/// A number is written in the digits that stand for it, without a zero before the others.
pub proof fn law_decimal_is_the_number(n: nat)
    ensures
        number_of(decimal(n)) == n,
        decimal(n).len() > 0,
        decimal(n).len() > 1 ==> decimal(n)[0] != '0',
        forall|i: int| 0 <= i < decimal(n).len() ==> '0' <= #[trigger] decimal(n)[i] <= '9',
    decreases n,
{
    if n < 10 {
        let digits = seq![digit(n)];
        assert(digits.drop_last() =~= Seq::<char>::empty());
        assert(number_of(digits.drop_last()) == 0);
        assert(digits.last() == digit(n));
    } else {
        law_decimal_is_the_number(n / 10);
        let front = decimal(n / 10);
        let digits = decimal(n);
        assert(digits.drop_last() =~= front);
        assert(digits.last() == digit(n % 10));
        assert(10 * (n / 10) + n % 10 == n);
        assert(digits[0] == front[0]);
        if front.len() == 1 && front[0] == '0' {
            assert(front.drop_last() =~= Seq::<char>::empty());
            assert(number_of(front.drop_last()) == 0);
            assert(false);
        }
        assert forall|i: int| 0 <= i < digits.len() implies '0' <= #[trigger] digits[i]
            <= '9' by {
            if i < front.len() {
                assert(digits[i] == front[i]);
            }
        }
    }
}

/// A negative number has a minus before it, and no other has.
pub proof fn law_sign_stands_before_the_number(n: int)
    ensures
        n >= 0 ==> number_of(signed_decimal(n)) == n,
        n < 0 ==> signed_decimal(n).len() > 1 && signed_decimal(n)[0] == '-' && number_of(
            signed_decimal(n).skip(1),
        ) == -n,
{
    if n < 0 {
        law_decimal_is_the_number((-n) as nat);
        assert(signed_decimal(n).skip(1) =~= decimal((-n) as nat));
    } else {
        law_decimal_is_the_number(n as nat);
    }
}

/// Joined parts stand one after the other, with the separator between each two and nowhere
/// else.
pub proof fn law_parts_are_joined_in_order(
    parts: Seq<Seq<char>>,
    part: Seq<char>,
    separator: Seq<char>,
)
    ensures
        joined(Seq::<Seq<char>>::empty(), separator) == Seq::<char>::empty(),
        joined(seq![part], separator) == part,
        parts.len() > 0 ==> joined(parts.push(part), separator) == joined(parts, separator)
            + separator + part,
        parts.len() > 0 ==> joined(seq![part] + parts, separator) == part + separator + joined(
            parts,
            separator,
        ),
    decreases parts.len(),
{
    assert(parts.push(part).drop_last() =~= parts);
    if parts.len() > 0 {
        let all = seq![part] + parts;
        if parts.len() == 1 {
            assert(all.drop_last() =~= seq![part]);
            assert(joined(all, separator) == joined(seq![part], separator) + separator + parts[0]);
        } else {
            law_parts_are_joined_in_order(parts.drop_last(), part, separator);
            assert(all.drop_last() =~= seq![part] + parts.drop_last());
            assert(joined(all, separator) =~= part + separator + joined(parts, separator));
        }
    }
}

/// A text that is aligned to the right keeps its end and gets spaces before it, as many as
/// the width asks for.
pub proof fn law_aligned_text_ends_as_it_did(text: Seq<char>, width: nat)
    ensures
        text.is_suffix_of(right_aligned(text, width)),
        right_aligned(text, width).len() >= width,
        text.len() >= width ==> right_aligned(text, width) == text,
        text.len() < width ==> right_aligned(text, width).len() == width,
        forall|i: int|
            0 <= i < right_aligned(text, width).len() - text.len() ==> #[trigger] right_aligned(
                text,
                width,
            )[i] == ' ',
{
    let out = right_aligned(text, width);
    assert(text =~= out.subrange(out.len() - text.len(), out.len() as int));
}

} // verus!
