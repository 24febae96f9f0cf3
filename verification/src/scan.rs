//! Searching and cutting text: occurrences, replacement, lines, fields and
//! surrounding white space.
use crate::text::{chars_of, joined, string_of, texts};
use vstd::prelude::*;

verus! {

/// The values of machine integers.
pub open spec fn ints(items: Seq<usize>) -> Seq<int> {
    items.map_values(|item: usize| item as int)
}

/// Whether `pattern` stands in `s` at index `at`.
pub open spec fn occurs_at(s: Seq<char>, pattern: Seq<char>, at: int) -> bool {
    0 <= at && at + pattern.len() <= s.len() && s.subrange(at, at + pattern.len()) == pattern
}

/// Whether `pattern` stands somewhere in `s`.
pub open spec fn occurs(s: Seq<char>, pattern: Seq<char>) -> bool {
    exists|at: int| #[trigger] occurs_at(s, pattern, at)
}

/// How far a scan moves on behind a match: past the match, and past one
/// position where the pattern is empty.
pub open spec fn stride(pattern: Seq<char>) -> int {
    if pattern.len() == 0 {
        1
    } else {
        pattern.len() as int
    }
}

/// Where the matches of `pattern` in `s` begin, from index `from` on, read from
/// left to right without overlap.
pub open spec fn match_starts(s: Seq<char>, pattern: Seq<char>, from: int) -> Seq<int>
    decreases s.len() + 1 - from,
{
    if from + pattern.len() > s.len() {
        Seq::empty()
    } else if occurs_at(s, pattern, from) {
        seq![from] + match_starts(s, pattern, from + stride(pattern))
    } else {
        match_starts(s, pattern, from + 1)
    }
}

/// What becomes of `s` behind index `copied` when the `width` characters at each
/// of `starts` give way to `new`.
pub open spec fn spliced(
    s: Seq<char>,
    starts: Seq<int>,
    width: int,
    new: Seq<char>,
    copied: int,
) -> Seq<char>
    decreases starts.len(),
{
    if starts.len() == 0 {
        s.subrange(copied, s.len() as int)
    } else {
        s.subrange(copied, starts[0]) + new + spliced(
            s,
            starts.skip(1),
            width,
            new,
            starts[0] + width,
        )
    }
}

/// `s` with every match of `pattern` replaced by `new`.
pub open spec fn replaced_all(s: Seq<char>, pattern: Seq<char>, new: Seq<char>) -> Seq<char> {
    spliced(s, match_starts(s, pattern, 0), pattern.len() as int, new, 0)
}

/// `s` with the first match of `pattern` replaced by `new`.
pub open spec fn replaced_first(s: Seq<char>, pattern: Seq<char>, new: Seq<char>) -> Seq<char> {
    let starts = match_starts(s, pattern, 0);
    spliced(
        s,
        if starts.len() == 0 {
            starts
        } else {
            starts.take(1)
        },
        pattern.len() as int,
        new,
        0,
    )
}

/// The first index from `from` on that holds `c`, or the length of `s`.
pub open spec fn next_char(s: Seq<char>, c: char, from: int) -> int
    decreases s.len() - from,
{
    if from >= s.len() {
        s.len() as int
    } else if s[from] == c {
        from
    } else {
        next_char(s, c, from + 1)
    }
}

/// A line without the carriage return that precedes its newline.
pub open spec fn without_cr(line: Seq<char>) -> Seq<char> {
    if line.len() > 0 && line.last() == '\r' {
        line.drop_last()
    } else {
        line
    }
}

/// The lines of `s` from index `from` on. A newline ends a line; the last line
/// may lack it. A carriage return before a newline is part of the line ending.
pub open spec fn lines_from(s: Seq<char>, from: int) -> Seq<Seq<char>>
    decreases s.len() - from,
    when 0 <= from
    via lines_from_decreases
{
    let end = next_char(s, '\n', from);
    if from >= s.len() {
        Seq::empty()
    } else if end >= s.len() {
        seq![s.subrange(from, s.len() as int)]
    } else {
        seq![without_cr(s.subrange(from, end))] + lines_from(s, end + 1)
    }
}

#[via_fn]
proof fn lines_from_decreases(s: Seq<char>, from: int) {
    lemma_next_char(s, '\n', from);
}

/// The lines of `s`.
pub open spec fn lines_of(s: Seq<char>) -> Seq<Seq<char>> {
    lines_from(s, 0)
}

/// The fields of `s` from index `from` on, where each `separator` ends one.
pub open spec fn fields_from(s: Seq<char>, separator: char, from: int) -> Seq<Seq<char>>
    decreases s.len() - from,
    when 0 <= from
    via fields_from_decreases
{
    let end = next_char(s, separator, from);
    if end >= s.len() {
        seq![s.subrange(from, s.len() as int)]
    } else {
        seq![s.subrange(from, end)] + fields_from(s, separator, end + 1)
    }
}

#[via_fn]
proof fn fields_from_decreases(s: Seq<char>, separator: char, from: int) {
    lemma_next_char(s, separator, from);
}

/// The fields of `s` between separators; there is always at least one.
pub open spec fn fields_of(s: Seq<char>, separator: char) -> Seq<Seq<char>> {
    fields_from(s, separator, 0)
}

/// Whether `c` has the Unicode property White_Space.
pub open spec fn is_space(c: char) -> bool {
    ||| 0x9 <= c as u32 <= 0xd
    ||| c as u32 == 0x20
    ||| c as u32 == 0x85
    ||| c as u32 == 0xa0
    ||| c as u32 == 0x1680
    ||| 0x2000 <= c as u32 <= 0x200a
    ||| c as u32 == 0x2028
    ||| c as u32 == 0x2029
    ||| c as u32 == 0x202f
    ||| c as u32 == 0x205f
    ||| c as u32 == 0x3000
}

/// `s` without the white space at its front.
pub open spec fn trimmed_start(s: Seq<char>) -> Seq<char>
    decreases s.len(),
{
    if s.len() > 0 && is_space(s[0]) {
        trimmed_start(s.skip(1))
    } else {
        s
    }
}

/// `s` without the white space at its back.
pub open spec fn trimmed_end(s: Seq<char>) -> Seq<char>
    decreases s.len(),
{
    if s.len() > 0 && is_space(s.last()) {
        trimmed_end(s.drop_last())
    } else {
        s
    }
}

/// `s` without the white space around it.
pub open spec fn trimmed(s: Seq<char>) -> Seq<char> {
    trimmed_end(trimmed_start(s))
}

/// The index found lies in range, holds the character, and nothing before it does.
pub proof fn lemma_next_char(s: Seq<char>, c: char, from: int)
    ensures
        next_char(s, c, from) <= s.len(),
        0 <= from <= s.len() ==> from <= next_char(s, c, from),
        0 <= from && next_char(s, c, from) < s.len() ==> s[next_char(s, c, from)] == c,
        forall|k: int| 0 <= from <= k < next_char(s, c, from) ==> #[trigger] s[k] != c,
    decreases s.len() - from,
{
    if from < s.len() && s[from] != c {
        lemma_next_char(s, c, from + 1);
    }
}

/// The index that holds the character, with nothing before it that does, is the one
/// that is found.
pub proof fn lemma_next_char_is(s: Seq<char>, c: char, from: int, at: int)
    requires
        0 <= from <= at <= s.len(),
        forall|k: int| from <= k < at ==> #[trigger] s[k] != c,
        at < s.len() ==> s[at] == c,
    ensures
        next_char(s, c, from) == at,
    decreases at - from,
{
    if from < at {
        assert(s[from] != c);
        lemma_next_char_is(s, c, from + 1, at);
    }
}

/// What is cut off at the front is white space, and what is left begins with none.
pub proof fn lemma_trimmed_start(s: Seq<char>)
    ensures
        exists|n: int|
            0 <= n <= s.len() && trimmed_start(s) == #[trigger] s.skip(n) && (forall|i: int|
                0 <= i < n ==> is_space(#[trigger] s[i])),
        trimmed_start(s).len() > 0 ==> !is_space(trimmed_start(s)[0]),
    decreases s.len(),
{
    if s.len() > 0 && is_space(s[0]) {
        lemma_trimmed_start(s.skip(1));
        let n = choose|n: int|
            0 <= n <= s.skip(1).len() && trimmed_start(s.skip(1)) == #[trigger] s.skip(1).skip(n)
                && (forall|i: int| 0 <= i < n ==> is_space(#[trigger] s.skip(1)[i]));
        assert(s.skip(1).skip(n) =~= s.skip(n + 1));
        assert forall|i: int| 0 <= i < n + 1 implies is_space(#[trigger] s[i]) by {
            if i > 0 {
                assert(s.skip(1)[i - 1] == s[i]);
            }
        }
    } else {
        assert(s.skip(0) =~= s);
    }
}

/// What is cut off at the back is white space, and what is left ends with none.
pub proof fn lemma_trimmed_end(s: Seq<char>)
    ensures
        trimmed_end(s).len() <= s.len(),
        trimmed_end(s) == s.take(trimmed_end(s).len() as int),
        forall|i: int| trimmed_end(s).len() <= i < s.len() ==> is_space(#[trigger] s[i]),
        trimmed_end(s).len() > 0 ==> !is_space(trimmed_end(s).last()),
    decreases s.len(),
{
    if s.len() > 0 && is_space(s.last()) {
        let front = s.drop_last();
        lemma_trimmed_end(front);
        let n = trimmed_end(front).len() as int;
        assert(front.take(n) =~= s.take(n));
        assert forall|i: int| n <= i < s.len() implies is_space(#[trigger] s[i]) by {
            if i < front.len() {
                assert(front[i] == s[i]);
            }
        }
    } else {
        assert(s.take(s.len() as int) =~= s);
    }
}

/// A text that begins and ends with no white space stays as it is.
pub proof fn lemma_trimmed_keeps(s: Seq<char>)
    requires
        s.len() > 0 ==> !is_space(s[0]) && !is_space(s.last()),
    ensures
        trimmed(s) == s,
{
}

/// A text that was trimmed stays as it is.
pub proof fn lemma_trimmed_twice(s: Seq<char>)
    ensures
        trimmed(trimmed(s)) == trimmed(s),
{
    let front = trimmed_start(s);
    lemma_trimmed_start(s);
    lemma_trimmed_end(front);
    if trimmed(s).len() > 0 {
        assert(trimmed(s)[0] == front[0]);
    }
    lemma_trimmed_keeps(trimmed(s));
}

/// White space behind a text does not matter.
pub proof fn lemma_trimmed_ignores_back(s: Seq<char>, space: Seq<char>)
    requires
        forall|i: int| 0 <= i < space.len() ==> is_space(#[trigger] space[i]),
    ensures
        trimmed(s + space) == trimmed(s),
    decreases space.len(),
{
    if space.len() == 0 {
        assert(s + space =~= s);
    } else {
        let less = space.drop_last();
        assert forall|i: int| 0 <= i < less.len() implies is_space(#[trigger] less[i]) by {
            assert(less[i] == space[i]);
        }
        lemma_trimmed_ignores_back(s, less);
        let last = space.last();
        assert(s + space =~= (s + less).push(last));
        lemma_trimmed_ignores_one(s + less, last);
    }
}

/// One character of white space behind a text does not matter.
proof fn lemma_trimmed_ignores_one(s: Seq<char>, c: char)
    requires
        is_space(c),
    ensures
        trimmed(s.push(c)) == trimmed(s),
    decreases s.len(),
{
    let more = s.push(c);
    if s.len() > 0 && is_space(s[0]) {
        assert(more.skip(1) =~= s.skip(1).push(c));
        lemma_trimmed_ignores_one(s.skip(1), c);
    } else if s.len() > 0 {
        assert(more.drop_last() =~= s);
    } else {
        assert(more.skip(1) =~= s);
    }
}

/// A text keeps every character but white space when it is trimmed.
pub proof fn lemma_trimmed_holds(s: Seq<char>, at: int)
    requires
        0 <= at < s.len(),
        !is_space(s[at]),
    ensures
        trimmed(s).contains(s[at]),
{
    lemma_trimmed_start(s);
    let front = trimmed_start(s);
    let n = choose|n: int|
        0 <= n <= s.len() && front == #[trigger] s.skip(n) && (forall|i: int|
            0 <= i < n ==> is_space(#[trigger] s[i]));
    assert(n <= at);
    assert(front[at - n] == s[at]);
    lemma_trimmed_end(front);
    assert(at - n < trimmed(s).len());
    assert(trimmed(s)[at - n] == s[at]);
}

/// A text in front of one that begins with no white space is trimmed at its front
/// alone.
pub proof fn lemma_trimmed_start_of_pair(s: Seq<char>, t: Seq<char>)
    requires
        t.len() > 0,
        !is_space(t[0]),
    ensures
        trimmed_start(s + t) == trimmed_start(s) + t,
    decreases s.len(),
{
    if s.len() > 0 && is_space(s[0]) {
        assert((s + t).skip(1) =~= s.skip(1) + t);
        lemma_trimmed_start_of_pair(s.skip(1), t);
    } else if s.len() == 0 {
        assert(s + t =~= t);
        assert(trimmed_start(s) + t =~= t);
    }
}

/// A text has a match exactly where the pattern occurs in it.
pub proof fn lemma_match_starts(s: Seq<char>, pattern: Seq<char>, from: int)
    requires
        0 <= from,
    ensures
        forall|k: int|
            0 <= k < match_starts(s, pattern, from).len() ==> {
                &&& occurs_at(s, pattern, #[trigger] match_starts(s, pattern, from)[k])
                &&& from <= match_starts(s, pattern, from)[k]
            },
        forall|j: int, k: int|
            0 <= j < k < match_starts(s, pattern, from).len() ==> #[trigger] match_starts(
                s,
                pattern,
                from,
            )[j] + stride(pattern) <= #[trigger] match_starts(s, pattern, from)[k],
        match_starts(s, pattern, from).len() == 0 ==> forall|at: int|
            from <= at ==> !#[trigger] occurs_at(s, pattern, at),
        match_starts(s, pattern, from).len() > 0 ==> forall|at: int|
            from <= at < match_starts(s, pattern, from)[0] ==> !#[trigger] occurs_at(s, pattern, at),
    decreases s.len() + 1 - from,
{
    let starts = match_starts(s, pattern, from);
    if from + pattern.len() > s.len() {
    } else if occurs_at(s, pattern, from) {
        let rest = match_starts(s, pattern, from + stride(pattern));
        lemma_match_starts(s, pattern, from + stride(pattern));
        assert(starts == seq![from] + rest);
        assert forall|k: int| 0 <= k < starts.len() implies occurs_at(
            s,
            pattern,
            #[trigger] starts[k],
        ) && from <= starts[k] by {
            if k > 0 {
                assert(starts[k] == rest[k - 1]);
            }
        }
        assert forall|j: int, k: int| 0 <= j < k < starts.len() implies #[trigger] starts[j]
            + stride(pattern) <= #[trigger] starts[k] by {
            assert(starts[k] == rest[k - 1]);
            if j > 0 {
                assert(starts[j] == rest[j - 1]);
            }
        }
    } else {
        lemma_match_starts(s, pattern, from + 1);
    }
}

/// Whether the pattern stands in `s` at `at`.
fn occurs_here(s: &Vec<char>, pattern: &Vec<char>, at: usize) -> (found: bool)
    requires
        at + pattern@.len() <= s@.len(),
    ensures
        found == occurs_at(s@, pattern@, at as int),
{
    let mut i: usize = 0;
    let len: usize = s.len();
    while i < pattern.len()
        invariant
            i <= pattern@.len(),
            len == s@.len(),
            at + pattern@.len() <= s@.len(),
            forall|k: int| 0 <= k < i ==> s@[at + k] == #[trigger] pattern@[k],
        decreases pattern.len() - i,
    {
        if s[at + i] != pattern[i] {
            assert(s@.subrange(at as int, at + pattern@.len())[i as int] != pattern@[i as int]);
            return false;
        }
        i += 1;
    }
    assert(s@.subrange(at as int, at + pattern@.len()) =~= pattern@);
    true
}

/// Where the matches of `pattern` in `s` begin, read from left to right without
/// overlap.
pub fn find_matches(s: &Vec<char>, pattern: &Vec<char>) -> (starts: Vec<usize>)
    ensures
        ints(starts@) == match_starts(s@, pattern@, 0),
{
    let mut starts: Vec<usize> = Vec::new();
    let ghost all = match_starts(s@, pattern@, 0);
    assert(ints(starts@) + all =~= all);
    if pattern.len() <= s.len() {
        let last: usize = s.len() - pattern.len();
        let step: usize = if pattern.len() == 0 {
            1
        } else {
            pattern.len()
        };
        let mut at: usize = 0;
        let mut done: bool = false;
        let ghost mut next: int = 0;
        while !done
            invariant
                last == s@.len() - pattern@.len(),
                step == stride(pattern@),
                ints(starts@) + match_starts(s@, pattern@, next) == all,
                done ==> next > last,
                !done ==> next == at <= last,
            decreases (if done { 0int } else { 1 + last - at }),
        {
            let ghost found = ints(starts@);
            let ghost here = at as int;
            let mut width: usize = 1;
            if occurs_here(s, pattern, at) {
                starts.push(at);
                width = step;
                assert(ints(starts@) =~= found.push(here));
                assert(found.push(here) + match_starts(s@, pattern@, here + step) =~= found + (
                seq![here] + match_starts(s@, pattern@, here + step)));
            }
            proof {
                next = here + width;
            }
            if width > last - at {
                done = true;
            } else {
                at = at + width;
            }
        }
        assert(match_starts(s@, pattern@, next) =~= Seq::<int>::empty());
    }
    assert(ints(starts@) + Seq::<int>::empty() =~= ints(starts@));
    starts
}

/// The part of `s` from `from` up to `to`.
pub fn slice_of(s: &Vec<char>, from: usize, to: usize) -> (part: Vec<char>)
    requires
        from <= to <= s@.len(),
    ensures
        part@ == s@.subrange(from as int, to as int),
{
    let mut part: Vec<char> = Vec::new();
    let mut i: usize = from;
    while i < to
        invariant
            from <= i <= to <= s@.len(),
            part@ == s@.subrange(from as int, i as int),
        decreases to - i,
    {
        part.push(s[i]);
        i += 1;
        assert(s@.subrange(from as int, i as int).drop_last() =~= s@.subrange(
            from as int,
            i - 1,
        ));
        assert(part@ =~= s@.subrange(from as int, i as int));
    }
    part
}

/// The characters of `back` behind those of `front`.
pub fn extend_chars(front: &mut Vec<char>, back: &Vec<char>)
    ensures
        final(front)@ == old(front)@ + back@,
{
    let mut i: usize = 0;
    assert(front@ =~= old(front)@ + back@.take(0));
    while i < back.len()
        invariant
            i <= back@.len(),
            front@ == old(front)@ + back@.take(i as int),
        decreases back.len() - i,
    {
        front.push(back[i]);
        assert(back@.take(i + 1) =~= back@.take(i as int).push(back@[i as int]));
        i += 1;
        assert(front@ =~= old(front)@ + back@.take(i as int));
    }
    assert(back@.take(i as int) =~= back@);
}

/// `s` with the matches at `starts` replaced by `new`.
fn splice(s: &Vec<char>, starts: &Vec<usize>, width: usize, new: &Vec<char>) -> (out: Vec<char>)
    requires
        forall|k: int| 0 <= k < starts@.len() ==> #[trigger] starts@[k] + width <= s@.len(),
        forall|j: int, k: int|
            0 <= j < k < starts@.len() ==> #[trigger] starts@[j] + width <= #[trigger] starts@[k],
    ensures
        out@ == spliced(s@, ints(starts@), width as int, new@, 0),
{
    let mut out: Vec<char> = Vec::new();
    let mut copied: usize = 0;
    let mut i: usize = 0;
    let len: usize = s.len();
    let ghost all = spliced(s@, ints(starts@), width as int, new@, 0);
    assert(ints(starts@).skip(0) =~= ints(starts@));
    assert(out@ + all =~= all);
    while i < starts.len()
        invariant
            i <= starts@.len(),
            len == s@.len(),
            copied <= s@.len(),
            i < starts@.len() ==> copied <= starts@[i as int],
            forall|k: int| 0 <= k < starts@.len() ==> #[trigger] starts@[k] + width <= s@.len(),
            forall|j: int, k: int|
                0 <= j < k < starts@.len() ==> #[trigger] starts@[j] + width
                    <= #[trigger] starts@[k],
            out@ + spliced(s@, ints(starts@).skip(i as int), width as int, new@, copied as int)
                == all,
        decreases starts.len() - i,
    {
        let ghost rest = ints(starts@).skip(i as int);
        let ghost before = out@;
        let start: usize = starts[i];
        assert(rest[0] == start);
        assert(rest.skip(1) =~= ints(starts@).skip(i + 1));
        let piece = slice_of(s, copied, start);
        extend_chars(&mut out, &piece);
        extend_chars(&mut out, new);
        copied = start + width;
        i += 1;
        assert(out@ + spliced(s@, rest.skip(1), width as int, new@, copied as int) =~= before + (
        piece@ + new@ + spliced(s@, rest.skip(1), width as int, new@, copied as int)));
    }
    let tail = slice_of(s, copied, len);
    extend_chars(&mut out, &tail);
    out
}

/// `s` with every match of `pattern` replaced by `new`.
pub fn replace_all(s: &str, pattern: &str, new: &str) -> (out: String)
    ensures
        out@ == replaced_all(s@, pattern@, new@),
{
    let text = chars_of(s);
    let pattern = chars_of(pattern);
    let starts = find_matches(&text, &pattern);
    proof {
        lemma_match_bounds(text@, pattern@, starts@);
    }
    let out = splice(&text, &starts, pattern.len(), &chars_of(new));
    string_of(out.as_slice())
}

/// `s` with the first match of `pattern` replaced by `new`.
pub fn replace_first(s: &str, pattern: &str, new: &str) -> (out: String)
    ensures
        out@ == replaced_first(s@, pattern@, new@),
{
    let text = chars_of(s);
    let pattern = chars_of(pattern);
    let mut starts = find_matches(&text, &pattern);
    proof {
        lemma_match_bounds(text@, pattern@, starts@);
    }
    if starts.len() > 1 {
        let ghost all = starts@;
        starts.truncate(1);
        assert(ints(starts@) =~= ints(all).take(1));
    } else {
        assert(starts@.len() == 1 ==> ints(starts@).take(1) =~= ints(starts@));
    }
    let out = splice(&text, &starts, pattern.len(), &chars_of(new));
    string_of(out.as_slice())
}

/// The matches found lie in the text, one behind the other.
proof fn lemma_match_bounds(s: Seq<char>, pattern: Seq<char>, starts: Seq<usize>)
    requires
        ints(starts) == match_starts(s, pattern, 0),
    ensures
        forall|k: int| 0 <= k < starts.len() ==> #[trigger] starts[k] + pattern.len() <= s.len(),
        forall|j: int, k: int|
            0 <= j < k < starts.len() ==> #[trigger] starts[j] + pattern.len()
                <= #[trigger] starts[k],
{
    lemma_match_starts(s, pattern, 0);
    assert forall|k: int| 0 <= k < starts.len() implies #[trigger] starts[k] + pattern.len()
        <= s.len() by {
        assert(ints(starts)[k] == starts[k]);
    }
    assert forall|j: int, k: int| 0 <= j < k < starts.len() implies #[trigger] starts[j]
        + pattern.len() <= #[trigger] starts[k] by {
        assert(ints(starts)[j] == starts[j]);
        assert(ints(starts)[k] == starts[k]);
    }
}

/// Whether `pattern` stands somewhere in `s`.
pub fn contains_text(s: &str, pattern: &str) -> (found: bool)
    ensures
        found == occurs(s@, pattern@),
{
    let starts = find_matches(&chars_of(s), &chars_of(pattern));
    proof {
        lemma_match_starts(s@, pattern@, 0);
        if starts@.len() > 0 {
            assert(occurs_at(s@, pattern@, match_starts(s@, pattern@, 0)[0]));
        } else {
            assert(ints(starts@).len() == 0);
            assert forall|at: int| !#[trigger] occurs_at(s@, pattern@, at) by {
                if 0 <= at {
                    assert(!occurs_at(s@, pattern@, at));
                }
            }
        }
    }
    starts.len() > 0
}

/// Whether `s` begins with `prefix`.
pub fn starts_with(s: &str, prefix: &str) -> (found: bool)
    ensures
        found == prefix@.is_prefix_of(s@),
{
    let text = chars_of(s);
    let head = chars_of(prefix);
    if head.len() > text.len() {
        return false;
    }
    occurs_here(&text, &head, 0)
}

/// Whether `s` ends with `suffix`.
pub fn ends_with(s: &str, suffix: &str) -> (found: bool)
    ensures
        found == suffix@.is_suffix_of(s@),
{
    let text = chars_of(s);
    let tail = chars_of(suffix);
    if tail.len() > text.len() {
        return false;
    }
    let at: usize = text.len() - tail.len();
    occurs_here(&text, &tail, at)
}

/// `s` without `prefix`, where it begins with it.
pub open spec fn stripped_prefix(s: Seq<char>, prefix: Seq<char>) -> Option<Seq<char>> {
    if prefix.is_prefix_of(s) {
        Some(s.skip(prefix.len() as int))
    } else {
        None
    }
}

/// `s` without `prefix`, where it begins with it.
pub fn strip_prefix(s: &str, prefix: &str) -> (rest: Option<String>)
    ensures
        crate::text::opt_text(rest) == stripped_prefix(s@, prefix@),
{
    if starts_with(s, prefix) {
        let text = chars_of(s);
        let head = chars_of(prefix);
        let rest = slice_of(&text, head.len(), text.len());
        assert(rest@ =~= s@.skip(prefix@.len() as int));
        Some(string_of(rest.as_slice()))
    } else {
        None
    }
}

/// The first index from `from` on that holds `c`, or the length of `s`.
pub fn find_char(s: &Vec<char>, c: char, from: usize) -> (at: usize)
    requires
        from <= s@.len(),
    ensures
        at == next_char(s@, c, from as int),
        from <= at <= s@.len(),
{
    let mut at: usize = from;
    while at < s.len() && s[at] != c
        invariant
            from <= at <= s@.len(),
            next_char(s@, c, at as int) == next_char(s@, c, from as int),
        decreases s.len() - at,
    {
        at += 1;
    }
    at
}

/// The lines of `s`.
pub fn lines(s: &str) -> (lines: Vec<String>)
    ensures
        texts(lines@) == lines_of(s@),
{
    let text = chars_of(s);
    let mut lines: Vec<String> = Vec::new();
    let mut from: usize = 0;
    assert(texts(lines@) + lines_of(s@) =~= lines_of(s@));
    while from < text.len()
        invariant
            text@ == s@,
            from <= text@.len(),
            texts(lines@) + lines_from(s@, from as int) == lines_of(s@),
        decreases text.len() - from,
    {
        let end: usize = find_char(&text, '\n', from);
        let ghost done = texts(lines@);
        if end == text.len() {
            let line = string_of(slice_of(&text, from, end).as_slice());
            lines.push(line);
            assert(texts(lines@) =~= done.push(line@));
            assert(done.push(line@) + Seq::<Seq<char>>::empty() =~= done + seq![line@]);
            from = end;
        } else {
            let mut stop: usize = end;
            if end > from && text[end - 1] == '\r' {
                stop = end - 1;
            }
            let line = string_of(slice_of(&text, from, stop).as_slice());
            assert(line@ =~= without_cr(s@.subrange(from as int, end as int)));
            lines.push(line);
            from = end + 1;
            assert(texts(lines@) =~= done.push(line@));
            assert(done.push(line@) + lines_from(s@, from as int) =~= done + (seq![line@]
                + lines_from(s@, from as int)));
        }
    }
    assert(texts(lines@) + Seq::<Seq<char>>::empty() =~= texts(lines@));
    lines
}

/// The fields of `s` between separators.
pub fn split_on(s: &str, separator: char) -> (fields: Vec<String>)
    ensures
        texts(fields@) == fields_of(s@, separator),
        fields@.len() > 0,
{
    let text = chars_of(s);
    let mut fields: Vec<String> = Vec::new();
    let mut from: usize = 0;
    let mut end: usize = find_char(&text, separator, 0);
    assert(texts(fields@) + fields_of(s@, separator) =~= fields_of(s@, separator));
    while end < text.len()
        invariant
            text@ == s@,
            from <= end <= text@.len(),
            end == next_char(s@, separator, from as int),
            texts(fields@) + fields_from(s@, separator, from as int) == fields_of(s@, separator),
        decreases text.len() - end,
    {
        let ghost done = texts(fields@);
        let field = string_of(slice_of(&text, from, end).as_slice());
        fields.push(field);
        from = end + 1;
        end = find_char(&text, separator, from);
        assert(texts(fields@) =~= done.push(field@));
        assert(done.push(field@) + fields_from(s@, separator, from as int) =~= done + (seq![field@]
            + fields_from(s@, separator, from as int)));
    }
    let ghost done = texts(fields@);
    let field = string_of(slice_of(&text, from, end).as_slice());
    fields.push(field);
    assert(texts(fields@) =~= done + seq![field@]);
    fields
}

/// Whether `c` is white space.
pub fn is_white_space(c: char) -> (space: bool)
    ensures
        space == is_space(c),
{
    let code: u32 = c as u32;
    (0x9 <= code && code <= 0xd) || code == 0x20 || code == 0x85 || code == 0xa0 || code == 0x1680
        || (0x2000 <= code && code <= 0x200a) || code == 0x2028 || code == 0x2029 || code == 0x202f
        || code == 0x205f || code == 0x3000
}

/// `s` without the white space at its back.
pub fn trim_end(s: &str) -> (out: String)
    ensures
        out@ == trimmed_end(s@),
{
    let text = chars_of(s);
    let to: usize = trimmed_len(&text, 0);
    let part = slice_of(&text, 0, to);
    assert(s@.subrange(0, s@.len() as int) =~= s@);
    string_of(part.as_slice())
}

/// Where the text from `from` on ends once the white space at its back is gone.
fn trimmed_len(text: &Vec<char>, from: usize) -> (to: usize)
    requires
        from <= text@.len(),
    ensures
        from <= to <= text@.len(),
        text@.subrange(from as int, to as int) == trimmed_end(
            text@.subrange(from as int, text@.len() as int),
        ),
{
    let mut to: usize = text.len();
    while to > from && is_white_space(text[to - 1])
        invariant
            from <= to <= text@.len(),
            trimmed_end(text@.subrange(from as int, to as int)) == trimmed_end(
                text@.subrange(from as int, text@.len() as int),
            ),
        decreases to,
    {
        to = to - 1;
        assert(text@.subrange(from as int, to + 1).drop_last() =~= text@.subrange(
            from as int,
            to as int,
        ));
    }
    to
}

/// How many characters of white space `text` has at its front.
fn leading_space(text: &Vec<char>) -> (from: usize)
    ensures
        from <= text@.len(),
        text@.skip(from as int) == trimmed_start(text@),
{
    let mut from: usize = 0;
    assert(text@.skip(0) =~= text@);
    while from < text.len() && is_white_space(text[from])
        invariant
            from <= text@.len(),
            trimmed_start(text@.skip(from as int)) == trimmed_start(text@),
        decreases text.len() - from,
    {
        from += 1;
        assert(text@.skip(from - 1).skip(1) =~= text@.skip(from as int));
    }
    from
}

/// `s` without the white space around it.
pub fn trim(s: &str) -> (out: String)
    ensures
        out@ == trimmed(s@),
{
    let text = chars_of(s);
    let from: usize = leading_space(&text);
    let to: usize = trimmed_len(&text, from);
    let part = slice_of(&text, from, to);
    assert(s@.subrange(from as int, s@.len() as int) =~= s@.skip(from as int));
    string_of(part.as_slice())
}

/// The first index from `from` on that holds white space, or, with `space` false,
/// anything else; the length of `s` where there is none.
pub open spec fn next_space(s: Seq<char>, space: bool, from: int) -> int
    decreases s.len() - from,
{
    if from >= s.len() {
        s.len() as int
    } else if is_space(s[from]) == space {
        from
    } else {
        next_space(s, space, from + 1)
    }
}

/// The index found lies in range and holds what was looked for.
pub proof fn lemma_next_space(s: Seq<char>, space: bool, from: int)
    ensures
        next_space(s, space, from) <= s.len(),
        0 <= from <= s.len() ==> from <= next_space(s, space, from),
        0 <= from && next_space(s, space, from) < s.len() ==> is_space(
            s[next_space(s, space, from)],
        ) == space,
    decreases s.len() - from,
{
    if from < s.len() && is_space(s[from]) != space {
        lemma_next_space(s, space, from + 1);
    }
}

/// The words of `s` from index `from` on: the longest runs without white space.
pub open spec fn words_from(s: Seq<char>, from: int) -> Seq<Seq<char>>
    decreases s.len() - from,
    when 0 <= from
    via words_from_decreases
{
    let start = next_space(s, false, from);
    let end = next_space(s, true, start);
    if start >= s.len() || from >= s.len() {
        Seq::empty()
    } else {
        seq![s.subrange(start, end)] + words_from(s, end)
    }
}

#[via_fn]
proof fn words_from_decreases(s: Seq<char>, from: int) {
    let start = next_space(s, false, from);
    lemma_next_space(s, false, from);
    lemma_next_space(s, true, start);
    if from < s.len() && start < s.len() {
        lemma_next_space(s, true, start + 1);
    }
}

/// The words of `s`.
pub open spec fn words_of(s: Seq<char>) -> Seq<Seq<char>> {
    words_from(s, 0)
}

/// The first index from `from` on that holds white space, or anything else.
pub fn find_space(s: &Vec<char>, space: bool, from: usize) -> (at: usize)
    requires
        from <= s@.len(),
    ensures
        at == next_space(s@, space, from as int),
        from <= at <= s@.len(),
{
    let mut at: usize = from;
    while at < s.len() && is_white_space(s[at]) != space
        invariant
            from <= at <= s@.len(),
            next_space(s@, space, at as int) == next_space(s@, space, from as int),
        decreases s.len() - at,
    {
        at += 1;
    }
    at
}

/// The words of `s`.
pub fn split_words(s: &str) -> (words: Vec<String>)
    ensures
        texts(words@) == words_of(s@),
{
    let text = chars_of(s);
    let mut words: Vec<String> = Vec::new();
    let mut from: usize = 0;
    assert(texts(words@) + words_of(s@) =~= words_of(s@));
    while from < text.len()
        invariant
            text@ == s@,
            from <= text@.len(),
            texts(words@) + words_from(s@, from as int) == words_of(s@),
        decreases text.len() - from,
    {
        let start: usize = find_space(&text, false, from);
        let ghost done = texts(words@);
        if start < text.len() {
            proof {
                lemma_next_space(s@, false, from as int);
            }
            let end: usize = find_space(&text, true, start);
            let word = string_of(slice_of(&text, start, end).as_slice());
            words.push(word);
            assert(texts(words@) =~= done.push(word@));
            assert(done.push(word@) + words_from(s@, end as int) =~= done + (seq![word@]
                + words_from(s@, end as int)));
            proof {
                lemma_next_space(s@, true, start + 1);
            }
            from = end;
        } else {
            assert(words_from(s@, from as int) =~= Seq::empty());
            assert(words_from(s@, start as int) =~= Seq::empty());
            from = start;
        }
    }
    assert(texts(words@) + Seq::<Seq<char>>::empty() =~= texts(words@));
    words
}

/// `s` without the characters `c` at its back.
pub open spec fn without_trailing(s: Seq<char>, c: char) -> Seq<char>
    decreases s.len(),
{
    if s.len() > 0 && s.last() == c {
        without_trailing(s.drop_last(), c)
    } else {
        s
    }
}

/// `s` without the characters `c` at its back.
pub fn trim_trailing(s: &str, c: char) -> (out: String)
    ensures
        out@ == without_trailing(s@, c),
{
    let text = chars_of(s);
    let mut to: usize = text.len();
    assert(s@.subrange(0, to as int) =~= s@);
    while to > 0 && text[to - 1] == c
        invariant
            to <= text@.len(),
            text@ == s@,
            without_trailing(s@.subrange(0, to as int), c) == without_trailing(s@, c),
        decreases to,
    {
        to = to - 1;
        assert(s@.subrange(0, to + 1).drop_last() =~= s@.subrange(0, to as int));
    }
    string_of(slice_of(&text, 0, to).as_slice())
}

/// What is left does not end in `c`.
pub proof fn lemma_without_trailing(s: Seq<char>, c: char)
    ensures
        without_trailing(s, c).len() > 0 ==> without_trailing(s, c).last() != c,
        without_trailing(s, c).is_prefix_of(s),
    decreases s.len(),
{
    if s.len() > 0 && s.last() == c {
        lemma_without_trailing(s.drop_last(), c);
        let left = without_trailing(s, c);
        assert(s.subrange(0, left.len() as int) =~= s.drop_last().subrange(0, left.len() as int));
    }
}

/// `s` without the copies of `prefix` at its front; the prefix is not empty.
pub open spec fn without_leading_text(s: Seq<char>, prefix: Seq<char>) -> Seq<char>
    decreases s.len(),
{
    if prefix.len() > 0 && prefix.is_prefix_of(s) {
        without_leading_text(s.skip(prefix.len() as int), prefix)
    } else {
        s
    }
}

/// `s` without the copies of `suffix` at its back; the suffix is not empty.
pub open spec fn without_trailing_text(s: Seq<char>, suffix: Seq<char>) -> Seq<char>
    decreases s.len(),
{
    if suffix.len() > 0 && suffix.is_suffix_of(s) {
        without_trailing_text(s.take(s.len() - suffix.len()), suffix)
    } else {
        s
    }
}

/// `s` without the copies of `prefix` at its front.
pub fn trim_leading_text(s: &str, prefix: &str) -> (out: String)
    requires
        prefix@.len() > 0,
    ensures
        out@ == without_leading_text(s@, prefix@),
{
    let mut out = s.to_owned();
    let mut found = starts_with(out.as_str(), prefix);
    while found
        invariant
            prefix@.len() > 0,
            found == prefix@.is_prefix_of(out@),
            without_leading_text(out@, prefix@) == without_leading_text(s@, prefix@),
        decreases out@.len(),
    {
        let chars = chars_of(out.as_str());
        let head = chars_of(prefix);
        let rest = slice_of(&chars, head.len(), chars.len());
        assert(rest@ =~= out@.skip(prefix@.len() as int));
        out = string_of(rest.as_slice());
        found = starts_with(out.as_str(), prefix);
    }
    out
}

/// `s` without the copies of `suffix` at its back.
pub fn trim_trailing_text(s: &str, suffix: &str) -> (out: String)
    requires
        suffix@.len() > 0,
    ensures
        out@ == without_trailing_text(s@, suffix@),
{
    let mut out = s.to_owned();
    let mut found = ends_with(out.as_str(), suffix);
    while found
        invariant
            suffix@.len() > 0,
            found == suffix@.is_suffix_of(out@),
            without_trailing_text(out@, suffix@) == without_trailing_text(s@, suffix@),
        decreases out@.len(),
    {
        let chars = chars_of(out.as_str());
        let tail = chars_of(suffix);
        let rest = slice_of(&chars, 0, chars.len() - tail.len());
        assert(rest@ =~= out@.take(out@.len() - suffix@.len()));
        out = string_of(rest.as_slice());
        found = ends_with(out.as_str(), suffix);
    }
    out
}

/// A pattern is found where it stands, and only there: no match means that it stands
/// nowhere, and a single match that it stands nowhere clear of that one.
pub proof fn law_matches_are_occurrences(s: Seq<char>, pattern: Seq<char>)
    ensures
        match_starts(s, pattern, 0).len() > 0 <==> exists|at: int| occurs_at(s, pattern, at),
        forall|at: int|
            #![trigger occurs_at(s, pattern, at)]
            match_starts(s, pattern, 0).contains(at) ==> occurs_at(s, pattern, at),
        match_starts(s, pattern, 0).len() == 1 ==> forall|at: int|
            #[trigger] occurs_at(s, pattern, at) ==> match_starts(s, pattern, 0)[0] <= at
                && at < match_starts(s, pattern, 0)[0] + pattern.len() + (if pattern.len() == 0 {
                1int
            } else {
                0
            }),
        match_starts(s, pattern, 0).len() > 1 ==> exists|at: int|
            #[trigger] occurs_at(s, pattern, at) && at >= match_starts(s, pattern, 0)[0]
                + pattern.len() && at != match_starts(s, pattern, 0)[0],
{
    let starts = match_starts(s, pattern, 0);
    lemma_match_starts(s, pattern, 0);
    if starts.len() > 0 {
        assert(occurs_at(s, pattern, starts[0]));
        lemma_matches_behind_the_first(s, pattern, 0);
        lemma_match_starts(s, pattern, starts[0] + stride(pattern));
        if starts.len() > 1 {
            assert(occurs_at(s, pattern, starts[1]));
            assert(starts[0] + stride(pattern) <= starts[1]);
        }
    }
}

/// Behind the first match the search goes on at its end.
proof fn lemma_matches_behind_the_first(s: Seq<char>, pattern: Seq<char>, from: int)
    requires
        0 <= from,
        match_starts(s, pattern, from).len() > 0,
    ensures
        match_starts(s, pattern, from).skip(1) == match_starts(
            s,
            pattern,
            match_starts(s, pattern, from)[0] + stride(pattern),
        ),
    decreases s.len() + 1 - from,
{
    if occurs_at(s, pattern, from) {
        let rest = match_starts(s, pattern, from + stride(pattern));
        assert((seq![from] + rest).skip(1) =~= rest);
    } else {
        lemma_matches_behind_the_first(s, pattern, from + 1);
    }
}

/// Replacing a pattern once puts the new text where the pattern stands first, and leaves
/// all else; without the pattern nothing changes.
pub proof fn law_first_occurrence_is_replaced(s: Seq<char>, pattern: Seq<char>, new: Seq<char>)
    ensures
        forall|at: int|
            #[trigger] occurs_at(s, pattern, at) && (forall|b: int|
                0 <= b < at ==> !#[trigger] occurs_at(s, pattern, b)) ==> replaced_first(
                s,
                pattern,
                new,
            ) == s.take(at) + new + s.skip(at + pattern.len()),
        (forall|at: int| !#[trigger] occurs_at(s, pattern, at)) ==> replaced_first(s, pattern, new)
            == s,
        match_starts(s, pattern, 0).len() > 0 ==> replaced_first(s, pattern, new) == s.take(
            match_starts(s, pattern, 0)[0],
        ) + new + s.skip(match_starts(s, pattern, 0)[0] + pattern.len()),
{
    let starts = match_starts(s, pattern, 0);
    lemma_match_starts(s, pattern, 0);
    if starts.len() > 0 {
        let first = starts[0];
        let one = starts.take(1);
        let width = pattern.len() as int;
        assert(occurs_at(s, pattern, first));
        assert(one.skip(1) =~= Seq::empty());
        assert(spliced(s, one.skip(1), width, new, first + width) =~= s.skip(first + width));
        assert(s.subrange(0, first) =~= s.take(first));
        assert forall|at: int|
            #[trigger] occurs_at(s, pattern, at) && (forall|b: int|
                0 <= b < at ==> !#[trigger] occurs_at(s, pattern, b)) implies at == first by {
            if first < at {
                assert(occurs_at(s, pattern, first));
            }
        }
    } else {
        assert(s.subrange(0, s.len() as int) =~= s);
    }
}

/// Replacing a pattern everywhere puts the new text where the pattern stands first, and
/// goes on behind it; without the pattern nothing changes.
pub proof fn law_all_occurrences_are_replaced(
    s: Seq<char>,
    pattern: Seq<char>,
    new: Seq<char>,
    at: int,
)
    requires
        pattern.len() > 0,
    ensures
        occurs_at(s, pattern, at) && (forall|b: int|
            0 <= b < at ==> !#[trigger] occurs_at(s, pattern, b)) ==> replaced_all(s, pattern, new)
            == s.take(at) + new + replaced_all(s.skip(at + pattern.len()), pattern, new),
        (forall|b: int| !#[trigger] occurs_at(s, pattern, b)) ==> replaced_all(s, pattern, new)
            == s,
{
    let starts = match_starts(s, pattern, 0);
    let width = pattern.len() as int;
    lemma_match_starts(s, pattern, 0);
    if starts.len() == 0 {
        assert(s.subrange(0, s.len() as int) =~= s);
    }
    if occurs_at(s, pattern, at) && (forall|b: int|
        0 <= b < at ==> !#[trigger] occurs_at(s, pattern, b)) {
        assert(starts.len() > 0);
        assert(occurs_at(s, pattern, starts[0]));
        assert(starts[0] == at);
        lemma_matches_behind_the_first(s, pattern, 0);
        let end = at + width;
        let rest = s.skip(end);
        lemma_matches_shift(s, pattern, end, 0);
        let behind = match_starts(rest, pattern, 0);
        assert(starts.skip(1) == behind.map_values(|k: int| k + end));
        lemma_match_starts(rest, pattern, 0);
        lemma_spliced_shift(s, behind, width, new, end, 0);
        assert(s.subrange(0, at) =~= s.take(at));
    }
}

/// The matches of a tail are the matches from its start on.
proof fn lemma_matches_shift(s: Seq<char>, pattern: Seq<char>, by: int, from: int)
    requires
        0 <= by <= s.len(),
        0 <= from,
        pattern.len() > 0,
    ensures
        match_starts(s, pattern, by + from) == match_starts(s.skip(by), pattern, from).map_values(
            |k: int| k + by,
        ),
    decreases s.len() + 1 - by - from,
{
    let tail = s.skip(by);
    let moved = |k: int| k + by;
    if from + pattern.len() <= tail.len() {
        assert(tail.subrange(from, from + pattern.len()) =~= s.subrange(
            by + from,
            by + from + pattern.len(),
        ));
        if occurs_at(tail, pattern, from) {
            let next = match_starts(tail, pattern, from + stride(pattern));
            lemma_matches_shift(s, pattern, by, from + stride(pattern));
            assert((seq![from] + next).map_values(moved) =~= seq![by + from] + next.map_values(
                moved,
            ));
        } else {
            lemma_matches_shift(s, pattern, by, from + 1);
        }
    } else {
        assert(Seq::<int>::empty().map_values(moved) =~= Seq::<int>::empty());
    }
}

/// Splicing a tail is splicing from its start on.
proof fn lemma_spliced_shift(
    s: Seq<char>,
    starts: Seq<int>,
    width: int,
    new: Seq<char>,
    by: int,
    copied: int,
)
    requires
        0 <= by <= s.len(),
        0 <= copied,
        0 < width,
        forall|k: int| 0 <= k < starts.len() ==> copied <= #[trigger] starts[k] && starts[k] + width
            <= s.len() - by,
        forall|j: int, k: int|
            0 <= j < k < starts.len() ==> #[trigger] starts[j] + width <= #[trigger] starts[k],
        copied <= s.len() - by,
    ensures
        spliced(s, starts.map_values(|k: int| k + by), width, new, by + copied) == spliced(
            s.skip(by),
            starts,
            width,
            new,
            copied,
        ),
    decreases starts.len(),
{
    let moved = |k: int| k + by;
    let tail = s.skip(by);
    if starts.len() == 0 {
        assert(tail.subrange(copied, tail.len() as int) =~= s.subrange(
            by + copied,
            s.len() as int,
        ));
    } else {
        let rest = starts.skip(1);
        assert forall|k: int| 0 <= k < rest.len() implies starts[0] + width <= #[trigger] rest[k]
            && rest[k] + width <= s.len() - by by {
            assert(rest[k] == starts[k + 1]);
        }
        lemma_spliced_shift(s, rest, width, new, by, starts[0] + width);
        assert(starts.map_values(moved).skip(1) =~= rest.map_values(moved));
        assert(tail.subrange(copied, starts[0]) =~= s.subrange(by + copied, by + starts[0]));
    }
}

/// The fields of a text are what stands between its separators: no field holds one, and put
/// together with one between each two they are the text.
pub proof fn law_fields_stand_between_separators(s: Seq<char>, separator: char)
    ensures
        joined(fields_of(s, separator), seq![separator]) == s,
        fields_of(s, separator).len() > 0,
        forall|i: int|
            0 <= i < fields_of(s, separator).len() ==> !(#[trigger] fields_of(
                s,
                separator,
            )[i]).contains(separator),
{
    lemma_fields_from(s, separator, 0);
    assert(s.subrange(0, s.len() as int) =~= s);
}

/// The same of the fields from an index on.
proof fn lemma_fields_from(s: Seq<char>, separator: char, from: int)
    requires
        0 <= from <= s.len(),
    ensures
        joined(fields_from(s, separator, from), seq![separator]) == s.subrange(
            from,
            s.len() as int,
        ),
        fields_from(s, separator, from).len() > 0,
        forall|i: int|
            0 <= i < fields_from(s, separator, from).len() ==> !(#[trigger] fields_from(
                s,
                separator,
                from,
            )[i]).contains(separator),
    decreases s.len() - from,
{
    let end = next_char(s, separator, from);
    lemma_next_char(s, separator, from);
    if end < s.len() {
        let first = s.subrange(from, end);
        let rest = fields_from(s, separator, end + 1);
        lemma_fields_from(s, separator, end + 1);
        crate::text::law_parts_are_joined_in_order(rest, first, seq![separator]);
        assert(first + seq![separator] + s.subrange(end + 1, s.len() as int) =~= s.subrange(
            from,
            s.len() as int,
        ));
        let all = seq![first] + rest;
        assert forall|i: int| 0 <= i < all.len() implies !(#[trigger] all[i]).contains(
            separator,
        ) by {
            if i == 0 {
                assert forall|k: int| 0 <= k < first.len() implies #[trigger] first[k]
                    != separator by {
                    assert(s[from + k] != separator);
                }
            } else {
                assert(all[i] == rest[i - 1]);
            }
        }
    } else {
        let last = s.subrange(from, s.len() as int);
        assert forall|k: int| 0 <= k < last.len() implies #[trigger] last[k] != separator by {
            assert(s[from + k] != separator);
        }
    }
}

/// A text is read line by line: a line ends at its newline, without a carriage return right
/// before that, and the lines behind it are those of the rest. What stands behind the last
/// newline is a line if it is anything at all.
pub proof fn law_lines_end_at_newlines(line: Seq<char>, rest: Seq<char>)
    requires
        !line.contains('\n'),
    ensures
        lines_of(line.push('\n') + rest) == seq![
            if line.len() > 0 && line.last() == '\r' {
                line.drop_last()
            } else {
                line
            },
        ] + lines_of(rest),
        line.len() > 0 ==> lines_of(line) == seq![line],
        lines_of(Seq::empty()) == Seq::<Seq<char>>::empty(),
{
    let s = line.push('\n') + rest;
    let end = line.len() as int;
    assert forall|k: int| 0 <= k < end implies #[trigger] s[k] != '\n' by {
        assert(line.contains(line[k]));
    }
    lemma_next_char_is(s, '\n', 0, end);
    assert(s.subrange(0, end) =~= line);
    lemma_lines_shift(line.push('\n'), rest, 0);
    assert(s.subrange(0, end) == line);
    lemma_next_char(line, '\n', 0);
    if next_char(line, '\n', 0) < line.len() {
        assert(line.contains(line[next_char(line, '\n', 0)]));
    }
    assert(line.subrange(0, line.len() as int) =~= line);
}

/// What stands before an index has no part in the lines behind it.
proof fn lemma_lines_shift(front: Seq<char>, rest: Seq<char>, from: int)
    requires
        0 <= from,
    ensures
        lines_from(front + rest, front.len() + from) == lines_from(rest, from),
    decreases rest.len() - from,
{
    let s = front + rest;
    let by = front.len() as int;
    lemma_next_char_shift(front, rest, '\n', from);
    let end = next_char(rest, '\n', from);
    lemma_next_char(rest, '\n', from);
    if from < rest.len() {
        if end < rest.len() {
            lemma_lines_shift(front, rest, end + 1);
            assert(s.subrange(by + from, by + end) =~= rest.subrange(from, end));
        } else {
            assert(s.subrange(by + from, s.len() as int) =~= rest.subrange(
                from,
                rest.len() as int,
            ));
        }
    }
}

/// Nor in where a character stands next.
proof fn lemma_next_char_shift(front: Seq<char>, rest: Seq<char>, c: char, from: int)
    requires
        0 <= from,
    ensures
        next_char(front + rest, c, front.len() + from) == front.len() + next_char(rest, c, from),
    decreases rest.len() - from,
{
    if from < rest.len() {
        assert((front + rest)[front.len() + from] == rest[from]);
        if rest[from] != c {
            lemma_next_char_shift(front, rest, c, from + 1);
        }
    }
}

/// Trimming takes white space from both ends and nothing else, and leaves none there.
pub proof fn law_trimming_takes_the_space_around(front: Seq<char>, s: Seq<char>, back: Seq<char>)
    requires
        forall|i: int| 0 <= i < front.len() ==> is_space(#[trigger] front[i]),
        forall|i: int| 0 <= i < back.len() ==> is_space(#[trigger] back[i]),
        s.len() > 0 ==> !is_space(s[0]) && !is_space(s.last()),
    ensures
        trimmed(front + s + back) == s,
    decreases front.len() + back.len(),
{
    let whole = front + s + back;
    if front.len() > 0 {
        assert(whole[0] == front[0]);
        assert(whole.skip(1) =~= front.skip(1) + s + back);
        assert forall|i: int| 0 <= i < front.skip(1).len() implies is_space(
            #[trigger] front.skip(1)[i],
        ) by {
            assert(front.skip(1)[i] == front[i + 1]);
        }
        law_trimming_takes_the_space_around(front.skip(1), s, back);
    } else if s.len() > 0 {
        assert(whole =~= s + back);
        assert(whole[0] == s[0]);
        assert(trimmed_start(whole) == whole);
        if back.len() > 0 {
            assert(whole.last() == back.last());
            assert(whole.drop_last() =~= front + s + back.drop_last());
            law_trimming_takes_the_space_around(front, s, back.drop_last());
            assert(trimmed_start(whole.drop_last()) == whole.drop_last());
        } else {
            assert(whole =~= s);
        }
    } else if back.len() > 0 {
        assert(whole =~= back);
        assert(whole.skip(1) =~= Seq::<char>::empty() + s + back.skip(1));
        assert forall|i: int| 0 <= i < back.skip(1).len() implies is_space(
            #[trigger] back.skip(1)[i],
        ) by {
            assert(back.skip(1)[i] == back[i + 1]);
        }
        law_trimming_takes_the_space_around(Seq::empty(), s, back.skip(1));
    } else {
        assert(whole =~= Seq::<char>::empty());
    }
}

/// The words of a text are read one by one: white space before a word is passed over, the
/// word goes up to the next white space, and the words behind it are those of the rest.
pub proof fn law_words_end_at_spaces(
    front: Seq<char>,
    word: Seq<char>,
    space: char,
    rest: Seq<char>,
)
    requires
        forall|i: int| 0 <= i < front.len() ==> is_space(#[trigger] front[i]),
        forall|i: int| 0 <= i < word.len() ==> !is_space(#[trigger] word[i]),
        word.len() > 0,
        is_space(space),
    ensures
        words_of(front + word + (seq![space] + rest)) == seq![word] + words_of(rest),
        words_of(front + word) == seq![word],
        words_of(front) == Seq::<Seq<char>>::empty(),
{
    let s = front + word + (seq![space] + rest);
    let start = front.len() as int;
    let end = start + word.len();
    assert forall|k: int| 0 <= k < start implies is_space(#[trigger] s[k]) by {
        assert(s[k] == front[k]);
    }
    assert forall|k: int| start <= k < end implies !is_space(#[trigger] s[k]) by {
        assert(s[k] == word[k - start]);
    }
    assert(s[end] == space);
    assert(s[start] == word[0]);
    lemma_next_space_at(s, false, 0, start);
    lemma_next_space_at(s, true, start, end);
    assert(s.subrange(start, end) =~= word);
    let before = front + word + seq![space];
    assert(s =~= before + rest);
    lemma_words_shift(before, rest, 0);
    lemma_words_behind_a_space(s, end);
    let alone = front + word;
    assert forall|k: int| 0 <= k < start implies is_space(#[trigger] alone[k]) by {
        assert(alone[k] == front[k]);
    }
    assert forall|k: int| start <= k < end implies !is_space(#[trigger] alone[k]) by {
        assert(alone[k] == word[k - start]);
    }
    assert(alone[start] == word[0]);
    lemma_next_space_at(alone, false, 0, start);
    lemma_next_space_at(alone, true, start, end);
    assert(alone.subrange(start, end) =~= word);
    assert(words_from(alone, end) =~= Seq::<Seq<char>>::empty());
    lemma_next_space_at(front, false, 0, start);
    assert(words_of(front) =~= Seq::<Seq<char>>::empty());
    assert(words_of(s) =~= seq![word] + words_from(s, end));
    assert(words_of(alone) =~= seq![word] + words_from(alone, end));
}

/// The index is the next of its sort if none before it is, and it is or the text is over.
proof fn lemma_next_space_at(s: Seq<char>, space: bool, from: int, at: int)
    requires
        0 <= from <= at <= s.len(),
        forall|k: int| from <= k < at ==> is_space(#[trigger] s[k]) != space,
        at < s.len() ==> is_space(s[at]) == space,
    ensures
        next_space(s, space, from) == at,
    decreases at - from,
{
    if from < at {
        lemma_next_space_at(s, space, from + 1, at);
    }
}

/// A space before the words changes nothing.
proof fn lemma_words_behind_a_space(s: Seq<char>, at: int)
    requires
        0 <= at < s.len(),
        is_space(s[at]),
    ensures
        words_from(s, at) == words_from(s, at + 1),
{
    assert(next_space(s, false, at) == next_space(s, false, at + 1));
    if at + 1 >= s.len() {
        assert(next_space(s, false, at + 1) == s.len());
    }
}

/// What stands before an index has no part in the words behind it.
proof fn lemma_words_shift(front: Seq<char>, rest: Seq<char>, from: int)
    requires
        0 <= from,
    ensures
        words_from(front + rest, front.len() + from) == words_from(rest, from),
    decreases rest.len() - from,
{
    let s = front + rest;
    let by = front.len() as int;
    let start = next_space(rest, false, from);
    let end = next_space(rest, true, start);
    lemma_next_space_shift(front, rest, false, from);
    lemma_next_space(rest, false, from);
    if from < rest.len() && start < rest.len() {
        lemma_next_space_shift(front, rest, true, start);
        lemma_next_space(rest, true, start);
        if end <= from {
            assert(false);
        }
        lemma_words_shift(front, rest, end);
        assert(s.subrange(by + start, by + end) =~= rest.subrange(start, end));
    }
}

/// Nor in where white space, or anything else, stands next.
proof fn lemma_next_space_shift(front: Seq<char>, rest: Seq<char>, space: bool, from: int)
    requires
        0 <= from,
    ensures
        next_space(front + rest, space, front.len() + from) == front.len() + next_space(
            rest,
            space,
            from,
        ),
    decreases rest.len() - from,
{
    if from < rest.len() {
        assert((front + rest)[front.len() + from] == rest[from]);
        if is_space(rest[from]) != space {
            lemma_next_space_shift(front, rest, space, from + 1);
        }
    }
}

/// A front or a back is taken off as often as it is there, and nothing else is.
pub proof fn law_affixes_are_taken_off(s: Seq<char>, affix: Seq<char>)
    requires
        affix.len() > 0,
    ensures
        without_leading_text(affix + s, affix) == without_leading_text(s, affix),
        !affix.is_prefix_of(s) ==> without_leading_text(s, affix) == s,
        without_trailing_text(s + affix, affix) == without_trailing_text(s, affix),
        !affix.is_suffix_of(s) ==> without_trailing_text(s, affix) == s,
{
    let front = affix + s;
    assert(affix =~= front.subrange(0, affix.len() as int));
    assert(front.skip(affix.len() as int) =~= s);
    let back = s + affix;
    assert(affix =~= back.subrange(back.len() - affix.len(), back.len() as int));
    assert(back.take(back.len() - affix.len()) =~= s);
}

/// Whether `field` stands at `at` in `s`, between two separators or ends, from `from` on.
pub open spec fn stands_between(
    s: Seq<char>,
    separator: char,
    from: int,
    field: Seq<char>,
    at: int,
) -> bool {
    &&& from <= at
    &&& occurs_at(s, field, at)
    &&& at == from || s[at - 1] == separator
    &&& at + field.len() == s.len() || s[at + field.len()] == separator
}

/// A text without a separator is a field exactly if it stands between two of them, or
/// between one and an end, or is all there is.
pub proof fn law_what_stands_between_separators_is_a_field(
    s: Seq<char>,
    separator: char,
    field: Seq<char>,
)
    requires
        !field.contains(separator),
    ensures
        fields_of(s, separator).contains(field) <==> exists|at: int| #[trigger]
            stands_between(s, separator, 0, field, at),
{
    lemma_field_from(s, separator, field, 0);
}

/// The same of the fields from an index on.
proof fn lemma_field_from(s: Seq<char>, separator: char, field: Seq<char>, from: int)
    requires
        !field.contains(separator),
        0 <= from <= s.len(),
    ensures
        fields_from(s, separator, from).contains(field) <==> exists|at: int| #[trigger]
            stands_between(s, separator, from, field, at),
    decreases s.len() - from,
{
    let end = next_char(s, separator, from);
    lemma_next_char(s, separator, from);
    let all = fields_from(s, separator, from);
    let first = s.subrange(from, end);
    assert(all[0] == first);
    if end < s.len() {
        lemma_field_from(s, separator, field, end + 1);
    }
    let rest = fields_from(s, separator, end + 1);
    if all.contains(field) {
        let i = choose|i: int| 0 <= i < all.len() && all[i] == field;
        if i == 0 {
            assert(stands_between(s, separator, from, field, from));
        } else {
            assert(rest[i - 1] == field);
            let at = choose|at: int| #[trigger] stands_between(s, separator, end + 1, field, at);
            assert(stands_between(s, separator, from, field, at));
        }
    }
    if exists|at: int| #[trigger] stands_between(s, separator, from, field, at) {
        let at = choose|at: int| #[trigger] stands_between(s, separator, from, field, at);
        if at == from {
            assert forall|k: int| from <= k < from + field.len() implies #[trigger] s[k]
                != separator by {
                assert(s.subrange(at, at + field.len())[k - at] == s[k]);
                assert(field.contains(field[k - at]));
            }
            lemma_next_char_is(s, separator, from, from + field.len());
            assert(all.contains(field));
        } else {
            assert(end <= at - 1);
            assert(stands_between(s, separator, end + 1, field, at));
            assert(rest.contains(field));
            let i = choose|i: int| 0 <= i < rest.len() && rest[i] == field;
            assert(all[i + 1] == field);
        }
    }
}

} // verus!
