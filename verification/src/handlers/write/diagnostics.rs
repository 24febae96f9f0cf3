//! What a caller is told when a literal edit does not name exactly one place.
use vstd::prelude::*;
use vstd::string::*;
use crate::scan::{
    contains_text, fields_of, find_matches, ints, law_lines_end_at_newlines, lemma_match_starts,
    lines, lines_of, match_starts, occurs, occurs_at, slice_of, split_on, strip_prefix, stripped_prefix, trim, trimmed,
};
use crate::text::{
    align_right, byte_len, chars_of, decimal, opt_text, render_usize, repeat, repeated,
    right_aligned, same_text, string_of, texts, utf8_len,
};

verus! {

/// The marker that stands for a hole between two anchors of a wildcard edit.
pub const WILDCARD_TOKEN: &'static str = "~~*~~";

/// How many matches are shown with their surroundings.
pub const MAX_AMBIGUOUS_MATCH_EXCERPTS: usize = 10;

/// How many lines are shown before and behind a match.
pub const AMBIGUOUS_MATCH_CONTEXT_LINES: usize = 2;

/// How many lines the read that continues behind the shown matches asks for.
pub const AMBIGUOUS_MATCH_CONTINUATION_LINES: usize = 40;

/// How many lines one excerpt shows at most.
pub const MAX_AMBIGUOUS_EXCERPT_LINES: usize = 8;

/// How many characters of a line are shown at most.
pub const MAX_DIAGNOSTIC_LINE_CHARS: usize = 180;

/// How many characters of a hint fragment are shown at most.
pub const MAX_HINT_CHARS: usize = 40;

/// How many characters `a` and `b` have in common at their fronts.
pub open spec fn common_prefix_len(a: Seq<char>, b: Seq<char>) -> nat
    decreases a.len(),
{
    if a.len() == 0 || b.len() == 0 || a[0] != b[0] {
        0
    } else {
        common_prefix_len(a.skip(1), b.skip(1)) + 1
    }
}

/// How many characters `a` and `b` have in common at their backs.
pub open spec fn common_suffix_len(a: Seq<char>, b: Seq<char>) -> nat
    decreases a.len(),
{
    if a.len() == 0 || b.len() == 0 || a.last() != b.last() {
        0
    } else {
        common_suffix_len(a.drop_last(), b.drop_last()) + 1
    }
}

/// The head and the tail that `old` and `new` share around a differing middle,
/// where both are at least four bytes long without the white space around them.
pub open spec fn affixes(old: Seq<char>, new: Seq<char>) -> Option<(Seq<char>, Seq<char>)> {
    let head = common_prefix_len(old, new) as int;
    let tail = common_suffix_len(old.skip(head), new.skip(head)) as int;
    let prefix = old.take(head);
    let suffix = old.skip(old.len() - tail);
    if old != new && utf8_len(trimmed(prefix)) >= 4 && utf8_len(trimmed(suffix)) >= 4 && (head
        < old.len() - tail || head < new.len() - tail) {
        Some((prefix, suffix))
    } else {
        None
    }
}

/// A hint fragment cut down to the front of its first line.
pub open spec fn hint(s: Seq<char>) -> Seq<char> {
    let first = if lines_of(s).len() > 0 {
        lines_of(s)[0]
    } else {
        Seq::empty()
    };
    if first.len() > MAX_HINT_CHARS {
        first.take(MAX_HINT_CHARS as int).push('…')
    } else if first.len() < s.len() {
        first.push('…')
    } else {
        first
    }
}

/// What is said of an `old_string` that does not occur.
pub open spec fn not_found_message(old: Seq<char>, new: Seq<char>) -> Seq<char> {
    let base = "old_string not found; make sure the text matches exactly."@;
    if occurs(old, "~~"@) && !occurs(old, WILDCARD_TOKEN@) {
        base
            + "\nThat `~~` looks like a wildcard marker — use `~~*~~` to punch a hole between two anchors, or escape a literal with `\\~~*~~`."@
    } else {
        match affixes(old, new) {
            Some((prefix, suffix)) => base + "\nold_string and new_string share a head (`"@ + hint(
                prefix,
            ) + "`) and tail (`"@ + hint(suffix)
                + "`) — you can collapse the differing middle with `~~*~~`, keeping just the shared head and tail as anchors."@,
            None => base,
        }
    }
}

/// The line, counted from zero, on which index `at` of `content` stands: the
/// number of newlines before it.
pub open spec fn line_at(content: Seq<char>, at: int) -> nat
    decreases at,
{
    if at <= 0 {
        0
    } else {
        line_at(content, at - 1) + if content[at - 1] == '\n' {
            1nat
        } else {
            0nat
        }
    }
}

/// The column, counted from one, at which index `at` of `content` stands.
pub open spec fn column_at(content: Seq<char>, at: int) -> nat
    decreases at,
{
    if at <= 0 || content[at - 1] == '\n' {
        1
    } else {
        column_at(content, at - 1) + 1
    }
}

/// The line numbers from `start` up to `end`, without the middle where there are
/// too many.
pub open spec fn excerpt_lines(start: int, end: int) -> Seq<int> {
    let head = MAX_AMBIGUOUS_EXCERPT_LINES / 2;
    let tail = MAX_AMBIGUOUS_EXCERPT_LINES - head;
    if end - start <= MAX_AMBIGUOUS_EXCERPT_LINES {
        Seq::new(
            if end > start {
                (end - start) as nat
            } else {
                0
            },
            |k: int| start + k,
        )
    } else {
        Seq::new(
            MAX_AMBIGUOUS_EXCERPT_LINES as nat,
            |k: int|
                if k < head {
                    start + k
                } else {
                    end - tail + (k - head)
                },
        )
    }
}

/// The smaller of two numbers.
pub open spec fn least(a: int, b: int) -> int {
    if a <= b {
        a
    } else {
        b
    }
}

/// The greater of two numbers.
pub open spec fn greatest(a: int, b: int) -> int {
    if a >= b {
        a
    } else {
        b
    }
}

/// Where the shown part of a line of `len` characters begins: a long line is
/// centred on the focus, stays inside the line, and reaches the end of the focus.
pub open spec fn window_start(len: nat, focus: Option<(nat, nat)>) -> int {
    let max = MAX_DIAGNOSTIC_LINE_CHARS as int;
    if len <= max {
        0
    } else {
        match focus {
            Some((from, to)) => {
                let middle = least((from + to) as int, usize::MAX as int) / 2;
                greatest(least(greatest(middle - max / 2, 0), len - max), to - max)
            },
            None => 0,
        }
    }
}

/// Where the shown part of a line ends.
pub open spec fn window_end(len: nat, focus: Option<(nat, nat)>) -> int {
    least(window_start(len, focus) + MAX_DIAGNOSTIC_LINE_CHARS, len as int)
}

/// The shown part of `line`, with an ellipsis on each side that is cut off.
pub open spec fn excerpt_text(line: Seq<char>, focus: Option<(nat, nat)>) -> Seq<char> {
    let start = window_start(line.len(), focus);
    let end = window_end(line.len(), focus);
    let body = line.subrange(start, end);
    let front = if start > 0 {
        seq!['…'] + body
    } else {
        body
    };
    if end < line.len() {
        front.push('…')
    } else {
        front
    }
}

/// `value` moved into the range from `low` to `high`.
pub open spec fn clamped(value: int, low: int, high: int) -> int {
    if value < low {
        low
    } else if value > high {
        high
    } else {
        value
    }
}

/// The line of carets under the focus, where any of it is shown.
pub open spec fn excerpt_marker(line: Seq<char>, focus: Option<(nat, nat)>) -> Option<Seq<char>> {
    match focus {
        Some((from, to)) => {
            let start = window_start(line.len(), focus);
            let end = window_end(line.len(), focus);
            let shown_from = clamped(from as int, start, end);
            let shown_to = clamped(to as int, start, end);
            if shown_to > shown_from {
                let indent = shown_from - start + if start > 0 {
                    1int
                } else {
                    0int
                };
                let carets = repeated(' ', indent as nat) + repeated(
                    '^',
                    least(shown_to - shown_from, 20) as nat,
                );
                Some(
                    if shown_to - shown_from > 20 {
                        carets.push('…')
                    } else {
                        carets
                    },
                )
            } else {
                None
            }
        },
        None => None,
    }
}

/// The front that two texts share lies in both.
proof fn lemma_common_prefix_len(a: Seq<char>, b: Seq<char>)
    ensures
        common_prefix_len(a, b) <= a.len(),
        common_prefix_len(a, b) <= b.len(),
    decreases a.len(),
{
    if a.len() > 0 && b.len() > 0 && a[0] == b[0] {
        lemma_common_prefix_len(a.skip(1), b.skip(1));
    }
}

/// The back that two texts share lies in both.
proof fn lemma_common_suffix_len(a: Seq<char>, b: Seq<char>)
    ensures
        common_suffix_len(a, b) <= a.len(),
        common_suffix_len(a, b) <= b.len(),
    decreases a.len(),
{
    if a.len() > 0 && b.len() > 0 && a.last() == b.last() {
        lemma_common_suffix_len(a.drop_last(), b.drop_last());
    }
}

/// How many characters `a` and `b` have in common at their fronts.
fn shared_front(a: &Vec<char>, b: &Vec<char>) -> (len: usize)
    ensures
        len == common_prefix_len(a@, b@),
        len <= a@.len(),
        len <= b@.len(),
{
    let mut len: usize = 0;
    assert(a@.skip(0) =~= a@);
    assert(b@.skip(0) =~= b@);
    while len < a.len() && len < b.len() && a[len] == b[len]
        invariant
            len <= a@.len(),
            len <= b@.len(),
            common_prefix_len(a@, b@) == len + common_prefix_len(
                a@.skip(len as int),
                b@.skip(len as int),
            ),
        decreases a.len() - len,
    {
        len += 1;
        assert(a@.skip(len - 1).skip(1) =~= a@.skip(len as int));
        assert(b@.skip(len - 1).skip(1) =~= b@.skip(len as int));
    }
    len
}

/// How many characters `a` and `b` have in common at their backs, behind the
/// first `from` of each.
fn shared_back(a: &Vec<char>, b: &Vec<char>, from: usize) -> (len: usize)
    requires
        from <= a@.len(),
        from <= b@.len(),
    ensures
        len == common_suffix_len(a@.skip(from as int), b@.skip(from as int)),
        len <= a@.len() - from,
        len <= b@.len() - from,
{
    let mut len: usize = 0;
    let ghost left = a@.skip(from as int);
    let ghost right = b@.skip(from as int);
    assert(left.take(left.len() as int) =~= left);
    assert(right.take(right.len() as int) =~= right);
    while len < a.len() - from && len < b.len() - from && a[a.len() - 1 - len] == b[b.len() - 1
        - len]
        invariant
            from <= a@.len(),
            from <= b@.len(),
            left == a@.skip(from as int),
            right == b@.skip(from as int),
            len <= a@.len() - from,
            len <= b@.len() - from,
            common_suffix_len(left, right) == len + common_suffix_len(
                left.take(left.len() - len),
                right.take(right.len() - len),
            ),
        decreases a.len() - len,
    {
        len += 1;
        assert(left.take(left.len() - (len - 1)).drop_last() =~= left.take(left.len() - len));
        assert(right.take(right.len() - (len - 1)).drop_last() =~= right.take(right.len() - len));
    }
    len
}

/// The head and the tail that `old` and `new` share around a differing middle,
/// where both are long enough to be worth keeping as anchors.
pub fn shared_affixes(old: &str, new: &str) -> (shared: Option<(String, String)>)
    ensures
        match shared {
            Some((prefix, suffix)) => affixes(old@, new@) == Some((prefix@, suffix@)),
            None => affixes(old@, new@) is None,
        },
{
    if same_text(old, new) {
        return None;
    }
    let a = chars_of(old);
    let b = chars_of(new);
    let head: usize = shared_front(&a, &b);
    let tail: usize = shared_back(&a, &b, head);
    let prefix = string_of(slice_of(&a, 0, head).as_slice());
    let suffix = string_of(slice_of(&a, a.len() - tail, a.len()).as_slice());
    assert(prefix@ =~= old@.take(head as int));
    assert(suffix@ =~= old@.skip(old@.len() - tail));
    let long_enough = byte_len(trim(prefix.as_str()).as_str()) >= 4 && byte_len(
        trim(suffix.as_str()).as_str(),
    ) >= 4;
    if long_enough && (head < a.len() - tail || head < b.len() - tail) {
        Some((prefix, suffix))
    } else {
        None
    }
}

/// A hint fragment cut down to the front of its first line.
pub fn truncate_for_hint(s: &str) -> (cut: String)
    ensures
        cut@ == hint(s@),
{
    let all = lines(s);
    let first = if all.len() > 0 {
        assert(texts(all@)[0] == all@[0]@);
        all[0].clone()
    } else {
        String::new()
    };
    assert(texts(all@).len() == all@.len());
    let chars = chars_of(first.as_str());
    if chars.len() > MAX_HINT_CHARS {
        let mut cut = slice_of(&chars, 0, MAX_HINT_CHARS);
        cut.push('…');
        assert(cut@ =~= first@.take(MAX_HINT_CHARS as int).push('…'));
        string_of(cut.as_slice())
    } else if chars.len() < s.unicode_len() {
        let mut cut = chars;
        cut.push('…');
        string_of(cut.as_slice())
    } else {
        first
    }
}

/// The message for a literal `old_string` that does not occur. It points out a
/// malformed wildcard marker, or an edit that a wildcard would express better.
pub fn literal_not_found_diagnostic(old: &str, new: &str) -> (message: String)
    ensures
        message@ == not_found_message(old@, new@),
{
    let mut message = "old_string not found; make sure the text matches exactly.".to_owned();
    if contains_text(old, "~~") && !contains_text(old, WILDCARD_TOKEN) {
        message.append(
            "\nThat `~~` looks like a wildcard marker — use `~~*~~` to punch a hole between two anchors, or escape a literal with `\\~~*~~`.",
        );
    } else if let Some((prefix, suffix)) = shared_affixes(old, new) {
        message.append("\nold_string and new_string share a head (`");
        message.append(truncate_for_hint(prefix.as_str()).as_str());
        message.append("`) and tail (`");
        message.append(truncate_for_hint(suffix.as_str()).as_str());
        message.append(
            "`) — you can collapse the differing middle with `~~*~~`, keeping just the shared head and tail as anchors.",
        );
    }
    message
}

/// The line, from zero, and the column, from one, of an index into a text.
fn position_of(content: &Vec<char>, at: usize) -> (position: (usize, usize))
    requires
        at <= content@.len(),
        at < usize::MAX,
    ensures
        position.0 == line_at(content@, at as int),
        position.1 == column_at(content@, at as int),
        position.0 <= at,
        1 <= position.1 <= at + 1,
{
    let mut line: usize = 0;
    let mut column: usize = 1;
    let mut i: usize = 0;
    while i < at
        invariant
            i <= at <= content@.len(),
            at < usize::MAX,
            line == line_at(content@, i as int),
            column == column_at(content@, i as int),
            line <= i,
            1 <= column <= i + 1,
        decreases at - i,
    {
        if content[i] == '\n' {
            line += 1;
            column = 1;
        } else {
            column += 1;
        }
        i += 1;
    }
    (line, column)
}

/// The line numbers from `start` up to `end`, without the middle where there are
/// more than fit one excerpt.
pub fn bounded_excerpt_lines(start: usize, end: usize) -> (numbers: Vec<usize>)
    ensures
        ints(numbers@) == excerpt_lines(start as int, end as int),
{
    let mut numbers: Vec<usize> = Vec::new();
    if end <= start {
        assert(ints(numbers@) =~= excerpt_lines(start as int, end as int));
        return numbers;
    }
    let count: usize = end - start;
    if count <= MAX_AMBIGUOUS_EXCERPT_LINES {
        let mut line: usize = start;
        while line < end
            invariant
                start <= line <= end,
                numbers@.len() == line - start,
                forall|k: int| 0 <= k < numbers@.len() ==> #[trigger] numbers@[k] == start + k,
            decreases end - line,
        {
            numbers.push(line);
            line += 1;
        }
        assert(ints(numbers@) =~= excerpt_lines(start as int, end as int));
        return numbers;
    }
    let head: usize = MAX_AMBIGUOUS_EXCERPT_LINES / 2;
    let tail: usize = MAX_AMBIGUOUS_EXCERPT_LINES - head;
    let ghost all = excerpt_lines(start as int, end as int);
    while numbers.len() < MAX_AMBIGUOUS_EXCERPT_LINES
        invariant
            head == 4,
            tail == 4,
            end - start > 8,
            all == excerpt_lines(start as int, end as int),
            numbers@.len() <= 8,
            ints(numbers@) == all.take(numbers@.len() as int),
        decreases MAX_AMBIGUOUS_EXCERPT_LINES - numbers.len(),
    {
        let k: usize = numbers.len();
        numbers.push(
            if k < head {
                start + k
            } else {
                end - tail + (k - head)
            },
        );
        assert(ints(numbers@) =~= all.take(k + 1));
    }
    assert(all.take(8) =~= all);
    numbers
}

/// The view of a focus range.
pub open spec fn focus_view(focus: Option<(usize, usize)>) -> Option<(nat, nat)> {
    match focus {
        Some((from, to)) => Some((from as nat, to as nat)),
        None => None,
    }
}

/// A line cut down for display, and the carets under its focus.
pub struct DiagnosticLineExcerpt {
    pub text: String,
    pub focus_marker: Option<String>,
}

/// Where the shown part of a line of `len` characters begins and ends.
fn window(len: usize, focus: Option<(usize, usize)>) -> (range: (usize, usize))
    requires
        focus matches Some((_, to)) ==> len > MAX_DIAGNOSTIC_LINE_CHARS ==> to <= len
            + MAX_DIAGNOSTIC_LINE_CHARS,
    ensures
        range.0 == window_start(len as nat, focus_view(focus)),
        range.1 == window_end(len as nat, focus_view(focus)),
        range.0 <= range.1 <= len,
{
    if len <= MAX_DIAGNOSTIC_LINE_CHARS {
        return (0, len);
    }
    let mut start: usize = 0;
    if let Some((from, to)) = focus {
        let sum: usize = if from <= usize::MAX - to {
            from + to
        } else {
            usize::MAX
        };
        let middle: usize = sum / 2;
        if middle > MAX_DIAGNOSTIC_LINE_CHARS / 2 {
            start = middle - MAX_DIAGNOSTIC_LINE_CHARS / 2;
        }
        if start > len - MAX_DIAGNOSTIC_LINE_CHARS {
            start = len - MAX_DIAGNOSTIC_LINE_CHARS;
        }
        if to > MAX_DIAGNOSTIC_LINE_CHARS && to - MAX_DIAGNOSTIC_LINE_CHARS > start {
            start = to - MAX_DIAGNOSTIC_LINE_CHARS;
        }
    }
    let end: usize = if len - start > MAX_DIAGNOSTIC_LINE_CHARS {
        start + MAX_DIAGNOSTIC_LINE_CHARS
    } else {
        len
    };
    (start, end)
}

/// `value` moved into the range from `low` to `high`.
fn clamp(value: usize, low: usize, high: usize) -> (out: usize)
    requires
        low <= high,
    ensures
        out == clamped(value as int, low as int, high as int),
{
    if value < low {
        low
    } else if value > high {
        high
    } else {
        value
    }
}

/// The shown part of `line` around `focus`, and where asked for the carets under
/// the focus.
pub fn diagnostic_line_excerpt(
    line: &str,
    focus: Option<(usize, usize)>,
    show_focus_marker: bool,
) -> (excerpt: DiagnosticLineExcerpt)
    requires
        focus matches Some((_, to)) ==> line@.len() > MAX_DIAGNOSTIC_LINE_CHARS ==> to
            <= line@.len() + MAX_DIAGNOSTIC_LINE_CHARS,
    ensures
        excerpt.text@ == excerpt_text(line@, focus_view(focus)),
        opt_text(excerpt.focus_marker) == if show_focus_marker {
            excerpt_marker(line@, focus_view(focus))
        } else {
            None
        },
{
    let chars = chars_of(line);
    let (start, end) = window(chars.len(), focus);
    let mut text: Vec<char> = Vec::new();
    if start > 0 {
        text.push('…');
    }
    let body = slice_of(&chars, start, end);
    crate::scan::extend_chars(&mut text, &body);
    assert(text@ =~= if start > 0 {
        seq!['…'] + body@
    } else {
        body@
    });
    if end < chars.len() {
        text.push('…');
    }
    let mut focus_marker: Option<String> = None;
    if show_focus_marker {
        if let Some((from, to)) = focus {
            let shown_from: usize = clamp(from, start, end);
            let shown_to: usize = clamp(to, start, end);
            if shown_to > shown_from {
                let mut indent: usize = shown_from - start;
                if start > 0 {
                    indent += 1;
                }
                let shown: usize = shown_to - shown_from;
                let mut marker = repeat(' ', indent);
                let carets = repeat('^', if shown < 20 { shown } else { 20 });
                crate::scan::extend_chars(&mut marker, &carets);
                if shown > 20 {
                    marker.push('…');
                }
                focus_marker = Some(string_of(marker.as_slice()));
            }
        }
    }
    DiagnosticLineExcerpt { text: string_of(text.as_slice()), focus_marker }
}

/// Where a match begins and ends: line from zero, column from one.
pub struct MatchSpan {
    pub start_line: usize,
    pub start_column: usize,
    pub end_line: usize,
    pub end_column: usize,
}

/// A span as `line:column-column` or `line:column-line:column`.
pub open spec fn location_text(span: MatchSpan) -> Seq<char> {
    if span.start_line == span.end_line {
        decimal((span.start_line + 1) as nat) + ":"@ + decimal(span.start_column as nat) + "-"@
            + decimal(span.end_column as nat)
    } else {
        decimal((span.start_line + 1) as nat) + ":"@ + decimal(span.start_column as nat) + "-"@
            + decimal((span.end_line + 1) as nat) + ":"@ + decimal(span.end_column as nat)
    }
}

/// The part of line `number` that the match covers.
pub open spec fn line_focus(span: MatchSpan, number: int, len: nat) -> Option<(nat, nat)> {
    if number == span.start_line && number == span.end_line {
        Some(((span.start_column - 1) as nat, span.end_column as nat))
    } else if number == span.start_line {
        Some(((span.start_column - 1) as nat, len))
    } else if number == span.end_line {
        Some((0, span.end_column as nat))
    } else if span.start_line <= number <= span.end_line {
        Some((0, len))
    } else {
        None
    }
}

/// One line of an excerpt, and the carets under the match where it lies on this
/// line alone.
pub open spec fn excerpt_row(all: Seq<Seq<char>>, span: MatchSpan, number: int) -> Seq<char> {
    let line = all[number];
    let focus = line_focus(span, number, line.len());
    let mark = if span.start_line <= number <= span.end_line {
        "> "@
    } else {
        "  "@
    };
    let row = mark + right_aligned(decimal((number + 1) as nat), 5) + " | "@ + excerpt_text(
        line,
        focus,
    ) + "\n"@;
    if span.start_line == span.end_line && number == span.start_line {
        match excerpt_marker(line, focus) {
            Some(carets) => row + "        | "@ + carets + "\n"@,
            None => row,
        }
    } else {
        row
    }
}

/// The note on the lines left out before the `k`th line of an excerpt.
pub open spec fn gap_note(numbers: Seq<int>, k: int) -> Seq<char> {
    if k > 0 && numbers[k] > numbers[k - 1] + 1 {
        "  ..... | … "@ + decimal((numbers[k] - numbers[k - 1] - 1) as nat)
            + " lines omitted …\n"@
    } else {
        Seq::empty()
    }
}

/// The first `k` lines of an excerpt.
pub open spec fn excerpt_rows(
    all: Seq<Seq<char>>,
    span: MatchSpan,
    numbers: Seq<int>,
    k: int,
) -> Seq<char>
    decreases k,
{
    if k <= 0 {
        Seq::empty()
    } else {
        excerpt_rows(all, span, numbers, k - 1) + gap_note(numbers, k - 1) + excerpt_row(
            all,
            span,
            numbers[k - 1],
        )
    }
}

/// The lines shown around a match.
pub open spec fn shown_lines(all: Seq<Seq<char>>, span: MatchSpan) -> Seq<int> {
    excerpt_lines(
        greatest(span.start_line - AMBIGUOUS_MATCH_CONTEXT_LINES, 0),
        least(span.end_line + AMBIGUOUS_MATCH_CONTEXT_LINES + 1, all.len() as int),
    )
}

/// A match with its number, its place and its surroundings.
pub open spec fn match_section(
    path: Seq<char>,
    all: Seq<Seq<char>>,
    span: MatchSpan,
    index: int,
) -> Seq<char> {
    let numbers = shown_lines(all, span);
    ("\n\nMatch "@ + decimal((index + 1) as nat) + " — "@ + path + ":"@ + location_text(span)
        + "\n"@ + excerpt_rows(all, span, numbers, numbers.len() as int)).drop_last()
}

/// The span of the match at index `at`: from its first character to its last.
pub open spec fn span_at(content: Seq<char>, width: nat, at: int) -> MatchSpan {
    let probe = if width == 0 {
        at
    } else {
        at + width - 1
    };
    MatchSpan {
        start_line: line_at(content, at) as usize,
        start_column: column_at(content, at) as usize,
        end_line: line_at(content, probe) as usize,
        end_column: column_at(content, probe) as usize,
    }
}

/// The sections of the first `k` matches.
pub open spec fn match_sections(
    path: Seq<char>,
    content: Seq<char>,
    old: Seq<char>,
    k: int,
) -> Seq<char>
    decreases k,
{
    if k <= 0 {
        Seq::empty()
    } else {
        match_sections(path, content, old, k - 1) + match_section(
            path,
            fields_of(content, '\n'),
            span_at(content, old.len(), match_starts(content, old, 0)[k - 1]),
            k - 1,
        )
    }
}

/// What is said of the matches that are not shown.
pub open spec fn omitted_matches(
    target: Seq<char>,
    content: Seq<char>,
    old: Seq<char>,
    shown: int,
    disk_matches_snapshot: bool,
) -> Seq<char> {
    let starts = match_starts(content, old, 0);
    if starts.len() <= shown {
        Seq::empty()
    } else if disk_matches_snapshot {
        let offset = greatest(
            line_at(content, starts[shown]) - AMBIGUOUS_MATCH_CONTEXT_LINES,
            0,
        );
        "\n\n"@ + decimal((starts.len() - shown) as nat)
            + " more matches omitted. Continue at the next omitted match with:\n`"@ + target
            + "?offset="@ + decimal(offset as nat) + "&limit="@ + decimal(
            AMBIGUOUS_MATCH_CONTINUATION_LINES as nat,
        ) + "`"@
    } else {
        "\n\n"@ + decimal((starts.len() - shown) as nat)
            + " more matches omitted. These locations exist only in the rejected batch's in-flight snapshot, so a file read URI would be stale. Apply the preceding changes in a separate write, then retry this patch to receive a continuation URI for the committed file."@
    }
}

/// The path of a file target: what follows `file:`.
pub open spec fn target_path(target: Seq<char>) -> Seq<char> {
    match stripped_prefix(target, "file:"@) {
        Some(path) => path,
        None => target,
    }
}

/// What is said of an `old_string` that occurs more than once.
pub open spec fn non_unique_message(
    target: Seq<char>,
    content: Seq<char>,
    old: Seq<char>,
    disk_matches_snapshot: bool,
) -> Seq<char> {
    let path = target_path(target);
    let count = match_starts(content, old, 0).len();
    let shown = least(count as int, MAX_AMBIGUOUS_MATCH_EXCERPTS as int);
    refusal(path, count, shown as nat) + match_sections(path, content, old, shown)
        + omitted_matches(target, content, old, shown, disk_matches_snapshot)
}

/// Why the edit is refused, and how many of the matches are shown below.
pub open spec fn refusal(path: Seq<char>, count: nat, shown: nat) -> Seq<char> {
    "old_string matched "@ + decimal(count) + " sites in "@ + path
        + "; refusing to edit just the first one. Add surrounding context so old_string uniquely identifies the one site you mean, or pass replace_all:true to rewrite all "@
        + decimal(count) + " matches.\n\nMatching locations (showing "@ + decimal(shown)
        + " of "@ + decimal(count) + "):"@
}

/// The line that holds an index is a field between newlines, and reaches at least
/// to that index.
proof fn lemma_line_at(content: Seq<char>, at: int)
    requires
        0 <= at <= content.len(),
    ensures
        line_at(content, at) < fields_of(content, '\n').len(),
        1 <= column_at(content, at) <= at + 1,
        column_at(content, at) <= fields_of(content, '\n')[line_at(content, at) as int].len() + 1,
        line_at(content, at) <= at,
{
    let start = at - (column_at(content, at) - 1);
    lemma_line_start(content, at);
    crate::scan::lemma_next_char(content, '\n', at);
    let rest = crate::scan::fields_from(content, '\n', start);
    assert(rest.len() > 0);
    assert(fields_of(content, '\n')[line_at(content, at) as int] == rest[0]);
}

/// The fields from the start of the current line on are those from that line on.
proof fn lemma_line_start(content: Seq<char>, at: int)
    requires
        0 <= at <= content.len(),
    ensures
        1 <= column_at(content, at) <= at + 1,
        line_at(content, at) <= at,
        line_at(content, at) < fields_of(content, '\n').len(),
        fields_of(content, '\n').skip(line_at(content, at) as int) == crate::scan::fields_from(
            content,
            '\n',
            at - (column_at(content, at) - 1),
        ),
        crate::scan::next_char(content, '\n', at - (column_at(content, at) - 1))
            == crate::scan::next_char(content, '\n', at),
    decreases at,
{
    let all = fields_of(content, '\n');
    if at == 0 {
        assert(all.skip(0) =~= all);
    } else {
        lemma_line_start(content, at - 1);
        let start = at - 1 - (column_at(content, at - 1) - 1);
        let rest = crate::scan::fields_from(content, '\n', start);
        crate::scan::lemma_next_char(content, '\n', at - 1);
        if content[at - 1] == '\n' {
            assert(crate::scan::next_char(content, '\n', start) == at - 1);
            let line = line_at(content, at - 1) as int;
            assert(rest.skip(1) =~= crate::scan::fields_from(content, '\n', at));
            assert(all.skip(line + 1) =~= all.skip(line).skip(1));
            assert(crate::scan::fields_from(content, '\n', at).len() > 0);
            assert(rest.len() >= 2);
        } else {
            assert(start == at - (column_at(content, at) - 1));
        }
    }
}

/// A span as text.
fn render_location(span: &MatchSpan) -> (text: String)
    requires
        span.start_line < usize::MAX,
        span.end_line < usize::MAX,
    ensures
        text@ == location_text(*span),
{
    let mut text = render_usize(span.start_line + 1);
    text.append(":");
    text.append(render_usize(span.start_column).as_str());
    text.append("-");
    if span.start_line != span.end_line {
        text.append(render_usize(span.end_line + 1).as_str());
        text.append(":");
    }
    text.append(render_usize(span.end_column).as_str());
    text
}

/// Whether `span` lies on the lines `all`.
spec fn span_fits(all: Seq<Seq<char>>, span: MatchSpan) -> bool {
    &&& span.start_line <= span.end_line < all.len()
    &&& 1 <= span.start_column <= all[span.start_line as int].len() + 1
    &&& 1 <= span.end_column <= all[span.end_line as int].len() + 1
}

/// One line of an excerpt.
fn render_row(all: &Vec<String>, span: &MatchSpan, number: usize) -> (row: String)
    requires
        span_fits(texts(all@), *span),
        number < all@.len(),
    ensures
        row@ == excerpt_row(texts(all@), *span, number as int),
{
    let line = all[number].as_str();
    assert(texts(all@)[number as int] == line@);
    let inside = span.start_line <= number && number <= span.end_line;
    let len: usize = line.unicode_len();
    let focus: Option<(usize, usize)> = if number == span.start_line && number == span.end_line {
        Some((span.start_column - 1, span.end_column))
    } else if number == span.start_line {
        Some((span.start_column - 1, len))
    } else if number == span.end_line {
        Some((0, span.end_column))
    } else if inside {
        Some((0, len))
    } else {
        None
    };
    assert(focus_view(focus) == line_focus(*span, number as int, line@.len()));
    let excerpt = diagnostic_line_excerpt(
        line,
        focus,
        span.start_line == span.end_line && number == span.start_line,
    );
    let _count: usize = all.len();
    let mut row = if inside {
        "> ".to_owned()
    } else {
        "  ".to_owned()
    };
    row.append(align_right(render_usize(number + 1).as_str(), 5).as_str());
    row.append(" | ");
    row.append(excerpt.text.as_str());
    row.append("\n");
    if let Some(carets) = excerpt.focus_marker {
        row.append("        | ");
        row.append(carets.as_str());
        row.append("\n");
    }
    row
}

/// The lines shown around a match.
fn render_rows(all: &Vec<String>, span: &MatchSpan, numbers: &Vec<usize>) -> (rows: String)
    requires
        span_fits(texts(all@), *span),
        forall|k: int| 0 <= k < numbers@.len() ==> #[trigger] numbers@[k] < all@.len(),
    ensures
        rows@ == excerpt_rows(texts(all@), *span, ints(numbers@), numbers@.len() as int),
{
    let mut rows = String::new();
    let mut k: usize = 0;
    while k < numbers.len()
        invariant
            k <= numbers@.len(),
            span_fits(texts(all@), *span),
            forall|j: int| 0 <= j < numbers@.len() ==> #[trigger] numbers@[j] < all@.len(),
            rows@ == excerpt_rows(texts(all@), *span, ints(numbers@), k as int),
        decreases numbers.len() - k,
    {
        let number: usize = numbers[k];
        let _count: usize = all.len();
        let ghost before = rows@;
        assert(ints(numbers@)[k as int] == number);
        if k > 0 {
            let previous: usize = numbers[k - 1];
            assert(ints(numbers@)[k - 1] == previous);
            if number > previous && number - previous > 1 {
                rows.append("  ..... | … ");
                rows.append(render_usize(number - previous - 1).as_str());
                rows.append(" lines omitted …\n");
            }
        }
        assert(rows@ =~= before + gap_note(ints(numbers@), k as int));
        rows.append(render_row(all, span, number).as_str());
        k += 1;
    }
    rows
}

/// An excerpt shows lines that exist, and at least one.
proof fn lemma_shown_lines(all: Seq<Seq<char>>, span: MatchSpan)
    requires
        span.start_line <= span.end_line < all.len(),
    ensures
        shown_lines(all, span).len() > 0,
        forall|k: int|
            0 <= k < shown_lines(all, span).len() ==> 0 <= #[trigger] shown_lines(all, span)[k]
                < all.len(),
{
}

/// An excerpt with at least one line ends in a newline.
proof fn lemma_rows_end(all: Seq<Seq<char>>, span: MatchSpan, numbers: Seq<int>, k: int)
    requires
        k > 0,
    ensures
        excerpt_rows(all, span, numbers, k).len() > 0,
{
    reveal_strlit("\n");
}

/// A match with its number, its place and its surroundings.
fn render_section(path: &str, all: &Vec<String>, span: &MatchSpan, index: usize) -> (section: String)
    requires
        span_fits(texts(all@), *span),
        index < usize::MAX,
    ensures
        section@ == match_section(path@, texts(all@), *span, index as int),
{
    let total: usize = all.len();
    let start: usize = if span.start_line > AMBIGUOUS_MATCH_CONTEXT_LINES {
        span.start_line - AMBIGUOUS_MATCH_CONTEXT_LINES
    } else {
        0
    };
    let end: usize = if total - span.end_line > AMBIGUOUS_MATCH_CONTEXT_LINES {
        span.end_line + AMBIGUOUS_MATCH_CONTEXT_LINES + 1
    } else {
        total
    };
    let numbers = bounded_excerpt_lines(start, end);
    proof {
        lemma_shown_lines(texts(all@), *span);
        assert(ints(numbers@) == shown_lines(texts(all@), *span));
        assert forall|k: int| 0 <= k < numbers@.len() implies #[trigger] numbers@[k]
            < all@.len() by {
            assert(ints(numbers@)[k] == numbers@[k]);
        }
        assert(ints(numbers@).len() == numbers@.len());
        lemma_rows_end(texts(all@), *span, ints(numbers@), numbers@.len() as int);
    }
    let mut section = "\n\nMatch ".to_owned();
    section.append(render_usize(index + 1).as_str());
    section.append(" — ");
    section.append(path);
    section.append(":");
    section.append(render_location(span).as_str());
    section.append("\n");
    section.append(render_rows(all, span, &numbers).as_str());
    let chars = chars_of(section.as_str());
    let cut = slice_of(&chars, 0, chars.len() - 1);
    assert(cut@ =~= section@.drop_last());
    string_of(cut.as_slice())
}

/// Why the edit is refused.
fn render_refusal(path: &str, count: usize, shown: usize) -> (message: String)
    ensures
        message@ == refusal(path@, count as nat, shown as nat),
{
    let mut message = "old_string matched ".to_owned();
    message.append(render_usize(count).as_str());
    message.append(" sites in ");
    message.append(path);
    message.append(
        "; refusing to edit just the first one. Add surrounding context so old_string uniquely identifies the one site you mean, or pass replace_all:true to rewrite all ",
    );
    message.append(render_usize(count).as_str());
    message.append(" matches.\n\nMatching locations (showing ");
    message.append(render_usize(shown).as_str());
    message.append(" of ");
    message.append(render_usize(count).as_str());
    message.append("):");
    message
}

/// What is said of the matches that are not shown.
fn render_omitted(
    target: &str,
    content: &Vec<char>,
    pattern: &Vec<char>,
    locations: &Vec<usize>,
    shown: usize,
    disk_matches_snapshot: bool,
) -> (note: String)
    requires
        ints(locations@) == match_starts(content@, pattern@, 0),
        shown <= MAX_AMBIGUOUS_MATCH_EXCERPTS,
    ensures
        note@ == omitted_matches(
            target@,
            content@,
            pattern@,
            shown as int,
            disk_matches_snapshot,
        ),
{
    let mut note = String::new();
    let ghost starts = match_starts(content@, pattern@, 0);
    proof {
        lemma_match_starts(content@, pattern@, 0);
        assert(ints(locations@).len() == locations@.len());
    }
    if locations.len() > shown {
        let rest: usize = locations.len() - shown;
        let next: usize = locations[shown];
        assert(ints(locations@)[shown as int] == next);
        assert(occurs_at(content@, pattern@, starts[shown as int]));
        let _len: usize = content.len();
        proof {
            if pattern@.len() == 0 {
                lemma_empty_pattern(content@, pattern@, 0, shown as int);
            }
        }
        if disk_matches_snapshot {
            let (next_line, _) = position_of(content, next);
            let offset: usize = if next_line > AMBIGUOUS_MATCH_CONTEXT_LINES {
                next_line - AMBIGUOUS_MATCH_CONTEXT_LINES
            } else {
                0
            };
            note = "\n\n".to_owned();
            note.append(render_usize(rest).as_str());
            note.append(" more matches omitted. Continue at the next omitted match with:\n`");
            note.append(target);
            note.append("?offset=");
            note.append(render_usize(offset).as_str());
            note.append("&limit=");
            note.append(render_usize(AMBIGUOUS_MATCH_CONTINUATION_LINES).as_str());
            note.append("`");
        } else {
            note = "\n\n".to_owned();
            note.append(render_usize(rest).as_str());
            note.append(
                " more matches omitted. These locations exist only in the rejected batch's in-flight snapshot, so a file read URI would be stale. Apply the preceding changes in a separate write, then retry this patch to receive a continuation URI for the committed file.",
            );
        }
    }
    note
}

/// The message for a literal `old_string` that occurs `count` times where one
/// place was meant. The shown matches make the follow-up edit possible without
/// another read.
pub fn non_unique_match_diagnostic(
    target: &str,
    content: &str,
    old_string: &str,
    count: usize,
    disk_matches_snapshot: bool,
) -> (message: String)
    requires
        count == match_starts(content@, old_string@, 0).len(),
    ensures
        message@ == non_unique_message(target@, content@, old_string@, disk_matches_snapshot),
{
    let path = match strip_prefix(target, "file:") {
        Some(path) => path,
        None => target.to_owned(),
    };
    let all = split_on(content, '\n');
    let text = chars_of(content);
    let pattern = chars_of(old_string);
    let locations = find_matches(&text, &pattern);
    let ghost starts = match_starts(content@, old_string@, 0);
    assert(ints(locations@).len() == locations@.len());
    let shown: usize = if count < MAX_AMBIGUOUS_MATCH_EXCERPTS {
        count
    } else {
        MAX_AMBIGUOUS_MATCH_EXCERPTS
    };
    let mut message = render_refusal(path.as_str(), count, shown);
    let ghost head = message@;
    let mut index: usize = 0;
    proof {
        lemma_match_starts(content@, old_string@, 0);
        assert(head + match_sections(path@, content@, old_string@, 0) =~= head);
    }
    while index < shown
        invariant
            index <= shown <= locations@.len(),
            shown <= MAX_AMBIGUOUS_MATCH_EXCERPTS,
            text@ == content@,
            pattern@ == old_string@,
            texts(all@) == fields_of(content@, '\n'),
            starts == match_starts(content@, old_string@, 0),
            ints(locations@) == starts,
            forall|k: int|
                0 <= k < starts.len() ==> occurs_at(content@, old_string@, #[trigger] starts[k]),
            message@ == head + match_sections(path@, content@, old_string@, index as int),
        decreases shown - index,
    {
        let at: usize = locations[index];
        assert(ints(locations@)[index as int] == at);
        assert(occurs_at(content@, old_string@, starts[index as int]));
        let _len: usize = text.len();
        proof {
            if pattern@.len() == 0 {
                lemma_empty_pattern(content@, old_string@, 0, index as int);
            }
        }
        let probe: usize = if pattern.len() == 0 {
            at
        } else {
            at + (pattern.len() - 1)
        };
        let (start_line, start_column) = position_of(&text, at);
        let (end_line, end_column) = position_of(&text, probe);
        let span = MatchSpan { start_line, start_column, end_line, end_column };
        proof {
            lemma_line_at(content@, at as int);
            lemma_line_at(content@, probe as int);
            lemma_line_grows(content@, at as int, probe as int);
            assert(span == span_at(content@, old_string@.len(), at as int));
        }
        let ghost before = message@;
        let section = render_section(path.as_str(), &all, &span, index);
        message.append(section.as_str());
        index += 1;
        assert(message@ =~= head + (match_sections(path@, content@, old_string@, index - 1)
            + section@));
    }
    let omitted = render_omitted(target, &text, &pattern, &locations, shown, disk_matches_snapshot);
    message.append(omitted.as_str());
    message
}

/// An empty pattern matches at every position.
proof fn lemma_empty_pattern(s: Seq<char>, pattern: Seq<char>, from: int, k: int)
    requires
        pattern.len() == 0,
        0 <= from,
        0 <= k < match_starts(s, pattern, from).len(),
    ensures
        match_starts(s, pattern, from)[k] == from + k,
    decreases k,
{
    assert(s.subrange(from, from) =~= pattern);
    if k > 0 {
        lemma_empty_pattern(s, pattern, from + 1, k - 1);
    }
}

/// A later index stands on the same line or a later one.
proof fn lemma_line_grows(content: Seq<char>, from: int, to: int)
    requires
        0 <= from <= to,
    ensures
        line_at(content, from) <= line_at(content, to),
    decreases to - from,
{
    if from < to {
        lemma_line_grows(content, from, to - 1);
    }
}

/// The head and the tail that two texts share stand at the front and the back of both,
/// without meeting, are at least four bytes long but for the space around them, and the head
/// goes as far as the texts agree. Two equal texts share none.
pub proof fn law_shared_head_and_tail_stand_in_both(old: Seq<char>, new: Seq<char>)
    ensures
        affixes(old, new) matches Some((head, tail)) ==> {
            &&& head.is_prefix_of(old) && head.is_prefix_of(new)
            &&& tail.is_suffix_of(old) && tail.is_suffix_of(new)
            &&& head.len() + tail.len() <= old.len()
            &&& head.len() + tail.len() <= new.len()
            &&& utf8_len(trimmed(head)) >= 4
            &&& utf8_len(trimmed(tail)) >= 4
            &&& head.len() == old.len() || head.len() == new.len() || old[head.len() as int]
                != new[head.len() as int]
        },
        affixes(old, old) is None,
{
    let head = common_prefix_len(old, new) as int;
    let tail = common_suffix_len(old.skip(head), new.skip(head)) as int;
    lemma_common_prefix_len(old, new);
    lemma_common_suffix_len(old.skip(head), new.skip(head));
    lemma_shared_front(old, new);
    lemma_shared_back(old.skip(head), new.skip(head));
    if let Some((front, back)) = affixes(old, new) {
        assert(front =~= old.subrange(0, head));
        assert(front =~= new.subrange(0, head)) by {
            assert forall|i: int| 0 <= i < head implies old[i] == new[i] by {
                assert(old.take(head)[i] == new.take(head)[i]);
            }
        }
        assert(back =~= old.subrange(old.len() - tail, old.len() as int));
        assert(back =~= new.subrange(new.len() - tail, new.len() as int)) by {
            let a = old.skip(head);
            let b = new.skip(head);
            let there = new.subrange(new.len() - tail, new.len() as int);
            assert forall|i: int| 0 <= i < tail implies #[trigger] back[i] == there[i] by {
                assert(a.skip(a.len() - tail)[i] == b.skip(b.len() - tail)[i]);
            }
        }
    }
}

/// The shared front is the same in both, and no longer one is.
proof fn lemma_shared_front(a: Seq<char>, b: Seq<char>)
    ensures
        a.take(common_prefix_len(a, b) as int) == b.take(common_prefix_len(a, b) as int),
        common_prefix_len(a, b) == a.len() || common_prefix_len(a, b) == b.len() || a[
            common_prefix_len(a, b) as int
        ] != b[common_prefix_len(a, b) as int],
    decreases a.len(),
{
    lemma_common_prefix_len(a, b);
    let len = common_prefix_len(a, b) as int;
    if a.len() > 0 && b.len() > 0 && a[0] == b[0] {
        let x = a.skip(1);
        let y = b.skip(1);
        lemma_shared_front(x, y);
        lemma_common_prefix_len(x, y);
        assert forall|i: int| 0 <= i < len implies a[i] == b[i] by {
            if i > 0 {
                assert(x.take(len - 1)[i - 1] == y.take(len - 1)[i - 1]);
            }
        }
        assert(a.take(len) =~= b.take(len));
        if len < a.len() && len < b.len() {
            assert(x[len - 1] == a[len]);
            assert(y[len - 1] == b[len]);
        }
    } else {
        assert(a.take(0) =~= b.take(0));
    }
}

/// The shared back is the same in both.
proof fn lemma_shared_back(a: Seq<char>, b: Seq<char>)
    ensures
        a.skip(a.len() - common_suffix_len(a, b)) == b.skip(b.len() - common_suffix_len(a, b)),
    decreases a.len(),
{
    lemma_common_suffix_len(a, b);
    let len = common_suffix_len(a, b) as int;
    if a.len() > 0 && b.len() > 0 && a.last() == b.last() {
        let x = a.drop_last();
        let y = b.drop_last();
        lemma_shared_back(x, y);
        lemma_common_suffix_len(x, y);
        let p = a.skip(a.len() - len);
        let q = b.skip(b.len() - len);
        assert forall|i: int| 0 <= i < len implies #[trigger] p[i] == q[i] by {
            if i < len - 1 {
                assert(x.skip(x.len() - (len - 1))[i] == y.skip(y.len() - (len - 1))[i]);
            }
        }
        assert(p =~= q);
    } else {
        assert(a.skip(a.len() as int) =~= b.skip(b.len() as int));
    }
}

/// A hint shows the first line, up to forty characters of it, and an ellipsis where
/// anything was left out.
pub proof fn law_hint_shows_the_first_line(line: Seq<char>, rest: Seq<char>)
    requires
        !line.contains('\n'),
        line.len() > 0,
        line.last() != '\r',
    ensures
        line.len() <= 40 ==> hint(line) == line,
        line.len() > 40 ==> hint(line) == line.take(40).push('…'),
        line.len() <= 40 ==> hint(line.push('\n') + rest) == line.push('…'),
        line.len() > 40 ==> hint(line.push('\n') + rest) == line.take(40).push('…'),
{
    law_lines_end_at_newlines(line, rest);
    let whole = line.push('\n') + rest;
    assert(lines_of(whole)[0] == line);
    assert(lines_of(line)[0] == line);
}

/// An edit whose text is not found is told so; a text that holds half a marker gets a note
/// on the marker, and one that shares its ends with the new text a note that shows both.
pub proof fn law_missing_text_is_told(old: Seq<char>, new: Seq<char>)
    ensures
        "old_string not found; make sure the text matches exactly."@.is_prefix_of(
            not_found_message(old, new),
        ),
        occurs(old, "~~*~~"@) && affixes(old, new) is None ==> not_found_message(old, new)
            == "old_string not found; make sure the text matches exactly."@,
        !occurs(old, "~~"@) && affixes(old, new) is None ==> not_found_message(old, new)
            == "old_string not found; make sure the text matches exactly."@,
        !occurs(old, "~~"@) ==> (affixes(old, new) matches Some((head, tail)) ==> not_found_message(
            old,
            new,
        ) == "old_string not found; make sure the text matches exactly."@
            + "\nold_string and new_string share a head (`"@ + hint(head) + "`) and tail (`"@
            + hint(tail)
            + "`) — you can collapse the differing middle with `~~*~~`, keeping just the shared head and tail as anchors."@),
{
    let base = "old_string not found; make sure the text matches exactly."@;
    let message = not_found_message(old, new);
    assert(base =~= message.subrange(0, base.len() as int));
}

/// An index lies in the line and at the column where its character stands, lines counted
/// from zero and columns from one.
pub proof fn law_position_is_where_the_character_stands(content: Seq<char>, at: int)
    requires
        0 <= at < content.len(),
        content[at] != '\n',
    ensures
        ({
            let line = line_at(content, at) as int;
            let column = column_at(content, at) as int;
            let all = fields_of(content, '\n');
            &&& 0 <= line < all.len()
            &&& 1 <= column <= all[line].len()
            &&& all[line][column - 1] == content[at]
        }),
        line_at(content, 0) == 0,
        column_at(content, 0) == 1,
{
    lemma_line_at(content, at);
    lemma_line_start(content, at);
    let line = line_at(content, at) as int;
    let start = at - (column_at(content, at) - 1);
    let all = fields_of(content, '\n');
    let rest = crate::scan::fields_from(content, '\n', start);
    assert(all.skip(line)[0] == all[line]);
    let end = crate::scan::next_char(content, '\n', at);
    crate::scan::lemma_next_char(content, '\n', at);
    assert(end != at);
    assert(rest[0] == content.subrange(start, end));
}

/// Each newline before an index puts it one line further on, to the first column; any other
/// character puts it one column further on.
pub proof fn law_newlines_begin_lines(content: Seq<char>, at: int)
    requires
        0 <= at < content.len(),
    ensures
        content[at] == '\n' ==> line_at(content, at + 1) == line_at(content, at) + 1 && column_at(
            content,
            at + 1,
        ) == 1,
        content[at] != '\n' ==> line_at(content, at + 1) == line_at(content, at) && column_at(
            content,
            at + 1,
        ) == column_at(content, at) + 1,
{
}

/// Up to eight lines are shown in full; of more, the first four and the last four.
pub proof fn law_long_excerpts_show_both_ends(start: int, end: int, k: int)
    requires
        start <= end,
    ensures
        end - start <= 8 ==> excerpt_lines(start, end).len() == end - start,
        end - start > 8 ==> excerpt_lines(start, end).len() == 8,
        end - start <= 8 && 0 <= k < end - start ==> excerpt_lines(start, end)[k] == start + k,
        end - start > 8 && 0 <= k < 4 ==> excerpt_lines(start, end)[k] == start + k,
        end - start > 8 && 4 <= k < 8 ==> excerpt_lines(start, end)[k] == end - 8 + k,
{
}

/// A match is shown with the two lines before it and the two behind it, as far as there are
/// any.
pub proof fn law_match_is_shown_with_its_surroundings(all: Seq<Seq<char>>, span: MatchSpan)
    requires
        span.start_line <= span.end_line < all.len(),
        span.end_line - span.start_line <= 3,
    ensures
        forall|number: int|
            0 <= number < all.len() && span.start_line - 2 <= number <= span.end_line + 2
                ==> #[trigger] shown_lines(all, span).contains(number),
        forall|number: int| #[trigger]
            shown_lines(all, span).contains(number) ==> span.start_line - 2 <= number
                <= span.end_line + 2 && 0 <= number < all.len(),
{
    let shown = shown_lines(all, span);
    let first = greatest(span.start_line - 2, 0);
    assert forall|number: int|
        0 <= number < all.len() && span.start_line - 2 <= number <= span.end_line
            + 2 implies #[trigger] shown.contains(number) by {
        assert(shown[number - first] == number);
    }
}

/// The part of a line that is shown is the line itself up to one hundred and eighty
/// characters, and never more than that; the place that matters lies in it wherever it fits.
pub proof fn law_window_holds_what_matters(len: nat, from: nat, to: nat)
    requires
        from <= to <= len,
        from + to <= usize::MAX,
    ensures
        len <= 180 ==> window_start(len, Some((from, to))) == 0 && window_end(
            len,
            Some((from, to)),
        ) == len,
        len > 180 ==> window_end(len, Some((from, to))) - window_start(len, Some((from, to)))
            == 180,
        0 <= window_start(len, Some((from, to))),
        window_end(len, Some((from, to))) <= len,
        to - from <= 180 ==> window_start(len, Some((from, to))) <= from && to <= window_end(
            len,
            Some((from, to)),
        ),
        window_start(len, None) == 0,
{
}

/// A line is shown as it is as far as it is shown, with an ellipsis at each end where it is
/// cut.
pub proof fn law_excerpt_is_part_of_the_line(line: Seq<char>, from: nat, to: nat)
    requires
        from <= to <= line.len(),
        from + to <= usize::MAX,
    ensures
        ({
            let focus = Some((from, to));
            let start = window_start(line.len(), focus);
            let end = window_end(line.len(), focus);
            let shown = excerpt_text(line, focus);
            &&& line.len() <= 180 ==> shown == line
            &&& start > 0 ==> shown[0] == '…'
            &&& end < line.len() ==> shown.last() == '…'
            &&& forall|i: int|
                start <= i < end ==> #[trigger] line[i] == shown[i - start + if start > 0 {
                    1int
                } else {
                    0int
                }]
        }),
{
    let focus = Some((from, to));
    law_window_holds_what_matters(line.len(), from, to);
    if line.len() <= 180 {
        assert(line.subrange(0, line.len() as int) =~= line);
    }
}

/// The carets stand under the characters that matter, twenty of them at most.
pub proof fn law_carets_stand_under_the_match(line: Seq<char>, from: nat, to: nat)
    requires
        from < to <= line.len(),
        line.len() <= 180,
    ensures
        excerpt_marker(line, Some((from, to))) matches Some(carets) && {
            &&& forall|i: int| 0 <= i < from ==> #[trigger] carets[i] == ' '
            &&& forall|i: int|
                from <= i < to && i < from + 20 ==> #[trigger] carets[i] == '^'
            &&& to - from <= 20 ==> carets.len() == to
            &&& to - from > 20 ==> carets.len() == from + 21 && carets.last() == '…'
        },
        excerpt_marker(line, None) is None,
{
}

/// A place is written by its first line and columns, counted from one, and by its last line
/// where that is another.
pub proof fn law_place_is_written_from_one(span: MatchSpan)
    ensures
        span.start_line == span.end_line ==> location_text(span) == decimal(
            (span.start_line + 1) as nat,
        ) + ":"@ + decimal(span.start_column as nat) + "-"@ + decimal(span.end_column as nat),
        span.start_line != span.end_line ==> location_text(span) == decimal(
            (span.start_line + 1) as nat,
        ) + ":"@ + decimal(span.start_column as nat) + "-"@ + decimal((span.end_line + 1) as nat)
            + ":"@ + decimal(span.end_column as nat),
{
}

/// The lines of a match are marked, in each of them the part that belongs to it; the lines
/// around it are not.
pub proof fn law_lines_of_the_match_are_marked(
    all: Seq<Seq<char>>,
    span: MatchSpan,
    number: int,
)
    requires
        span.start_line <= span.end_line < all.len(),
        1 <= span.start_column,
        0 <= number < all.len(),
    ensures
        ("> "@ + right_aligned(decimal((number + 1) as nat), 5) + " | "@).is_prefix_of(
            excerpt_row(all, span, number),
        ) || !(span.start_line <= number <= span.end_line),
        ("  "@ + right_aligned(decimal((number + 1) as nat), 5) + " | "@).is_prefix_of(
            excerpt_row(all, span, number),
        ) || span.start_line <= number <= span.end_line,
        line_focus(span, number, all[number].len()) is Some <==> span.start_line <= number
            <= span.end_line,
        line_focus(span, number, all[number].len()) matches Some((from, to)) ==> {
            &&& from == if number == span.start_line {
                span.start_column - 1
            } else {
                0
            }
            &&& to == if number == span.end_line {
                span.end_column as int
            } else {
                all[number].len() as int
            }
        },
{
    let row = excerpt_row(all, span, number);
    let inside = "> "@ + right_aligned(decimal((number + 1) as nat), 5) + " | "@;
    let outside = "  "@ + right_aligned(decimal((number + 1) as nat), 5) + " | "@;
    if span.start_line <= number <= span.end_line {
        assert(inside =~= row.subrange(0, inside.len() as int));
    } else {
        assert(outside =~= row.subrange(0, outside.len() as int));
    }
}

/// A match goes from its first character to its last.
pub proof fn law_match_goes_to_its_last_character(content: Seq<char>, width: nat, at: int)
    requires
        0 <= at,
        width > 0,
        at + width <= content.len() <= usize::MAX - 1,
    ensures
        ({
            let span = span_at(content, width, at);
            &&& span.start_line == line_at(content, at)
            &&& span.start_column == column_at(content, at)
            &&& span.end_line == line_at(content, at + width - 1)
            &&& span.end_column == column_at(content, at + width - 1)
        }),
{
    lemma_line_at(content, at);
    lemma_line_at(content, at + width - 1);
}

/// The message on more than one match says how many there are and where, shows ten of them
/// at most, and says how to read on exactly if it leaves some out.
pub proof fn law_ambiguous_edit_is_told(
    target: Seq<char>,
    content: Seq<char>,
    old: Seq<char>,
    disk: bool,
)
    ensures
        ({
            let count = match_starts(content, old, 0).len();
            let shown: int = if count > 10 {
                10
            } else {
                count as int
            };
            let path = target_path(target);
            let message = non_unique_message(target, content, old, disk);
            let head = "old_string matched "@ + decimal(count) + " sites in "@ + path
                + "; refusing to edit just the first one. Add surrounding context so old_string uniquely identifies the one site you mean, or pass replace_all:true to rewrite all "@
                + decimal(count) + " matches.\n\nMatching locations (showing "@ + decimal(
                shown as nat,
            ) + " of "@ + decimal(count) + "):"@;
            &&& head.is_prefix_of(message)
            &&& count <= 10 ==> message == head + match_sections(path, content, old, count as int)
            &&& count > 10 ==> (head + match_sections(path, content, old, 10)).is_prefix_of(message)
                && message.len() > head.len() + match_sections(path, content, old, 10).len()
        }),
        target_path("file:"@ + target) == target,
        !"file:"@.is_prefix_of(target) ==> target_path(target) == target,
{
    let count = match_starts(content, old, 0).len();
    let shown: int = if count > 10 {
        10
    } else {
        count as int
    };
    let path = target_path(target);
    let message = non_unique_message(target, content, old, disk);
    let head = refusal(path, count, shown as nat);
    let sections = match_sections(path, content, old, shown);
    let note = omitted_matches(target, content, old, shown, disk);
    assert(message == head + sections + note);
    assert(head =~= message.subrange(0, head.len() as int));
    if count <= 10 {
        assert(message =~= head + sections);
    } else {
        reveal_strlit("\n\n");
        assert(note.len() > 0);
        let both = head + sections;
        assert(both =~= message.subrange(0, both.len() as int));
    }
    let named = "file:"@ + target;
    assert("file:"@ =~= named.subrange(0, "file:"@.len() as int));
    assert(named.skip("file:"@.len() as int) =~= target);
}

/// The matches that are left out are counted; where the file can be read as it was searched,
/// the reading goes on two lines before the first of them, for forty lines.
pub proof fn law_omitted_matches_are_counted(
    target: Seq<char>,
    content: Seq<char>,
    old: Seq<char>,
    shown: int,
)
    requires
        0 <= shown < match_starts(content, old, 0).len(),
    ensures
        ({
            let starts = match_starts(content, old, 0);
            let left = decimal((starts.len() - shown) as nat);
            let line = line_at(content, starts[shown]);
            let offset: int = if line >= 2 {
                line - 2
            } else {
                0
            };
            &&& omitted_matches(target, content, old, shown, true) == "\n\n"@ + left
                + " more matches omitted. Continue at the next omitted match with:\n`"@ + target
                + "?offset="@ + decimal(offset as nat) + "&limit="@ + decimal(40) + "`"@
            &&& ("\n\n"@ + left).is_prefix_of(
                omitted_matches(target, content, old, shown, false),
            )
        }),
{
    let starts = match_starts(content, old, 0);
    let front = "\n\n"@ + decimal((starts.len() - shown) as nat);
    let note = omitted_matches(target, content, old, shown, false);
    assert(front =~= note.subrange(0, front.len() as int));
}

/// The rows of an excerpt stand in their order, and where lines are left out between two of
/// them it says how many.
pub proof fn law_rows_stand_in_order(
    all: Seq<Seq<char>>,
    span: MatchSpan,
    numbers: Seq<int>,
    k: int,
)
    requires
        0 <= k < numbers.len(),
    ensures
        excerpt_rows(all, span, numbers, k + 1) == excerpt_rows(all, span, numbers, k) + gap_note(
            numbers,
            k,
        ) + excerpt_row(all, span, numbers[k]),
        k == 0 || numbers[k] == numbers[k - 1] + 1 ==> gap_note(numbers, k).len() == 0,
        k > 0 && numbers[k] > numbers[k - 1] + 1 ==> gap_note(numbers, k) == "  ..... | … "@
            + decimal((numbers[k] - numbers[k - 1] - 1) as nat) + " lines omitted …\n"@,
        excerpt_rows(all, span, numbers, 0).len() == 0,
{
}

/// The section of a match counts it from one, and names the file and the place.
pub proof fn law_section_names_the_match(
    path: Seq<char>,
    all: Seq<Seq<char>>,
    span: MatchSpan,
    index: int,
)
    requires
        0 <= index,
        span.start_line <= span.end_line < all.len(),
    ensures
        ("\n\nMatch "@ + decimal((index + 1) as nat) + " — "@ + path + ":"@ + location_text(span)
            + "\n"@).is_prefix_of(match_section(path, all, span, index)),
{
    let head = "\n\nMatch "@ + decimal((index + 1) as nat) + " — "@ + path + ":"@ + location_text(
        span,
    ) + "\n"@;
    let numbers = shown_lines(all, span);
    let rows = excerpt_rows(all, span, numbers, numbers.len() as int);
    lemma_shown_lines(all, span);
    lemma_rows_end(all, span, numbers, numbers.len() as int);
    let section = match_section(path, all, span, index);
    assert(section == (head + rows).drop_last());
    assert(head =~= section.subrange(0, head.len() as int));
}

/// The matches are shown one after the other, each at its place in the text.
pub proof fn law_matches_are_shown_in_order(
    path: Seq<char>,
    content: Seq<char>,
    old: Seq<char>,
    k: int,
)
    requires
        0 <= k < match_starts(content, old, 0).len(),
    ensures
        match_sections(path, content, old, k + 1) == match_sections(path, content, old, k)
            + match_section(
            path,
            fields_of(content, '\n'),
            span_at(content, old.len(), match_starts(content, old, 0)[k]),
            k,
        ),
        match_sections(path, content, old, 0).len() == 0,
{
}

} // verus!
