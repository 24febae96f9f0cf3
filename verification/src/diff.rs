//! Line differences between two versions of a text.
//!
//! Both questions asked here, how many lines an edit adds and removes and which
//! ones they are, rest on the longest list of lines that two texts have in
//! common in the same order.
use vstd::prelude::*;
use vstd::string::*;
use crate::scan::{lines, lines_of};
use crate::text::{join, joined, render_usize, decimal, texts};

verus! {

/// A text as the list of its lines.
pub type Lines = Seq<Seq<char>>;

/// Whether `left` and `right` pair up equal lines of `a` and `b`, both in
/// ascending order.
pub open spec fn is_matching(a: Lines, b: Lines, left: Seq<int>, right: Seq<int>) -> bool {
    &&& left.len() == right.len()
    &&& forall|k: int|
        #![trigger left[k]]
        #![trigger right[k]]
        0 <= k < left.len() ==> 0 <= left[k] < a.len() && 0 <= right[k] < b.len() && a[left[k]]
            == b[right[k]]
    &&& forall|j: int, k: int| 0 <= j < k < left.len() ==> #[trigger] left[j] < #[trigger] left[k]
    &&& forall|j: int, k: int|
        0 <= j < k < right.len() ==> #[trigger] right[j] < #[trigger] right[k]
}

/// The length of the longest list of lines common to `a` and `b`, by their last
/// lines.
pub open spec fn common_len(a: Lines, b: Lines) -> nat
    decreases a.len() + b.len(),
{
    if a.len() == 0 || b.len() == 0 {
        0
    } else if a.last() == b.last() {
        common_len(a.drop_last(), b.drop_last()) + 1
    } else {
        let without_left = common_len(a.drop_last(), b);
        let without_right = common_len(a, b.drop_last());
        if without_left >= without_right {
            without_left
        } else {
            without_right
        }
    }
}

/// The same length, by the first lines.
pub open spec fn common_len_front(a: Lines, b: Lines) -> nat
    decreases a.len() + b.len(),
{
    if a.len() == 0 || b.len() == 0 {
        0
    } else if a[0] == b[0] {
        common_len_front(a.skip(1), b.skip(1)) + 1
    } else {
        let without_left = common_len_front(a.skip(1), b);
        let without_right = common_len_front(a, b.skip(1));
        if without_left >= without_right {
            without_left
        } else {
            without_right
        }
    }
}

/// One step of an edit script.
pub enum Edit {
    Keep(Seq<char>),
    Remove(Seq<char>),
    Add(Seq<char>),
}

/// The steps that turn the lines `a` into the lines `b`. Equal lines are kept;
/// otherwise a line goes first where that leaves as much in common.
pub open spec fn edit_script(a: Lines, b: Lines) -> Seq<Edit>
    decreases a.len() + b.len(),
{
    if a.len() == 0 && b.len() == 0 {
        Seq::empty()
    } else if b.len() == 0 {
        seq![Edit::Remove(a[0])] + edit_script(a.skip(1), b)
    } else if a.len() == 0 {
        seq![Edit::Add(b[0])] + edit_script(a, b.skip(1))
    } else if a[0] == b[0] {
        seq![Edit::Keep(a[0])] + edit_script(a.skip(1), b.skip(1))
    } else if common_len_front(a.skip(1), b) >= common_len_front(a, b.skip(1)) {
        seq![Edit::Remove(a[0])] + edit_script(a.skip(1), b)
    } else {
        seq![Edit::Add(b[0])] + edit_script(a, b.skip(1))
    }
}

/// The lines that a script starts from.
pub open spec fn script_before(script: Seq<Edit>) -> Lines
    decreases script.len(),
{
    if script.len() == 0 {
        Seq::empty()
    } else {
        let rest = script_before(script.skip(1));
        match script[0] {
            Edit::Keep(line) => seq![line] + rest,
            Edit::Remove(line) => seq![line] + rest,
            Edit::Add(_) => rest,
        }
    }
}

/// The lines that a script ends with.
pub open spec fn script_after(script: Seq<Edit>) -> Lines
    decreases script.len(),
{
    if script.len() == 0 {
        Seq::empty()
    } else {
        let rest = script_after(script.skip(1));
        match script[0] {
            Edit::Keep(line) => seq![line] + rest,
            Edit::Remove(_) => rest,
            Edit::Add(line) => seq![line] + rest,
        }
    }
}

/// The changed lines of a script, marked with `-` and `+`.
pub open spec fn changed_lines(script: Seq<Edit>) -> Lines
    decreases script.len(),
{
    if script.len() == 0 {
        Seq::empty()
    } else {
        let rest = changed_lines(script.skip(1));
        match script[0] {
            Edit::Keep(_) => rest,
            Edit::Remove(line) => seq![seq!['-'] + line] + rest,
            Edit::Add(line) => seq![seq!['+'] + line] + rest,
        }
    }
}

/// The note behind a diff that leaves out `extra` lines.
pub open spec fn omitted_note(extra: nat) -> Seq<char> {
    "… ("@ + decimal(extra) + " more changed lines)"@
}

/// At most `max_lines` of `changed`, with a note on how many are left out.
pub open spec fn capped(changed: Lines, max_lines: nat) -> Lines {
    if changed.len() > max_lines {
        changed.take(max_lines as int).push(omitted_note((changed.len() - max_lines) as nat))
    } else {
        changed
    }
}

/// The lines of an optional text; a missing one has none.
pub open spec fn lines_of_opt(content: Option<Seq<char>>) -> Lines {
    match content {
        Some(text) => lines_of(text),
        None => Seq::empty(),
    }
}

/// No list of common lines is longer than `common_len`, whichever lines it pairs.
pub proof fn law_common_len_is_greatest(
    a: Lines,
    b: Lines,
    left: Seq<int>,
    right: Seq<int>,
)
    requires
        is_matching(a, b, left, right),
    ensures
        left.len() <= common_len(a, b),
    decreases a.len() + b.len(),
{
    if left.len() == 0 {
    } else if a.last() == b.last() {
        let shorter_left = left.drop_last();
        let shorter_right = right.drop_last();
        assert forall|k: int| 0 <= k < shorter_left.len() implies 0 <= #[trigger] shorter_left[k]
            < a.drop_last().len() && 0 <= shorter_right[k] < b.drop_last().len()
            && a.drop_last()[shorter_left[k]] == b.drop_last()[shorter_right[k]] by {
            assert(left[k] < left[left.len() - 1]);
            assert(right[k] < right[right.len() - 1]);
        }
        assert forall|k: int| 0 <= k < shorter_left.len() implies 0 <= shorter_left[k]
            < a.drop_last().len() && 0 <= #[trigger] shorter_right[k] < b.drop_last().len()
            && a.drop_last()[shorter_left[k]] == b.drop_last()[shorter_right[k]] by {
            assert(shorter_left[k] < a.drop_last().len());
        }
        law_common_len_is_greatest(a.drop_last(), b.drop_last(), shorter_left, shorter_right);
    } else {
        let last = left.len() - 1;
        assert(a[left[last]] == b[right[last]]);
        if left[last] < a.len() - 1 {
            assert forall|k: int| 0 <= k < left.len() implies 0 <= #[trigger] left[k]
                < a.drop_last().len() by {
                if k < last {
                    assert(left[k] < left[last]);
                }
            }
            assert(is_matching(a.drop_last(), b, left, right));
            law_common_len_is_greatest(a.drop_last(), b, left, right);
        } else {
            assert forall|k: int| 0 <= k < right.len() implies 0 <= #[trigger] right[k]
                < b.drop_last().len() by {
                if k < last {
                    assert(right[k] < right[last]);
                }
            }
            assert(is_matching(a, b.drop_last(), left, right));
            law_common_len_is_greatest(a, b.drop_last(), left, right);
        }
    }
}

/// Some list of common lines is `common_len` long.
pub proof fn law_common_len_is_reached(a: Lines, b: Lines) -> (pairs: (Seq<int>, Seq<int>))
    ensures
        is_matching(a, b, pairs.0, pairs.1),
        pairs.0.len() == common_len(a, b),
    decreases a.len() + b.len(),
{
    if a.len() == 0 || b.len() == 0 {
        (Seq::empty(), Seq::empty())
    } else if a.last() == b.last() {
        let (left, right) = law_common_len_is_reached(a.drop_last(), b.drop_last());
        assert forall|k: int| 0 <= k < left.len() implies a[#[trigger] left[k]] == b[right[k]] by {
            assert(a.drop_last()[left[k]] == b.drop_last()[right[k]]);
        }
        (left.push(a.len() - 1), right.push(b.len() - 1))
    } else {
        let without_left = common_len(a.drop_last(), b);
        let without_right = common_len(a, b.drop_last());
        if without_left >= without_right {
            let (left, right) = law_common_len_is_reached(a.drop_last(), b);
            assert forall|k: int| 0 <= k < left.len() implies a[#[trigger] left[k]]
                == b[right[k]] by {
                assert(a.drop_last()[left[k]] == b[right[k]]);
            }
            (left, right)
        } else {
            let (left, right) = law_common_len_is_reached(a, b.drop_last());
            assert forall|k: int| 0 <= k < left.len() implies a[#[trigger] left[k]]
                == b[right[k]] by {
                assert(a[left[k]] == b.drop_last()[right[k]]);
            }
            (left, right)
        }
    }
}

/// What two texts have in common is no longer than either.
pub proof fn lemma_common_len_bounds(a: Lines, b: Lines)
    ensures
        common_len(a, b) <= a.len(),
        common_len(a, b) <= b.len(),
    decreases a.len() + b.len(),
{
    if a.len() > 0 && b.len() > 0 {
        lemma_common_len_bounds(a.drop_last(), b.drop_last());
        lemma_common_len_bounds(a.drop_last(), b);
        lemma_common_len_bounds(a, b.drop_last());
    }
}

/// Lines paired behind the first one of each text.
proof fn lemma_shift_matching(
    a: Lines,
    b: Lines,
    left: Seq<int>,
    right: Seq<int>,
    da: int,
    db: int,
)
    requires
        is_matching(a, b, left, right),
        0 <= da <= a.len(),
        0 <= db <= b.len(),
        left.len() > 0 ==> left[0] >= da && right[0] >= db,
    ensures
        is_matching(
            a.skip(da),
            b.skip(db),
            left.map_values(|i: int| i - da),
            right.map_values(|i: int| i - db),
        ),
{
    let shifted_left = left.map_values(|i: int| i - da);
    let shifted_right = right.map_values(|i: int| i - db);
    assert forall|k: int| 0 <= k < left.len() implies 0 <= #[trigger] shifted_left[k] < a.skip(
        da,
    ).len() && 0 <= shifted_right[k] < b.skip(db).len() && a.skip(da)[shifted_left[k]] == b.skip(
        db,
    )[shifted_right[k]] by {
        if k > 0 {
            assert(left[0] < left[k]);
            assert(right[0] < right[k]);
        }
        assert(a[left[k]] == b[right[k]]);
    }
    assert forall|k: int| 0 <= k < left.len() implies 0 <= shifted_left[k] < a.skip(da).len() && 0
        <= #[trigger] shifted_right[k] < b.skip(db).len() && a.skip(da)[shifted_left[k]] == b.skip(
        db,
    )[shifted_right[k]] by {
        assert(0 <= shifted_left[k]);
    }
}

/// No list of common lines is longer than `common_len_front`.
proof fn lemma_front_is_greatest(a: Lines, b: Lines, left: Seq<int>, right: Seq<int>)
    requires
        is_matching(a, b, left, right),
    ensures
        left.len() <= common_len_front(a, b),
    decreases a.len() + b.len(),
{
    if left.len() > 0 {
        assert(0 <= left[0] < a.len() && 0 <= right[0] < b.len());
    }
    if left.len() == 0 {
    } else if a[0] == b[0] {
        let rest_left = left.skip(1);
        let rest_right = right.skip(1);
        assert forall|k: int| 0 <= k < rest_left.len() implies 0 <= #[trigger] rest_left[k]
            < a.len() && 0 <= rest_right[k] < b.len() && a[rest_left[k]] == b[rest_right[k]] by {
            assert(a[left[k + 1]] == b[right[k + 1]]);
        }
        assert(is_matching(a, b, rest_left, rest_right));
        if rest_left.len() > 0 {
            assert(left[0] < left[1]);
            assert(right[0] < right[1]);
        }
        lemma_shift_matching(a, b, rest_left, rest_right, 1, 1);
        lemma_front_is_greatest(
            a.skip(1),
            b.skip(1),
            rest_left.map_values(|i: int| i - 1),
            rest_right.map_values(|i: int| i - 1),
        );
    } else {
        assert(a[left[0]] == b[right[0]]);
        if left[0] > 0 {
            lemma_shift_matching(a, b, left, right, 1, 0);
            assert(b.skip(0) =~= b);
            lemma_front_is_greatest(
                a.skip(1),
                b,
                left.map_values(|i: int| i - 1),
                right.map_values(|i: int| i - 0),
            );
        } else {
            lemma_shift_matching(a, b, left, right, 0, 1);
            assert(a.skip(0) =~= a);
            lemma_front_is_greatest(
                a,
                b.skip(1),
                left.map_values(|i: int| i - 0),
                right.map_values(|i: int| i - 1),
            );
        }
    }
}

/// Some list of common lines is `common_len_front` long.
proof fn lemma_front_is_reached(a: Lines, b: Lines) -> (pairs: (Seq<int>, Seq<int>))
    ensures
        is_matching(a, b, pairs.0, pairs.1),
        pairs.0.len() == common_len_front(a, b),
    decreases a.len() + b.len(),
{
    if a.len() == 0 || b.len() == 0 {
        (Seq::empty(), Seq::empty())
    } else if a[0] == b[0] {
        let (left, right) = lemma_front_is_reached(a.skip(1), b.skip(1));
        let full_left = seq![0int] + left.map_values(|i: int| i + 1);
        let full_right = seq![0int] + right.map_values(|i: int| i + 1);
        assert forall|k: int| 0 <= k < full_left.len() implies 0 <= #[trigger] full_left[k]
            < a.len() && 0 <= full_right[k] < b.len() && a[full_left[k]] == b[full_right[k]] by {
            if k > 0 {
                assert(full_left[k] == left[k - 1] + 1);
                assert(full_right[k] == right[k - 1] + 1);
                assert(a.skip(1)[left[k - 1]] == b.skip(1)[right[k - 1]]);
            }
        }
        assert forall|k: int| 0 <= k < full_left.len() implies 0 <= full_left[k] < a.len() && 0
            <= #[trigger] full_right[k] < b.len() && a[full_left[k]] == b[full_right[k]] by {
            assert(0 <= full_left[k]);
        }
        assert forall|j: int, k: int| 0 <= j < k < full_left.len() implies #[trigger] full_left[j]
            < #[trigger] full_left[k] by {
            assert(full_left[k] == left[k - 1] + 1);
            if j > 0 {
                assert(full_left[j] == left[j - 1] + 1);
            }
        }
        assert forall|j: int, k: int| 0 <= j < k < full_right.len() implies #[trigger] full_right[j]
            < #[trigger] full_right[k] by {
            assert(full_right[k] == right[k - 1] + 1);
            if j > 0 {
                assert(full_right[j] == right[j - 1] + 1);
            }
        }
        (full_left, full_right)
    } else if common_len_front(a.skip(1), b) >= common_len_front(a, b.skip(1)) {
        let (left, right) = lemma_front_is_reached(a.skip(1), b);
        let full_left = left.map_values(|i: int| i + 1);
        assert forall|k: int| 0 <= k < left.len() implies 0 <= #[trigger] full_left[k] < a.len()
            && 0 <= right[k] < b.len() && a[full_left[k]] == b[right[k]] by {
            assert(a.skip(1)[left[k]] == b[right[k]]);
        }
        assert forall|k: int| 0 <= k < left.len() implies 0 <= full_left[k] < a.len() && 0
            <= #[trigger] right[k] < b.len() && a[full_left[k]] == b[right[k]] by {
            assert(0 <= full_left[k]);
        }
        (full_left, right)
    } else {
        let (left, right) = lemma_front_is_reached(a, b.skip(1));
        let full_right = right.map_values(|i: int| i + 1);
        assert forall|k: int| 0 <= k < left.len() implies 0 <= left[k] < a.len() && 0
            <= #[trigger] full_right[k] < b.len() && a[left[k]] == b[full_right[k]] by {
            assert(a[left[k]] == b.skip(1)[right[k]]);
        }
        assert forall|k: int| 0 <= k < left.len() implies 0 <= #[trigger] left[k] < a.len() && 0
            <= full_right[k] < b.len() && a[left[k]] == b[full_right[k]] by {
            assert(0 <= full_right[k]);
        }
        (left, full_right)
    }
}

/// Counting from the front and from the back gives the same length.
pub proof fn law_common_len_either_way(a: Lines, b: Lines)
    ensures
        common_len(a, b) == common_len_front(a, b),
{
    let (left, right) = law_common_len_is_reached(a, b);
    lemma_front_is_greatest(a, b, left, right);
    let (front_left, front_right) = lemma_front_is_reached(a, b);
    law_common_len_is_greatest(a, b, front_left, front_right);
}

/// The edit script leads from the one text to the other: what it keeps and
/// removes are the lines of `a`, what it keeps and adds those of `b`.
pub proof fn law_edit_script_leads_over(a: Lines, b: Lines)
    ensures
        script_before(edit_script(a, b)) == a,
        script_after(edit_script(a, b)) == b,
    decreases a.len() + b.len(),
{
    let script = edit_script(a, b);
    if a.len() == 0 && b.len() == 0 {
        assert(a =~= Seq::empty());
        assert(b =~= Seq::empty());
    } else if b.len() == 0 {
        law_edit_script_leads_over(a.skip(1), b);
        assert(script.skip(1) =~= edit_script(a.skip(1), b));
        assert(seq![a[0]] + a.skip(1) =~= a);
    } else if a.len() == 0 {
        law_edit_script_leads_over(a, b.skip(1));
        assert(script.skip(1) =~= edit_script(a, b.skip(1)));
        assert(seq![b[0]] + b.skip(1) =~= b);
    } else if a[0] == b[0] {
        law_edit_script_leads_over(a.skip(1), b.skip(1));
        assert(script.skip(1) =~= edit_script(a.skip(1), b.skip(1)));
        assert(seq![a[0]] + a.skip(1) =~= a);
        assert(seq![b[0]] + b.skip(1) =~= b);
    } else if common_len_front(a.skip(1), b) >= common_len_front(a, b.skip(1)) {
        law_edit_script_leads_over(a.skip(1), b);
        assert(script.skip(1) =~= edit_script(a.skip(1), b));
        assert(seq![a[0]] + a.skip(1) =~= a);
    } else {
        law_edit_script_leads_over(a, b.skip(1));
        assert(script.skip(1) =~= edit_script(a, b.skip(1)));
        assert(seq![b[0]] + b.skip(1) =~= b);
    }
}

/// The diff shows as many lines as the edit adds and removes: each text has the
/// common lines, and every other line is shown once.
pub proof fn law_changed_lines_counted(a: Lines, b: Lines)
    ensures
        changed_lines(edit_script(a, b)).len() + 2 * common_len(a, b) == a.len() + b.len(),
{
    lemma_changed_lines_counted(a, b);
    law_common_len_either_way(a, b);
}

proof fn lemma_changed_lines_counted(a: Lines, b: Lines)
    ensures
        changed_lines(edit_script(a, b)).len() + 2 * common_len_front(a, b) == a.len() + b.len(),
    decreases a.len() + b.len(),
{
    let script = edit_script(a, b);
    if a.len() == 0 && b.len() == 0 {
    } else if b.len() == 0 {
        lemma_changed_lines_counted(a.skip(1), b);
        assert(script.skip(1) =~= edit_script(a.skip(1), b));
    } else if a.len() == 0 {
        lemma_changed_lines_counted(a, b.skip(1));
        assert(script.skip(1) =~= edit_script(a, b.skip(1)));
    } else if a[0] == b[0] {
        lemma_changed_lines_counted(a.skip(1), b.skip(1));
        assert(script.skip(1) =~= edit_script(a.skip(1), b.skip(1)));
    } else if common_len_front(a.skip(1), b) >= common_len_front(a, b.skip(1)) {
        lemma_changed_lines_counted(a.skip(1), b);
        assert(script.skip(1) =~= edit_script(a.skip(1), b));
    } else {
        lemma_changed_lines_counted(a, b.skip(1));
        assert(script.skip(1) =~= edit_script(a, b.skip(1)));
    }
}

/// A text has all its lines in common with itself.
pub proof fn law_common_len_with_itself(a: Lines)
    ensures
        common_len(a, a) == a.len(),
    decreases a.len(),
{
    if a.len() > 0 {
        law_common_len_with_itself(a.drop_last());
    }
}

/// Two texts with as many common lines as each has are the same list of lines.
proof fn lemma_full_match_is_equality(a: Lines, b: Lines)
    requires
        common_len(a, b) == a.len(),
        common_len(a, b) == b.len(),
    ensures
        a == b,
    decreases a.len(),
{
    if a.len() > 0 {
        if a.last() == b.last() {
            lemma_full_match_is_equality(a.drop_last(), b.drop_last());
            assert(a =~= a.drop_last().push(a.last()));
            assert(b =~= b.drop_last().push(b.last()));
        } else {
            lemma_common_len_bounds(a.drop_last(), b);
            lemma_common_len_bounds(a, b.drop_last());
        }
    } else {
        assert(a =~= b);
    }
}

/// There is no changed line exactly where the two lists of lines are the same.
pub proof fn law_no_changed_lines_iff_same(a: Lines, b: Lines)
    ensures
        changed_lines(edit_script(a, b)).len() == 0 <==> a == b,
{
    law_changed_lines_counted(a, b);
    lemma_common_len_bounds(a, b);
    if a == b {
        law_common_len_with_itself(a);
    }
    if changed_lines(edit_script(a, b)).len() == 0 {
        lemma_full_match_is_equality(a, b);
    }
}

/// How many lines `a` and `b` have in common.
fn count_common(a: &Vec<String>, b: &Vec<String>) -> (count: usize)
    ensures
        count == common_len(texts(a@), texts(b@)),
{
    let ghost ta = texts(a@);
    let ghost tb = texts(b@);
    if a.len() == 0 || b.len() == 0 {
        return 0;
    }
    let mut previous: Vec<usize> = Vec::new();
    while previous.len() < b.len()
        invariant
            previous@.len() <= b@.len(),
            forall|j: int| 0 <= j < previous@.len() ==> previous@[j] == 0,
        decreases b.len() - previous.len(),
    {
        previous.push(0);
    }
    let mut i: usize = 0;
    while i < a.len()
        invariant
            i <= a@.len(),
            b@.len() > 0,
            ta == texts(a@),
            tb == texts(b@),
            previous@.len() == b@.len(),
            forall|j: int|
                0 <= j < b@.len() ==> #[trigger] previous@[j] == common_len(
                    ta.take(i as int),
                    tb.take(j + 1),
                ),
        decreases a.len() - i,
    {
        let mut current: Vec<usize> = Vec::new();
        while current.len() < b.len()
            invariant
                i < a@.len(),
                ta == texts(a@),
                tb == texts(b@),
                previous@.len() == b@.len(),
                current@.len() <= b@.len(),
                forall|j: int|
                    0 <= j < b@.len() ==> #[trigger] previous@[j] == common_len(
                        ta.take(i as int),
                        tb.take(j + 1),
                    ),
                forall|j: int|
                    0 <= j < current@.len() ==> #[trigger] current@[j] == common_len(
                        ta.take(i + 1),
                        tb.take(j + 1),
                    ),
            decreases b.len() - current.len(),
        {
            let j: usize = current.len();
            let ghost left = ta.take(i + 1);
            let ghost right = tb.take(j + 1);
            proof {
                assert(left.drop_last() =~= ta.take(i as int));
                assert(right.drop_last() =~= tb.take(j as int));
                assert(left.last() == a@[i as int]@);
                assert(right.last() == b@[j as int]@);
                lemma_common_len_bounds(left.drop_last(), right.drop_last());
                assert(previous@[j as int] == common_len(left.drop_last(), right));
                if j > 0 {
                    assert(previous@[j - 1] == common_len(left.drop_last(), right.drop_last()));
                    assert(current@[j - 1] == common_len(left, right.drop_last()));
                }
            }
            let entry: usize = if a[i] == b[j] {
                if j == 0 {
                    1
                } else {
                    previous[j - 1] + 1
                }
            } else {
                let above: usize = previous[j];
                let before: usize = if j == 0 {
                    0
                } else {
                    current[j - 1]
                };
                if above >= before {
                    above
                } else {
                    before
                }
            };
            assert(entry == common_len(left, right));
            current.push(entry);
        }
        previous = current;
        i += 1;
    }
    assert(ta.take(i as int) =~= ta);
    assert(tb.take(b@.len() as int) =~= tb);
    previous[b.len() - 1]
}

/// The lines of an optional text.
fn lines_of_optional(content: Option<&str>) -> (lines_of_content: Vec<String>)
    ensures
        texts(lines_of_content@) == lines_of_opt(crate::text::opt_str(content)),
{
    match content {
        Some(text) => lines(text),
        None => {
            let none: Vec<String> = Vec::new();
            assert(texts(none@) =~= Seq::empty());
            none
        },
    }
}

/// How many lines an edit adds and how many it removes: the lines of each
/// version beyond those that both have in common. A count beyond the range of
/// `i32` is cut down to it as a machine cast does.
pub fn changed_line_counts(before: Option<&str>, after: Option<&str>) -> (counts: (i32, i32))
    ensures
        ({
            let old_lines = lines_of_opt(crate::text::opt_str(before));
            let new_lines = lines_of_opt(crate::text::opt_str(after));
            let common = common_len(old_lines, new_lines);
            &&& counts.0 == (new_lines.len() - common) as i32
            &&& counts.1 == (old_lines.len() - common) as i32
        }),
{
    let before_lines = lines_of_optional(before);
    let after_lines = lines_of_optional(after);
    let common: usize = count_common(&before_lines, &after_lines);
    proof {
        lemma_common_len_bounds(texts(before_lines@), texts(after_lines@));
    }
    ((after_lines.len() - common) as i32, (before_lines.len() - common) as i32)
}

/// Whether `row` holds, from the back, what `left` has in common with each tail
/// of `b`.
spec fn row_ok(row: Seq<usize>, left: Lines, b: Lines) -> bool {
    forall|l: int|
        0 <= l < row.len() ==> #[trigger] row[l] == common_len_front(left, b.skip(b.len() - 1 - l))
}

/// Whether `table` holds, from the back, what each tail of `a` has in common
/// with each tail of `b`.
spec fn table_ok(table: Seq<Vec<usize>>, a: Lines, b: Lines) -> bool {
    forall|k: int|
        0 <= k < table.len() ==> (#[trigger] table[k])@.len() == b.len() && row_ok(
            table[k]@,
            a.skip(a.len() - 1 - k),
            b,
        )
}

/// The entry of `table` for the tails of `a` at `i` and of `b` at `j`.
fn tail_entry(
    table: &Vec<Vec<usize>>,
    a: &Vec<String>,
    b: &Vec<String>,
    i: usize,
    j: usize,
) -> (entry: usize)
    requires
        table_ok(table@, texts(a@), texts(b@)),
        i <= a@.len(),
        j <= b@.len(),
        a@.len() - i <= table@.len(),
    ensures
        entry == common_len_front(texts(a@).skip(i as int), texts(b@).skip(j as int)),
{
    if i == a.len() || j == b.len() {
        return 0;
    }
    let k: usize = a.len() - 1 - i;
    let l: usize = b.len() - 1 - j;
    assert(table@[k as int]@.len() == b@.len());
    let entry: usize = table[k][l];
    assert(table@[k as int]@[l as int] == entry);
    entry
}

/// The length of a common list bounds it by either text.
proof fn lemma_front_bounds(a: Lines, b: Lines)
    ensures
        common_len_front(a, b) <= a.len(),
        common_len_front(a, b) <= b.len(),
{
    law_common_len_either_way(a, b);
    lemma_common_len_bounds(a, b);
}

/// What each tail of `a` has in common with each tail of `b`, from the back.
fn tail_table(a: &Vec<String>, b: &Vec<String>) -> (table: Vec<Vec<usize>>)
    ensures
        table@.len() == a@.len(),
        table_ok(table@, texts(a@), texts(b@)),
{
    let ghost ta = texts(a@);
    let ghost tb = texts(b@);
    let mut table: Vec<Vec<usize>> = Vec::new();
    let rows: usize = a.len();
    while table.len() < rows
        invariant
            rows == a@.len(),
            ta == texts(a@),
            tb == texts(b@),
            table@.len() <= a@.len(),
            table_ok(table@, ta, tb),
        decreases rows - table.len(),
    {
        let i: usize = rows - 1 - table.len();
        let ghost left = ta.skip(i as int);
        let mut row: Vec<usize> = Vec::new();
        while row.len() < b.len()
            invariant
                ta == texts(a@),
                tb == texts(b@),
                rows == a@.len(),
                i == rows - 1 - table@.len(),
                i < rows,
                left == ta.skip(i as int),
                table_ok(table@, ta, tb),
                row@.len() <= b@.len(),
                row_ok(row@, left, tb),
            decreases b.len() - row.len(),
        {
            let j: usize = b.len() - 1 - row.len();
            let ghost right = tb.skip(j as int);
            proof {
                assert(left.skip(1) =~= ta.skip(i + 1));
                assert(right.skip(1) =~= tb.skip(j + 1));
                assert(left[0] == a@[i as int]@);
                assert(right[0] == b@[j as int]@);
                lemma_front_bounds(left.skip(1), right.skip(1));
                if row@.len() > 0 {
                    assert(tb.len() - 1 - (row@.len() - 1) == j + 1);
                    assert(row@[row@.len() - 1] == common_len_front(left, right.skip(1)));
                } else {
                    assert(right.skip(1).len() == 0);
                    assert(common_len_front(left, right.skip(1)) == 0);
                }
            }
            let entry: usize = if a[i] == b[j] {
                tail_entry(&table, a, b, i + 1, j + 1) + 1
            } else {
                let down: usize = tail_entry(&table, a, b, i + 1, j);
                let across: usize = if row.len() == 0 {
                    0
                } else {
                    row[row.len() - 1]
                };
                if down >= across {
                    down
                } else {
                    across
                }
            };
            assert(entry == common_len_front(left, right));
            row.push(entry);
        }
        table.push(row);
    }
    table
}

/// `line` behind the character `mark`.
fn marked(mark: &str, line: &String) -> (out: String)
    ensures
        out@ == mark@ + line@,
{
    let mut out = mark.to_owned();
    out.append(line.as_str());
    out
}

/// The lines that differ between `a` and `b`, marked with `-` and `+`, in the
/// order of the edit script.
pub fn list_changed_lines(a: &Vec<String>, b: &Vec<String>) -> (changed: Vec<String>)
    ensures
        texts(changed@) == changed_lines(edit_script(texts(a@), texts(b@))),
{
    let ghost ta = texts(a@);
    let ghost tb = texts(b@);
    let ghost all = changed_lines(edit_script(ta, tb));
    let table = tail_table(a, b);
    let mut changed: Vec<String> = Vec::new();
    let mut i: usize = 0;
    let mut j: usize = 0;
    proof {
        assert(ta.skip(0) =~= ta);
        assert(tb.skip(0) =~= tb);
        assert(texts(changed@) + all =~= all);
        reveal_strlit("-");
        reveal_strlit("+");
        assert("-"@ =~= seq!['-']);
        assert("+"@ =~= seq!['+']);
    }
    while i < a.len() || j < b.len()
        invariant
            ta == texts(a@),
            tb == texts(b@),
            "-"@ == seq!['-'],
            "+"@ == seq!['+'],
            i <= a@.len(),
            j <= b@.len(),
            table@.len() == a@.len(),
            table_ok(table@, ta, tb),
            texts(changed@) + changed_lines(edit_script(ta.skip(i as int), tb.skip(j as int)))
                == all,
        decreases a.len() - i + b.len() - j,
    {
        let ghost left = ta.skip(i as int);
        let ghost right = tb.skip(j as int);
        let ghost script = edit_script(left, right);
        let ghost done = texts(changed@);
        proof {
            if i < a@.len() {
                assert(left.skip(1) =~= ta.skip(i + 1));
                assert(left[0] == a@[i as int]@);
            }
            if j < b@.len() {
                assert(right.skip(1) =~= tb.skip(j + 1));
                assert(right[0] == b@[j as int]@);
            }
        }
        if i < a.len() && j < b.len() && a[i] == b[j] {
            i += 1;
            j += 1;
            assert(script.skip(1) =~= edit_script(left.skip(1), right.skip(1)));
        } else if j == b.len() || (i < a.len() && tail_entry(&table, a, b, i + 1, j) >= tail_entry(
            &table,
            a,
            b,
            i,
            j + 1,
        )) {
            let line = marked("-", &a[i]);
            changed.push(line);
            i += 1;
            assert(script.skip(1) =~= edit_script(left.skip(1), right));
            assert(texts(changed@) =~= done.push(line@));
            assert(done.push(line@) + changed_lines(script.skip(1)) =~= done + (seq![line@]
                + changed_lines(script.skip(1))));
        } else {
            let line = marked("+", &b[j]);
            changed.push(line);
            j += 1;
            assert(script.skip(1) =~= edit_script(left, right.skip(1)));
            assert(texts(changed@) =~= done.push(line@));
            assert(done.push(line@) + changed_lines(script.skip(1)) =~= done + (seq![line@]
                + changed_lines(script.skip(1))));
        }
    }
    assert(changed_lines(edit_script(ta.skip(i as int), tb.skip(j as int))) =~= Seq::empty());
    assert(texts(changed@) + Seq::<Seq<char>>::empty() =~= texts(changed@));
    changed
}

/// A compact diff of a change: only the changed lines, `-` old and `+` new, at
/// most `max_lines` of them with a note on the rest. Empty where no line changed.
pub fn render_change_diff(before: &str, after: &str, max_lines: usize) -> (diff: String)
    ensures
        diff@ == joined(
            capped(changed_lines(edit_script(lines_of(before@), lines_of(after@))), max_lines as nat),
            "\n"@,
        ),
{
    let mut changed = list_changed_lines(&lines(before), &lines(after));
    let ghost all = texts(changed@);
    if changed.len() > max_lines {
        let extra: usize = changed.len() - max_lines;
        changed.truncate(max_lines);
        assert(texts(changed@) =~= all.take(max_lines as int));
        let mut note = "… (".to_owned();
        note.append(render_usize(extra).as_str());
        note.append(" more changed lines)");
        changed.push(note);
        assert(texts(changed@) =~= all.take(max_lines as int).push(omitted_note(extra as nat)));
    }
    join(&changed, "\n")
}

/// A diff shows each removed line behind a minus and each added line behind a plus, in
/// order, and no line that was kept.
pub proof fn law_diff_shows_what_changed(script: Seq<Edit>, line: Seq<char>)
    ensures
        changed_lines(seq![Edit::Remove(line)] + script) == seq![seq!['-'] + line] + changed_lines(
            script,
        ),
        changed_lines(seq![Edit::Add(line)] + script) == seq![seq!['+'] + line] + changed_lines(
            script,
        ),
        changed_lines(seq![Edit::Keep(line)] + script) == changed_lines(script),
        changed_lines(Seq::empty()) == Seq::<Seq<char>>::empty(),
{
    assert((seq![Edit::Remove(line)] + script).skip(1) =~= script);
    assert((seq![Edit::Add(line)] + script).skip(1) =~= script);
    assert((seq![Edit::Keep(line)] + script).skip(1) =~= script);
}

/// A diff that is too long is cut behind the allowed number of lines and says how many are
/// missing; another is shown in full.
pub proof fn law_long_diff_says_what_is_missing(changed: Lines, max_lines: nat)
    ensures
        changed.len() <= max_lines ==> capped(changed, max_lines) == changed,
        changed.len() > max_lines ==> {
            &&& capped(changed, max_lines).len() == max_lines + 1
            &&& capped(changed, max_lines).drop_last().is_prefix_of(changed)
            &&& capped(changed, max_lines).last() == "… ("@ + decimal(
                (changed.len() - max_lines) as nat,
            ) + " more changed lines)"@
        },
{
    if changed.len() > max_lines {
        let cut = capped(changed, max_lines);
        assert(cut.drop_last() =~= changed.subrange(0, max_lines as int));
    }
}

/// The lines that a missing file has are none.
pub proof fn law_missing_content_has_no_lines(text: Seq<char>)
    ensures
        lines_of_opt(None).len() == 0,
        lines_of_opt(Some(text)) == lines_of(text),
{
}

/// Two texts without a common line have nothing in common.
proof fn lemma_nothing_in_common(a: Lines, b: Lines)
    requires
        forall|i: int, j: int|
            0 <= i < a.len() && 0 <= j < b.len() ==> #[trigger] a[i] != #[trigger] b[j],
    ensures
        common_len_front(a, b) == 0,
    decreases a.len() + b.len(),
{
    if a.len() > 0 && b.len() > 0 {
        assert(a[0] != b[0]);
        let x = a.skip(1);
        let y = b.skip(1);
        assert forall|i: int, j: int| 0 <= i < x.len() && 0 <= j < b.len() implies #[trigger] x[i]
            != #[trigger] b[j] by {
            assert(a[i + 1] != b[j]);
        }
        assert forall|i: int, j: int| 0 <= i < a.len() && 0 <= j < y.len() implies #[trigger] a[i]
            != #[trigger] y[j] by {
            assert(a[i] != b[j + 1]);
        }
        lemma_nothing_in_common(x, b);
        lemma_nothing_in_common(a, y);
    }
}

/// Where one text replaces another altogether, its lines are added only after all lines of
/// the other were removed.
pub proof fn law_lines_are_removed_before_others_are_added(a: Lines, b: Lines)
    requires
        a.len() > 0,
        forall|i: int, j: int|
            0 <= i < a.len() && 0 <= j < b.len() ==> #[trigger] a[i] != #[trigger] b[j],
    ensures
        edit_script(a, b) == seq![Edit::Remove(a[0])] + edit_script(a.skip(1), b),
{
    if b.len() > 0 {
        assert(a[0] != b[0]);
        let x = a.skip(1);
        let y = b.skip(1);
        assert forall|i: int, j: int| 0 <= i < x.len() && 0 <= j < b.len() implies #[trigger] x[i]
            != #[trigger] b[j] by {
            assert(a[i + 1] != b[j]);
        }
        assert forall|i: int, j: int| 0 <= i < a.len() && 0 <= j < y.len() implies #[trigger] a[i]
            != #[trigger] y[j] by {
            assert(a[i] != b[j + 1]);
        }
        lemma_nothing_in_common(x, b);
        lemma_nothing_in_common(a, y);
    }
}

} // verus!
