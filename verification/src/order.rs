//! Texts in ascending order, character by character.
use vstd::prelude::*;
use crate::text::{chars_of, texts};

verus! {

/// Whether `a` comes before `b`: at the first place where they differ it has the
/// lower code point, or it ends there.
pub open spec fn precedes(a: Seq<char>, b: Seq<char>) -> bool
    decreases a.len(),
{
    if b.len() == 0 {
        false
    } else if a.len() == 0 {
        true
    } else if a[0] == b[0] {
        precedes(a.skip(1), b.skip(1))
    } else {
        (a[0] as u32) < (b[0] as u32)
    }
}

/// Whether each text comes before all texts behind it.
pub open spec fn is_ascending(items: Seq<Seq<char>>) -> bool {
    forall|i: int, j: int|
        0 <= i < j < items.len() ==> precedes(#[trigger] items[i], #[trigger] items[j])
}

/// Of two texts either one comes first or they are the same, and never both.
pub proof fn law_order_is_total(a: Seq<char>, b: Seq<char>)
    ensures
        precedes(a, b) || precedes(b, a) || a == b,
        !(precedes(a, b) && precedes(b, a)),
        !precedes(a, a),
    decreases a.len(),
{
    if a.len() > 0 {
        law_order_is_total(a.skip(1), a.skip(1));
    }
    if a.len() > 0 && b.len() > 0 && a[0] == b[0] {
        law_order_is_total(a.skip(1), b.skip(1));
        if a.skip(1) == b.skip(1) {
            assert(a =~= seq![a[0]] + a.skip(1));
            assert(b =~= seq![b[0]] + b.skip(1));
        }
    } else if a.len() == 0 && b.len() == 0 {
        assert(a =~= b);
    } else if a.len() > 0 && b.len() > 0 {
        vstd::utf8::char_u32_cast(a[0], a[0] as u32);
        vstd::utf8::char_u32_cast(b[0], b[0] as u32);
    }
}

/// What comes before a text comes before all that it comes before.
pub proof fn law_order_is_transitive(a: Seq<char>, b: Seq<char>, c: Seq<char>)
    requires
        precedes(a, b),
        precedes(b, c),
    ensures
        precedes(a, c),
    decreases a.len(),
{
    if a.len() > 0 && b.len() > 0 && c.len() > 0 && a[0] == b[0] && b[0] == c[0] {
        law_order_is_transitive(a.skip(1), b.skip(1), c.skip(1));
    }
}

/// How two texts stand to each other.
#[derive(Clone, Copy, Debug, PartialEq, Eq, Structural)]
pub enum Standing {
    Before,
    Same,
    Behind,
}

/// How `a` stands to `b`.
pub fn compare(a: &str, b: &str) -> (standing: Standing)
    ensures
        standing == Standing::Before <==> precedes(a@, b@),
        standing == Standing::Same <==> a@ == b@,
        standing == Standing::Behind <==> precedes(b@, a@),
{
    let left = chars_of(a);
    let right = chars_of(b);
    let mut i: usize = 0;
    proof {
        law_order_is_total(a@, b@);
        assert(a@.skip(0) =~= a@);
        assert(b@.skip(0) =~= b@);
    }
    while i < left.len() && i < right.len() && left[i] == right[i]
        invariant
            i <= left@.len(),
            i <= right@.len(),
            left@ == a@,
            right@ == b@,
            precedes(a@, b@) == precedes(a@.skip(i as int), b@.skip(i as int)),
            precedes(b@, a@) == precedes(b@.skip(i as int), a@.skip(i as int)),
        decreases left.len() - i,
    {
        i += 1;
        assert(a@.skip(i - 1).skip(1) =~= a@.skip(i as int));
        assert(b@.skip(i - 1).skip(1) =~= b@.skip(i as int));
    }
    if i == left.len() {
        if i == right.len() {
            Standing::Same
        } else {
            Standing::Before
        }
    } else if i == right.len() {
        Standing::Behind
    } else if (left[i] as u32) < (right[i] as u32) {
        Standing::Before
    } else {
        Standing::Behind
    }
}

/// Adds `item` to an ascending list, unless it is there.
pub fn insert_ascending(items: &mut Vec<String>, item: String)
    requires
        is_ascending(texts(old(items)@)),
    ensures
        is_ascending(texts(final(items)@)),
        texts(final(items)@).to_set() == texts(old(items)@).to_set().insert(item@),
{
    let ghost start = texts(items@);
    let mut at: usize = 0;
    while at < items.len()
        invariant
            at <= items@.len(),
            start == texts(items@),
            items@ == old(items)@,
            is_ascending(start),
            forall|k: int| 0 <= k < at ==> precedes(#[trigger] start[k], item@),
        decreases items.len() - at,
    {
        assert(start[at as int] == items@[at as int]@);
        match compare(items[at].as_str(), item.as_str()) {
            Standing::Before => {
                at += 1;
            },
            Standing::Same => {
                assert(start.contains(item@));
                assert(start.to_set().insert(item@) =~= start.to_set());
                return ;
            },
            Standing::Behind => {
                proof {
                    lemma_insert_between(start, at as int, item@);
                }
                items.insert(at, item);
                assert(texts(items@) =~= start.insert(at as int, item@));
                return ;
            },
        }
    }
    proof {
        lemma_insert_between(start, at as int, item@);
    }
    items.push(item);
    assert(texts(items@) =~= start.insert(at as int, item@));
}

/// A text put between those that it stands between leaves the list ascending.
proof fn lemma_insert_between(items: Seq<Seq<char>>, at: int, item: Seq<char>)
    requires
        is_ascending(items),
        0 <= at <= items.len(),
        forall|k: int| 0 <= k < at ==> precedes(#[trigger] items[k], item),
        at < items.len() ==> precedes(item, items[at]),
    ensures
        is_ascending(items.insert(at, item)),
        items.insert(at, item).to_set() == items.to_set().insert(item),
{
    let after = items.insert(at, item);
    assert forall|i: int, j: int| 0 <= i < j < after.len() implies precedes(
        #[trigger] after[i],
        #[trigger] after[j],
    ) by {
        if i < at && j < at {
            assert(precedes(items[i], items[j]));
        } else if i < at && j == at {
        } else if i < at {
            assert(precedes(items[i], items[j - 1]));
        } else if i == at {
            if j - 1 > at {
                assert(precedes(items[at], items[j - 1]));
                law_order_is_transitive(item, items[at], items[j - 1]);
            }
        } else {
            assert(precedes(items[i - 1], items[j - 1]));
        }
    }
    assert forall|x: Seq<char>| after.to_set().contains(x) <==> items.to_set().insert(
        item,
    ).contains(x) by {
        if items.contains(x) {
            let k = choose|k: int| 0 <= k < items.len() && items[k] == x;
            if k < at {
                assert(after[k] == x);
            } else {
                assert(after[k + 1] == x);
            }
        }
        if x == item {
            assert(after[at] == item);
        }
        if after.contains(x) {
            let k = choose|k: int| 0 <= k < after.len() && after[k] == x;
            if k < at {
                assert(items[k] == x);
            } else if k > at {
                assert(items[k - 1] == x);
            }
        }
    }
    assert(after.to_set() =~= items.to_set().insert(item));
}

/// Two texts stand in the order of the first characters in which they differ; where one is
/// the front of the other, the shorter comes first.
pub proof fn law_first_difference_decides(front: Seq<char>, a: Seq<char>, b: Seq<char>)
    ensures
        precedes(front + a, front + b) == precedes(a, b),
        a.len() > 0 && b.len() > 0 && (a[0] as u32) < (b[0] as u32) ==> precedes(a, b),
        a.len() > 0 && b.len() > 0 && (a[0] as u32) > (b[0] as u32) ==> !precedes(a, b),
        a.len() == 0 && b.len() > 0 ==> precedes(a, b),
        b.len() == 0 ==> !precedes(a, b),
    decreases front.len(),
{
    if front.len() == 0 {
        assert(front + a =~= a);
        assert(front + b =~= b);
    } else {
        law_first_difference_decides(front.skip(1), a, b);
        assert((front + a).skip(1) =~= front.skip(1) + a);
        assert((front + b).skip(1) =~= front.skip(1) + b);
    }
}

} // verus!
