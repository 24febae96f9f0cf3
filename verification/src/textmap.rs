//! A small map from texts to values.
use vstd::prelude::*;
use crate::text::same_text;

verus! {

/// A map from texts to values.
pub struct TextMap<V> {
    entries: Vec<(String, V)>,
}

impl<V> View for TextMap<V> {
    type V = Map<Seq<char>, V>;

    closed spec fn view(&self) -> Map<Seq<char>, V> {
        entries_map(self.entries@)
    }
}

/// The map that a list of entries stands for: the first entry of a key counts.
spec fn entries_map<V>(entries: Seq<(String, V)>) -> Map<Seq<char>, V>
    decreases entries.len(),
{
    if entries.len() == 0 {
        Map::empty()
    } else {
        entries_map(entries.skip(1)).insert(entries[0].0@, entries[0].1)
    }
}

/// A key is in the map exactly where an entry holds it, with the value of the
/// first such entry.
proof fn lemma_entries_map<V>(entries: Seq<(String, V)>, key: Seq<char>)
    ensures
        entries_map(entries).contains_key(key) <==> exists|i: int|
            0 <= i < entries.len() && (#[trigger] entries[i]).0@ == key,
        forall|i: int|
            0 <= i < entries.len() && (#[trigger] entries[i]).0@ == key && (forall|j: int|
                0 <= j < i ==> (#[trigger] entries[j]).0@ != key) ==> entries_map(entries)[key]
                == entries[i].1,
    decreases entries.len(),
{
    if entries.len() > 0 {
        let rest = entries.skip(1);
        lemma_entries_map(rest, key);
        assert forall|i: int|
            0 <= i < entries.len() && (#[trigger] entries[i]).0@ == key && (forall|j: int|
                0 <= j < i ==> (#[trigger] entries[j]).0@ != key) implies entries_map(entries)[key]
            == entries[i].1 by {
            if i > 0 {
                assert(entries[0].0@ != key);
                assert(rest[i - 1] == entries[i]);
                assert forall|j: int| 0 <= j < i - 1 implies (#[trigger] rest[j]).0@ != key by {
                    assert(rest[j] == entries[j + 1]);
                }
            }
        }
        if entries_map(rest).contains_key(key) {
            let i = choose|i: int| 0 <= i < rest.len() && (#[trigger] rest[i]).0@ == key;
            assert(entries[i + 1].0@ == key);
        }
        if exists|i: int| 0 <= i < entries.len() && (#[trigger] entries[i]).0@ == key {
            let i = choose|i: int| 0 <= i < entries.len() && (#[trigger] entries[i]).0@ == key;
            if i > 0 {
                assert(rest[i - 1].0@ == key);
            }
        }
    }
}

impl<V> TextMap<V> {
    /// A map without entries.
    pub fn new() -> (map: Self)
        ensures
            map@ == Map::<Seq<char>, V>::empty(),
    {
        TextMap { entries: Vec::new() }
    }

    /// The value of `key`, if there is one.
    pub fn get(&self, key: &str) -> (value: Option<&V>)
        ensures
            match value {
                Some(found) => self@.contains_key(key@) && self@[key@] == *found,
                None => !self@.contains_key(key@),
            },
    {
        let mut i: usize = 0;
        proof {
            lemma_entries_map(self.entries@, key@);
        }
        while i < self.entries.len()
            invariant
                i <= self.entries@.len(),
                forall|j: int| 0 <= j < i ==> (#[trigger] self.entries@[j]).0@ != key@,
            decreases self.entries.len() - i,
        {
            if same_text(self.entries[i].0.as_str(), key) {
                proof {
                    lemma_entries_map(self.entries@, key@);
                }
                return Some(&self.entries[i].1);
            }
            i += 1;
        }
        None
    }

    /// Gives `key` the value `value`.
    pub fn insert(&mut self, key: String, value: V)
        ensures
            final(self)@ == old(self)@.insert(key@, value),
    {
        let ghost before = self.entries@;
        self.entries.insert(0, (key, value));
        assert(self.entries@.skip(1) =~= before);
    }
}

/// A copy of a map to optional texts.
pub fn copy_texts(map: &TextMap<Option<String>>) -> (copy: TextMap<Option<String>>)
    ensures
        copy@ == map@,
{
    let mut copy: TextMap<Option<String>> = TextMap::new();
    let mut i: usize = map.entries.len();
    assert(map.entries@.skip(i as int) =~= Seq::empty());
    while i > 0
        invariant
            i <= map.entries@.len(),
            copy@ == entries_map(map.entries@.skip(i as int)),
        decreases i,
    {
        i = i - 1;
        let ghost rest = map.entries@.skip(i as int);
        assert(rest.skip(1) =~= map.entries@.skip(i + 1));
        let entry = &map.entries[i];
        copy.insert(entry.0.clone(), crate::text::clone_opt(&entry.1));
    }
    assert(map.entries@.skip(0) =~= map.entries@);
    copy
}

/// The keys of a map that have a text, with their texts, the latest first.
pub fn present_texts(map: &TextMap<Option<String>>) -> (entries: Vec<(String, String)>)
    ensures
        forall|k: int|
            0 <= k < entries@.len() ==> {
                &&& map@.contains_key((#[trigger] entries@[k]).0@)
                &&& map@[entries@[k].0@] == Some(entries@[k].1)
            },
        forall|key: Seq<char>|
            map@.contains_key(key) && #[trigger] map@[key] is Some ==> exists|k: int|
                0 <= k < entries@.len() && (#[trigger] entries@[k]).0@ == key,
        forall|j: int, k: int|
            0 <= j < k < entries@.len() ==> (#[trigger] entries@[j]).0@ != (
            #[trigger] entries@[k]).0@,
{
    let mut entries: Vec<(String, String)> = Vec::new();
    let ghost mut sources: Seq<int> = Seq::empty();
    let mut i: usize = 0;
    while i < map.entries.len()
        invariant
            i <= map.entries@.len(),
            sources.len() == entries@.len(),
            forall|k: int|
                0 <= k < sources.len() ==> {
                    &&& 0 <= #[trigger] sources[k] < i
                    &&& is_first(map.entries@, sources[k])
                    &&& map.entries@[sources[k]] == (entries@[k].0, Some(entries@[k].1))
                },
            forall|j: int, k: int|
                0 <= j < k < sources.len() ==> #[trigger] sources[j] < #[trigger] sources[k],
            forall|m: int|
                0 <= m < i && #[trigger] is_first(map.entries@, m) && map.entries@[m].1 is Some
                    ==> sources.contains(m),
        decreases map.entries.len() - i,
    {
        let entry = &map.entries[i];
        let mut earlier = false;
        let mut m: usize = 0;
        while m < i
            invariant
                m <= i < map.entries@.len(),
                *entry == map.entries@[i as int],
                earlier <==> exists|n: int|
                    0 <= n < m && (#[trigger] map.entries@[n]).0@ == entry.0@,
            decreases i - m,
        {
            if same_text(map.entries[m].0.as_str(), entry.0.as_str()) {
                earlier = true;
                assert(map.entries@[m as int].0@ == entry.0@);
            }
            m += 1;
        }
        let ghost before = sources;
        if !earlier {
            if let Some(text) = &entry.1 {
                entries.push((entry.0.clone(), text.clone()));
                proof {
                    sources = sources.push(i as int);
                    assert(sources[sources.len() - 1] == i);
                }
            }
        }
        proof {
            assert forall|m: int|
                0 <= m < i + 1 && #[trigger] is_first(map.entries@, m)
                    && map.entries@[m].1 is Some implies sources.contains(m) by {
                if m < i {
                    assert(before.contains(m));
                    let k = choose|k: int| 0 <= k < before.len() && before[k] == m;
                    assert(sources[k] == m);
                }
            }
        }
        i += 1;
    }
    proof {
        assert forall|k: int| 0 <= k < entries@.len() implies map@.contains_key(
            (#[trigger] entries@[k]).0@,
        ) && map@[entries@[k].0@] == Some(entries@[k].1) by {
            lemma_entries_map(map.entries@, entries@[k].0@);
            assert(map.entries@[sources[k]].0@ == entries@[k].0@);
        }
        assert forall|j: int, k: int| 0 <= j < k < entries@.len() implies (
        #[trigger] entries@[j]).0@ != (#[trigger] entries@[k]).0@ by {
            assert(sources[j] < sources[k]);
            assert(map.entries@[sources[j]].0@ != map.entries@[sources[k]].0@);
        }
        assert forall|key: Seq<char>| map@.contains_key(key)
            && #[trigger] map@[key] is Some implies exists|k: int|
            0 <= k < entries@.len() && (#[trigger] entries@[k]).0@ == key by {
            lemma_entries_map(map.entries@, key);
            let some = choose|m: int|
                0 <= m < map.entries@.len() && (#[trigger] map.entries@[m]).0@ == key;
            let m = lemma_first_of_key(map.entries@, key, some);
            assert(sources.contains(m));
            let k = choose|k: int| 0 <= k < sources.len() && sources[k] == m;
            assert(entries@[k].0@ == key);
        }
    }
    entries
}

/// Whether no entry before the one at `at` has its key.
spec fn is_first<V>(entries: Seq<(String, V)>, at: int) -> bool {
    forall|n: int| 0 <= n < at ==> (#[trigger] entries[n]).0@ != entries[at].0@
}

/// The first entry of a key that some entry has.
proof fn lemma_first_of_key<V>(entries: Seq<(String, V)>, key: Seq<char>, some: int) -> (first: int)
    requires
        0 <= some < entries.len(),
        entries[some].0@ == key,
    ensures
        0 <= first <= some,
        entries[first].0@ == key,
        is_first(entries, first),
    decreases some,
{
    if exists|n: int| 0 <= n < some && (#[trigger] entries[n]).0@ == key {
        let n = choose|n: int| 0 <= n < some && (#[trigger] entries[n]).0@ == key;
        lemma_first_of_key(entries, key, n)
    } else {
        some
    }
}

} // verus!
