//! The paths of the committed tree that a batch of file changes reads.
use vstd::prelude::*;
use crate::handlers::write::file_mutations::{repo_path_of, EnvelopeSection, TargetFacts};
use crate::handlers::write::types::{ChangeItem, ChangeMode};
use crate::order::{insert_ascending, is_ascending};
use crate::scan::{slice_of, strip_prefix};
use crate::text::{chars_of, string_of, texts};

verus! {

/// `path` without the slashes at its front.
pub open spec fn without_leading_slashes(path: Seq<char>) -> Seq<char>
    decreases path.len(),
{
    if path.len() > 0 && path[0] == '/' {
        without_leading_slashes(path.skip(1))
    } else {
        path
    }
}

/// `path` without the slashes at its front.
pub fn trim_leading_slashes(path: &str) -> (out: String)
    ensures
        out@ == without_leading_slashes(path@),
{
    let chars = chars_of(path);
    let mut from: usize = 0;
    assert(path@.skip(0) =~= path@);
    while from < chars.len() && chars[from] == '/'
        invariant
            from <= chars@.len(),
            chars@ == path@,
            without_leading_slashes(path@.skip(from as int)) == without_leading_slashes(path@),
        decreases chars.len() - from,
    {
        from += 1;
        assert(path@.skip(from - 1).skip(1) =~= path@.skip(from as int));
    }
    let part = slice_of(&chars, from, chars.len());
    assert(part@ =~= path@.skip(from as int));
    string_of(part.as_slice())
}

/// A file change with what the outside tells about it. `envelope` holds the
/// sections of the patch that the change carries, or why it does not parse.
#[derive(Debug)]
pub struct LocatedChange {
    pub item: ChangeItem,
    pub facts: TargetFacts,
    pub envelope: Result<Vec<EnvelopeSection>, String>,
}

/// The paths that the sections of an envelope name.
pub open spec fn section_paths(sections: Seq<EnvelopeSection>) -> Seq<Seq<char>> {
    sections.map_values(|section: EnvelopeSection| without_leading_slashes(section.path_text()))
}

/// The paths that one change reads from the committed tree, or why that is not
/// known. A target outside the worktree is no part of the tree.
pub open spec fn change_paths(change: LocatedChange) -> Result<Seq<Seq<char>>, Seq<char>> {
    if change.item.mode == ChangeMode::UnifiedPatch {
        match (change.item.payload, change.envelope) {
            (Err(error), _) => Err(error@),
            (Ok(payload), envelope) => if payload.patch is None {
                Err("mode=unified_patch requires payload.patch"@)
            } else {
                match envelope {
                    Err(error) => Err(error@),
                    Ok(sections) => Ok(section_paths(sections@)),
                }
            },
        }
    } else {
        match (change.facts.normalized, change.facts.resolved) {
            (Err(error), _) => Err(error@),
            (Ok(_), Err(error)) => Err(error@),
            (Ok(normalized), Ok(path)) => if path.outside_worktree {
                Ok(Seq::empty())
            } else {
                Ok(seq![repo_path_of(normalized@)])
            },
        }
    }
}

/// The paths that the first `k` changes read, or the first reason why that is not
/// known.
pub open spec fn wanted_paths(changes: Seq<LocatedChange>, k: int) -> Result<
    Set<Seq<char>>,
    Seq<char>,
>
    decreases k,
{
    if k <= 0 {
        Ok(Set::empty())
    } else {
        match (wanted_paths(changes, k - 1), change_paths(changes[k - 1])) {
            (Err(error), _) => Err(error),
            (Ok(_), Err(error)) => Err(error),
            (Ok(before), Ok(paths)) => Ok(before.union(paths.to_set())),
        }
    }
}

/// A reason why the paths are not known settles the matter.
proof fn lemma_first_error_stays(changes: Seq<LocatedChange>, k: int, n: int)
    requires
        0 <= k <= n,
        wanted_paths(changes, k) is Err,
    ensures
        wanted_paths(changes, n) == wanted_paths(changes, k),
    decreases n - k,
{
    if k < n {
        lemma_first_error_stays(changes, k, n - 1);
    }
}

/// Adds the paths of an envelope to an ascending list.
fn add_section_paths(paths: &mut Vec<String>, sections: &Vec<EnvelopeSection>)
    requires
        is_ascending(texts(old(paths)@)),
    ensures
        is_ascending(texts(final(paths)@)),
        texts(final(paths)@).to_set() == texts(old(paths)@).to_set().union(
            section_paths(sections@).to_set(),
        ),
{
    let ghost named = section_paths(sections@);
    let ghost start = texts(paths@).to_set();
    let mut i: usize = 0;
    assert(named.take(0).to_set() =~= Set::empty());
    assert(start.union(Set::empty()) =~= start);
    while i < sections.len()
        invariant
            i <= sections@.len(),
            named == section_paths(sections@),
            is_ascending(texts(paths@)),
            texts(paths@).to_set() == start.union(named.take(i as int).to_set()),
        decreases sections.len() - i,
    {
        let path = trim_leading_slashes(sections[i].path());
        assert(named[i as int] == path@);
        insert_ascending(paths, path);
        proof {
            assert(named.take(i + 1) =~= named.take(i as int).push(named[i as int]));
            named.take(i as int).lemma_push_to_set_commute(named[i as int]);
            assert(start.union(named.take(i as int).to_set()).insert(path@) =~= start.union(
                named.take(i + 1).to_set(),
            ));
        }
        i += 1;
    }
    assert(named.take(i as int) =~= named);
}

/// The paths of the committed tree that a batch reads, each once and in ascending
/// order, or the first reason why that is not known.
pub fn logical_paths_for_changes(changes: &Vec<LocatedChange>) -> (paths: Result<
    Vec<String>,
    String,
>)
    ensures
        match (paths, wanted_paths(changes@, changes@.len() as int)) {
            (Ok(found), Ok(wanted)) => is_ascending(texts(found@)) && texts(found@).to_set()
                == wanted,
            (Err(error), Err(reason)) => error@ == reason,
            _ => false,
        },
{
    let mut paths: Vec<String> = Vec::new();
    assert(texts(paths@).to_set() =~= Set::empty());
    let mut k: usize = 0;
    while k < changes.len()
        invariant
            k <= changes@.len(),
            is_ascending(texts(paths@)),
            wanted_paths(changes@, k as int) == Ok::<Set<Seq<char>>, Seq<char>>(
                texts(paths@).to_set(),
            ),
        decreases changes.len() - k,
    {
        let change = &changes[k];
        let ghost total = changes@.len() as int;
        if change.item.mode == ChangeMode::UnifiedPatch {
            let carries_patch = match &change.item.payload {
                Ok(payload) => payload.patch.is_some(),
                Err(error) => {
                    proof {
                        lemma_first_error_stays(changes@, k + 1, total);
                    }
                    return Err(error.clone());
                },
            };
            if !carries_patch {
                proof {
                    lemma_first_error_stays(changes@, k + 1, total);
                }
                return Err("mode=unified_patch requires payload.patch".to_owned());
            }
            match &change.envelope {
                Ok(sections) => add_section_paths(&mut paths, sections),
                Err(error) => {
                    proof {
                        lemma_first_error_stays(changes@, k + 1, total);
                    }
                    return Err(error.clone());
                },
            }
        } else {
            let normalized = match &change.facts.normalized {
                Ok(normalized) => normalized,
                Err(error) => {
                    proof {
                        lemma_first_error_stays(changes@, k + 1, total);
                    }
                    return Err(error.clone());
                },
            };
            let resolved = match &change.facts.resolved {
                Ok(resolved) => resolved,
                Err(error) => {
                    proof {
                        lemma_first_error_stays(changes@, k + 1, total);
                    }
                    return Err(error.clone());
                },
            };
            let ghost before = texts(paths@).to_set();
            if resolved.outside_worktree {
                assert(before.union(Seq::<Seq<char>>::empty().to_set()) =~= before);
            } else {
                let path = match strip_prefix(normalized.as_str(), "file:") {
                    Some(path) => path,
                    None => String::new(),
                };
                proof {
                    let one = seq![path@];
                    assert(one.to_set() =~= set![path@]) by {
                        assert(one[0] == path@);
                    }
                    assert(before.insert(path@) =~= before.union(one.to_set()));
                }
                insert_ascending(&mut paths, path);
            }
        }
        k += 1;
    }
    Ok(paths)
}

/// A change of one file reads that file, where it lies in the worktree, and no other. An
/// envelope reads the file of each of its sections.
pub proof fn law_change_reads_its_files(change: LocatedChange)
    ensures
        change.item.mode != ChangeMode::UnifiedPatch ==> match (
            change.facts.normalized,
            change.facts.resolved,
        ) {
            (Ok(normal), Ok(path)) => {
                &&& change_paths(change) matches Ok(paths)
                &&& path.outside_worktree ==> paths.len() == 0
                &&& !path.outside_worktree ==> paths.len() == 1 && ("file:"@.is_prefix_of(normal@)
                    ==> "file:"@ + paths[0] == normal@)
            },
            _ => change_paths(change) is Err,
        },
        change.item.mode == ChangeMode::UnifiedPatch ==> (change_paths(change) matches Ok(paths)
            ==> {
            &&& change.envelope matches Ok(sections)
            &&& paths.len() == sections@.len()
            &&& forall|i: int|
                0 <= i < paths.len() ==> #[trigger] paths[i] == without_leading_slashes(
                    sections@[i].path_text(),
                )
        }),
        change.item.mode == ChangeMode::UnifiedPatch && change.envelope is Ok && (
        change.item.payload matches Ok(payload) && payload.patch is Some) ==> change_paths(change)
            is Ok,
{
    if let Ok(normal) = change.facts.normalized {
        if "file:"@.is_prefix_of(normal@) {
            assert("file:"@ + normal@.skip("file:"@.len() as int) =~= normal@);
        }
    }
}

/// A path loses the slashes at its front, and nothing else.
pub proof fn law_only_leading_slashes_go(path: Seq<char>)
    ensures
        ({
            let left = without_leading_slashes(path);
            &&& left.is_suffix_of(path)
            &&& left.len() > 0 ==> left[0] != '/'
            &&& forall|i: int| 0 <= i < path.len() - left.len() ==> #[trigger] path[i] == '/'
        }),
    decreases path.len(),
{
    let left = without_leading_slashes(path);
    if path.len() > 0 && path[0] == '/' {
        law_only_leading_slashes_go(path.skip(1));
        assert(left =~= path.subrange(path.len() - left.len(), path.len() as int));
        assert forall|i: int| 0 <= i < path.len() - left.len() implies #[trigger] path[i]
            == '/' by {
            if i > 0 {
                assert(path.skip(1)[i - 1] == path[i]);
            }
        }
    } else {
        assert(left =~= path.subrange(path.len() - left.len(), path.len() as int));
    }
}

/// The files that a batch reads are those of its changes, all of them and no others; the
/// first change whose files are not known is why they are not.
pub proof fn law_batch_reads_the_files_of_its_changes(changes: Seq<LocatedChange>, k: int)
    requires
        0 <= k <= changes.len(),
    ensures
        match wanted_paths(changes, k) {
            Ok(wanted) => {
                &&& forall|i: int| 0 <= i < k ==> change_paths(#[trigger] changes[i]) is Ok
                &&& forall|path: Seq<char>| #[trigger]
                    wanted.contains(path) <==> exists|i: int|
                        0 <= i < k && change_paths(#[trigger] changes[i])->Ok_0.contains(path)
            },
            Err(error) => exists|i: int|
                0 <= i < k && change_paths(#[trigger] changes[i]) == Err::<
                    Seq<Seq<char>>,
                    Seq<char>,
                >(error) && forall|j: int|
                    0 <= j < i ==> change_paths(#[trigger] changes[j]) is Ok,
        },
    decreases k,
{
    if k > 0 {
        law_batch_reads_the_files_of_its_changes(changes, k - 1);
        match wanted_paths(changes, k - 1) {
            Err(error) => {
                let i = choose|i: int|
                    0 <= i < k - 1 && change_paths(#[trigger] changes[i]) == Err::<
                        Seq<Seq<char>>,
                        Seq<char>,
                    >(error) && forall|j: int|
                        0 <= j < i ==> change_paths(#[trigger] changes[j]) is Ok;
                assert(change_paths(changes[i]) is Err);
            },
            Ok(before) => match change_paths(changes[k - 1]) {
                Err(error) => {
                    assert(change_paths(changes[k - 1]) is Err);
                },
                Ok(paths) => {
                    let wanted = wanted_paths(changes, k)->Ok_0;
                    assert forall|path: Seq<char>| #[trigger]
                        wanted.contains(path) <==> exists|i: int|
                            0 <= i < k && change_paths(#[trigger] changes[i])->Ok_0.contains(
                                path,
                            ) by {
                        assert(paths.to_set().contains(path) <==> paths.contains(path));
                        if paths.contains(path) {
                            assert(change_paths(changes[k - 1])->Ok_0.contains(path));
                        }
                        if before.contains(path) {
                            let i = choose|i: int|
                                0 <= i < k - 1 && change_paths(
                                    #[trigger] changes[i],
                                )->Ok_0.contains(path);
                            assert(change_paths(changes[i])->Ok_0.contains(path));
                        }
                    }
                },
            },
        }
    }
}

} // verus!
