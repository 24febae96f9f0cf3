//! Skills as resources: their collection, their text, and the files they come
//! with.
//!
//! A skill of the project hides the workspace's skill of the same id. A request
//! that names a project never falls back to the workspace. Ids and file names stand in
//! an address as they are.
use vstd::prelude::*;
use vstd::string::*;
use crate::handlers::skills::{
    add_labelled, labelled, scope_label, scope_name, shows_date, updated_date, updated_on, FileSkill,
};
use crate::order::{compare, law_order_is_total, law_order_is_transitive, precedes, Standing};
use crate::scan::{ends_with, occurs, starts_with, trim_end, trimmed_end};
use crate::text::{
    chars_of, contains_item, debug_form, decimal, join, joined, opt_str, opt_text, render_debug,
    render_usize, same_text, text2, text3, texts, to_uppercase, uppercase,
};

verus! {

/// Whether a skill is addressed as the caller sees it, or in a project.
#[derive(Debug)]
pub enum SkillScopeUri {
    Contextual,
    Project(String),
}

impl SkillScopeUri {
    /// The project that the address names.
    pub open spec fn project(self) -> Option<Seq<char>> {
        match self {
            SkillScopeUri::Contextual => None,
            SkillScopeUri::Project(key) => Some(key@),
        }
    }
}

/// Where the skills are, as the caller sees them or in a project.
pub open spec fn skills_address(project: Option<Seq<char>>) -> Seq<char> {
    match project {
        Some(key) => "cairn://p/"@ + key + "/skills"@,
        None => "cairn://skills"@,
    }
}

/// The first `k` steps of a path, each behind a slash.
pub open spec fn path_tail(path: Seq<Seq<char>>, k: int) -> Seq<char>
    decreases k,
{
    if k <= 0 {
        Seq::empty()
    } else {
        path_tail(path, k - 1) + "/"@ + path[k - 1]
    }
}

/// The address of a skill, or of a file that it comes with.
pub open spec fn skill_address(
    project: Option<Seq<char>>,
    id: Seq<char>,
    path: Seq<Seq<char>>,
) -> Seq<char> {
    skills_address(project) + "/"@ + id + path_tail(path, path.len() as int)
}

/// Where the skills are.
pub fn skills_uri(project: Option<&str>) -> (uri: String)
    ensures
        uri@ == skills_address(opt_str(project)),
{
    match project {
        Some(key) => text3("cairn://p/", key, "/skills"),
        None => "cairn://skills".to_owned(),
    }
}

/// The address of a skill, or of a file that it comes with.
pub fn skill_uri(project: Option<&str>, id: &str, path: &[String]) -> (uri: String)
    ensures
        uri@ == skill_address(opt_str(project), id@, texts(path@)),
{
    let base = skills_uri(project);
    let mut uri = text3(base.as_str(), "/", id);
    let ghost start = uri@;
    assert(start + path_tail(texts(path@), 0) =~= start);
    let mut k: usize = 0;
    while k < path.len()
        invariant
            k <= path@.len(),
            uri@ == start + path_tail(texts(path@), k as int),
        decreases path.len() - k,
    {
        let ghost before = path_tail(texts(path@), k as int);
        uri.append("/");
        uri.append(path[k].as_str());
        assert(texts(path@)[k as int] == path@[k as int]@);
        assert(uri@ =~= start + (before + "/"@ + path@[k as int]@));
        k += 1;
    }
    assert(texts(path@).len() == path@.len());
    uri
}

/// The address of a skill in the scope that it is addressed in.
fn scoped_uri(scope: &SkillScopeUri, id: &str, path: &[String]) -> (uri: String)
    ensures
        uri@ == skill_address(scope.project(), id@, texts(path@)),
{
    match scope {
        SkillScopeUri::Contextual => skill_uri(None, id, path),
        SkillScopeUri::Project(key) => skill_uri(Some(key.as_str()), id, path),
    }
}

/// Whether this is where a project lies.
pub open spec fn is_project_path(
    key: &str,
    id: Result<Option<String>, String>,
    path: Result<Option<String>, String>,
    found: Result<String, String>,
) -> bool {
    match (id, path) {
        (Err(error), _) => found matches Err(reason) && reason@ == "Failed to load project: "@
            + error@,
        (Ok(None), _) => found matches Err(reason) && reason@ == "No project found with key '"@
            + key@ + "'"@,
        (Ok(Some(_)), Err(error)) => found == Err::<String, String>(error),
        (Ok(Some(_)), Ok(None)) => found matches Err(reason) && reason@ == "Project '"@ + key@
            + "' has no repository path"@,
        (Ok(Some(_)), Ok(Some(dir))) => found == Ok::<String, String>(dir),
    }
}

/// The directory of the project with this key, or why there is none. `key` is in
/// upper case already.
pub fn project_path_by_key(
    key: &str,
    id: Result<Option<String>, String>,
    path: Result<Option<String>, String>,
) -> (found: Result<String, String>)
    ensures
        is_project_path(key, id, path, found),
{
    match (id, path) {
        (Err(error), _) => Err(text2("Failed to load project: ", error.as_str())),
        (Ok(None), _) => Err(text3("No project found with key '", key, "'")),
        (Ok(Some(_)), Err(error)) => Err(error),
        (Ok(Some(_)), Ok(None)) => Err(text3("Project '", key, "' has no repository path")),
        (Ok(Some(_)), Ok(Some(dir))) => Ok(dir),
    }
}

/// The key under which a project is looked up: its upper case.
pub fn project_lookup_key(project: &str) -> (key: String)
    ensures
        key@ == uppercase(project@),
{
    to_uppercase(project)
}

/// The skill that a request is for: the one that was found, but not the workspace's
/// where the request names a project.
pub open spec fn scoped_skill(found: Option<FileSkill>, explicit_project: bool) -> Option<
    FileSkill,
> {
    match found {
        Some(skill) => if explicit_project && !skill.is_project_scoped {
            None
        } else {
            Some(skill)
        },
        None => None,
    }
}

/// The skill that a request is for.
pub fn resolve_skill_for_scope(found: Result<Option<FileSkill>, String>, explicit_project: bool) -> (
    skill: Result<Option<FileSkill>, String>)
    ensures
        match found {
            Ok(loaded) => skill == Ok::<Option<FileSkill>, String>(
                scoped_skill(loaded, explicit_project),
            ),
            Err(error) => skill == Err::<Option<FileSkill>, String>(error),
        },
{
    match found {
        Err(error) => Err(error),
        Ok(None) => Ok(None),
        Ok(Some(skill)) => {
            if explicit_project && !skill.is_project_scoped {
                Ok(None)
            } else {
                Ok(Some(skill))
            }
        },
    }
}

/// A request that names a project is never answered with a skill of the workspace.
pub proof fn law_explicit_project_stays_in_the_project(found: Option<FileSkill>)
    ensures
        scoped_skill(found, true) matches Some(skill) ==> skill.is_project_scoped,
        scoped_skill(found, false) == found,
{
}

/// The link to a skill: in its project where it belongs to one that is known.
pub open spec fn link_of(skill: FileSkill, project_key: Option<Seq<char>>) -> Seq<char> {
    skill_address(
        if skill.is_project_scoped {
            project_key
        } else {
            None
        },
        skill.id@,
        Seq::empty(),
    )
}

/// The link to a skill.
pub fn skill_link(skill: &FileSkill, project_key: Option<&str>) -> (link: String)
    ensures
        link@ == link_of(*skill, opt_str(project_key)),
{
    let none: Vec<String> = Vec::new();
    assert(texts(none@) =~= Seq::empty());
    if skill.is_project_scoped {
        skill_uri(project_key, skill.id.as_str(), none.as_slice())
    } else {
        skill_uri(None, skill.id.as_str(), none.as_slice())
    }
}

/// The first place from `from` on whose skill does not come before an id.
pub open spec fn place_of(sorted: Seq<FileSkill>, id: Seq<char>, from: int) -> int
    decreases sorted.len() - from,
{
    if from >= sorted.len() || !precedes(sorted[from].id@, id) {
        from
    } else {
        place_of(sorted, id, from + 1)
    }
}

/// The skills by their ids, with one more, unless one has its id already.
pub open spec fn with_skill(sorted: Seq<FileSkill>, skill: FileSkill) -> Seq<FileSkill> {
    let at = place_of(sorted, skill.id@, 0);
    if at < sorted.len() && sorted[at].id@ == skill.id@ {
        sorted
    } else {
        sorted.insert(at, skill)
    }
}

/// The first `k` skills by their ids. Of two with the same id the first counts.
pub open spec fn skills_by_id(skills: Seq<FileSkill>, k: int) -> Seq<FileSkill>
    decreases k,
{
    if k <= 0 {
        Seq::empty()
    } else {
        with_skill(skills_by_id(skills, k - 1), skills[k - 1])
    }
}

/// Whether the ids of skills ascend.
pub open spec fn ids_ascend(skills: Seq<FileSkill>) -> bool {
    forall|i: int, j: int|
        0 <= i < j < skills.len() ==> precedes(
            (#[trigger] skills[i]).id@,
            (#[trigger] skills[j]).id@,
        )
}

/// All before the place come before the id, and the place is within reach.
proof fn lemma_place(sorted: Seq<FileSkill>, id: Seq<char>, from: int)
    requires
        0 <= from <= sorted.len(),
    ensures
        from <= place_of(sorted, id, from) <= sorted.len(),
        forall|i: int|
            from <= i < place_of(sorted, id, from) ==> precedes((#[trigger] sorted[i]).id@, id),
        place_of(sorted, id, from) < sorted.len() ==> !precedes(
            sorted[place_of(sorted, id, from)].id@,
            id,
        ),
    decreases sorted.len() - from,
{
    if from < sorted.len() && precedes(sorted[from].id@, id) {
        lemma_place(sorted, id, from + 1);
    }
}

/// One more skill keeps the ids ascending.
proof fn lemma_with_skill(sorted: Seq<FileSkill>, skill: FileSkill)
    requires
        ids_ascend(sorted),
    ensures
        ids_ascend(with_skill(sorted, skill)),
{
    let id = skill.id@;
    lemma_place(sorted, id, 0);
    let at = place_of(sorted, id, 0);
    if !(at < sorted.len() && sorted[at].id@ == id) {
        let after = sorted.insert(at, skill);
        assert forall|i: int, j: int| 0 <= i < j < after.len() implies precedes(
            (#[trigger] after[i]).id@,
            (#[trigger] after[j]).id@,
        ) by {
            if i < at && j == at {
                assert(after[i] == sorted[i]);
            } else if i == at {
                assert(after[j] == sorted[j - 1]);
                law_order_is_total(sorted[at].id@, id);
                if j - 1 > at {
                    assert(precedes(sorted[at].id@, sorted[j - 1].id@));
                    law_order_is_transitive(id, sorted[at].id@, sorted[j - 1].id@);
                }
            } else if i < at && j > at {
                assert(after[i] == sorted[i]);
                assert(after[j] == sorted[j - 1]);
            } else if j < at {
                assert(after[i] == sorted[i]);
                assert(after[j] == sorted[j]);
            } else {
                assert(after[i] == sorted[i - 1]);
                assert(after[j] == sorted[j - 1]);
            }
        }
    }
}

/// The collection is in ascending order of the ids, so no id occurs twice.
pub proof fn law_collection_is_sorted(skills: Seq<FileSkill>, k: int)
    requires
        0 <= k <= skills.len(),
    ensures
        ids_ascend(skills_by_id(skills, k)),
    decreases k,
{
    if k > 0 {
        law_collection_is_sorted(skills, k - 1);
        lemma_with_skill(skills_by_id(skills, k - 1), skills[k - 1]);
    }
}

/// Whether one of the skills has an id.
pub open spec fn has_id(skills: Seq<FileSkill>, id: Seq<char>) -> bool {
    exists|p: int| 0 <= p < skills.len() && (#[trigger] skills[p]).id@ == id
}

/// Whether a skill is the first of the first `k` with its id.
pub open spec fn is_first_with_id(skills: Seq<FileSkill>, skill: FileSkill, k: int) -> bool {
    exists|i: int|
        0 <= i < k && #[trigger] skills[i] == skill && !has_id(skills.take(i), skill.id@)
}

/// One more skill takes no id away, and brings its own.
proof fn lemma_with_skill_has(sorted: Seq<FileSkill>, skill: FileSkill, id: Seq<char>)
    requires
        has_id(sorted, id) || id == skill.id@,
    ensures
        has_id(with_skill(sorted, skill), id),
{
    lemma_place(sorted, skill.id@, 0);
    let at = place_of(sorted, skill.id@, 0);
    let after = with_skill(sorted, skill);
    if has_id(sorted, id) {
        let q = choose|q: int| 0 <= q < sorted.len() && (#[trigger] sorted[q]).id@ == id;
        if after.len() == sorted.len() || q < at {
            assert(after[q] == sorted[q]);
        } else {
            assert(after[q + 1] == sorted[q]);
        }
    } else {
        assert(after[at].id@ == id);
    }
}

/// Each skill was there before, or is the one more whose id was not.
proof fn lemma_with_skill_from(sorted: Seq<FileSkill>, skill: FileSkill, p: int)
    requires
        ids_ascend(sorted),
        0 <= p < with_skill(sorted, skill).len(),
    ensures
        sorted.contains(with_skill(sorted, skill)[p]) || (with_skill(sorted, skill)[p] == skill
            && !has_id(sorted, skill.id@)),
{
    lemma_place(sorted, skill.id@, 0);
    let at = place_of(sorted, skill.id@, 0);
    let after = with_skill(sorted, skill);
    if at < sorted.len() && sorted[at].id@ == skill.id@ {
        assert(after[p] == sorted[p]);
    } else if p < at {
        assert(after[p] == sorted[p]);
    } else if p > at {
        assert(after[p] == sorted[p - 1]);
    } else {
        assert(after[p] == skill);
        if has_id(sorted, skill.id@) {
            let q = choose|q: int|
                0 <= q < sorted.len() && (#[trigger] sorted[q]).id@ == skill.id@;
            law_order_is_total(skill.id@, skill.id@);
            if q < at {
                assert(precedes(sorted[q].id@, skill.id@));
            } else if q > at {
                assert(precedes(sorted[at].id@, sorted[q].id@));
            }
        }
    }
}

/// No id is lost: every skill has one of its id in the collection.
pub proof fn law_collection_has_every_id(skills: Seq<FileSkill>, k: int)
    requires
        0 <= k <= skills.len(),
    ensures
        forall|id: Seq<char>| #[trigger]
            has_id(skills.take(k), id) ==> has_id(skills_by_id(skills, k), id),
    decreases k,
{
    if k > 0 {
        law_collection_has_every_id(skills, k - 1);
        let before = skills_by_id(skills, k - 1);
        assert forall|id: Seq<char>| #[trigger] has_id(skills.take(k), id) implies has_id(
            skills_by_id(skills, k),
            id,
        ) by {
            let some = skills.take(k);
            let i = choose|i: int| 0 <= i < some.len() && (#[trigger] some[i]).id@ == id;
            if i < k - 1 {
                assert(skills.take(k - 1)[i].id@ == id);
                assert(has_id(skills.take(k - 1), id));
            }
            lemma_with_skill_has(before, skills[k - 1], id);
        }
    }
}

/// Every skill of the collection is the first with its id: a skill of the project,
/// which is listed first, hides the one of the workspace.
pub proof fn law_first_skill_hides_the_others(skills: Seq<FileSkill>, k: int)
    requires
        0 <= k <= skills.len(),
    ensures
        forall|p: int|
            0 <= p < skills_by_id(skills, k).len() ==> is_first_with_id(
                skills,
                #[trigger] skills_by_id(skills, k)[p],
                k,
            ),
    decreases k,
{
    if k > 0 {
        law_first_skill_hides_the_others(skills, k - 1);
        law_collection_is_sorted(skills, k - 1);
        law_collection_has_every_id(skills, k - 1);
        let before = skills_by_id(skills, k - 1);
        let after = skills_by_id(skills, k);
        let skill = skills[k - 1];
        assert forall|p: int| 0 <= p < after.len() implies is_first_with_id(
            skills,
            #[trigger] after[p],
            k,
        ) by {
            lemma_with_skill_from(before, skill, p);
            if before.contains(after[p]) {
                let q = choose|q: int| 0 <= q < before.len() && before[q] == after[p];
                assert(is_first_with_id(skills, before[q], k - 1));
                let i = choose|i: int|
                    0 <= i < k - 1 && #[trigger] skills[i] == before[q] && !has_id(
                        skills.take(i),
                        before[q].id@,
                    );
                assert(skills[i] == after[p]);
            } else {
                assert(skills[k - 1] == after[p]);
                assert(!has_id(skills.take(k - 1), skill.id@));
            }
        }
    }
}

/// Orders skills by their ids; of two with the same id the first counts.
pub fn collect_by_id(skills: Vec<FileSkill>) -> (sorted: Vec<FileSkill>)
    ensures
        sorted@ == skills_by_id(skills@, skills@.len() as int),
{
    let ghost all = skills@;
    let mut sorted: Vec<FileSkill> = Vec::new();
    let mut k: usize = 0;
    let n: usize = skills.len();
    for skill in it: skills
        invariant
            it.seq() == all,
            n == all.len(),
            k == it.index(),
            sorted@ == skills_by_id(all, k as int),
    {
        assert(skill == all[k as int]);
        let mut at: usize = 0;
        let mut same = false;
        let mut going = true;
        while going && at < sorted.len()
            invariant
                at <= sorted@.len(),
                going ==> place_of(sorted@, skill.id@, at as int) == place_of(
                    sorted@,
                    skill.id@,
                    0,
                ),
                going ==> !same,
                !going ==> at < sorted@.len() && at == place_of(sorted@, skill.id@, 0) && same == (
                sorted@[at as int].id@ == skill.id@),
            decreases (if going {
                1int
            } else {
                0
            }), sorted.len() - at,
        {
            match compare(sorted[at].id.as_str(), skill.id.as_str()) {
                Standing::Before => {
                    at += 1;
                },
                Standing::Same => {
                    proof {
                        law_order_is_total(skill.id@, skill.id@);
                    }
                    same = true;
                    going = false;
                },
                Standing::Behind => {
                    proof {
                        law_order_is_total(sorted@[at as int].id@, skill.id@);
                    }
                    going = false;
                },
            }
        }
        if !same {
            sorted.insert(at, skill);
        }
        k += 1;
    }
    sorted
}

/// Whether a collection shows a skill: the project's own always, an inherited one
/// unless the project has disabled it.
pub open spec fn is_shown(skill: FileSkill, disabled: Seq<Seq<char>>) -> bool {
    skill.is_project_scoped || !disabled.contains(skill.id@)
}

/// How a collection shows a skill.
pub open spec fn collection_line(skill: FileSkill, project_key: Option<Seq<char>>) -> Seq<char> {
    "- ["@ + skill.id@ + "]("@ + link_of(skill, project_key) + ") ["@ + scope_name(skill) + "] — "@
        + skill.description@ + "\n"@
}

/// How a collection shows the first `k` skills.
pub open spec fn collection_lines(
    skills: Seq<FileSkill>,
    disabled: Seq<Seq<char>>,
    project_key: Option<Seq<char>>,
    k: int,
) -> Seq<char>
    decreases k,
{
    if k <= 0 {
        Seq::empty()
    } else {
        let before = collection_lines(skills, disabled, project_key, k - 1);
        if is_shown(skills[k - 1], disabled) {
            before + collection_line(skills[k - 1], project_key)
        } else {
            before
        }
    }
}

/// How many of the first `k` skills a collection shows.
pub open spec fn shown_count(skills: Seq<FileSkill>, disabled: Seq<Seq<char>>, k: int) -> nat
    decreases k,
{
    if k <= 0 {
        0
    } else {
        shown_count(skills, disabled, k - 1) + if is_shown(skills[k - 1], disabled) {
            1nat
        } else {
            0
        }
    }
}

/// The head of a collection.
pub open spec fn collection_head(project_key: Option<Seq<char>>) -> Seq<char> {
    match project_key {
        Some(key) => "# Skills — "@ + key + " context\n\n"@,
        None => "# Skills — workspace\n\n"@,
    }
}

/// What a collection offers.
pub open spec fn collection_actions(explicit_project: Option<Seq<char>>) -> Seq<char> {
    "## actions\n- [create skill]("@ + skills_address(explicit_project)
        + "): required `payload.name`, `payload.description`, `payload.prompt`; optional `payload.allowedTools`, `payload.model`, `payload.sourceIssue`\n"@
}

/// The list of a collection.
pub open spec fn collection_list(
    sorted: Seq<FileSkill>,
    disabled: Seq<Seq<char>>,
    project_key: Option<Seq<char>>,
) -> Seq<char> {
    let k = sorted.len() as int;
    if shown_count(sorted, disabled, k) == 0 {
        "No skills found.\n\n"@
    } else {
        collection_lines(sorted, disabled, project_key, k) + "\n"@
    }
}

/// How a collection reads.
pub open spec fn collection_text(
    sorted: Seq<FileSkill>,
    disabled: Seq<Seq<char>>,
    project_key: Option<Seq<char>>,
    explicit_project: Option<Seq<char>>,
) -> Seq<char> {
    collection_head(project_key) + (decimal(
        shown_count(sorted, disabled, sorted.len() as int),
    ) + " skill(s)\n\n"@) + collection_list(sorted, disabled, project_key) + collection_actions(
        explicit_project,
    )
}

/// How a collection shows a skill.
fn render_collection_line(skill: &FileSkill, project_key: Option<&str>) -> (line: String)
    ensures
        line@ == collection_line(*skill, opt_str(project_key)),
{
    let mut line = text3("- [", skill.id.as_str(), "](");
    line.append(skill_link(skill, project_key).as_str());
    line.append(") [");
    line.append(scope_label(skill));
    line.append("] — ");
    line.append(skill.description.as_str());
    line.append("\n");
    line
}

/// The list of a collection, and how many skills it shows.
fn render_collection_list(
    sorted: &Vec<FileSkill>,
    disabled: &Vec<String>,
    project_key: Option<&str>,
) -> (rendered: (String, usize))
    ensures
        rendered.0@ == collection_list(sorted@, texts(disabled@), opt_str(project_key)),
        rendered.1 == shown_count(sorted@, texts(disabled@), sorted@.len() as int),
{
    let mut lines = String::new();
    assert(lines@ =~= Seq::empty());
    let mut count: usize = 0;
    let mut k: usize = 0;
    while k < sorted.len()
        invariant
            k <= sorted@.len(),
            count <= k,
            count == shown_count(sorted@, texts(disabled@), k as int),
            lines@ == collection_lines(
                sorted@,
                texts(disabled@),
                opt_str(project_key),
                k as int,
            ),
        decreases sorted.len() - k,
    {
        let skill = &sorted[k];
        if skill.is_project_scoped || !contains_item(disabled, skill.id.as_str()) {
            lines.append(render_collection_line(skill, project_key).as_str());
            count += 1;
        }
        k += 1;
    }
    if count == 0 {
        ("No skills found.\n\n".to_owned(), count)
    } else {
        lines.append("\n");
        (lines, count)
    }
}

/// Renders the collection of skills. `disabled` are the inherited skills that the
/// project has disabled; where that cannot be read none are.
pub fn read_skills_collection(
    skills: Result<Vec<FileSkill>, String>,
    disabled: &Vec<String>,
    project_key: Option<&str>,
    explicit_project: Option<&str>,
) -> (text: String)
    ensures
        text@ == match skills {
            Ok(listed) => collection_text(
                skills_by_id(listed@, listed@.len() as int),
                texts(disabled@),
                opt_str(project_key),
                opt_str(explicit_project),
            ),
            Err(error) => "Error listing skills: "@ + error@,
        },
{
    let listed = match skills {
        Ok(listed) => listed,
        Err(error) => return text2("Error listing skills: ", error.as_str()),
    };
    let sorted = collect_by_id(listed);
    let (list, count) = render_collection_list(&sorted, disabled, project_key);
    let head = match project_key {
        Some(key) => text3("# Skills — ", key, " context\n\n"),
        None => "# Skills — workspace\n\n".to_owned(),
    };
    let counted = text2(render_usize(count).as_str(), " skill(s)\n\n");
    let actions = text3(
        "## actions\n- [create skill](",
        skills_uri(explicit_project).as_str(),
        "): required `payload.name`, `payload.description`, `payload.prompt`; optional `payload.allowedTools`, `payload.model`, `payload.sourceIssue`\n",
    );
    let mut text = text3(head.as_str(), counted.as_str(), list.as_str());
    text.append(actions.as_str());
    text
}

/// That a skill is not found, in the project that was named or at all.
pub open spec fn skill_missing(explicit_project: Option<Seq<char>>, id: Seq<char>) -> Seq<char> {
    match explicit_project {
        Some(project) => "Skill not found in project "@ + uppercase(project) + ": "@ + id,
        None => "Skill not found: "@ + id,
    }
}

/// That a skill is not found.
fn render_missing(explicit_project: Option<&str>, id: &str) -> (text: String)
    ensures
        text@ == skill_missing(opt_str(explicit_project), id@),
{
    match explicit_project {
        Some(project) => {
            let mut text = text3("Skill not found in project ", to_uppercase(project).as_str(), ": ");
            text.append(id);
            text
        },
        None => text2("Skill not found: ", id),
    }
}

/// The skill that is read, or what is said in its place. An inherited skill that
/// the project has disabled reads as not found; the project's own is never hidden.
pub open spec fn readable_skill(
    found: Result<Option<FileSkill>, String>,
    id: Seq<char>,
    explicit_project: Option<Seq<char>>,
    disabled: Seq<Seq<char>>,
) -> Result<FileSkill, Seq<char>> {
    match found {
        Err(error) => Err("Error loading skill: "@ + error@),
        Ok(loaded) => match scoped_skill(loaded, explicit_project is Some) {
            None => Err(skill_missing(explicit_project, id)),
            Some(skill) => if is_shown(skill, disabled) {
                Ok(skill)
            } else {
                Err(skill_missing(explicit_project, id))
            },
        },
    }
}

/// The skill that is read, or what is said in its place.
pub fn resolve_readable(
    found: Result<Option<FileSkill>, String>,
    id: &str,
    explicit_project: Option<&str>,
    disabled: &Vec<String>,
) -> (skill: Result<FileSkill, String>)
    ensures
        match (
            skill,
            readable_skill(found, id@, opt_str(explicit_project), texts(disabled@)),
        ) {
            (Ok(read), Ok(model)) => read == model,
            (Err(error), Err(reason)) => error@ == reason,
            _ => false,
        },
{
    let loaded = match resolve_skill_for_scope(found, explicit_project.is_some()) {
        Err(error) => return Err(text2("Error loading skill: ", error.as_str())),
        Ok(loaded) => loaded,
    };
    match loaded {
        None => Err(render_missing(explicit_project, id)),
        Some(skill) => {
            if skill.is_project_scoped || !contains_item(disabled, skill.id.as_str()) {
                Ok(skill)
            } else {
                Err(render_missing(explicit_project, id))
            }
        },
    }
}

/// A letter of ASCII in lower case; any other character as it is.
pub open spec fn ascii_lower(c: char) -> char {
    if 'A' <= c && c <= 'Z' {
        ((c as u8) + 32) as u8 as char
    } else {
        c
    }
}

/// Whether two texts are the same but for the case of ASCII letters.
pub open spec fn same_ignoring_case(a: Seq<char>, b: Seq<char>) -> bool {
    a.len() == b.len() && forall|i: int|
        0 <= i < a.len() ==> ascii_lower(#[trigger] a[i]) == ascii_lower(b[i])
}

/// A letter of ASCII in lower case.
fn lower(c: char) -> (out: char)
    ensures
        out == ascii_lower(c),
{
    if 'A' <= c && c <= 'Z' {
        ((c as u8) + 32) as char
    } else {
        c
    }
}

/// Whether two texts are the same but for the case of ASCII letters.
pub fn eq_ignore_ascii_case(a: &str, b: &str) -> (same: bool)
    ensures
        same == same_ignoring_case(a@, b@),
{
    let left = chars_of(a);
    let right = chars_of(b);
    if left.len() != right.len() {
        return false;
    }
    let mut i: usize = 0;
    while i < left.len()
        invariant
            left@ == a@,
            right@ == b@,
            left@.len() == right@.len(),
            i <= left@.len(),
            forall|j: int| 0 <= j < i ==> ascii_lower(#[trigger] a@[j]) == ascii_lower(b@[j]),
        decreases left.len() - i,
    {
        if lower(left[i]) != lower(right[i]) {
            assert(ascii_lower(a@[i as int]) != ascii_lower(b@[i as int]));
            return false;
        }
        i += 1;
    }
    true
}

/// What is read of a skill.
#[derive(Debug)]
pub enum SkillRead {
    /// This text.
    Text(String),
    /// The file or directory at the path.
    Subpath,
}

/// Whether a path names the text of the skill itself.
pub open spec fn names_skill_file(path: Seq<Seq<char>>) -> bool {
    path.len() == 1 && same_ignoring_case(path[0], "SKILL.md"@)
}

/// Whether a path of a skill is read like this.
pub open spec fn reads(
    skill: &FileSkill,
    path: &Vec<String>,
    scope: &SkillScopeUri,
    read: SkillRead,
) -> bool {
    if path@.len() == 0 {
        read matches SkillRead::Text(text) && text@ == rendered_skill(*skill, scope.project())
    } else if names_skill_file(texts(path@)) {
        read matches SkillRead::Text(text) && text@
            == "SKILL.md content is served at the skill root: "@ + skill_address(
            scope.project(),
            skill.id@,
            Seq::empty(),
        )
    } else {
        read is Subpath
    }
}

/// Reads a skill: its own text without a path, else what the path names. The text
/// of the skill is not a file of its own.
pub fn read_skill(skill: &FileSkill, path: &Vec<String>, scope: &SkillScopeUri) -> (read: SkillRead)
    requires
        path@.len() == 0 ==> shows_date(*skill),
    ensures
        reads(skill, path, scope, read),
{
    assert(texts(path@).len() == path@.len());
    if path.len() == 0 {
        return SkillRead::Text(render_skill(skill, scope));
    }
    assert(texts(path@)[0] == path@[0]@);
    if path.len() == 1 && eq_ignore_ascii_case(path[0].as_str(), "SKILL.md") {
        let none: Vec<String> = Vec::new();
        assert(texts(none@) =~= Seq::empty());
        let root = scoped_uri(scope, skill.id.as_str(), none.as_slice());
        return SkillRead::Text(
            text2("SKILL.md content is served at the skill root: ", root.as_str()),
        );
    }
    SkillRead::Subpath
}

/// The scope that a skill is addressed in.
pub fn skill_scope(explicit_project: Option<&str>) -> (scope: SkillScopeUri)
    ensures
        scope.project() == match explicit_project {
            Some(project) => Some(uppercase(project@)),
            None => None,
        },
{
    match explicit_project {
        Some(project) => SkillScopeUri::Project(to_uppercase(project)),
        None => SkillScopeUri::Contextual,
    }
}

/// Where a skill comes from, line by line.
pub open spec fn provenance_lines(skill: FileSkill) -> Seq<Seq<char>> {
    match skill.meta {
        Some(meta) => labelled("- updated: "@, updated_date(skill)) + labelled(
            "- updated by: "@,
            opt_text(meta.updated_by),
        ) + labelled("- source issue: "@, opt_text(meta.source_issue)),
        None => Seq::empty(),
    }
}

/// Where a skill comes from.
pub open spec fn provenance(skill: FileSkill) -> Seq<char> {
    let lines = provenance_lines(skill);
    if lines.len() == 0 {
        Seq::empty()
    } else {
        "## provenance\n"@ + joined(lines, "\n"@) + "\n\n"@
    }
}

/// The line of a directory that a skill comes with, where it does.
pub open spec fn package_line(
    there: bool,
    label: Seq<char>,
    project: Option<Seq<char>>,
    id: Seq<char>,
) -> Seq<char> {
    if there {
        "- ["@ + label + "]("@ + skill_address(project, id, seq![label]) + ")\n"@
    } else {
        Seq::empty()
    }
}

/// The directories that a skill comes with.
pub open spec fn package(skill: FileSkill, project: Option<Seq<char>>) -> Seq<char> {
    if skill.has_references || skill.has_scripts || skill.has_assets {
        "## package\n"@ + package_line(
            skill.has_references,
            "references"@,
            project,
            skill.id@,
        ) + package_line(skill.has_scripts, "scripts"@, project, skill.id@) + package_line(
            skill.has_assets,
            "assets"@,
            project,
            skill.id@,
        ) + "\n"@
    } else {
        Seq::empty()
    }
}

/// What a skill offers.
pub open spec fn skill_actions(skill: FileSkill, project: Option<Seq<char>>) -> Seq<char> {
    let uri = skill_address(project, skill.id@, Seq::empty());
    "## actions\n- [patch skill]("@ + uri
        + "): optional `payload.description`, one of `payload.prompt` | `payload.appendToPrompt` | `payload.replaceSection`, `payload.allowedTools`, `payload.model`\n- [delete skill]("@
        + uri + "): optional `payload.reason`\n"@
}

/// The head of a skill: its name, its scope and its description.
pub open spec fn skill_head(skill: FileSkill) -> Seq<char> {
    "# Skill: "@ + skill.name@ + " (`"@ + skill.id@ + "`)\n\n["@ + scope_name(skill) + "]\n\n"@
        + skill.description@ + "\n\n"@
}

/// How a skill reads at its root: its head, its text, where it comes from, what it
/// comes with and what it offers.
pub open spec fn rendered_skill(skill: FileSkill, project: Option<Seq<char>>) -> Seq<char> {
    skill_head(skill) + (trimmed_end(skill.prompt@) + "\n\n"@) + provenance(skill) + package(
        skill,
        project,
    ) + skill_actions(skill, project)
}

/// The head of a skill.
fn render_head(skill: &FileSkill) -> (head: String)
    ensures
        head@ == skill_head(*skill),
{
    let mut head = text3("# Skill: ", skill.name.as_str(), " (`");
    head.append(skill.id.as_str());
    head.append("`)\n\n[");
    head.append(scope_label(skill));
    head.append("]\n\n");
    head.append(skill.description.as_str());
    head.append("\n\n");
    head
}

/// Where a skill comes from.
fn render_provenance(skill: &FileSkill) -> (text: String)
    requires
        shows_date(*skill),
    ensures
        text@ == provenance(*skill),
{
    let mut lines: Vec<String> = Vec::new();
    assert(texts(lines@) =~= Seq::empty());
    if let Some(meta) = &skill.meta {
        add_labelled(&mut lines, "- updated: ", &updated_on(skill));
        add_labelled(&mut lines, "- updated by: ", &meta.updated_by);
        add_labelled(&mut lines, "- source issue: ", &meta.source_issue);
    }
    assert(texts(lines@) =~= provenance_lines(*skill));
    assert(texts(lines@).len() == lines@.len());
    if lines.len() == 0 {
        let none = String::new();
        assert(none@ =~= Seq::empty());
        none
    } else {
        text3("## provenance\n", join(&lines, "\n").as_str(), "\n\n")
    }
}

/// The line of a directory that a skill comes with, where it does.
fn render_package_line(there: bool, label: &str, scope: &SkillScopeUri, id: &str) -> (line: String)
    ensures
        line@ == package_line(there, label@, scope.project(), id@),
{
    if there {
        let mut path: Vec<String> = Vec::new();
        path.push(label.to_owned());
        assert(texts(path@) =~= seq![label@]);
        let uri = scoped_uri(scope, id, path.as_slice());
        let mut line = text3("- [", label, "](");
        line.append(uri.as_str());
        line.append(")\n");
        line
    } else {
        let none = String::new();
        assert(none@ =~= Seq::empty());
        none
    }
}

/// The directories that a skill comes with.
fn render_package(skill: &FileSkill, scope: &SkillScopeUri) -> (text: String)
    ensures
        text@ == package(*skill, scope.project()),
{
    if skill.has_references || skill.has_scripts || skill.has_assets {
        let id = skill.id.as_str();
        let references = render_package_line(skill.has_references, "references", scope, id);
        let scripts = render_package_line(skill.has_scripts, "scripts", scope, id);
        let assets = render_package_line(skill.has_assets, "assets", scope, id);
        let mut text = text3("## package\n", references.as_str(), scripts.as_str());
        text.append(assets.as_str());
        text.append("\n");
        text
    } else {
        let none = String::new();
        assert(none@ =~= Seq::empty());
        none
    }
}

/// What a skill offers.
fn render_actions(skill: &FileSkill, scope: &SkillScopeUri) -> (text: String)
    ensures
        text@ == skill_actions(*skill, scope.project()),
{
    let none: Vec<String> = Vec::new();
    assert(texts(none@) =~= Seq::empty());
    let uri = scoped_uri(scope, skill.id.as_str(), none.as_slice());
    let mut text = text3(
        "## actions\n- [patch skill](",
        uri.as_str(),
        "): optional `payload.description`, one of `payload.prompt` | `payload.appendToPrompt` | `payload.replaceSection`, `payload.allowedTools`, `payload.model`\n- [delete skill](",
    );
    text.append(uri.as_str());
    text.append("): optional `payload.reason`\n");
    text
}

/// Renders a skill at its root.
pub fn render_skill(skill: &FileSkill, scope: &SkillScopeUri) -> (text: String)
    requires
        shows_date(*skill),
    ensures
        text@ == rendered_skill(*skill, scope.project()),
{
    let body = text2(trim_end(skill.prompt.as_str()).as_str(), "\n\n");
    let mut text = text3(
        render_head(skill).as_str(),
        body.as_str(),
        render_provenance(skill).as_str(),
    );
    text.append(render_package(skill, scope).as_str());
    text.append(render_actions(skill, scope).as_str());
    text
}

/// An entry of a directory: its name, and whether it is a directory.
#[derive(Debug)]
pub struct DirEntry {
    pub name: String,
    pub is_dir: bool,
}

/// Whether an entry comes before another: by name, and a file before a directory
/// of the same name.
pub open spec fn entry_precedes(a: DirEntry, b: DirEntry) -> bool {
    precedes(a.name@, b.name@) || (a.name@ == b.name@ && !a.is_dir && b.is_dir)
}

/// The first place from `from` on whose entry does not come before another.
pub open spec fn entry_place(sorted: Seq<DirEntry>, entry: DirEntry, from: int) -> int
    decreases sorted.len() - from,
{
    if from >= sorted.len() || !entry_precedes(sorted[from], entry) {
        from
    } else {
        entry_place(sorted, entry, from + 1)
    }
}

/// The first `k` entries in order.
pub open spec fn sorted_entries(entries: Seq<DirEntry>, k: int) -> Seq<DirEntry>
    decreases k,
{
    if k <= 0 {
        Seq::empty()
    } else {
        let before = sorted_entries(entries, k - 1);
        let entry = entries[k - 1];
        before.insert(entry_place(before, entry, 0), entry)
    }
}

/// Whether no entry comes before one that stands in front of it.
pub open spec fn is_sorted(entries: Seq<DirEntry>) -> bool {
    forall|i: int, j: int|
        0 <= i < j < entries.len() ==> !entry_precedes(#[trigger] entries[j], #[trigger] entries[i])
}

/// Ordered entries are the same entries, each as often as before, and none of them comes
/// before one that stands in front of it.
pub proof fn law_entries_are_sorted(entries: Seq<DirEntry>, k: int)
    requires
        0 <= k <= entries.len(),
    ensures
        is_sorted(sorted_entries(entries, k)),
        sorted_entries(entries, k).to_multiset() == entries.take(k).to_multiset(),
    decreases k,
{
    if k > 0 {
        law_entries_are_sorted(entries, k - 1);
        let before = sorted_entries(entries, k - 1);
        let entry = entries[k - 1];
        let at = entry_place(before, entry, 0);
        let after = sorted_entries(entries, k);
        lemma_entry_place(before, entry, 0);
        assert forall|i: int, j: int| 0 <= i < j < after.len() implies !entry_precedes(
            #[trigger] after[j],
            #[trigger] after[i],
        ) by {
            if i < at && j == at {
                law_order_is_total(before[i].name@, entry.name@);
            } else if i == at {
                assert(after[j] == before[j - 1]);
                if j - 1 > at {
                    lemma_entries_stay_behind(entry, before[at], before[j - 1]);
                }
            } else {
                let from = if i < at {
                    i
                } else {
                    i - 1
                };
                let to = if j < at {
                    j
                } else {
                    j - 1
                };
                assert(after[i] == before[from] && after[j] == before[to]);
            }
        }
        before.to_multiset_ensures();
        after.to_multiset_ensures();
        entries.take(k - 1).to_multiset_ensures();
        assert(after.remove(at) =~= before);
        assert(after[at] == entry);
        assert(after.contains(entry));
        assert(after.to_multiset() =~= before.to_multiset().insert(entry));
        assert(entries.take(k) =~= entries.take(k - 1).push(entry));
    } else {
        assert(entries.take(k) =~= Seq::empty());
    }
}

/// The place of an entry: all before it come before the entry, the one there does not.
proof fn lemma_entry_place(sorted: Seq<DirEntry>, entry: DirEntry, from: int)
    requires
        0 <= from <= sorted.len(),
    ensures
        from <= entry_place(sorted, entry, from) <= sorted.len(),
        forall|i: int|
            from <= i < entry_place(sorted, entry, from) ==> entry_precedes(
                #[trigger] sorted[i],
                entry,
            ),
        entry_place(sorted, entry, from) < sorted.len() ==> !entry_precedes(
            sorted[entry_place(sorted, entry, from)],
            entry,
        ),
    decreases sorted.len() - from,
{
    if from < sorted.len() && entry_precedes(sorted[from], entry) {
        lemma_entry_place(sorted, entry, from + 1);
    }
}

/// What does not come before a second entry, which does not come before a first, does not
/// come before the first.
proof fn lemma_entries_stay_behind(first: DirEntry, second: DirEntry, third: DirEntry)
    requires
        !entry_precedes(second, first),
        !entry_precedes(third, second),
    ensures
        !entry_precedes(third, first),
{
    let (a, b, c) = (first.name@, second.name@, third.name@);
    law_order_is_total(a, b);
    law_order_is_total(b, c);
    law_order_is_total(a, c);
    if precedes(a, b) && precedes(b, c) {
        law_order_is_transitive(a, b, c);
    }
}

/// Orders the entries of a directory.
pub fn sort_entries(entries: Vec<DirEntry>) -> (sorted: Vec<DirEntry>)
    ensures
        sorted@ == sorted_entries(entries@, entries@.len() as int),
        sorted@.len() == entries@.len(),
        is_sorted(sorted@),
        sorted@.to_multiset() == entries@.to_multiset(),
{
    let ghost all = entries@;
    let mut sorted: Vec<DirEntry> = Vec::new();
    let mut k: usize = 0;
    let n: usize = entries.len();
    for entry in it: entries
        invariant
            it.seq() == all,
            n == all.len(),
            k == it.index(),
            sorted@ == sorted_entries(all, k as int),
            sorted@.len() == k,
    {
        assert(entry == all[k as int]);
        let mut at: usize = 0;
        let mut going = true;
        while going && at < sorted.len()
            invariant
                at <= sorted@.len(),
                going ==> entry_place(sorted@, entry, at as int) == entry_place(
                    sorted@,
                    entry,
                    0,
                ),
                !going ==> at == entry_place(sorted@, entry, 0),
            decreases (if going {
                1int
            } else {
                0
            }), sorted.len() - at,
        {
            let before = match compare(sorted[at].name.as_str(), entry.name.as_str()) {
                Standing::Before => true,
                Standing::Same => {
                    proof {
                        law_order_is_total(entry.name@, entry.name@);
                    }
                    !sorted[at].is_dir && entry.is_dir
                },
                Standing::Behind => {
                    proof {
                        law_order_is_total(sorted@[at as int].name@, entry.name@);
                    }
                    false
                },
            };
            if before {
                at += 1;
            } else {
                going = false;
            }
        }
        sorted.insert(at, entry);
        k += 1;
    }
    proof {
        law_entries_are_sorted(all, all.len() as int);
        assert(all.take(all.len() as int) =~= all);
    }
    sorted
}

/// The line of an entry of a directory; a directory ends in a slash.
pub open spec fn entry_line(
    entry: DirEntry,
    id: Seq<char>,
    path: Seq<Seq<char>>,
    project: Option<Seq<char>>,
) -> Seq<char> {
    "- ["@ + entry.name@ + if entry.is_dir {
        "/]("@
    } else {
        "]("@
    } + skill_address(project, id, path.push(entry.name@)) + ")\n"@
}

/// The lines of the first `k` entries of a directory.
pub open spec fn entry_lines(
    entries: Seq<DirEntry>,
    id: Seq<char>,
    path: Seq<Seq<char>>,
    project: Option<Seq<char>>,
    k: int,
) -> Seq<char>
    decreases k,
{
    if k <= 0 {
        Seq::empty()
    } else {
        entry_lines(entries, id, path, project, k - 1) + entry_line(
            entries[k - 1],
            id,
            path,
            project,
        )
    }
}

/// How a directory of a skill reads.
pub open spec fn directory_text(
    id: Seq<char>,
    path: Seq<Seq<char>>,
    project: Option<Seq<char>>,
    entries: Seq<DirEntry>,
) -> Seq<char> {
    "# "@ + id + "/"@ + joined(path, "/"@) + "\n\n"@ + if entries.len() == 0 {
        "(empty)\n"@
    } else {
        entry_lines(
            sorted_entries(entries, entries.len() as int),
            id,
            path,
            project,
            entries.len() as int,
        )
    }
}

/// The line of an entry of a directory.
fn render_entry(entry: &DirEntry, id: &str, path: &Vec<String>, scope: &SkillScopeUri) -> (line:
    String)
    ensures
        line@ == entry_line(*entry, id@, texts(path@), scope.project()),
{
    let mut child = crate::text::clone_all(path);
    let ghost before = texts(child@);
    child.push(entry.name.clone());
    assert(texts(child@) =~= before.push(entry.name@));
    let uri = scoped_uri(scope, id, child.as_slice());
    let close = if entry.is_dir {
        "/]("
    } else {
        "]("
    };
    let mut line = text3("- [", entry.name.as_str(), close);
    line.append(uri.as_str());
    line.append(")\n");
    line
}

/// Renders a directory of a skill, or says why it cannot be read.
pub fn render_directory(
    id: &str,
    path: &Vec<String>,
    scope: &SkillScopeUri,
    entries: Result<Vec<DirEntry>, String>,
) -> (text: String)
    ensures
        text@ == match entries {
            Ok(found) => directory_text(id@, texts(path@), scope.project(), found@),
            Err(error) => "Failed to read directory "@ + joined(texts(path@), "/"@) + ": "@ + error@,
        },
{
    let rel = join(path, "/");
    let found = match entries {
        Ok(found) => found,
        Err(error) => {
            let mut text = text3("Failed to read directory ", rel.as_str(), ": ");
            text.append(error.as_str());
            return text;
        },
    };
    let mut text = text3("# ", id, "/");
    text.append(rel.as_str());
    text.append("\n\n");
    if found.len() == 0 {
        text.append("(empty)\n");
        return text;
    }
    let ghost head = text@;
    let sorted = sort_entries(found);
    let mut lines = String::new();
    assert(lines@ =~= Seq::empty());
    let mut k: usize = 0;
    while k < sorted.len()
        invariant
            k <= sorted@.len(),
            lines@ == entry_lines(sorted@, id@, texts(path@), scope.project(), k as int),
        decreases sorted.len() - k,
    {
        lines.append(render_entry(&sorted[k], id, path, scope).as_str());
        k += 1;
    }
    text.append(lines.as_str());
    text
}

/// What a file of a skill reads as, or why it cannot be read.
pub fn read_skill_file(path: &Vec<String>, content: Result<String, String>) -> (text: String)
    ensures
        text@ == match content {
            Ok(read) => read@,
            Err(error) => "Failed to read "@ + joined(texts(path@), "/"@) + ": "@ + error@,
        },
{
    match content {
        Ok(read) => read,
        Err(error) => {
            let mut text = text3("Failed to read ", join(path, "/").as_str(), ": ");
            text.append(error.as_str());
            text
        },
    }
}

/// Whether a step of a path names something right below where it starts.
pub open spec fn is_safe_segment(segment: Seq<char>) -> bool {
    &&& segment.len() > 0
    &&& segment != "."@
    &&& segment != ".."@
    &&& !segment.contains('/')
    &&& !segment.contains('\\')
}

/// The first step from `from` on that is refused.
pub open spec fn unsafe_segment(segments: Seq<Seq<char>>, from: int) -> Option<Seq<char>>
    decreases segments.len() - from,
{
    if from >= segments.len() {
        None
    } else if !is_safe_segment(segments[from]) {
        Some(segments[from])
    } else {
        unsafe_segment(segments, from + 1)
    }
}

/// Whether a character occurs in a text.
fn holds_char(s: &str, c: char) -> (found: bool)
    ensures
        found == s@.contains(c),
{
    let text = chars_of(s);
    let at: usize = crate::scan::find_char(&text, c, 0);
    proof {
        crate::scan::lemma_next_char(s@, c, 0);
        if at < text@.len() {
            assert(s@[at as int] == c);
        } else if s@.contains(c) {
            let i = choose|i: int| 0 <= i < s@.len() && s@[i] == c;
            assert(s@[i] != c);
        }
    }
    at < text.len()
}

/// Checks the steps of a path below a skill's directory.
pub fn check_segments(segments: &Vec<String>) -> (checked: Result<(), String>)
    ensures
        match (checked, unsafe_segment(texts(segments@), 0)) {
            (Ok(()), None) => true,
            (Err(error), Some(segment)) => error@ == "Invalid path segment: "@ + debug_form(
                segment,
            ),
            _ => false,
        },
{
    let mut i: usize = 0;
    assert(texts(segments@).len() == segments@.len());
    while i < segments.len()
        invariant
            i <= segments@.len(),
            texts(segments@).len() == segments@.len(),
            unsafe_segment(texts(segments@), i as int) == unsafe_segment(texts(segments@), 0),
        decreases segments.len() - i,
    {
        let segment = segments[i].as_str();
        assert(texts(segments@)[i as int] == segment@);
        if segment.is_empty() || same_text(segment, ".") || same_text(segment, "..") || holds_char(
            segment,
            '/',
        ) || holds_char(segment, '\\') {
            return Err(text2("Invalid path segment: ", render_debug(segment).as_str()));
        }
        i += 1;
    }
    Ok(())
}

/// What stands between the components of a path that is freed of links.
pub open spec fn separator(windows: bool) -> Seq<char> {
    if windows {
        "\\"@
    } else {
        "/"@
    }
}

/// Whether a path is a directory or lies below it. Both are absolute, and without
/// links and detours; only a root ends in a separator.
pub open spec fn lies_within(path: Seq<char>, dir: Seq<char>, windows: bool) -> bool {
    ||| path == dir
    ||| (dir + separator(windows)).is_prefix_of(path)
    ||| separator(windows).is_suffix_of(dir) && dir.is_prefix_of(path)
}

/// Whether this is where a path of a skill leads.
pub open spec fn is_safe_path(
    segments: &Vec<String>,
    dir: Result<String, String>,
    target: Option<String>,
    windows: bool,
    path: Result<String, String>,
) -> bool {
    match unsafe_segment(texts(segments@), 0) {
        Some(segment) => path matches Err(error) && error@ == "Invalid path segment: "@
            + debug_form(segment),
        None => match (dir, target) {
            (Err(reason), _) => path matches Err(error) && error@
                == "Failed to resolve skill directory: "@ + reason@,
            (Ok(_), None) => path matches Err(error) && error@ == "Path not found: "@ + joined(
                texts(segments@),
                "/"@,
            ),
            (Ok(root), Some(found)) => if lies_within(found@, root@, windows) {
                path == Ok::<String, String>(found)
            } else {
                path matches Err(error) && error@ == "Path escapes skill directory"@
            },
        },
    }
}

/// The path of a file of a skill, or why there is none. `dir` and `target` are the
/// directory of the skill and the path below it, freed of links and written as `windows`
/// says; `target` is none where nothing is there.
pub fn resolve_safe_path(
    segments: &Vec<String>,
    dir: Result<String, String>,
    target: Option<String>,
    windows: bool,
) -> (path: Result<String, String>)
    ensures
        is_safe_path(segments, dir, target, windows, path),
{
    match check_segments(segments) {
        Err(error) => return Err(error),
        Ok(()) => {},
    }
    let root = match dir {
        Err(reason) => {
            return Err(text2("Failed to resolve skill directory: ", reason.as_str()));
        },
        Ok(root) => root,
    };
    let found = match target {
        None => return Err(text2("Path not found: ", join(segments, "/").as_str())),
        Some(found) => found,
    };
    let between = if windows {
        "\\"
    } else {
        "/"
    };
    let below = text2(root.as_str(), between);
    if same_text(found.as_str(), root.as_str()) || starts_with(found.as_str(), below.as_str()) || (
    ends_with(root.as_str(), between) && starts_with(found.as_str(), root.as_str())) {
        Ok(found)
    } else {
        Err("Path escapes skill directory".to_owned())
    }
}

/// A path below a skill is accepted only if every step of it stays where it is.
pub proof fn law_accepted_paths_never_climb(segments: Seq<Seq<char>>, from: int)
    requires
        0 <= from <= segments.len(),
    ensures
        unsafe_segment(segments, from) is None <==> forall|i: int|
            from <= i < segments.len() ==> is_safe_segment(#[trigger] segments[i]),
    decreases segments.len() - from,
{
    if from < segments.len() {
        law_accepted_paths_never_climb(segments, from + 1);
        if unsafe_segment(segments, from) is None {
            assert forall|i: int| from <= i < segments.len() implies is_safe_segment(
                #[trigger] segments[i],
            ) by {
                if i > from {
                    assert(unsafe_segment(segments, from + 1) is None);
                }
            }
        }
    }
}

/// What a script of a skill is addressed by.
#[derive(Debug)]
pub enum ScriptTarget {
    Skill { skill_id: String, path: Vec<String> },
    ProjectSkill { project: String, skill_id: String, path: Vec<String> },
    /// Anything else, with its address.
    Other(String),
}

/// Whether a path names a script of a skill.
pub open spec fn names_script(path: Seq<Seq<char>>) -> bool {
    path.len() >= 2 && path[0] == "scripts"@
}

/// Whether this is the script that a target names.
pub open spec fn is_script(
    target: ScriptTarget,
    script: Result<(String, Vec<String>, Option<String>), String>,
) -> bool {
    match target {
        ScriptTarget::Skill { skill_id, path } => if names_script(texts(path@)) {
            script == Ok::<(String, Vec<String>, Option<String>), String>(
                (skill_id, path, None),
            )
        } else {
            script matches Err(error) && error@
                == "Skill script target must address scripts/<name>, got '"@ + joined(
                texts(path@),
                "/"@,
            ) + "'"@
        },
        ScriptTarget::ProjectSkill { project, skill_id, path } => if names_script(
            texts(path@),
        ) {
            script == Ok::<(String, Vec<String>, Option<String>), String>(
                (skill_id, path, Some(project)),
            )
        } else {
            script matches Err(error) && error@
                == "Skill script target must address scripts/<name>, got '"@ + joined(
                texts(path@),
                "/"@,
            ) + "'"@
        },
        ScriptTarget::Other(uri) => script matches Err(error) && error@
            == "Not a skill script target: "@ + uri@
            + " (expected cairn://skills/<id>/scripts/<name>)"@,
    }
}

/// The script that a target names: its skill, its path and the project that is
/// named, or why it names none.
pub fn resolve_skill_script_path(target: ScriptTarget) -> (script: Result<
    (String, Vec<String>, Option<String>),
    String,
>)
    ensures
        is_script(target, script),
{
    let (skill_id, path, project) = match target {
        ScriptTarget::Skill { skill_id, path } => (skill_id, path, None),
        ScriptTarget::ProjectSkill { project, skill_id, path } => (skill_id, path, Some(project)),
        ScriptTarget::Other(uri) => {
            return Err(
                text3(
                    "Not a skill script target: ",
                    uri.as_str(),
                    " (expected cairn://skills/<id>/scripts/<name>)",
                ),
            );
        },
    };
    assert(texts(path@).len() == path@.len());
    let is_script = path.len() >= 2 && same_text(path[0].as_str(), "scripts");
    if !is_script {
        return Err(
            text3(
                "Skill script target must address scripts/<name>, got '",
                join(&path, "/").as_str(),
                "'",
            ),
        );
    }
    Ok((skill_id, path, project))
}

/// The address of a skill is that of its collection, with its id and each step of the path
/// behind a slash of its own.
pub proof fn law_address_leads_to_the_skill(
    project: Option<Seq<char>>,
    key: Seq<char>,
    id: Seq<char>,
    path: Seq<Seq<char>>,
    step: Seq<char>,
)
    ensures
        skill_address(None, id, Seq::empty()) == "cairn://skills"@ + "/"@ + id,
        skill_address(Some(key), id, Seq::empty()) == "cairn://p/"@ + key + "/skills"@ + "/"@ + id,
        skill_address(project, id, path.push(step)) == skill_address(project, id, path) + "/"@
            + step,
{
    assert(path_tail(Seq::empty(), 0) =~= Seq::<char>::empty());
    let longer = path.push(step);
    lemma_same_tail(path, longer, path.len() as int);
    assert(skill_address(project, id, longer) =~= skill_address(project, id, path) + "/"@ + step);
    assert(skill_address(None, id, Seq::empty()) =~= "cairn://skills"@ + "/"@ + id);
    assert(skill_address(Some(key), id, Seq::empty()) =~= "cairn://p/"@ + key + "/skills"@ + "/"@
        + id);
}

/// The steps that two paths share give the same address.
proof fn lemma_same_tail(a: Seq<Seq<char>>, b: Seq<Seq<char>>, k: int)
    requires
        0 <= k <= a.len(),
        k <= b.len(),
        forall|i: int| 0 <= i < k ==> #[trigger] a[i] == b[i],
    ensures
        path_tail(a, k) == path_tail(b, k),
    decreases k,
{
    if k > 0 {
        lemma_same_tail(a, b, k - 1);
    }
}

/// A skill of the workspace is linked in the workspace, and one of a project in that
/// project.
pub proof fn law_skill_is_linked_where_it_belongs(skill: FileSkill, key: Seq<char>)
    ensures
        skill.is_project_scoped ==> link_of(skill, Some(key)) == skill_address(
            Some(key),
            skill.id@,
            Seq::empty(),
        ),
        !skill.is_project_scoped ==> link_of(skill, Some(key)) == skill_address(
            None,
            skill.id@,
            Seq::empty(),
        ),
{
}

/// A skill is hidden exactly if it is one of the workspace that is disabled.
pub proof fn law_only_disabled_workspace_skills_are_hidden(
    skill: FileSkill,
    disabled: Seq<Seq<char>>,
)
    ensures
        !is_shown(skill, disabled) <==> !skill.is_project_scoped && disabled.contains(skill.id@),
{
}

/// A collection has a line for each skill that is shown, in order, and counts them; hidden
/// skills have no line.
pub proof fn law_shown_skills_have_their_lines(
    skills: Seq<FileSkill>,
    disabled: Seq<Seq<char>>,
    key: Option<Seq<char>>,
    k: int,
)
    requires
        0 <= k < skills.len(),
    ensures
        is_shown(skills[k], disabled) ==> collection_lines(skills, disabled, key, k + 1)
            == collection_lines(skills, disabled, key, k) + ("- ["@ + skills[k].id@ + "]("@
            + link_of(skills[k], key) + ") ["@ + scope_name(skills[k]) + "] — "@
            + skills[k].description@ + "\n"@) && shown_count(skills, disabled, k + 1)
            == shown_count(skills, disabled, k) + 1,
        !is_shown(skills[k], disabled) ==> collection_lines(skills, disabled, key, k + 1)
            == collection_lines(skills, disabled, key, k) && shown_count(skills, disabled, k + 1)
            == shown_count(skills, disabled, k),
        collection_lines(skills, disabled, key, 0) == Seq::<char>::empty(),
        shown_count(skills, disabled, 0) == 0,
{
}

/// A collection says whose skills it holds and how many, lists them or says that there are
/// none, and ends in how to create one there.
pub proof fn law_collection_tells_what_it_holds(
    sorted: Seq<FileSkill>,
    disabled: Seq<Seq<char>>,
    key: Seq<char>,
    explicit: Option<Seq<char>>,
)
    ensures
        ({
            let k = sorted.len() as int;
            let count = shown_count(sorted, disabled, k);
            let text = collection_text(sorted, disabled, Some(key), explicit);
            let bare = collection_text(sorted, disabled, None, explicit);
            let head = "# Skills — "@ + key + " context\n\n"@ + (decimal(count)
                + " skill(s)\n\n"@);
            &&& head.is_prefix_of(text)
            &&& "# Skills — workspace\n\n"@.is_prefix_of(bare)
            &&& collection_actions(explicit).is_suffix_of(text)
            &&& ("## actions\n- [create skill]("@ + skills_address(explicit)).is_prefix_of(
                collection_actions(explicit),
            )
            &&& count > 0 ==> text == head + (collection_lines(sorted, disabled, Some(key), k)
                + "\n"@) + collection_actions(explicit)
            &&& count == 0 ==> text == head + "No skills found.\n\n"@ + collection_actions(
                explicit,
            )
        }),
{
    let k = sorted.len() as int;
    let count = shown_count(sorted, disabled, k);
    let text = collection_text(sorted, disabled, Some(key), explicit);
    let bare = collection_text(sorted, disabled, None, explicit);
    let head = "# Skills — "@ + key + " context\n\n"@ + (decimal(count) + " skill(s)\n\n"@);
    let actions = collection_actions(explicit);
    assert(head =~= text.subrange(0, head.len() as int));
    let title = "# Skills — workspace\n\n"@;
    assert(title =~= bare.subrange(0, title.len() as int));
    assert(actions =~= text.subrange(text.len() - actions.len(), text.len() as int));
    let link = "## actions\n- [create skill]("@ + skills_address(explicit);
    assert(link =~= actions.subrange(0, link.len() as int));
}

/// A skill can be read exactly if it was found, is not hidden, and lies in the project
/// where one is named; otherwise the answer names the id, and the project where one is
/// named.
pub proof fn law_skill_is_read_iff_it_is_in_sight(
    loaded: Option<FileSkill>,
    id: Seq<char>,
    project: Option<Seq<char>>,
    disabled: Seq<Seq<char>>,
)
    ensures
        ({
            let read = readable_skill(
                Ok::<Option<FileSkill>, String>(loaded),
                id,
                project,
                disabled,
            );
            &&& read is Ok <==> (loaded matches Some(skill) && (skill.is_project_scoped || (project
                is None && !disabled.contains(skill.id@))))
            &&& read matches Ok(skill) ==> loaded == Some(skill)
            &&& read is Err && project is None ==> read->Err_0 == "Skill not found: "@ + id
            &&& read is Err && project is Some ==> read->Err_0 == "Skill not found in project "@
                + uppercase(project->Some_0) + ": "@ + id
        }),
{
}

/// Two texts that differ only in the case of their ASCII letters are the same, and no other
/// two are.
pub proof fn law_case_alone_makes_no_difference(c: char, d: char)
    ensures
        'A' <= c <= 'Z' ==> ascii_lower(c) as u32 == c as u32 + 32,
        !('A' <= c <= 'Z') ==> ascii_lower(c) == c,
        same_ignoring_case(seq![c], seq![d]) <==> ascii_lower(c) == ascii_lower(d),
{
    if ascii_lower(c) == ascii_lower(d) {
        assert forall|i: int| 0 <= i < 1 implies ascii_lower(#[trigger] seq![c][i]) == ascii_lower(
            seq![d][i],
        ) by {
        }
    }
    if same_ignoring_case(seq![c], seq![d]) {
        assert(ascii_lower(seq![c][0]) == ascii_lower(seq![d][0]));
    }
}

/// A skill is rendered with its name, id, scope and description, then its prompt, then where
/// it comes from, what it comes with and what can be done with it.
pub proof fn law_skill_is_rendered_whole(skill: FileSkill, project: Option<Seq<char>>)
    ensures
        ({
            let head = "# Skill: "@ + skill.name@ + " (`"@ + skill.id@ + "`)\n\n["@ + scope_name(
                skill,
            ) + "]\n\n"@ + skill.description@ + "\n\n"@;
            let uri = skill_address(project, skill.id@, Seq::empty());
            &&& rendered_skill(skill, project) == head + (trimmed_end(skill.prompt@) + "\n\n"@)
                + provenance(skill) + package(skill, project) + skill_actions(skill, project)
            &&& ("## actions\n- [patch skill]("@ + uri).is_prefix_of(skill_actions(skill, project))
            &&& (uri + "): optional `payload.reason`\n"@).is_suffix_of(skill_actions(skill, project))
        }),
{
    let uri = skill_address(project, skill.id@, Seq::empty());
    let front = "## actions\n- [patch skill]("@ + uri;
    let actions = skill_actions(skill, project);
    assert(front =~= actions.subrange(0, front.len() as int));
    let back = uri + "): optional `payload.reason`\n"@;
    assert(back =~= actions.subrange(actions.len() - back.len(), actions.len() as int));
}

/// Where a skill comes from is told by the lines that are known: the date of the update, who
/// made it, and the issue, in this order; nothing is told where nothing is known.
pub proof fn law_provenance_tells_what_is_known(
    skill: FileSkill,
    date: Seq<char>,
    who: String,
    issue: String,
)
    ensures
        skill.meta is None ==> provenance(skill) == Seq::<char>::empty(),
        skill.meta matches Some(meta) ==> (updated_date(skill) == Some(date) && meta.updated_by
            == Some(who) && meta.source_issue == Some(issue) ==> provenance(skill)
            == "## provenance\n"@ + joined(
            seq!["- updated: "@ + date, "- updated by: "@ + who@, "- source issue: "@ + issue@],
            "\n"@,
        ) + "\n\n"@),
        skill.meta matches Some(meta) ==> (updated_date(skill) is None && meta.updated_by
            == Some(who) && meta.source_issue is None ==> provenance(skill)
            == "## provenance\n"@ + ("- updated by: "@ + who@) + "\n\n"@),
{
    if let Some(meta) = skill.meta {
        let lines = provenance_lines(skill);
        if updated_date(skill) == Some(date) && meta.updated_by == Some(who) && meta.source_issue
            == Some(issue) {
            assert(lines =~= seq![
                "- updated: "@ + date,
                "- updated by: "@ + who@,
                "- source issue: "@ + issue@,
            ]);
        }
        if updated_date(skill) is None && meta.updated_by == Some(who) && meta.source_issue
            is None {
            assert(lines =~= seq!["- updated by: "@ + who@]);
        }
    }
}

/// What a skill comes with is linked below its address, each directory exactly if it is
/// there, and nothing is said where none is.
pub proof fn law_package_links_what_is_there(skill: FileSkill, project: Option<Seq<char>>)
    ensures
        !skill.has_references && !skill.has_scripts && !skill.has_assets ==> package(skill, project)
            == Seq::<char>::empty(),
        skill.has_references && !skill.has_scripts && !skill.has_assets ==> package(skill, project)
            == "## package\n"@ + package_line(true, "references"@, project, skill.id@) + "\n"@,
        !skill.has_references && skill.has_scripts && !skill.has_assets ==> package(skill, project)
            == "## package\n"@ + package_line(true, "scripts"@, project, skill.id@) + "\n"@,
        !skill.has_references && !skill.has_scripts && skill.has_assets ==> package(skill, project)
            == "## package\n"@ + package_line(true, "assets"@, project, skill.id@) + "\n"@,
        forall|label: Seq<char>| #[trigger]
            package_line(true, label, project, skill.id@) == "- ["@ + label + "]("@ + skill_address(
                project,
                skill.id@,
                seq![label],
            ) + ")\n"@,
{
}

/// An entry of a directory is linked by its name below the directory; a directory shows a
/// slash.
pub proof fn law_entries_are_linked_below_their_directory(
    entries: Seq<DirEntry>,
    id: Seq<char>,
    path: Seq<Seq<char>>,
    project: Option<Seq<char>>,
    k: int,
)
    requires
        0 <= k < entries.len(),
    ensures
        entry_lines(entries, id, path, project, k + 1) == entry_lines(entries, id, path, project, k)
            + entry_line(entries[k], id, path, project),
        entries[k].is_dir ==> entry_line(entries[k], id, path, project) == "- ["@ + entries[k].name@
            + "/]("@ + skill_address(project, id, path.push(entries[k].name@)) + ")\n"@,
        !entries[k].is_dir ==> entry_line(entries[k], id, path, project) == "- ["@
            + entries[k].name@ + "]("@ + skill_address(project, id, path.push(entries[k].name@))
            + ")\n"@,
        directory_text(id, path, project, Seq::empty()) == "# "@ + id + "/"@ + joined(path, "/"@)
            + "\n\n"@ + "(empty)\n"@,
        directory_text(id, path, project, entries) == "# "@ + id + "/"@ + joined(path, "/"@)
            + "\n\n"@ + entry_lines(
            sorted_entries(entries, entries.len() as int),
            id,
            path,
            project,
            entries.len() as int,
        ),
{
}

/// A step of a path is safe exactly if it names something in the directory it is in: it is
/// not empty, no step to the same place or up, and holds no slash of either sort. The one
/// that is refused is the first that is not.
pub proof fn law_steps_stay_in_their_directory(segment: Seq<char>)
    ensures
        is_safe_segment(segment) <==> segment.len() > 0 && segment != seq!['.'] && segment != seq![
            '.',
            '.',
        ] && (forall|i: int|
            0 <= i < segment.len() ==> #[trigger] segment[i] != '/' && segment[i] != '\\'),
{
    reveal_strlit(".");
    reveal_strlit("..");
    assert("."@ =~= seq!['.']);
    assert(".."@ =~= seq!['.', '.']);
    if is_safe_segment(segment) {
        assert forall|i: int| 0 <= i < segment.len() implies #[trigger] segment[i] != '/'
            && segment[i] != '\\' by {
            assert(segment.contains(segment[i]));
        }
    }
}

/// A path lies in a directory exactly if it is the directory or stands behind it and a
/// separator of the platform.
pub proof fn law_paths_in_a_directory_stand_behind_it(dir: Seq<char>, rest: Seq<char>)
    ensures
        lies_within(dir, dir, true),
        lies_within(dir, dir, false),
        lies_within(dir + "/"@ + rest, dir, false),
        lies_within(dir + "\\"@ + rest, dir, true),
        dir.len() > 0 && dir.last() != '/' && rest.len() > 0 && rest[0] != '/' ==> !lies_within(
            dir + rest,
            dir,
            false,
        ),
        !dir.is_prefix_of(rest) ==> !lies_within(rest, dir, true) && !lies_within(rest, dir, false),
{
    reveal_strlit("/");
    reveal_strlit("\\");
    let unix = dir + "/"@;
    let win = dir + "\\"@;
    assert(unix =~= (dir + "/"@ + rest).subrange(0, unix.len() as int));
    assert(win =~= (dir + "\\"@ + rest).subrange(0, win.len() as int));
    let joined_path = dir + rest;
    if dir.len() > 0 && dir.last() != '/' && rest.len() > 0 && rest[0] != '/' {
        if unix.is_prefix_of(joined_path) {
            assert(joined_path.subrange(0, unix.len() as int)[dir.len() as int]
                == joined_path[dir.len() as int]);
            assert(unix[dir.len() as int] == '/');
        }
        if "/"@.is_suffix_of(dir) {
            assert(dir.subrange(dir.len() - 1, dir.len() as int)[0] == dir.last());
        }
        if joined_path == dir {
            assert(joined_path.len() == dir.len());
        }
    }
    if !dir.is_prefix_of(rest) {
        if unix.is_prefix_of(rest) {
            assert(dir =~= rest.subrange(0, dir.len() as int)) by {
                assert(rest.subrange(0, unix.len() as int).subrange(0, dir.len() as int) =~= dir);
            }
        }
        if win.is_prefix_of(rest) {
            assert(dir =~= rest.subrange(0, dir.len() as int)) by {
                assert(rest.subrange(0, win.len() as int).subrange(0, dir.len() as int) =~= dir);
            }
        }
        if rest == dir {
            assert(dir =~= rest.subrange(0, dir.len() as int));
        }
    }
}

/// A script is what stands below `scripts`.
pub proof fn law_scripts_stand_below_scripts(path: Seq<Seq<char>>)
    ensures
        names_script(path) <==> path.len() >= 2 && path[0] == "scripts"@,
        path.len() == 1 && same_ignoring_case(path[0], "SKILL.md"@) <==> names_skill_file(path),
{
}

/// A project lies where its row says, exactly if there is such a project and it has a
/// repository.
pub proof fn law_project_lies_where_it_says(
    key: &str,
    id: Result<Option<String>, String>,
    path: Result<Option<String>, String>,
    found: Result<String, String>,
)
    requires
        is_project_path(key, id, path, found),
    ensures
        found is Ok <==> (id matches Ok(Some(_))) && (path matches Ok(Some(_))),
        found matches Ok(dir) ==> path == Ok::<Option<String>, String>(Some(dir)),
        id matches Ok(None) ==> found->Err_0@ == "No project found with key '"@ + key@ + "'"@,
{
}

/// The root of a skill is its rendered text, its own file is pointed there, and any other
/// path is one of its files.
pub proof fn law_skill_is_read_at_its_root(
    skill: &FileSkill,
    path: &Vec<String>,
    scope: &SkillScopeUri,
    read: SkillRead,
)
    requires
        reads(skill, path, scope, read),
    ensures
        path@.len() == 0 ==> (read matches SkillRead::Text(text) && text@ == rendered_skill(
            *skill,
            scope.project(),
        )),
        path@.len() > 1 ==> read is Subpath,
        path@.len() == 1 ==> (read is Subpath <==> !same_ignoring_case(path@[0]@, "SKILL.md"@)),
{
    if path@.len() == 1 {
        assert(texts(path@)[0] == path@[0]@);
    }
}

/// A path of a skill leads to what was found exactly if each of its steps is safe and what
/// was found lies in the skill's directory.
pub proof fn law_path_leads_into_the_skill(
    segments: &Vec<String>,
    dir: Result<String, String>,
    target: Option<String>,
    windows: bool,
    path: Result<String, String>,
)
    requires
        is_safe_path(segments, dir, target, windows, path),
    ensures
        path is Ok ==> forall|i: int|
            0 <= i < segments@.len() ==> is_safe_segment((#[trigger] segments@[i])@),
        path matches Ok(found) ==> target == Some(found) && (dir matches Ok(root) && lies_within(
            found@,
            root@,
            windows,
        )),
        (forall|i: int|
            0 <= i < segments@.len() ==> is_safe_segment((#[trigger] segments@[i])@)) ==> (dir
            matches Ok(root) ==> (target matches Some(found) ==> (path is Ok <==> lies_within(
            found@,
            root@,
            windows,
        )))),
{
    law_accepted_paths_never_climb(texts(segments@), 0);
    if path is Ok {
        assert forall|i: int| 0 <= i < segments@.len() implies is_safe_segment(
            (#[trigger] segments@[i])@,
        ) by {
            assert(texts(segments@)[i] == segments@[i]@);
            assert(is_safe_segment(texts(segments@)[i]));
        }
    }
    if forall|i: int| 0 <= i < segments@.len() ==> is_safe_segment((#[trigger] segments@[i])@) {
        assert forall|i: int| 0 <= i < texts(segments@).len() implies is_safe_segment(
            #[trigger] texts(segments@)[i],
        ) by {
            assert(texts(segments@)[i] == segments@[i]@);
        }
    }
}

/// A target names a script exactly if it is a skill's path below `scripts`; the script is of
/// that skill, at that path, in the project that is named.
pub proof fn law_script_is_that_of_the_target(
    target: ScriptTarget,
    script: Result<(String, Vec<String>, Option<String>), String>,
)
    requires
        is_script(target, script),
    ensures
        target is Other ==> script is Err,
        target matches ScriptTarget::Skill { skill_id, path } ==> {
            &&& script is Ok <==> path@.len() >= 2 && path@[0]@ == "scripts"@
            &&& script matches Ok(found) ==> found == (skill_id, path, None::<String>)
        },
        target matches ScriptTarget::ProjectSkill { project, skill_id, path } ==> {
            &&& script is Ok <==> path@.len() >= 2 && path@[0]@ == "scripts"@
            &&& script matches Ok(found) ==> found == (skill_id, path, Some(project))
        },
{
}

} // verus!
