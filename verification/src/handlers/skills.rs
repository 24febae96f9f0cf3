//! The skills that an agent can read, list, create, change and delete.
use vstd::prelude::*;
use vstd::string::*;
use vstd::utf8::{decode_utf8, encode_utf8, encode_utf8_decode_utf8, is_char_boundary};
use crate::text::{
    byte_len, chars_of, clone_opt, decimal, join, joined, opt_str, opt_text, render_usize, same_text, text2,
    text3, texts, utf8_len,
};

verus! {

/// How many characters a description has at most.
pub const MAX_DESCRIPTION_CHARS: usize = 1024;

/// How many bytes of a time stamp its date takes.
pub const DATE_BYTES: usize = 10;

/// Where a skill comes from.
#[derive(Debug)]
pub struct SkillMeta {
    pub updated_at: Option<String>,
    pub updated_by: Option<String>,
    pub source_issue: Option<String>,
}

/// A skill.
#[derive(Debug)]
pub struct FileSkill {
    pub id: String,
    pub name: String,
    pub description: String,
    pub prompt: String,
    pub allowed_tools: Option<Vec<String>>,
    pub is_project_scoped: bool,
    pub dir_path: String,
    pub meta: Option<SkillMeta>,
    pub has_references: bool,
    pub has_scripts: bool,
    pub has_assets: bool,
}

/// A skill that was asked for and found, and what is said of it.
#[derive(Debug)]
pub struct SkillAnswer {
    pub text: String,
    /// The id and the name of the skill, where one was found.
    pub found: Option<(String, String)>,
}

/// How a skill reads.
pub open spec fn skill_text(skill: FileSkill) -> Seq<char> {
    "## Skill: "@ + skill.name@ + "\n\n"@ + skill.prompt@
}

/// The first skill from `from` on with this id or name.
pub open spec fn named_skill(skills: Seq<FileSkill>, wanted: Seq<char>, from: int) -> Option<
    FileSkill,
>
    decreases skills.len() - from,
{
    if from >= skills.len() {
        None
    } else if skills[from].name@ == wanted || skills[from].id@ == wanted {
        Some(skills[from])
    } else {
        named_skill(skills, wanted, from + 1)
    }
}

/// The first skill from `from` on with this id.
pub open spec fn skill_with_id(skills: Seq<FileSkill>, id: Seq<char>, from: int) -> Option<FileSkill>
    decreases skills.len() - from,
{
    if from >= skills.len() {
        None
    } else if skills[from].id@ == id {
        Some(skills[from])
    } else {
        skill_with_id(skills, id, from + 1)
    }
}

/// The skill that is meant: the one with this id, or else the first with this name.
pub open spec fn meant_skill(skills: Seq<FileSkill>, wanted: Seq<char>) -> Option<FileSkill> {
    match skill_with_id(skills, wanted, 0) {
        Some(skill) => Some(skill),
        None => named_skill(skills, wanted, 0),
    }
}

/// Whether an answer is that for a skill, or that there is none, in these words.
pub open spec fn answers_with(
    answer: SkillAnswer,
    skill: Option<FileSkill>,
    wanted: Seq<char>,
    missing: Seq<char>,
) -> bool {
    match skill {
        Some(found) => answer.text@ == skill_text(found) && (answer.found matches Some((id, name))
            && id@ == found.id@ && name@ == found.name@),
        None => answer.text@ == missing + wanted && answer.found is None,
    }
}

/// The answer for a skill that was found.
fn found_answer(skill: &FileSkill) -> (answer: SkillAnswer)
    ensures
        answer.text@ == skill_text(*skill),
        answer.found matches Some((id, name)) && id@ == skill.id@ && name@ == skill.name@,
{
    let mut text = text3("## Skill: ", skill.name.as_str(), "\n\n");
    text.append(skill.prompt.as_str());
    SkillAnswer { text, found: Some((skill.id.clone(), skill.name.clone())) }
}

/// The first skill with this id.
fn find_id(skills: &Vec<FileSkill>, id: &str) -> (at: Option<usize>)
    ensures
        match at {
            Some(i) => i < skills@.len() && skill_with_id(skills@, id@, 0) == Some(
                skills@[i as int],
            ),
            None => skill_with_id(skills@, id@, 0) is None,
        },
{
    let mut i: usize = 0;
    while i < skills.len()
        invariant
            i <= skills@.len(),
            skill_with_id(skills@, id@, i as int) == skill_with_id(skills@, id@, 0),
        decreases skills.len() - i,
    {
        if same_text(skills[i].id.as_str(), id) {
            return Some(i);
        }
        i += 1;
    }
    None
}

/// The first skill with this id or name.
fn find_named(skills: &Vec<FileSkill>, wanted: &str) -> (at: Option<usize>)
    ensures
        match at {
            Some(i) => i < skills@.len() && named_skill(skills@, wanted@, 0) == Some(
                skills@[i as int],
            ),
            None => named_skill(skills@, wanted@, 0) is None,
        },
{
    let mut i: usize = 0;
    while i < skills.len()
        invariant
            i <= skills@.len(),
            named_skill(skills@, wanted@, i as int) == named_skill(skills@, wanted@, 0),
        decreases skills.len() - i,
    {
        if same_text(skills[i].name.as_str(), wanted) || same_text(skills[i].id.as_str(), wanted) {
            return Some(i);
        }
        i += 1;
    }
    None
}

/// The answer to a request for a skill within an execution, whose skills were fixed
/// when it began. The skills are in the order in which they are walked.
pub fn skill_in_snapshot(skills: &Vec<FileSkill>, wanted: &str) -> (answer: SkillAnswer)
    ensures
        answers_with(
            answer,
            meant_skill(skills@, wanted@),
            wanted@,
            "Skill not found in execution snapshot: "@,
        ),
{
    if let Some(at) = find_id(skills, wanted) {
        return found_answer(&skills[at]);
    }
    match find_named(skills, wanted) {
        Some(at) => found_answer(&skills[at]),
        None => SkillAnswer {
            text: text2("Skill not found in execution snapshot: ", wanted),
            found: None,
        },
    }
}

/// The answer to a request for a skill outside an execution: the one that was found
/// by its id, or else the first of those listed with this name.
pub fn skill_in_files(by_id: &Option<FileSkill>, listed: &Vec<FileSkill>, wanted: &str) -> (answer:
    SkillAnswer)
    ensures
        answers_with(
            answer,
            match *by_id {
                Some(skill) => Some(skill),
                None => named_skill(listed@, wanted@, 0),
            },
            wanted@,
            "Skill not found: "@,
        ),
{
    if let Some(skill) = by_id {
        return found_answer(skill);
    }
    match find_named(listed, wanted) {
        Some(at) => found_answer(&listed[at]),
        None => SkillAnswer { text: text2("Skill not found: ", wanted), found: None },
    }
}

/// Where a skill is looked for.
#[derive(Debug)]
pub enum SkillSource {
    /// The skills that the execution of the run began with.
    Snapshot(Vec<FileSkill>),
    /// The files, where no snapshot could be had: the one with the id, and all.
    Files { by_id: Option<FileSkill>, listed: Vec<FileSkill> },
    /// The project of the caller is not known.
    NoProject(String),
}

/// Whether this answers who asks for a skill.
pub open spec fn is_skill_answer(
    wanted: &str,
    source: &SkillSource,
    answer: SkillAnswer,
) -> bool {
    match *source {
        SkillSource::Snapshot(skills) => answers_with(
            answer,
            meant_skill(skills@, wanted@),
            wanted@,
            "Skill not found in execution snapshot: "@,
        ),
        SkillSource::Files { by_id, listed } => answers_with(
            answer,
            match by_id {
                Some(skill) => Some(skill),
                None => named_skill(listed@, wanted@, 0),
            },
            wanted@,
            "Skill not found: "@,
        ),
        SkillSource::NoProject(error) => answer.text@ == "Error: "@ + error@ && answer.found is None,
    }
}

/// The answer to a request for a skill.
pub fn handle_skill(wanted: &str, source: &SkillSource) -> (answer: SkillAnswer)
    ensures
        is_skill_answer(wanted, source, answer),
{
    match source {
        SkillSource::Snapshot(skills) => skill_in_snapshot(skills, wanted),
        SkillSource::Files { by_id, listed } => skill_in_files(by_id, listed, wanted),
        SkillSource::NoProject(error) => SkillAnswer {
            text: text2("Error: ", error.as_str()),
            found: None,
        },
    }
}

/// A skill is found by its id before any other that has that id as its name.
pub proof fn law_id_comes_before_name(skills: Seq<FileSkill>, wanted: Seq<char>)
    ensures
        meant_skill(skills, wanted) matches Some(skill) ==> skill.id@ == wanted || (skill.name@
            == wanted && skill_with_id(skills, wanted, 0) is None),
{
    lemma_skill_with_id(skills, wanted, 0);
    lemma_named_skill(skills, wanted, 0);
}

/// A skill that was found by its id has it.
proof fn lemma_skill_with_id(skills: Seq<FileSkill>, id: Seq<char>, from: int)
    ensures
        skill_with_id(skills, id, from) matches Some(skill) ==> skill.id@ == id,
        skill_with_id(skills, id, from) is None ==> forall|i: int|
            from <= i < skills.len() ==> (#[trigger] skills[i]).id@ != id,
    decreases skills.len() - from,
{
    if from < skills.len() {
        lemma_skill_with_id(skills, id, from + 1);
    }
}

/// A skill that was found by name or id has it as one of them.
proof fn lemma_named_skill(skills: Seq<FileSkill>, wanted: Seq<char>, from: int)
    ensures
        named_skill(skills, wanted, from) matches Some(skill) ==> skill.name@ == wanted || skill.id@
            == wanted,
        named_skill(skills, wanted, from) is None ==> forall|i: int|
            from <= i < skills.len() ==> (#[trigger] skills[i]).id@ != wanted,
    decreases skills.len() - from,
{
    if from < skills.len() {
        lemma_named_skill(skills, wanted, from + 1);
    }
}

/// Where the date of a time stamp ends, in bytes.
pub open spec fn date_end(stamp: Seq<char>) -> int {
    if utf8_len(stamp) < DATE_BYTES {
        utf8_len(stamp) as int
    } else {
        DATE_BYTES as int
    }
}

/// Whether the date of a time stamp ends between two characters.
pub open spec fn has_date(stamp: Seq<char>) -> bool {
    is_char_boundary(encode_utf8(stamp), date_end(stamp))
}

/// The date of a time stamp: its first bytes.
pub open spec fn date_of(stamp: Seq<char>) -> Seq<char> {
    decode_utf8(encode_utf8(stamp).subrange(0, date_end(stamp)))
}

/// The date of a time stamp.
pub fn date_part(stamp: &str) -> (date: String)
    requires
        has_date(stamp@),
    ensures
        date@ == date_of(stamp@),
{
    let len: usize = byte_len(stamp);
    let end: usize = if len < DATE_BYTES {
        len
    } else {
        DATE_BYTES
    };
    let (date, _rest) = stamp.split_at(end);
    proof {
        vstd::utf8::encode_utf8_decode_utf8(date@);
        assert(encode_utf8(date@) == encode_utf8(stamp@).subrange(0, end as int));
    }
    date.to_owned()
}

/// Whether the time stamp of a skill can be shown by its date.
pub open spec fn shows_date(skill: FileSkill) -> bool {
    skill.meta matches Some(meta) ==> meta.updated_at matches Some(stamp) ==> has_date(stamp@)
}

/// `project` or `workspace`, by where a skill belongs.
pub open spec fn scope_name(skill: FileSkill) -> Seq<char> {
    if skill.is_project_scoped {
        "project"@
    } else {
        "workspace"@
    }
}

/// `project` or `workspace`, by where a skill belongs.
pub fn scope_label(skill: &FileSkill) -> (label: &'static str)
    ensures
        label@ == scope_name(*skill),
{
    if skill.is_project_scoped {
        "project"
    } else {
        "workspace"
    }
}

/// The text of a part where a condition holds.
pub open spec fn part_if(condition: bool, part: Seq<char>) -> Seq<Seq<char>> {
    if condition {
        seq![part]
    } else {
        Seq::empty()
    }
}

/// What a skill comes with.
pub open spec fn supporting(skill: FileSkill) -> Seq<Seq<char>> {
    part_if(skill.has_references, "references"@) + part_if(skill.has_scripts, "scripts"@) + part_if(
        skill.has_assets,
        "assets"@,
    )
}

/// A labelled part where there is a text for it.
pub open spec fn labelled(label: Seq<char>, text: Option<Seq<char>>) -> Seq<Seq<char>> {
    match text {
        Some(found) => seq![label + found],
        None => Seq::empty(),
    }
}

/// The date of the last change of a skill, where it is known.
pub open spec fn updated_date(skill: FileSkill) -> Option<Seq<char>> {
    match skill.meta {
        Some(meta) => match meta.updated_at {
            Some(stamp) => Some(date_of(stamp@)),
            None => None,
        },
        None => None,
    }
}

/// The issue that a skill comes from, where it is known.
pub open spec fn source_of(skill: FileSkill) -> Option<Seq<char>> {
    match skill.meta {
        Some(meta) => opt_text(meta.source_issue),
        None => None,
    }
}

/// What a list says of a skill besides its description.
pub open spec fn skill_details(skill: FileSkill) -> Seq<Seq<char>> {
    labelled("Updated: "@, updated_date(skill)) + labelled("Source: "@, source_of(skill)) + part_if(
        supporting(skill).len() > 0,
        "Has: "@ + joined(supporting(skill), ", "@),
    )
}

/// How a list shows a skill.
pub open spec fn skill_line(skill: FileSkill) -> Seq<char> {
    let line = "- **"@ + skill.id@ + "** ("@ + scope_name(skill) + "): "@ + skill.description@;
    let details = skill_details(skill);
    if details.len() == 0 {
        line
    } else {
        line + "\n  "@ + joined(details, " | "@)
    }
}

/// Adds a part where a condition holds.
fn add_if(parts: &mut Vec<String>, condition: bool, part: &str)
    ensures
        texts(final(parts)@) == texts(old(parts)@) + part_if(condition, part@),
{
    let ghost before = texts(parts@);
    if condition {
        parts.push(part.to_owned());
        assert(texts(parts@) =~= before + seq![part@]);
    } else {
        assert(before + Seq::<Seq<char>>::empty() =~= before);
    }
}

/// Adds a labelled part where there is a text for it.
pub(crate) fn add_labelled(parts: &mut Vec<String>, label: &str, text: &Option<String>)
    ensures
        texts(final(parts)@) == texts(old(parts)@) + labelled(label@, opt_text(*text)),
{
    let ghost before = texts(parts@);
    match text {
        Some(found) => {
            let part = text2(label, found.as_str());
            let ghost said = part@;
            parts.push(part);
            assert(texts(parts@) =~= before + seq![said]);
        },
        None => {
            assert(before + Seq::<Seq<char>>::empty() =~= before);
        },
    }
}

/// The date of the last change of a skill, where it is known.
pub fn updated_on(skill: &FileSkill) -> (date: Option<String>)
    requires
        shows_date(*skill),
    ensures
        opt_text(date) == updated_date(*skill),
{
    match &skill.meta {
        Some(meta) => match &meta.updated_at {
            Some(stamp) => Some(date_part(stamp.as_str())),
            None => None,
        },
        None => None,
    }
}

/// What a list says of a skill besides its description.
fn details_of(skill: &FileSkill) -> (details: Vec<String>)
    requires
        shows_date(*skill),
    ensures
        texts(details@) == skill_details(*skill),
{
    let mut flags: Vec<String> = Vec::new();
    assert(texts(flags@) =~= Seq::empty());
    add_if(&mut flags, skill.has_references, "references");
    add_if(&mut flags, skill.has_scripts, "scripts");
    add_if(&mut flags, skill.has_assets, "assets");
    assert(texts(flags@) =~= supporting(*skill));
    assert(texts(flags@).len() == flags@.len());
    let mut details: Vec<String> = Vec::new();
    assert(texts(details@) =~= Seq::empty());
    add_labelled(&mut details, "Updated: ", &updated_on(skill));
    let source = match &skill.meta {
        Some(meta) => clone_opt(&meta.source_issue),
        None => None,
    };
    add_labelled(&mut details, "Source: ", &source);
    let has = text2("Has: ", join(&flags, ", ").as_str());
    add_if(&mut details, flags.len() > 0, has.as_str());
    assert(texts(details@) =~= skill_details(*skill));
    details
}

/// How a list shows a skill.
fn line_of(skill: &FileSkill) -> (line: String)
    requires
        shows_date(*skill),
    ensures
        line@ == skill_line(*skill),
{
    let mut line = text3("- **", skill.id.as_str(), "** (");
    line.append(scope_label(skill));
    line.append("): ");
    line.append(skill.description.as_str());
    let details = details_of(skill);
    assert(texts(details@).len() == details@.len());
    if details.len() > 0 {
        line.append("\n  ");
        line.append(join(&details, " | ").as_str());
    }
    line
}

/// Whether a list of this scope shows a skill. Any scope but the two known ones
/// shows all.
pub open spec fn in_list(skill: FileSkill, scope: Option<Seq<char>>) -> bool {
    &&& scope == Some("workspace"@) ==> !skill.is_project_scoped
    &&& scope == Some("project"@) ==> skill.is_project_scoped
}

/// Whether a list of this scope shows a skill.
pub fn is_listed(skill: &FileSkill, scope: Option<&str>) -> (listed: bool)
    ensures
        listed == in_list(*skill, opt_str(scope)),
{
    match scope {
        Some(named) => (!same_text(named, "workspace") || !skill.is_project_scoped) && (!same_text(
            named,
            "project",
        ) || skill.is_project_scoped),
        None => true,
    }
}

/// How a list of this scope shows the first `k` skills.
pub open spec fn listed_lines(skills: Seq<FileSkill>, scope: Option<Seq<char>>, k: int) -> Seq<
    Seq<char>,
>
    decreases k,
{
    if k <= 0 {
        Seq::empty()
    } else {
        let before = listed_lines(skills, scope, k - 1);
        if in_list(skills[k - 1], scope) {
            before.push(skill_line(skills[k - 1]))
        } else {
            before
        }
    }
}

/// The list of the skills of a scope.
pub open spec fn skill_list(skills: Seq<FileSkill>, scope: Option<Seq<char>>) -> Seq<char> {
    let lines = listed_lines(skills, scope, skills.len() as int);
    if lines.len() == 0 {
        "No skills found."@
    } else {
        "Found "@ + decimal(lines.len()) + " skill(s):\n\n"@ + joined(lines, "\n\n"@)
    }
}

/// Lists the skills of a scope, in their order, or says why they cannot be listed.
pub fn handle_list_skills(skills: Result<Vec<FileSkill>, String>, scope: Option<&str>) -> (answer:
    String)
    requires
        skills matches Ok(listed) ==> forall|i: int|
            0 <= i < listed@.len() && in_list(#[trigger] listed@[i], opt_str(scope)) ==> shows_date(
                listed@[i],
            ),
    ensures
        answer@ == match skills {
            Ok(listed) => skill_list(listed@, opt_str(scope)),
            Err(error) => "Error listing skills: "@ + error@,
        },
{
    let listed = match skills {
        Ok(listed) => listed,
        Err(error) => return text2("Error listing skills: ", error.as_str()),
    };
    let mut lines: Vec<String> = Vec::new();
    assert(texts(lines@) =~= Seq::empty());
    let mut k: usize = 0;
    while k < listed.len()
        invariant
            k <= listed@.len(),
            forall|i: int|
                0 <= i < listed@.len() && in_list(#[trigger] listed@[i], opt_str(scope))
                    ==> shows_date(listed@[i]),
            texts(lines@) == listed_lines(listed@, opt_str(scope), k as int),
        decreases listed.len() - k,
    {
        let skill = &listed[k];
        let ghost before = texts(lines@);
        if is_listed(skill, scope) {
            let line = line_of(skill);
            let ghost said = line@;
            lines.push(line);
            assert(texts(lines@) =~= before.push(said));
        }
        k += 1;
    }
    assert(texts(lines@).len() == lines@.len());
    if lines.len() == 0 {
        return "No skills found.".to_owned();
    }
    let mut answer = text3("Found ", render_usize(lines.len()).as_str(), " skill(s):\n\n");
    answer.append(join(&lines, "\n\n").as_str());
    answer
}

/// What a new skill is made from.
#[derive(Debug)]
pub struct CreateSkillInput {
    pub name: String,
    pub description: String,
    pub prompt: String,
    pub scope: Option<String>,
    pub allowed_tools: Option<Vec<String>>,
    pub source_issue: Option<String>,
}

/// Why a new skill is refused before anything is looked up. `name_fault` is what is
/// wrong with its name.
pub open spec fn create_fault(input: CreateSkillInput, name_fault: Option<Seq<char>>) -> Option<
    Seq<char>,
> {
    match name_fault {
        Some(fault) => Some("Invalid skill name: "@ + fault),
        None => if input.description@.len() == 0 {
            Some("Description cannot be empty"@)
        } else if input.description@.len() > MAX_DESCRIPTION_CHARS {
            Some("Description must be 1024 characters or fewer"@)
        } else {
            None
        },
    }
}

/// Checks a new skill before anything is looked up.
pub fn check_create(input: &CreateSkillInput, name_fault: Option<String>) -> (checked: Result<
    (),
    String,
>)
    ensures
        match (checked, create_fault(*input, opt_text(name_fault))) {
            (Ok(()), None) => true,
            (Err(error), Some(fault)) => error@ == fault,
            _ => false,
        },
{
    if let Some(fault) = name_fault {
        return Err(text2("Invalid skill name: ", fault.as_str()));
    }
    if input.description.as_str().is_empty() {
        return Err("Description cannot be empty".to_owned());
    }
    if chars_of(input.description.as_str()).len() > MAX_DESCRIPTION_CHARS {
        return Err("Description must be 1024 characters or fewer".to_owned());
    }
    Ok(())
}

/// Whether a new skill belongs to the project.
pub open spec fn wants_project(input: CreateSkillInput) -> bool {
    opt_text(input.scope) == Some("project"@)
}

/// Whether a new skill belongs to the project.
pub fn is_for_project(input: &CreateSkillInput) -> (project: bool)
    ensures
        project == wants_project(*input),
{
    match &input.scope {
        Some(scope) => same_text(scope.as_str(), "project"),
        None => false,
    }
}

/// What is recorded of a change of a skill.
#[derive(Debug)]
pub struct SkillMetaUpdate {
    pub updated_by: Option<String>,
    pub source_issue: Option<String>,
    pub source_run_id: Option<String>,
}

/// Whether this is what is recorded of an update.
pub open spec fn is_meta_update(
    run_id: &Option<String>,
    source_issue: Option<String>,
    run_issue: Option<String>,
    update: SkillMetaUpdate,
) -> bool {
    &&& opt_text(update.updated_by) == opt_text(*run_id)
    &&& opt_text(update.source_run_id) == opt_text(*run_id)
    &&& update.source_issue == match source_issue {
        Some(named) => Some(named),
        None => run_issue,
    }
}

/// What is recorded of a change: the run that made it, and the issue that it names,
/// or else the issue of the run.
pub fn meta_update(
    run_id: &Option<String>,
    source_issue: Option<String>,
    run_issue: Option<String>,
) -> (update: SkillMetaUpdate)
    ensures
        is_meta_update(run_id, source_issue, run_issue, update),
{
    let source_issue = match source_issue {
        Some(named) => Some(named),
        None => run_issue,
    };
    SkillMetaUpdate {
        updated_by: clone_opt(run_id),
        source_issue,
        source_run_id: clone_opt(run_id),
    }
}

/// Whether a skill is created like this.
pub open spec fn creates(
    input: CreateSkillInput,
    title: String,
    exists_in_project: bool,
    exists_in_workspace: bool,
    created: Result<FileSkill, String>,
) -> bool {
let taken = if wants_project(input) {
    exists_in_project
} else {
    exists_in_workspace
};
match created {
    Ok(skill) => {
        &&& !taken
        &&& skill.id@ == input.name@
        &&& skill.name == title
        &&& skill.description == input.description
        &&& skill.prompt == input.prompt
        &&& skill.allowed_tools == input.allowed_tools
        &&& skill.is_project_scoped == wants_project(input)
        &&& skill.dir_path@.len() == 0
        &&& skill.meta is None
        &&& !skill.has_references && !skill.has_scripts && !skill.has_assets
    },
    Err(error) => taken && error@ == "Skill already exists: "@ + input.name@,
}
}

/// Makes a new skill, unless one of this name exists in its scope. `title` is its
/// name as it is shown.
pub fn handle_create_skill(
    input: CreateSkillInput,
    title: String,
    exists_in_project: bool,
    exists_in_workspace: bool,
) -> (created: Result<FileSkill, String>)
    ensures
        creates(input, title, exists_in_project, exists_in_workspace, created),
{
    let is_project_scoped = is_for_project(&input);
    let taken = if is_project_scoped {
        exists_in_project
    } else {
        exists_in_workspace
    };
    if taken {
        return Err(text2("Skill already exists: ", input.name.as_str()));
    }
    Ok(
        FileSkill {
            id: input.name,
            name: title,
            description: input.description,
            prompt: input.prompt,
            allowed_tools: input.allowed_tools,
            is_project_scoped,
            dir_path: String::new(),
            meta: None,
            has_references: false,
            has_scripts: false,
            has_assets: false,
        },
    )
}

/// The answer to a new skill that was stored, or was not.
pub fn created_answer(name: &str, saved: Result<String, String>) -> (answer: String)
    ensures
        answer@ == match saved {
            Ok(path) => "Created skill '"@ + name@ + "' at "@ + path@,
            Err(error) => "Failed to create skill: "@ + error@,
        },
{
    match saved {
        Ok(path) => {
            let mut answer = text3("Created skill '", name, "' at ");
            answer.append(path.as_str());
            answer
        },
        Err(error) => text2("Failed to create skill: ", error.as_str()),
    }
}

/// A section of a skill's text that is replaced.
#[derive(Debug)]
pub struct ReplaceSectionInput {
    pub heading: String,
    pub content: String,
}

/// What a skill is changed to.
#[derive(Debug)]
pub struct UpdateSkillInput {
    pub id: String,
    pub description: Option<String>,
    pub prompt: Option<String>,
    pub append_to_prompt: Option<String>,
    pub replace_section: Option<ReplaceSectionInput>,
    pub allowed_tools: Option<Vec<String>>,
    pub source_issue: Option<String>,
}

/// In how many ways a change touches the text of a skill.
pub open spec fn prompt_changes(input: UpdateSkillInput) -> nat {
    (if input.prompt is Some {
        1nat
    } else {
        0
    }) + (if input.append_to_prompt is Some {
        1nat
    } else {
        0
    }) + (if input.replace_section is Some {
        1nat
    } else {
        0
    })
}

/// Checks a change: it touches the text of a skill in one way at most.
pub fn check_update(input: &UpdateSkillInput) -> (checked: Result<(), String>)
    ensures
        match checked {
            Ok(()) => prompt_changes(*input) <= 1,
            Err(error) => prompt_changes(*input) > 1 && error@
                == "At most one of prompt, append_to_prompt, or replace_section may be set"@,
        },
{
    let whole = input.prompt.is_some();
    let append = input.append_to_prompt.is_some();
    let section = input.replace_section.is_some();
    if (whole && append) || (whole && section) || (append && section) {
        Err("At most one of prompt, append_to_prompt, or replace_section may be set".to_owned())
    } else {
        Ok(())
    }
}

/// Whether this is the skill that is updated.
pub open spec fn is_to_update(
    id: &str,
    found: Result<Option<FileSkill>, String>,
    skill: Result<FileSkill, String>,
) -> bool {
    match found {
        Ok(Some(loaded)) => skill == Ok::<FileSkill, String>(loaded),
        Ok(None) => skill matches Err(error) && error@ == "Skill not found: "@ + id@,
        Err(reason) => skill matches Err(error) && error@ == "Error loading skill: "@ + reason@,
    }
}

/// The skill that is changed, or why there is none.
pub fn skill_to_update(id: &str, found: Result<Option<FileSkill>, String>) -> (skill: Result<
    FileSkill,
    String,
>)
    ensures
        is_to_update(id, found, skill),
{
    match found {
        Ok(Some(loaded)) => Ok(loaded),
        Ok(None) => Err(text2("Skill not found: ", id)),
        Err(reason) => Err(text2("Error loading skill: ", reason.as_str())),
    }
}

/// The text of a skill after a change, or why it cannot be changed. `section` is
/// the text with the section replaced.
pub open spec fn changed_prompt(
    prompt: Seq<char>,
    input: UpdateSkillInput,
    section: Result<String, String>,
) -> Result<Seq<char>, Seq<char>> {
    match (input.prompt, input.append_to_prompt, input.replace_section) {
        (Some(whole), _, _) => Ok(whole@),
        (None, Some(more), _) => Ok(prompt + "\n"@ + more@),
        (None, None, Some(_)) => match section {
            Ok(text) => Ok(text@),
            Err(error) => Err("Section replacement failed: "@ + error@),
        },
        (None, None, None) => Ok(prompt),
    }
}

/// Whether a skill is changed like this.
pub open spec fn updates(
    skill: FileSkill,
    input: UpdateSkillInput,
    section: Result<String, String>,
    changed: Result<FileSkill, String>,
) -> bool {
    match (changed, changed_prompt(skill.prompt@, input, section)) {
        (Ok(after), Ok(prompt)) => {
            &&& after.prompt@ == prompt
            &&& after.description@ == match input.description {
                Some(description) => description@,
                None => skill.description@,
            }
            &&& after.allowed_tools == match input.allowed_tools {
                Some(tools) => if tools@.len() == 0 {
                    None
                } else {
                    Some(tools)
                },
                None => skill.allowed_tools,
            }
            &&& after.id == skill.id
            &&& after.name == skill.name
            &&& after.is_project_scoped == skill.is_project_scoped
            &&& after.dir_path == skill.dir_path
            &&& after.meta == skill.meta
            &&& after.has_references == skill.has_references
            &&& after.has_scripts == skill.has_scripts
            &&& after.has_assets == skill.has_assets
        },
        (Err(error), Err(reason)) => error@ == reason,
        _ => false,
    }
}

/// Applies a change to a skill. What it does not name stays; an empty list of tools
/// lifts the limit on them.
pub fn handle_update_skill(
    skill: FileSkill,
    input: UpdateSkillInput,
    section: Result<String, String>,
) -> (changed: Result<FileSkill, String>)
    ensures
        updates(skill, input, section, changed),
{
    let mut after = skill;
    if let Some(description) = input.description {
        after.description = description;
    }
    match (input.prompt, input.append_to_prompt, input.replace_section) {
        (Some(whole), _, _) => {
            after.prompt = whole;
        },
        (None, Some(more), _) => {
            after.prompt = text3(after.prompt.as_str(), "\n", more.as_str());
        },
        (None, None, Some(_)) => match section {
            Ok(text) => {
                after.prompt = text;
            },
            Err(error) => {
                return Err(text2("Section replacement failed: ", error.as_str()));
            },
        },
        (None, None, None) => {},
    }
    if let Some(tools) = input.allowed_tools {
        after.allowed_tools = if tools.len() == 0 {
            None
        } else {
            Some(tools)
        };
    }
    Ok(after)
}

/// The answer to a change that was stored, or was not.
pub fn updated_answer<T>(id: &str, saved: Result<T, String>) -> (answer: String)
    ensures
        answer@ == match saved {
            Ok(_) => "Updated skill '"@ + id@ + "'"@,
            Err(error) => "Failed to update skill: "@ + error@,
        },
{
    match saved {
        Ok(_) => text3("Updated skill '", id, "'"),
        Err(error) => text2("Failed to update skill: ", error.as_str()),
    }
}

/// Whether this answers who deletes a skill.
pub open spec fn tells_deletion(
    id: &str,
    reason: &Option<String>,
    deleted: Result<(), String>,
    answer: String,
) -> bool {
    answer@ == match deleted {
        Ok(()) => "Deleted skill '"@ + id@ + "'"@ + match *reason {
            Some(why) => " (reason: "@ + why@ + ")"@,
            None => Seq::empty(),
        },
        Err(error) => "Failed to delete skill: "@ + error@,
    }
}

/// The answer to a skill that was deleted, or was not.
pub fn handle_delete_skill(id: &str, reason: &Option<String>, deleted: Result<(), String>) -> (
    answer: String)
    ensures
        tells_deletion(id, reason, deleted, answer),
{
    match deleted {
        Ok(()) => {
            let mut answer = text3("Deleted skill '", id, "'");
            let ghost start = answer@;
            match reason {
                Some(why) => {
                    let said = text3(" (reason: ", why.as_str(), ")");
                    answer.append(said.as_str());
                },
                None => {
                    assert(start + Seq::<char>::empty() =~= start);
                },
            }
            answer
        },
        Err(error) => text2("Failed to delete skill: ", error.as_str()),
    }
}

/// A skill that is found by its name or id is the first that has it.
pub proof fn law_first_named_skill_is_found(skills: Seq<FileSkill>, wanted: Seq<char>, from: int)
    requires
        0 <= from <= skills.len(),
    ensures
        match named_skill(skills, wanted, from) {
            Some(skill) => exists|i: int|
                from <= i < skills.len() && #[trigger] skills[i] == skill && (skill.name@ == wanted
                    || skill.id@ == wanted) && forall|j: int|
                    from <= j < i ==> (#[trigger] skills[j]).name@ != wanted && skills[j].id@
                        != wanted,
            None => forall|j: int|
                from <= j < skills.len() ==> (#[trigger] skills[j]).name@ != wanted && skills[j].id@
                    != wanted,
        },
        match skill_with_id(skills, wanted, from) {
            Some(skill) => exists|i: int|
                from <= i < skills.len() && #[trigger] skills[i] == skill && skill.id@ == wanted
                    && forall|j: int| from <= j < i ==> (#[trigger] skills[j]).id@ != wanted,
            None => forall|j: int|
                from <= j < skills.len() ==> (#[trigger] skills[j]).id@ != wanted,
        },
    decreases skills.len() - from,
{
    if from < skills.len() {
        law_first_named_skill_is_found(skills, wanted, from + 1);
        assert(skills[from] == skills[from]);
        if let Some(skill) = named_skill(skills, wanted, from) {
            if skills[from].name@ != wanted && skills[from].id@ != wanted {
                let i = choose|i: int|
                    from + 1 <= i < skills.len() && #[trigger] skills[i] == skill && (skill.name@
                        == wanted || skill.id@ == wanted) && forall|j: int|
                        from + 1 <= j < i ==> (#[trigger] skills[j]).name@ != wanted
                            && skills[j].id@ != wanted;
                assert(skills[i] == skill);
            }
        }
        if let Some(skill) = skill_with_id(skills, wanted, from) {
            if skills[from].id@ != wanted {
                let i = choose|i: int|
                    from + 1 <= i < skills.len() && #[trigger] skills[i] == skill && skill.id@
                        == wanted && forall|j: int|
                        from + 1 <= j < i ==> (#[trigger] skills[j]).id@ != wanted;
                assert(skills[i] == skill);
            }
        }
    }
}

/// A skill is shown under its name, with its prompt behind that.
pub proof fn law_skill_is_shown_with_its_prompt(skill: FileSkill, wanted: Seq<char>)
    ensures
        skill_text(skill) == "## Skill: "@ + skill.name@ + "\n\n"@ + skill.prompt@,
        forall|answer: SkillAnswer, missing: Seq<char>| #[trigger]
            answers_with(answer, None, wanted, missing) ==> answer.text@ == missing + wanted
                && answer.found is None,
{
}

/// The bytes of two texts together are those of the first and then those of the second.
proof fn lemma_bytes_of_both(a: Seq<char>, b: Seq<char>)
    ensures
        encode_utf8(a + b) == encode_utf8(a) + encode_utf8(b),
    decreases a.len(),
{
    if a.len() == 0 {
        assert(a + b =~= b);
        assert(encode_utf8(a) =~= Seq::<u8>::empty());
    } else {
        lemma_bytes_of_both(a.drop_first(), b);
        assert((a + b).drop_first() =~= a.drop_first() + b);
        assert(encode_utf8(a + b) =~= encode_utf8(a) + encode_utf8(b));
    }
}

/// The date of a time stamp is its first ten bytes, or all of a shorter one.
pub proof fn law_date_is_the_front_of_the_stamp(date: Seq<char>, time: Seq<char>)
    ensures
        utf8_len(date) == 10 ==> date_of(date + time) == date,
        utf8_len(date) <= 10 ==> date_of(date) == date,
{
    lemma_bytes_of_both(date, time);
    encode_utf8_decode_utf8(date);
    let bytes = encode_utf8(date);
    if utf8_len(date) == 10 {
        assert(encode_utf8(date + time).subrange(0, 10) =~= bytes);
    }
    if utf8_len(date) <= 10 {
        assert(bytes.subrange(0, bytes.len() as int) =~= bytes);
    }
}

/// What a skill comes with is named in a fixed order, each part exactly if it is there.
pub proof fn law_parts_of_a_skill_are_named(skill: FileSkill)
    ensures
        supporting(skill).contains("references"@) <==> skill.has_references,
        supporting(skill).contains("scripts"@) <==> skill.has_scripts,
        supporting(skill).contains("assets"@) <==> skill.has_assets,
        skill.has_references && skill.has_scripts && skill.has_assets ==> supporting(skill)
            == seq!["references"@, "scripts"@, "assets"@],
        skill.is_project_scoped ==> scope_name(skill) == "project"@,
        !skill.is_project_scoped ==> scope_name(skill) == "workspace"@,
{
    reveal_strlit("references");
    reveal_strlit("scripts");
    reveal_strlit("assets");
    let parts = supporting(skill);
    assert("references"@.len() == 10 && "scripts"@.len() == 7 && "assets"@.len() == 6);
    let r: int = if skill.has_references {
        1
    } else {
        0
    };
    let s: int = if skill.has_scripts {
        1
    } else {
        0
    };
    if skill.has_references {
        assert(parts[0] == "references"@);
    }
    if skill.has_scripts {
        assert(parts[r] == "scripts"@);
    }
    if skill.has_assets {
        assert(parts[r + s] == "assets"@);
    }
    if skill.has_references && skill.has_scripts && skill.has_assets {
        assert(parts =~= seq!["references"@, "scripts"@, "assets"@]);
    }
}

/// The details of a skill are the date of its last update, the issue it comes from and what
/// it comes with, each only where it is known.
pub proof fn law_details_tell_what_is_known(skill: FileSkill, date: Seq<char>, issue: Seq<char>)
    ensures
        updated_date(skill) == Some(date) && source_of(skill) == Some(issue) && supporting(
            skill,
        ).len() == 0 ==> skill_details(skill) == seq!["Updated: "@ + date, "Source: "@ + issue],
        updated_date(skill) is None && source_of(skill) is None && supporting(skill).len() > 0
            ==> skill_details(skill) == seq!["Has: "@ + joined(supporting(skill), ", "@)],
        skill.meta is None ==> updated_date(skill) is None && source_of(skill) is None,
        skill.meta matches Some(meta) ==> (meta.source_issue matches Some(named) ==> source_of(
            skill,
        ) == Some(named@)),
        skill.meta matches Some(meta) ==> (meta.updated_at matches Some(stamp) ==> updated_date(
            skill,
        ) == Some(date_of(stamp@))),
{
    if updated_date(skill) == Some(date) && source_of(skill) == Some(issue) && supporting(
        skill,
    ).len() == 0 {
        assert(skill_details(skill) =~= seq!["Updated: "@ + date, "Source: "@ + issue]);
    }
    if updated_date(skill) is None && source_of(skill) is None && supporting(skill).len() > 0 {
        assert(skill_details(skill) =~= seq!["Has: "@ + joined(supporting(skill), ", "@)]);
    }
}

/// The line of a skill gives its id, its scope and its description, and its details below
/// where it has any.
pub proof fn law_line_tells_of_the_skill(skill: FileSkill)
    ensures
        skill_details(skill).len() == 0 ==> skill_line(skill) == "- **"@ + skill.id@ + "** ("@
            + scope_name(skill) + "): "@ + skill.description@,
        skill_details(skill).len() > 0 ==> skill_line(skill) == "- **"@ + skill.id@ + "** ("@
            + scope_name(skill) + "): "@ + skill.description@ + "\n  "@ + joined(
            skill_details(skill),
            " | "@,
        ),
{
}

/// A list of one scope holds the skills of that scope and no others; any other list holds
/// all.
pub proof fn law_list_holds_its_scope(skill: FileSkill, scope: Option<Seq<char>>)
    ensures
        in_list(skill, Some("project"@)) <==> skill.is_project_scoped,
        in_list(skill, Some("workspace"@)) <==> !skill.is_project_scoped,
        scope != Some("project"@) && scope != Some("workspace"@) ==> in_list(skill, scope),
{
    reveal_strlit("project");
    reveal_strlit("workspace");
    assert("project"@.len() != "workspace"@.len());
}

/// Each skill of the list has its line, in the order of the skills; the others have none.
pub proof fn law_listed_skills_have_their_lines(
    skills: Seq<FileSkill>,
    scope: Option<Seq<char>>,
    k: int,
)
    requires
        0 <= k < skills.len(),
    ensures
        in_list(skills[k], scope) ==> listed_lines(skills, scope, k + 1) == listed_lines(
            skills,
            scope,
            k,
        ).push(skill_line(skills[k])),
        !in_list(skills[k], scope) ==> listed_lines(skills, scope, k + 1) == listed_lines(
            skills,
            scope,
            k,
        ),
        listed_lines(skills, scope, 0) == Seq::<Seq<char>>::empty(),
{
}

/// The list says how many skills it holds, and that there are none where there are none.
pub proof fn law_list_says_how_many(skills: Seq<FileSkill>, scope: Option<Seq<char>>)
    ensures
        ({
            let lines = listed_lines(skills, scope, skills.len() as int);
            &&& lines.len() > 0 ==> skill_list(skills, scope) == "Found "@ + decimal(lines.len())
                + " skill(s):\n\n"@ + joined(lines, "\n\n"@)
            &&& lines.len() == 0 ==> skill_list(skills, scope) == "No skills found."@
        }),
{
}

/// A skill is created exactly if its name is fit and its description has between one and
/// one thousand and twenty-four characters.
pub proof fn law_skill_is_created_iff_it_is_fit(
    input: CreateSkillInput,
    name_fault: Option<Seq<char>>,
)
    ensures
        create_fault(input, name_fault) is None <==> name_fault is None && 1
            <= input.description@.len() <= 1024,
        name_fault matches Some(fault) ==> create_fault(input, name_fault) == Some(
            "Invalid skill name: "@ + fault,
        ),
        name_fault is None && input.description@.len() == 0 ==> create_fault(input, name_fault)
            == Some("Description cannot be empty"@),
        wants_project(input) <==> (input.scope matches Some(scope) && scope@ == "project"@),
{
}

/// A prompt is replaced by the new one, or grows by a line and what is added, or takes the
/// text with the section replaced; without any of these it stays.
pub proof fn law_prompt_changes_as_asked(
    prompt: Seq<char>,
    input: UpdateSkillInput,
    section: Result<String, String>,
)
    ensures
        input.prompt matches Some(whole) ==> changed_prompt(prompt, input, section) == Ok::<
            Seq<char>,
            Seq<char>,
        >(whole@),
        input.prompt is None ==> (input.append_to_prompt matches Some(more) ==> changed_prompt(
            prompt,
            input,
            section,
        ) == Ok::<Seq<char>, Seq<char>>(prompt + "\n"@ + more@)),
        input.prompt is None && input.append_to_prompt is None && input.replace_section is Some
            ==> match section {
            Ok(text) => changed_prompt(prompt, input, section) == Ok::<Seq<char>, Seq<char>>(text@),
            Err(_) => changed_prompt(prompt, input, section) is Err,
        },
        input.prompt is None && input.append_to_prompt is None && input.replace_section is None
            ==> changed_prompt(prompt, input, section) == Ok::<Seq<char>, Seq<char>>(prompt),
        prompt_changes(input) <= 1 <==> !(input.prompt is Some && input.append_to_prompt is Some)
            && !(input.prompt is Some && input.replace_section is Some) && !(
        input.append_to_prompt is Some && input.replace_section is Some),
{
}

/// A skill is answered for with its text, from the snapshot or the files that it is looked
/// for in; one that is not there is named.
pub proof fn law_skill_is_answered_for(
    wanted: &str,
    source: &SkillSource,
    skill: FileSkill,
    answer: SkillAnswer,
)
    requires
        is_skill_answer(wanted, source, answer),
    ensures
        *source matches SkillSource::Files { by_id, listed } ==> (by_id == Some(skill)
            ==> answer.text@ == skill_text(skill)),
        *source matches SkillSource::Files { by_id, listed } ==> (by_id is None && named_skill(
            listed@,
            wanted@,
            0,
        ) is None ==> answer.text@ == "Skill not found: "@ + wanted@ && answer.found is None),
        *source matches SkillSource::Snapshot(skills) ==> (skill_with_id(skills@, wanted@, 0)
            == Some(skill) ==> answer.text@ == skill_text(skill)),
        *source matches SkillSource::NoProject(error) ==> answer.text@ == "Error: "@ + error@
            && answer.found is None,
        answer.found matches Some((id, name)) ==> !(*source is NoProject),
{
}

/// An update is recorded under the run that made it, with the issue that was named, or else
/// the issue of the run.
pub proof fn law_update_is_recorded_under_its_run(
    run_id: &Option<String>,
    named: Option<String>,
    of_run: Option<String>,
    update: SkillMetaUpdate,
)
    requires
        is_meta_update(run_id, named, of_run, update),
    ensures
        opt_text(update.updated_by) == opt_text(*run_id),
        opt_text(update.source_run_id) == opt_text(*run_id),
        named is Some ==> update.source_issue == named,
        named is None ==> update.source_issue == of_run,
{
}

/// A skill is created as it was asked for, in the scope that was asked for, exactly if none
/// of that id is there.
pub proof fn law_created_skill_is_as_asked(
    input: CreateSkillInput,
    title: String,
    in_project: bool,
    in_workspace: bool,
    created: Result<FileSkill, String>,
)
    requires
        creates(input, title, in_project, in_workspace, created),
    ensures
        wants_project(input) ==> (created is Ok <==> !in_project),
        !wants_project(input) ==> (created is Ok <==> !in_workspace),
        created matches Ok(skill) ==> {
            &&& skill.id@ == input.name@
            &&& skill.name == title
            &&& skill.description == input.description
            &&& skill.prompt == input.prompt
            &&& skill.allowed_tools == input.allowed_tools
            &&& skill.is_project_scoped == wants_project(input)
            &&& skill.meta is None
            &&& supporting(skill).len() == 0
        },
        created matches Err(error) ==> error@ == "Skill already exists: "@ + input.name@,
{
}

/// An update changes what it names and nothing else: the description, the prompt and the
/// tools, where an empty list of tools takes the list away.
pub proof fn law_update_changes_what_it_names(
    skill: FileSkill,
    input: UpdateSkillInput,
    section: Result<String, String>,
    changed: Result<FileSkill, String>,
)
    requires
        updates(skill, input, section, changed),
    ensures
        changed matches Ok(after) ==> {
            &&& after.id == skill.id && after.name == skill.name && after.dir_path == skill.dir_path
            &&& after.is_project_scoped == skill.is_project_scoped && after.meta == skill.meta
            &&& input.description is None ==> after.description@ == skill.description@
            &&& input.description matches Some(text) ==> after.description@ == text@
            &&& input.prompt matches Some(text) ==> after.prompt@ == text@
            &&& input.prompt is None ==> (input.append_to_prompt matches Some(more)
                ==> after.prompt@ == skill.prompt@ + "\n"@ + more@)
            &&& input.prompt is None && input.append_to_prompt is None && input.replace_section
                is None ==> after.prompt@ == skill.prompt@
            &&& input.allowed_tools is None ==> after.allowed_tools == skill.allowed_tools
            &&& input.allowed_tools matches Some(tools) ==> (if tools@.len() == 0 {
                after.allowed_tools is None
            } else {
                after.allowed_tools == Some(tools)
            })
        },
        changed is Err ==> input.replace_section is Some && section is Err,
{
}

/// A deletion is told with its reason where there is one, and with its fault where it
/// failed.
pub proof fn law_deletion_is_told(
    id: &str,
    reason: &Option<String>,
    deleted: Result<(), String>,
    answer: String,
)
    requires
        tells_deletion(id, reason, deleted, answer),
    ensures
        deleted is Ok && *reason is None ==> answer@ == "Deleted skill '"@ + id@ + "'"@,
        deleted is Ok ==> (*reason matches Some(why) ==> answer@ == "Deleted skill '"@ + id@ + "'"@
            + (" (reason: "@ + why@ + ")"@)),
        deleted matches Err(error) ==> answer@ == "Failed to delete skill: "@ + error@,
{
    if deleted is Ok && *reason is None {
        assert(answer@ =~= "Deleted skill '"@ + id@ + "'"@);
    }
}

/// The skill that is updated is the one that was found.
pub proof fn law_found_skill_is_updated(
    id: &str,
    found: Result<Option<FileSkill>, String>,
    skill: Result<FileSkill, String>,
)
    requires
        is_to_update(id, found, skill),
    ensures
        skill is Ok <==> (found matches Ok(Some(_))),
        skill matches Ok(loaded) ==> found == Ok::<Option<FileSkill>, String>(Some(loaded)),
        found matches Ok(None) ==> skill->Err_0@ == "Skill not found: "@ + id@,
{
}

} // verus!
