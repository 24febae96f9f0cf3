//! Committing the files of a batch: what the commit says, and what is reported of
//! it.
use vstd::prelude::*;
use vstd::string::*;
use crate::handlers::write::types::{
    build_failure, commit_model, file_failure, ChangeItem, CommitModel, CommitReport, FailureModel,
    IndexedFailure,
};
use crate::scan::{is_space, occurs_at, trim_end, trimmed_end};
use crate::text::{join, joined, opt_text, same_text, text2, text3, texts};

verus! {

/// Whether a sealed commit has to reach the origin at once.
#[derive(Clone, Copy, Debug, PartialEq, Eq, Structural)]
pub enum PublicationRequirement {
    RequiredForOpenPr,
    DeferredUntilPublication,
}

/// How the tree mutation of a batch enters history.
#[derive(Debug)]
pub enum PublicationMode {
    Amend,
    Child { description: String },
}

/// What is to be done about the commit of a batch.
#[derive(Debug)]
pub enum CommitPlan {
    Nothing,
    Refused(IndexedFailure),
    Publish(PublicationMode),
}

/// What a commit plan says.
pub enum PlanModel {
    Nothing,
    Refused(FailureModel, Option<CommitModel>),
    Amend,
    Child(Seq<char>),
}

impl View for CommitPlan {
    type V = PlanModel;

    open spec fn view(&self) -> PlanModel {
        match *self {
            CommitPlan::Nothing => PlanModel::Nothing,
            CommitPlan::Refused(refusal) => PlanModel::Refused(
                refusal.failure@,
                commit_model(refusal.commit),
            ),
            CommitPlan::Publish(PublicationMode::Amend) => PlanModel::Amend,
            CommitPlan::Publish(PublicationMode::Child { description }) => PlanModel::Child(
                description@,
            ),
        }
    }
}

/// The message that asks to amend the last commit.
pub const AMEND_MESSAGE: &'static str = "^";

/// What is said of a commit that failed with `error`.
pub open spec fn failed_commit(error: Seq<char>) -> CommitModel {
    CommitModel { status: "failed"@, sha: None, pr_number: None, message: Some(error) }
}

/// What is said of files without a commit message.
pub open spec fn no_message_error() -> Seq<char> {
    "File edits require a descriptive commit_msg; no project tree changes were published. Pass commit_msg so the proposed tree can be committed."@
}

/// The description of a new commit: the agent's prefix, the message, and below it
/// the memories that the commit promotes.
pub open spec fn description(
    prefix: Seq<char>,
    message: Seq<char>,
    promoted: Seq<Seq<char>>,
) -> Seq<char> {
    if promoted.len() == 0 {
        prefix + message
    } else {
        prefix + trimmed_end(message) + "\n\n"@ + joined(promoted, "\n"@)
    }
}

/// What is to be done about the commit of a batch.
pub open spec fn commit_plan(
    index: nat,
    item: ChangeItem,
    affected: nat,
    message: Option<Seq<char>>,
    promoted: Seq<Seq<char>>,
    prefix: Seq<char>,
) -> PlanModel {
    let refuse = |error: Seq<char>| PlanModel::Refused(
        file_failure(index, item.target@, item.mode, error),
        Some(failed_commit(error)),
    );
    if affected == 0 {
        PlanModel::Nothing
    } else {
        match message {
            None => refuse(no_message_error()),
            Some(text) => if text != AMEND_MESSAGE@ {
                PlanModel::Child(description(prefix, text, promoted))
            } else if promoted.len() > 0 {
                refuse("promote_memory cannot ride an amend; make a new canon commit"@)
            } else {
                PlanModel::Amend
            },
        }
    }
}

/// The refusal of a commit, charged to the change `item`.
fn refuse_commit(index: usize, item: &ChangeItem, error: &str) -> (refusal: IndexedFailure)
    ensures
        refusal.failure@ == file_failure(index as nat, item.target@, item.mode, error@),
        commit_model(refusal.commit) == Some(failed_commit(error@)),
{
    IndexedFailure {
        failure: build_failure(index, item, error.to_owned()),
        commit: Some(
            CommitReport {
                status: "failed".to_owned(),
                sha: None,
                pr_number: None,
                message: Some(error.to_owned()),
            },
        ),
    }
}

/// Decides what is to be done about the commit of a batch, whose first file change
/// is `item`.
pub fn plan_commit(
    index: usize,
    item: &ChangeItem,
    affected_paths: &Vec<String>,
    commit_msg: Option<&str>,
    promoted_memory_uris: &Vec<String>,
    agent_prefix: &str,
) -> (plan: CommitPlan)
    ensures
        plan@ == commit_plan(
            index as nat,
            *item,
            affected_paths@.len(),
            crate::text::opt_str(commit_msg),
            texts(promoted_memory_uris@),
            agent_prefix@,
        ),
{
    if affected_paths.len() == 0 {
        return CommitPlan::Nothing;
    }
    let message = match commit_msg {
        Some(message) => message,
        None => {
            return CommitPlan::Refused(
                refuse_commit(
                    index,
                    item,
                    "File edits require a descriptive commit_msg; no project tree changes were published. Pass commit_msg so the proposed tree can be committed.",
                ),
            );
        },
    };
    if same_text(message, AMEND_MESSAGE) {
        if promoted_memory_uris.len() > 0 {
            return CommitPlan::Refused(
                refuse_commit(
                    index,
                    item,
                    "promote_memory cannot ride an amend; make a new canon commit",
                ),
            );
        }
        return CommitPlan::Publish(PublicationMode::Amend);
    }
    let text = if promoted_memory_uris.len() == 0 {
        text2(agent_prefix, message)
    } else {
        let mut text = text3(agent_prefix, trim_end(message).as_str(), "\n\n");
        text.append(join(promoted_memory_uris, "\n").as_str());
        text
    };
    CommitPlan::Publish(PublicationMode::Child { description: text })
}

/// What came of publishing a tree mutation.
#[derive(Debug)]
pub enum PublishOutcome {
    Published { head: String, amend_note: Option<String> },
    Refused(String),
    WorkerFailed(String),
}

/// A commit that is through: what is reported of it, whether it has to reach the
/// origin, and whether its pack is published.
#[derive(Debug)]
pub struct CompletedCommit {
    pub report: Option<CommitReport>,
    pub publication_requirement: PublicationRequirement,
    pub publish_pack: bool,
}

/// The commit of a batch that touched no file of the tree.
fn nothing_to_commit() -> (done: CompletedCommit)
    ensures
        done.report is None,
        done.publication_requirement == PublicationRequirement::DeferredUntilPublication,
        !done.publish_pack,
{
    CompletedCommit {
        report: None,
        publication_requirement: PublicationRequirement::DeferredUntilPublication,
        publish_pack: false,
    }
}

/// What is reported of a published mutation.
pub open spec fn published_report(
    amended: bool,
    head: Seq<char>,
    note: Option<Seq<char>>,
) -> CommitModel {
    CommitModel {
        status: if amended {
            "amended"@
        } else {
            "committed"@
        },
        sha: Some(head),
        pr_number: None,
        message: note,
    }
}

/// What came of a commit that was published, charged to the change `item`. `managed`
/// holds what the routing of the managed branch requires; without it an open pull
/// request cannot be ruled out, so the origin push is required.
pub open spec fn settles(
    index: nat,
    item: ChangeItem,
    amended: bool,
    outcome: PublishOutcome,
    managed: Option<PublicationRequirement>,
    settled: Result<CompletedCommit, IndexedFailure>,
) -> bool {
    match (settled, outcome) {
        (Ok(done), PublishOutcome::Published { head, amend_note }) => {
            &&& commit_model(done.report) == Some(
                published_report(amended, head@, opt_text(amend_note)),
            )
            &&& done.publication_requirement == match managed {
                Some(requirement) => requirement,
                None => PublicationRequirement::RequiredForOpenPr,
            }
            &&& done.publish_pack == managed is Some
        },
        (Err(refusal), PublishOutcome::Refused(error)) => {
            let message = "Logical-head publication failed: "@ + error@
                + "; no project tree changes were published."@;
            &&& refusal.failure@ == file_failure(index, item.target@, item.mode, message)
            &&& commit_model(refusal.commit) == Some(failed_commit(message))
        },
        (Err(refusal), PublishOutcome::WorkerFailed(error)) => {
            &&& refusal.failure@ == file_failure(
                index,
                item.target@,
                item.mode,
                "Logical-head publication worker failed: "@ + error@,
            )
            &&& refusal.commit is None
        },
        _ => false,
    }
}

/// Takes up what came of publishing.
fn settle_commit(
    index: usize,
    item: &ChangeItem,
    amended: bool,
    outcome: PublishOutcome,
    managed: Option<PublicationRequirement>,
) -> (settled: Result<CompletedCommit, IndexedFailure>)
    ensures
        settles(index as nat, *item, amended, outcome, managed, settled),
{
    match outcome {
        PublishOutcome::Published { head, amend_note } => {
            let publication_requirement = match managed {
                Some(requirement) => requirement,
                None => PublicationRequirement::RequiredForOpenPr,
            };
            let report = CommitReport {
                status: if amended {
                    "amended".to_owned()
                } else {
                    "committed".to_owned()
                },
                sha: Some(head),
                pr_number: None,
                message: amend_note,
            };
            Ok(
                CompletedCommit {
                    report: Some(report),
                    publication_requirement,
                    publish_pack: managed.is_some(),
                },
            )
        },
        PublishOutcome::Refused(error) => {
            let message = text3(
                "Logical-head publication failed: ",
                error.as_str(),
                "; no project tree changes were published.",
            );
            Err(refuse_commit(index, item, message.as_str()))
        },
        PublishOutcome::WorkerFailed(error) => {
            let message = text2("Logical-head publication worker failed: ", error.as_str());
            Err(IndexedFailure { failure: build_failure(index, item, message), commit: None })
        },
    }
}

/// Whether a planned commit is settled like this.
pub open spec fn is_finalized(
    index: usize,
    item: &ChangeItem,
    plan: CommitPlan,
    published: Option<(PublishOutcome, Option<PublicationRequirement>)>,
    settled: Result<CompletedCommit, IndexedFailure>,
) -> bool {
    match (plan, published) {
        (CommitPlan::Nothing, _) => {
            &&& settled matches Ok(done)
            &&& done.report is None
            &&& done.publication_requirement
                == PublicationRequirement::DeferredUntilPublication
            &&& !done.publish_pack
        },
        (CommitPlan::Refused(refusal), _) => settled matches Err(failed) && failed == refusal,
        (CommitPlan::Publish(mode), Some((outcome, managed))) => settles(
            index as nat,
            *item,
            mode is Amend,
            outcome,
            managed,
            settled,
        ),
        (CommitPlan::Publish(_), None) => false,
    }
}

/// Concludes the commit of a batch, whose first file change is `item`: what was
/// planned, and, where that was to publish, what came of it.
pub fn finalize_file_commit(
    index: usize,
    item: &ChangeItem,
    plan: CommitPlan,
    published: Option<(PublishOutcome, Option<PublicationRequirement>)>,
) -> (settled: Result<CompletedCommit, IndexedFailure>)
    requires
        plan is Publish ==> published is Some,
    ensures
        is_finalized(index, item, plan, published, settled),
{
    match plan {
        CommitPlan::Nothing => Ok(nothing_to_commit()),
        CommitPlan::Refused(refusal) => Err(refusal),
        CommitPlan::Publish(mode) => {
            let amended = match mode {
                PublicationMode::Amend => true,
                PublicationMode::Child { .. } => false,
            };
            match published {
                Some((outcome, managed)) => settle_commit(index, item, amended, outcome, managed),
                None => Ok(nothing_to_commit()),
            }
        },
    }
}

/// A batch that touches files is never committed without a message, and promoted
/// memories never ride an amend.
pub proof fn law_commit_needs_a_message(
    index: nat,
    item: ChangeItem,
    affected: nat,
    message: Option<Seq<char>>,
    promoted: Seq<Seq<char>>,
    prefix: Seq<char>,
)
    ensures
        commit_plan(index, item, affected, message, promoted, prefix) is Child ==> message is Some
            && affected > 0,
        commit_plan(index, item, affected, message, promoted, prefix) is Amend ==> message is Some
            && affected > 0 && promoted.len() == 0,
        commit_plan(index, item, affected, message, promoted, prefix) is Nothing <==> affected == 0,
{
}

/// Whether a commit of an agent begins like this.
pub open spec fn is_agent_prefix(agent_name: Option<&str>, prefix: String) -> bool {
    prefix@ == match agent_name {
        Some(name) => "["@ + name@ + "] "@,
        None => Seq::empty(),
    }
}

/// What the message of a commit begins with: the name of the agent that made it,
/// where that is known.
pub fn agent_commit_prefix(agent_name: Option<&str>) -> (prefix: String)
    ensures
        is_agent_prefix(agent_name, prefix),
{
    match agent_name {
        Some(name) => text3("[", name, "] "),
        None => {
            let none = String::new();
            assert(none@ =~= Seq::empty());
            none
        },
    }
}

/// Every commit says what its caller said: the description of a new commit begins with the
/// agent's prefix and the given message, up to white space at the message's end. Without
/// promoted memories it says nothing else; with them each of their addresses stands on a
/// line of its own behind it.
pub proof fn law_commit_says_the_message(
    index: nat,
    item: ChangeItem,
    affected: nat,
    message: Seq<char>,
    promoted: Seq<Seq<char>>,
    prefix: Seq<char>,
)
    requires
        affected > 0,
        message != "^"@,
    ensures
        ({
            let plan = commit_plan(index, item, affected, Some(message), promoted, prefix);
            &&& plan matches PlanModel::Child(said)
            &&& promoted.len() == 0 ==> said == prefix + message
            &&& promoted.len() > 0 ==> exists|told: Seq<char>, space: Seq<char>|
                message == #[trigger] (told + space) && (forall|i: int|
                    0 <= i < space.len() ==> is_space(#[trigger] space[i])) && (told.len() > 0
                    ==> !is_space(told.last())) && said == prefix + told + "\n\n"@ + joined(
                    promoted,
                    "\n"@,
                )
            &&& forall|k: int|
                0 <= k < promoted.len() ==> stands_behind(
                    said,
                    #[trigger] promoted[k],
                    prefix.len() as int,
                )
        }),
{
    let said = description(prefix, message, promoted);
    if promoted.len() > 0 {
        let told = trimmed_end(message);
        lemma_trimmed_end(message);
        let space = message.skip(told.len() as int);
        assert(message =~= told + space);
        assert forall|i: int| 0 <= i < space.len() implies is_space(#[trigger] space[i]) by {
            assert(space[i] == message[told.len() + i]);
        }
        let front = prefix + told + "\n\n"@;
        let list = joined(promoted, "\n"@);
        assert(said == front + list);
        assert(said == prefix + told + "\n\n"@ + joined(promoted, "\n"@));
        assert forall|k: int| 0 <= k < promoted.len() implies stands_behind(
            said,
            #[trigger] promoted[k],
            prefix.len() as int,
        ) by {
            lemma_part_of_joined(promoted, "\n"@, k);
            let at = choose|at: int| occurs_at(list, promoted[k], at);
            assert(said.subrange(front.len() + at, front.len() + at + promoted[k].len())
                =~= list.subrange(at, at + promoted[k].len()));
            assert(occurs_at(said, promoted[k], front.len() + at));
        }
    }
}

/// Whether a part stands in a text at `from` or behind it.
pub open spec fn stands_behind(text: Seq<char>, part: Seq<char>, from: int) -> bool {
    exists|at: int| from <= at && #[trigger] occurs_at(text, part, at)
}

/// Each part stands in what the parts are joined to.
proof fn lemma_part_of_joined(parts: Seq<Seq<char>>, separator: Seq<char>, k: int)
    requires
        0 <= k < parts.len(),
    ensures
        exists|at: int| occurs_at(joined(parts, separator), parts[k], at),
    decreases parts.len(),
{
    let all = joined(parts, separator);
    if parts.len() == 1 {
        assert(all.subrange(0, parts[k].len() as int) =~= parts[k]);
        assert(occurs_at(all, parts[k], 0));
    } else {
        let front = joined(parts.drop_last(), separator);
        if k == parts.len() - 1 {
            let at = (front + separator).len() as int;
            assert(all.subrange(at, at + parts[k].len()) =~= parts[k]);
            assert(occurs_at(all, parts[k], at));
        } else {
            lemma_part_of_joined(parts.drop_last(), separator, k);
            assert(parts.drop_last()[k] == parts[k]);
            let at = choose|at: int| occurs_at(front, parts[k], at);
            assert(all.subrange(at, at + parts[k].len()) =~= front.subrange(
                at,
                at + parts[k].len(),
            ));
            assert(occurs_at(all, parts[k], at));
        }
    }
}

/// What is left of a text at its front once the blanks at its end are gone.
proof fn lemma_trimmed_end(text: Seq<char>)
    ensures
        trimmed_end(text).is_prefix_of(text),
        forall|i: int| trimmed_end(text).len() <= i < text.len() ==> is_space(#[trigger] text[i]),
        trimmed_end(text).len() > 0 ==> !is_space(trimmed_end(text).last()),
    decreases text.len(),
{
    if text.len() > 0 && is_space(text.last()) {
        lemma_trimmed_end(text.drop_last());
        let left = trimmed_end(text);
        assert(left =~= text.subrange(0, left.len() as int));
        assert forall|i: int| left.len() <= i < text.len() implies is_space(#[trigger] text[i]) by {
            if i < text.len() - 1 {
                assert(text.drop_last()[i] == text[i]);
            }
        }
    }
}

/// A caret amends the last commit, and nothing else does; memories cannot be promoted by
/// it. Where no file of the tree is touched nothing is committed, whatever the message.
pub proof fn law_only_a_caret_amends(
    index: nat,
    item: ChangeItem,
    affected: nat,
    message: Option<Seq<char>>,
    promoted: Seq<Seq<char>>,
    prefix: Seq<char>,
)
    ensures
        ({
            let plan = commit_plan(index, item, affected, message, promoted, prefix);
            &&& plan is Nothing <==> affected == 0
            &&& plan is Amend <==> affected > 0 && message == Some("^"@) && promoted.len() == 0
            &&& plan is Child <==> affected > 0 && message is Some && message != Some("^"@)
            &&& plan matches PlanModel::Refused(failure, commit) ==> {
                &&& failure.index == index
                &&& failure.target == item.target@
                &&& failure.error.len() > 0
                &&& commit matches Some(said) && said.status == "failed"@ && said.sha is None
                    && said.message == Some(failure.error)
            }
        }),
{
    reveal_strlit(
        "File edits require a descriptive commit_msg; no project tree changes were published. Pass commit_msg so the proposed tree can be committed.",
    );
    reveal_strlit("promote_memory cannot ride an amend; make a new canon commit");
}

/// What was published is reported under its new head, as an amendment where it is one. A
/// branch that is managed publishes its pack, and what its routing requires is required;
/// otherwise the origin has to have it. What was not published is not reported as done.
pub proof fn law_published_commit_is_reported(
    index: nat,
    item: ChangeItem,
    amended: bool,
    outcome: PublishOutcome,
    managed: Option<PublicationRequirement>,
    settled: Result<CompletedCommit, IndexedFailure>,
)
    requires
        settles(index, item, amended, outcome, managed, settled),
    ensures
        settled is Ok <==> outcome is Published,
        (settled, outcome) matches (Ok(done), PublishOutcome::Published { head, amend_note }) ==> {
            &&& done.report matches Some(report) && {
                &&& opt_text(report.sha) == Some(head@)
                &&& report.status@ == if amended {
                    "amended"@
                } else {
                    "committed"@
                }
                &&& opt_text(report.message) == opt_text(amend_note)
                &&& report.pr_number is None
            }
            &&& managed is None ==> done.publication_requirement
                == PublicationRequirement::RequiredForOpenPr && !done.publish_pack
            &&& managed matches Some(required) ==> done.publication_requirement == required
                && done.publish_pack
        },
        settled matches Err(refusal) ==> refusal.failure.index == index
            && refusal.failure.target@ == item.target@,
        (settled, outcome) matches (Err(refusal), PublishOutcome::Refused(error)) ==> {
            &&& refusal.failure.error@ == "Logical-head publication failed: "@ + error@
                + "; no project tree changes were published."@
            &&& refusal.commit matches Some(report) && report.status@ == "failed"@ && report.sha
                is None && opt_text(report.message) == Some(refusal.failure.error@)
        },
        (settled, outcome) matches (Err(refusal), PublishOutcome::WorkerFailed(error))
            ==> refusal.failure.error@ == "Logical-head publication worker failed: "@ + error@
            && refusal.commit is None,
{
}

/// A plan without a commit settles without one, a refused plan fails as it was refused, and
/// a planned commit comes out as its publishing did.
pub proof fn law_plan_settles_as_it_was_made(
    index: usize,
    item: &ChangeItem,
    plan: CommitPlan,
    published: Option<(PublishOutcome, Option<PublicationRequirement>)>,
    settled: Result<CompletedCommit, IndexedFailure>,
)
    requires
        is_finalized(index, item, plan, published, settled),
    ensures
        plan is Nothing ==> (settled matches Ok(done) && done.report is None && !done.publish_pack
            && done.publication_requirement == PublicationRequirement::DeferredUntilPublication),
        plan matches CommitPlan::Refused(refusal) ==> settled == Err::<
            CompletedCommit,
            IndexedFailure,
        >(refusal),
        plan is Publish ==> (published matches Some((outcome, _)) ==> (settled is Ok <==> outcome
            is Published)),
{
}

/// A commit of an agent begins with its name in brackets; any other with nothing.
pub proof fn law_commit_begins_with_its_agent(agent_name: Option<&str>, prefix: String)
    requires
        is_agent_prefix(agent_name, prefix),
    ensures
        agent_name matches Some(name) ==> prefix@ == "["@ + name@ + "] "@,
        agent_name is None ==> prefix@.len() == 0,
{
}

} // verus!
