//! Searches that are answered from an index in place of the program that was
//! called.
//!
//! A search is either answered with exactly what the program would print, or
//! declined, and then the program itself runs.
use vstd::prelude::*;
use vstd::string::*;
use vstd::utf8::encode_utf8;
use crate::scan::{lines, lines_of, starts_with, trim_trailing, without_trailing};
use crate::text::{join, joined, opt_str, opt_text, same_text, text2, text3, texts};

verus! {

/// What the standard input of a call is.
#[derive(Clone, Copy, Debug, PartialEq, Eq, Structural)]
pub enum WarmSearchStdin {
    Nothing,
    Terminal,
    Pipe,
    File,
    Other,
}

/// Why a search is left to the program.
#[derive(Clone, Copy, Debug, PartialEq, Eq, Structural)]
pub enum WarmSearchDeclineReason {
    /// The call reads what is handed to it.
    StdinInput,
    RunNotFound,
    MissingWorktree,
    /// The call says what is not understood here.
    UnsupportedInvocation,
    /// It is not certain that the answer would be the same.
    ParityUncertain,
    /// The search leaves what is indexed.
    ScopeDecline,
    ColdOrIncompleteIndex,
}

/// What becomes of a search.
#[derive(Debug, Clone, PartialEq, Eq)]
pub enum WarmSearchDecision {
    /// It is answered with this.
    Serve { stdout: Vec<u8>, stderr: Vec<u8>, exit_code: i32 },
    /// The program runs.
    PassThrough { reason: WarmSearchDeclineReason },
}

/// A search for lines, as a call asks for it.
#[derive(Debug)]
pub struct GrepQuery {
    pub pattern: String,
    pub globs: Vec<String>,
    pub output_mode: String,
    pub case_insensitive: bool,
    pub before_context: usize,
    pub after_context: usize,
    pub show_line_numbers: bool,
    pub max_per_file: Option<usize>,
    pub paths: Vec<String>,
}

/// What a call asks for.
#[derive(Debug)]
pub enum TranslatedSearch {
    Grep(GrepQuery),
    /// The names of files.
    Files,
}

/// The run that a call belongs to.
#[derive(Debug)]
pub enum SearchRun {
    Unknown,
    /// A run, with its worktree where it has one.
    Found(Option<String>),
}

/// Why a search is declined before it is looked up, if it is.
pub open spec fn declined(
    stdin: WarmSearchStdin,
    run: SearchRun,
    translated: Result<TranslatedSearch, WarmSearchDeclineReason>,
) -> Option<WarmSearchDeclineReason> {
    if stdin == WarmSearchStdin::Pipe || stdin == WarmSearchStdin::File || stdin
        == WarmSearchStdin::Other {
        Some(WarmSearchDeclineReason::StdinInput)
    } else {
        match run {
            SearchRun::Unknown => Some(WarmSearchDeclineReason::RunNotFound),
            SearchRun::Found(None) => Some(WarmSearchDeclineReason::MissingWorktree),
            SearchRun::Found(Some(_)) => match translated {
                Err(reason) => Some(reason),
                Ok(TranslatedSearch::Files) => Some(WarmSearchDeclineReason::ParityUncertain),
                Ok(TranslatedSearch::Grep(query)) => if query.output_mode@ != "content"@ {
                    Some(WarmSearchDeclineReason::ParityUncertain)
                } else {
                    None
                },
            },
        }
    }
}

/// Whether a search is admitted like this.
pub open spec fn is_admitted(
    stdin: WarmSearchStdin,
    run: SearchRun,
    translated: Result<TranslatedSearch, WarmSearchDeclineReason>,
    admitted: Result<(String, GrepQuery), WarmSearchDecision>,
) -> bool {
    match (admitted, declined(stdin, run, translated)) {
        (Ok((worktree, query)), None) => run == SearchRun::Found(Some(worktree)) && translated
            == Ok::<TranslatedSearch, WarmSearchDeclineReason>(TranslatedSearch::Grep(query)),
        (Err(decision), Some(reason)) => decision == (WarmSearchDecision::PassThrough {
            reason,
        }),
        _ => false,
    }
}

/// Whether a call can be answered from the index at all: then its worktree and
/// what it searches for.
pub fn admit_search(
    stdin: WarmSearchStdin,
    run: SearchRun,
    translated: Result<TranslatedSearch, WarmSearchDeclineReason>,
) -> (admitted: Result<(String, GrepQuery), WarmSearchDecision>)
    ensures
        is_admitted(stdin, run, translated, admitted),
{
    if stdin == WarmSearchStdin::Pipe || stdin == WarmSearchStdin::File || stdin
        == WarmSearchStdin::Other {
        return Err(pass(WarmSearchDeclineReason::StdinInput));
    }
    let worktree = match run {
        SearchRun::Unknown => return Err(pass(WarmSearchDeclineReason::RunNotFound)),
        SearchRun::Found(None) => return Err(pass(WarmSearchDeclineReason::MissingWorktree)),
        SearchRun::Found(Some(worktree)) => worktree,
    };
    let query = match translated {
        Err(reason) => return Err(pass(reason)),
        Ok(TranslatedSearch::Files) => {
            return Err(pass(WarmSearchDeclineReason::ParityUncertain));
        },
        Ok(TranslatedSearch::Grep(query)) => query,
    };
    if !same_text(query.output_mode.as_str(), "content") {
        return Err(pass(WarmSearchDeclineReason::ParityUncertain));
    }
    Ok((worktree, query))
}

/// Leaves a search to the program.
fn pass(reason: WarmSearchDeclineReason) -> (decision: WarmSearchDecision)
    ensures
        decision == (WarmSearchDecision::PassThrough { reason }),
{
    WarmSearchDecision::PassThrough { reason }
}

/// Whether these are the paths that a search goes through.
pub open spec fn are_queried(paths: Vec<String>, queried: Vec<Option<String>>) -> bool {
    &&& paths@.len() == 0 ==> queried@ == seq![None::<String>]
    &&& paths@.len() > 0 ==> queried@ == paths@.map_values(|path: String| Some(path))
}

/// The paths that a search goes through: those it names, or the directory of the
/// call.
pub fn query_paths(paths: Vec<String>) -> (queried: Vec<Option<String>>)
    ensures
        are_queried(paths, queried),
{
    let mut queried: Vec<Option<String>> = Vec::new();
    let ghost all = paths@;
    if paths.len() == 0 {
        queried.push(None);
        assert(queried@ =~= seq![None::<String>]);
        return queried;
    }
    let mut k: usize = 0;
    let n: usize = paths.len();
    for path in it: paths
        invariant
            it.seq() == all,
            n == all.len(),
            k == it.index(),
            queried@ == all.take(k as int).map_values(|path: String| Some(path)),
    {
        assert(path == all[k as int]);
        queried.push(Some(path));
        assert(queried@ =~= all.take(k + 1).map_values(|path: String| Some(path)));
        k += 1;
    }
    assert(all.take(k as int) =~= all);
    queried
}

/// Where a search begins, on a system whose paths begin at `/`: at an absolute path as
/// it is, at any other below the directory of the call.
pub open spec fn search_root(cwd: Seq<char>, path: Option<Seq<char>>) -> Seq<char> {
    match path {
        None => cwd,
        Some(named) => if "/"@.is_prefix_of(named) || cwd.len() == 0 {
            named
        } else if cwd.last() == '/' {
            cwd + named
        } else {
            cwd + "/"@ + named
        },
    }
}

/// Where a search begins, on a system whose paths begin at `/`.
pub fn resolve_search_root(cwd: &str, path: Option<&str>) -> (root: String)
    ensures
        root@ == search_root(cwd@, opt_str(path)),
{
    match path {
        None => cwd.to_owned(),
        Some(named) => {
            if starts_with(named, "/") || cwd.is_empty() {
                named.to_owned()
            } else {
                proof {
                    reveal_strlit("/");
                    if cwd@.last() == '/' {
                        assert("/"@ =~= cwd@.skip(cwd@.len() - 1));
                    } else {
                        assert("/"@[0] != cwd@.skip(cwd@.len() - 1)[0]);
                    }
                }
                if crate::scan::ends_with(cwd, "/") {
                    text2(cwd, named)
                } else {
                    text3(cwd, "/", named)
                }
            }
        },
    }
}

/// The path that is put before each line of a search below it.
pub open spec fn line_prefix(path: Seq<char>) -> Seq<char> {
    if without_trailing(path, '/').len() == 0 {
        "/"@
    } else {
        without_trailing(path, '/') + "/"@
    }
}

/// A line of the index as the program prints it: behind the path of the search,
/// but for the line that separates two groups.
pub open spec fn printed_line(line: Seq<char>, path: Seq<char>) -> Seq<char> {
    if line == "--"@ {
        line
    } else {
        line_prefix(path) + line
    }
}

/// What the index found, as the program prints it for a path.
pub open spec fn printed_body(body: Seq<char>, path: Option<Seq<char>>) -> Seq<char> {
    match path {
        None => body,
        Some(named) => joined(
            lines_of(body).map_values(|line: Seq<char>| printed_line(line, named)),
            "\n"@,
        ),
    }
}

/// What the index found, as the program prints it for a path.
pub fn reprefix_search_body(body: &str, path_arg: Option<&str>) -> (printed: String)
    ensures
        printed@ == printed_body(body@, opt_str(path_arg)),
{
    let path = match path_arg {
        None => return body.to_owned(),
        Some(path) => path,
    };
    let bare = trim_trailing(path, '/');
    let prefix = if bare.as_str().is_empty() {
        "/".to_owned()
    } else {
        text2(bare.as_str(), "/")
    };
    let found = lines(body);
    let ghost all = lines_of(body@);
    assert(texts(found@).len() == found@.len());
    let ghost wanted = all.map_values(|line: Seq<char>| printed_line(line, path@));
    let mut printed: Vec<String> = Vec::new();
    let mut i: usize = 0;
    while i < found.len()
        invariant
            i <= found@.len(),
            texts(found@) == all,
            prefix@ == line_prefix(path@),
            wanted == all.map_values(|line: Seq<char>| printed_line(line, path@)),
            wanted.len() == found@.len(),
            texts(printed@) == wanted.take(i as int),
        decreases found.len() - i,
    {
        assert(texts(found@)[i as int] == found@[i as int]@);
        let ghost before = texts(printed@);
        let line = if same_text(found[i].as_str(), "--") {
            found[i].clone()
        } else {
            text2(prefix.as_str(), found[i].as_str())
        };
        let ghost said = line@;
        printed.push(line);
        assert(texts(printed@) =~= before.push(said));
        assert(wanted.take(i + 1) =~= before.push(said));
        i += 1;
    }
    assert(wanted.take(i as int) =~= wanted);
    join(&printed, "\n")
}

/// What the index says of one path.
#[derive(Debug)]
pub enum SearchBody {
    /// The path is outside of what is indexed.
    OutOfScope,
    /// The index is not ready.
    Cold,
    Found(String),
}

/// What is printed once another path was searched. Between the results of two
/// paths stands a line break, or a separator where lines around a match are shown.
pub open spec fn with_body(combined: Seq<char>, body: Seq<char>, context: bool) -> Seq<char> {
    if body.len() == 0 {
        combined
    } else if combined.len() == 0 {
        body
    } else {
        combined + if context {
            "\n--\n"@
        } else {
            "\n"@
        } + body
    }
}

/// What is printed for the first `k` paths, or why the search is declined.
pub open spec fn combined_bodies(
    paths: Seq<Option<String>>,
    bodies: Seq<SearchBody>,
    context: bool,
    k: int,
) -> Result<Seq<char>, WarmSearchDeclineReason>
    decreases k,
{
    if k <= 0 {
        Ok(Seq::empty())
    } else {
        match combined_bodies(paths, bodies, context, k - 1) {
            Err(reason) => Err(reason),
            Ok(combined) => match bodies[k - 1] {
                SearchBody::OutOfScope => Err(WarmSearchDeclineReason::ScopeDecline),
                SearchBody::Cold => Err(WarmSearchDeclineReason::ColdOrIncompleteIndex),
                SearchBody::Found(body) => Ok(
                    with_body(combined, printed_body(body@, opt_text(paths[k - 1])), context),
                ),
            },
        }
    }
}

/// Adds what the index says of a path to what is printed, or declines the search.
pub fn add_search_body(
    combined: String,
    path: &Option<String>,
    body: SearchBody,
    context: bool,
) -> (next: Result<String, WarmSearchDecision>)
    ensures
        match body {
            SearchBody::OutOfScope => next == Err::<String, WarmSearchDecision>(
                WarmSearchDecision::PassThrough { reason: WarmSearchDeclineReason::ScopeDecline },
            ),
            SearchBody::Cold => next == Err::<String, WarmSearchDecision>(
                WarmSearchDecision::PassThrough {
                    reason: WarmSearchDeclineReason::ColdOrIncompleteIndex,
                },
            ),
            SearchBody::Found(found) => next matches Ok(printed) && printed@ == with_body(
                combined@,
                printed_body(found@, opt_text(*path)),
                context,
            ),
        },
{
    let found = match body {
        SearchBody::OutOfScope => return Err(pass(WarmSearchDeclineReason::ScopeDecline)),
        SearchBody::Cold => return Err(pass(WarmSearchDeclineReason::ColdOrIncompleteIndex)),
        SearchBody::Found(found) => found,
    };
    let printed = match path {
        Some(named) => reprefix_search_body(found.as_str(), Some(named.as_str())),
        None => reprefix_search_body(found.as_str(), None),
    };
    if printed.as_str().is_empty() {
        Ok(combined)
    } else if combined.as_str().is_empty() {
        Ok(printed)
    } else if context {
        Ok(text3(combined.as_str(), "\n--\n", printed.as_str()))
    } else {
        Ok(text3(combined.as_str(), "\n", printed.as_str()))
    }
}

/// Whether a decision answers with what is printed. Nothing found is an answer
/// too, with the exit code for it.
pub open spec fn serves(decision: WarmSearchDecision, combined: Seq<char>) -> bool {
    decision matches WarmSearchDecision::Serve { stdout, stderr, exit_code } && stderr@.len() == 0
        && if combined.len() == 0 {
        exit_code == 1 && stdout@.len() == 0
    } else {
        exit_code == 0 && stdout@ == encode_utf8(combined + "\n"@)
    }
}

/// The answer with what is printed.
pub fn serve_search(combined: String) -> (decision: WarmSearchDecision)
    ensures
        serves(decision, combined@),
{
    if combined.as_str().is_empty() {
        return WarmSearchDecision::Serve {
            stdout: Vec::new(),
            stderr: Vec::new(),
            exit_code: 1,
        };
    }
    let printed = text2(combined.as_str(), "\n");
    let bytes = printed.as_str().as_bytes();
    let mut stdout: Vec<u8> = Vec::new();
    let mut i: usize = 0;
    while i < bytes.len()
        invariant
            i <= bytes@.len(),
            stdout@ == bytes@.take(i as int),
        decreases bytes.len() - i,
    {
        stdout.push(bytes[i]);
        assert(stdout@ =~= bytes@.take(i + 1));
        i += 1;
    }
    assert(stdout@ =~= bytes@);
    WarmSearchDecision::Serve { stdout, stderr: Vec::new(), exit_code: 0 }
}

/// Whether the index was asked for every path, or up to one that it does not answer.
pub open spec fn is_looked_up(paths: Seq<Option<String>>, bodies: Seq<SearchBody>) -> bool {
    ||| bodies.len() == paths.len()
    ||| 0 < bodies.len() < paths.len() && !(bodies.last() is Found)
}

/// Decides a search once all its paths were looked up, or up to the first that
/// declines it. Lines around a match are shown where some were asked for before or
/// after it.
pub fn execute_warm_search(
    paths: &Vec<Option<String>>,
    bodies: Vec<SearchBody>,
    before_context: usize,
    after_context: usize,
) -> (decision: WarmSearchDecision)
    requires
        is_looked_up(paths@, bodies@),
    ensures
        match combined_bodies(
            paths@,
            bodies@,
            before_context > 0 || after_context > 0,
            bodies@.len() as int,
        ) {
            Ok(combined) => bodies@.len() == paths@.len() && serves(decision, combined),
            Err(reason) => decision == (WarmSearchDecision::PassThrough { reason }),
        },
{
    let context = before_context > 0 || after_context > 0;
    proof {
        law_served_search_is_complete(paths@, bodies@, context, bodies@.len() as int);
    }
    let ghost all = bodies@;
    let mut combined = String::new();
    assert(combined@ =~= Seq::empty());
    let mut refused: Option<WarmSearchDecision> = None;
    let mut k: usize = 0;
    let n: usize = bodies.len();
    for body in it: bodies
        invariant
            it.seq() == all,
            n == all.len(),
            n <= paths@.len(),
            k == it.index(),
            match refused {
                None => combined_bodies(paths@, all, context, k as int) == Ok::<
                    Seq<char>,
                    WarmSearchDeclineReason,
                >(combined@),
                Some(decision) => decision matches WarmSearchDecision::PassThrough { reason }
                    && combined_bodies(paths@, all, context, k as int) == Err::<
                    Seq<char>,
                    WarmSearchDeclineReason,
                >(reason),
            },
    {
        assert(body == all[k as int]);
        if refused.is_none() {
            match add_search_body(combined, &paths[k], body, context) {
                Ok(next) => {
                    combined = next;
                },
                Err(decision) => {
                    combined = String::new();
                    refused = Some(decision);
                },
            }
        }
        k += 1;
    }
    match refused {
        Some(decision) => decision,
        None => serve_search(combined),
    }
}

/// A search is answered only if the index answered for every path.
pub proof fn law_served_search_is_complete(
    paths: Seq<Option<String>>,
    bodies: Seq<SearchBody>,
    context: bool,
    k: int,
)
    requires
        0 <= k <= bodies.len(),
    ensures
        combined_bodies(paths, bodies, context, k) is Ok <==> forall|i: int|
            0 <= i < k ==> (#[trigger] bodies[i]) is Found,
    decreases k,
{
    if k > 0 {
        law_served_search_is_complete(paths, bodies, context, k - 1);
        if combined_bodies(paths, bodies, context, k) is Ok {
            assert(bodies[k - 1] is Found);
        }
    }
}

/// A search is taken on exactly if nothing is fed into it, its run and worktree are known,
/// and it asks for the content that a search of files finds.
pub proof fn law_search_is_taken_on_iff_it_can_be_served(
    stdin: WarmSearchStdin,
    run: SearchRun,
    translated: Result<TranslatedSearch, WarmSearchDeclineReason>,
)
    ensures
        declined(stdin, run, translated) is None <==> {
            &&& stdin is Nothing || stdin is Terminal
            &&& run matches SearchRun::Found(Some(_))
            &&& translated matches Ok(TranslatedSearch::Grep(query)) && query.output_mode@
                == "content"@
        },
        !(stdin is Nothing) && !(stdin is Terminal) ==> declined(stdin, run, translated) == Some(
            WarmSearchDeclineReason::StdinInput,
        ),
        (stdin is Nothing || stdin is Terminal) && run is Unknown ==> declined(
            stdin,
            run,
            translated,
        ) == Some(WarmSearchDeclineReason::RunNotFound),
        (stdin is Nothing || stdin is Terminal) && run == SearchRun::Found(None) ==> declined(
            stdin,
            run,
            translated,
        ) == Some(WarmSearchDeclineReason::MissingWorktree),
        (stdin is Nothing || stdin is Terminal) && (run matches SearchRun::Found(Some(_))) ==> (
        translated matches Err(reason) ==> declined(stdin, run, translated) == Some(reason)),
{
}

/// A search goes to the path it names: as it is where that is absolute, and below the
/// directory it was started in otherwise, with one slash between.
pub proof fn law_search_goes_to_its_path(cwd: Seq<char>, path: Seq<char>)
    ensures
        search_root(cwd, None) == cwd,
        path.len() > 0 && path[0] == '/' ==> search_root(cwd, Some(path)) == path,
        (path.len() == 0 || path[0] != '/') && cwd.len() > 0 && cwd.last() != '/' ==> search_root(
            cwd,
            Some(path),
        ) == cwd + "/"@ + path,
        (path.len() == 0 || path[0] != '/') && cwd.len() > 0 && cwd.last() == '/' ==> search_root(
            cwd,
            Some(path),
        ) == cwd + path,
{
    reveal_strlit("/");
    if path.len() > 0 && path[0] == '/' {
        assert("/"@ =~= path.subrange(0, 1));
    }
    if "/"@.is_prefix_of(path) {
        assert(path.subrange(0, 1)[0] == path[0]);
    }
}

/// A line is printed behind the path that was asked for, with one slash between; the line
/// between two groups stays as it is.
pub proof fn law_lines_are_printed_behind_their_path(line: Seq<char>, path: Seq<char>)
    ensures
        printed_line("--"@, path) == "--"@,
        line != "--"@ && path.len() > 0 && path.last() != '/' ==> printed_line(line, path) == path
            + "/"@ + line,
        line != "--"@ ==> printed_line(line, path.push('/')) == printed_line(line, path),
        line != "--"@ ==> line.is_suffix_of(printed_line(line, path)),
{
    assert(path.push('/').drop_last() =~= path);
    assert(without_trailing(path.push('/'), '/') == without_trailing(path, '/'));
    let out = printed_line(line, path);
    if line != "--"@ {
        assert(line =~= out.subrange(out.len() - line.len(), out.len() as int));
    }
}

/// A body is printed line by line, in order; without a path it is printed as it is.
pub proof fn law_bodies_are_printed_line_by_line(body: Seq<char>, path: Seq<char>)
    ensures
        printed_body(body, None) == body,
        exists|lines: Seq<Seq<char>>|
            lines.len() == lines_of(body).len() && (forall|i: int|
                0 <= i < lines.len() ==> #[trigger] lines[i] == printed_line(
                    lines_of(body)[i],
                    path,
                )) && printed_body(body, Some(path)) == #[trigger] joined(lines, "\n"@),
{
    let lines = lines_of(body).map_values(|line: Seq<char>| printed_line(line, path));
    assert(printed_body(body, Some(path)) == joined(lines, "\n"@));
}

/// What was found stands together in the order of the paths; an empty body adds nothing,
/// and two bodies have a line break between them, with a line of dashes where there is
/// context.
pub proof fn law_bodies_stand_one_after_the_other(
    combined: Seq<char>,
    body: Seq<char>,
    context: bool,
)
    ensures
        with_body(combined, Seq::empty(), context) == combined,
        with_body(Seq::empty(), body, context) == body,
        combined.len() > 0 && body.len() > 0 ==> with_body(combined, body, true) == combined
            + "\n--\n"@ + body,
        combined.len() > 0 && body.len() > 0 ==> with_body(combined, body, false) == combined
            + "\n"@ + body,
{
    assert(combined.len() == 0 ==> combined =~= Seq::<char>::empty());
    assert(body.len() == 0 ==> body =~= Seq::<char>::empty());
}

/// The bodies are combined up to the first that was not found, which is why there is none
/// of the whole.
pub proof fn law_missing_body_declines_the_search(
    paths: Seq<Option<String>>,
    bodies: Seq<SearchBody>,
    context: bool,
    k: int,
)
    requires
        0 <= k <= bodies.len(),
        paths.len() >= bodies.len(),
    ensures
        combined_bodies(paths, bodies, context, k) is Ok <==> forall|i: int|
            0 <= i < k ==> (#[trigger] bodies[i]) is Found,
        combined_bodies(paths, bodies, context, k) is Ok && k > 0 ==> combined_bodies(
            paths,
            bodies,
            context,
            k,
        )->Ok_0 == with_body(
            combined_bodies(paths, bodies, context, k - 1)->Ok_0,
            printed_body(bodies[k - 1]->Found_0@, opt_text(paths[k - 1])),
            context,
        ),
        k > 0 && (forall|i: int| 0 <= i < k - 1 ==> (#[trigger] bodies[i]) is Found) && bodies[k
            - 1] is OutOfScope ==> combined_bodies(paths, bodies, context, k) == Err::<
            Seq<char>,
            WarmSearchDeclineReason,
        >(WarmSearchDeclineReason::ScopeDecline),
        k > 0 && (forall|i: int| 0 <= i < k - 1 ==> (#[trigger] bodies[i]) is Found) && bodies[k
            - 1] is Cold ==> combined_bodies(paths, bodies, context, k) == Err::<
            Seq<char>,
            WarmSearchDeclineReason,
        >(WarmSearchDeclineReason::ColdOrIncompleteIndex),
    decreases k,
{
    if k > 0 {
        law_missing_body_declines_the_search(paths, bodies, context, k - 1);
        if combined_bodies(paths, bodies, context, k) is Ok {
            assert(bodies[k - 1] is Found);
        }
    }
}

/// A served search tells by its exit code whether anything was found, and prints what was,
/// ended by a newline, and nothing else.
pub proof fn law_served_search_prints_what_was_found(
    decision: WarmSearchDecision,
    combined: Seq<char>,
)
    requires
        serves(decision, combined),
    ensures
        decision is Serve,
        decision->stderr@.len() == 0,
        combined.len() == 0 <==> decision->exit_code == 1,
        combined.len() > 0 ==> decision->exit_code == 0 && decision->stdout@ == encode_utf8(
            combined + "\n"@,
        ),
        combined.len() == 0 ==> decision->stdout@.len() == 0,
{
}

/// A search goes through the paths it names, in their order, or through its directory where
/// it names none; one that is admitted has its worktree and its query.
pub proof fn law_search_goes_through_its_paths(
    paths: Vec<String>,
    queried: Vec<Option<String>>,
    stdin: WarmSearchStdin,
    run: SearchRun,
    translated: Result<TranslatedSearch, WarmSearchDeclineReason>,
    admitted: Result<(String, GrepQuery), WarmSearchDecision>,
)
    requires
        are_queried(paths, queried),
        is_admitted(stdin, run, translated, admitted),
    ensures
        paths@.len() == 0 ==> queried@.len() == 1 && queried@[0] is None,
        paths@.len() > 0 ==> queried@.len() == paths@.len() && forall|i: int|
            0 <= i < paths@.len() ==> #[trigger] queried@[i] == Some(paths@[i]),
        admitted is Ok <==> declined(stdin, run, translated) is None,
        admitted matches Ok((worktree, query)) ==> run == SearchRun::Found(Some(worktree))
            && translated == Ok::<TranslatedSearch, WarmSearchDeclineReason>(
            TranslatedSearch::Grep(query),
        ),
{
}

} // verus!
