//! What a terminal prints: the bytes that are kept of it, the text that is shown
//! of them, and the phrases that are waited for.
use std::collections::VecDeque;
use vstd::prelude::*;
use vstd::string::*;
use vstd::utf8::encode_utf8;
use crate::scan::{is_space, slice_of, trim, trimmed, trimmed_end, trimmed_start};
use crate::text::{
    chars_of, opt_text, render_i32, same_text, signed_decimal, string_from_utf8_lossy, string_of,
    text3, utf8_lossy,
};

verus! {

/// How many characters of its output a terminal that exited keeps.
pub const OUTPUT_TAIL_CHARS: usize = 2000;

/// How many characters of a command a message shows.
pub const SHOWN_COMMAND_CHARS: usize = 100;

/// Bytes that a terminal printed.
#[derive(Debug)]
pub struct PtyDataPayload {
    pub session_id: String,
    pub data: String,
}

/// That a terminal exited.
#[derive(Debug)]
pub struct PtyExitPayload {
    pub session_id: String,
    pub exit_code: Option<i32>,
}

/// That a terminal was opened for a run.
#[derive(Debug)]
pub struct AgentTerminalCreatedPayload {
    pub run_id: String,
    pub session_id: String,
    pub command: String,
    pub description: Option<String>,
}

/// The last `max` of the bytes.
pub open spec fn last_bytes(bytes: Seq<u8>, max: nat) -> Seq<u8> {
    if bytes.len() > max {
        bytes.skip(bytes.len() - max)
    } else {
        bytes
    }
}

/// What one piece of output leads to: the event that shows it, and what is written
/// to the log of the terminal where it has one.
#[derive(Debug)]
pub struct Emitted {
    pub payload: PtyDataPayload,
    pub logged: Option<Vec<u8>>,
}

/// Whether output is passed on like this.
pub open spec fn emits(
    session_id: &str,
    data: &str,
    buffer: VecDeque<u8>,
    after: VecDeque<u8>,
    max_buffer: usize,
    has_log: bool,
    emitted: Emitted,
) -> bool {
    &&& emitted.payload.session_id@ == session_id@
    &&& emitted.payload.data@ == data@
    &&& match emitted.logged {
        Some(bytes) => has_log && bytes@ == encode_utf8(data@),
        None => !has_log,
    }
    &&& after@ == last_bytes(buffer@ + encode_utf8(data@), max_buffer as nat)
}

/// Takes up a piece of output. The buffer keeps the last bytes of all that was
/// printed, and the log receives the same bytes as the buffer.
pub fn emit_terminal_data(
    session_id: &str,
    data: &str,
    buffer: &mut VecDeque<u8>,
    max_buffer: usize,
    has_log: bool,
) -> (emitted: Emitted)
    ensures
        emits(session_id, data, *old(buffer), *final(buffer), max_buffer, has_log, emitted),
{
    let bytes = data.as_bytes();
    let mut i: usize = 0;
    assert(buffer@ + bytes@.take(0) =~= buffer@);
    while i < bytes.len()
        invariant
            i <= bytes@.len(),
            bytes@ == encode_utf8(data@),
            buffer@ == old(buffer)@ + bytes@.take(i as int),
        decreases bytes.len() - i,
    {
        let ghost before = buffer@;
        buffer.push_back(bytes[i]);
        assert(buffer@ =~= old(buffer)@ + bytes@.take(i + 1));
        i += 1;
    }
    let ghost all = old(buffer)@ + bytes@;
    assert(bytes@.take(i as int) =~= bytes@);
    let ghost mut dropped: int = 0;
    assert(buffer@ =~= all.skip(0));
    while buffer.len() > max_buffer
        invariant
            0 <= dropped <= all.len(),
            all.len() <= max_buffer ==> dropped == 0,
            all.len() > max_buffer ==> all.len() - dropped >= max_buffer,
            buffer@ == all.skip(dropped),
        decreases buffer@.len(),
    {
        let _first = buffer.pop_front();
        assert(buffer@ =~= all.skip(dropped + 1));
        proof {
            dropped = dropped + 1;
        }
    }
    assert(buffer@ =~= last_bytes(all, max_buffer as nat));
    let logged = if has_log {
        let mut copy: Vec<u8> = Vec::new();
        let mut k: usize = 0;
        while k < bytes.len()
            invariant
                k <= bytes@.len(),
                copy@ == bytes@.take(k as int),
            decreases bytes.len() - k,
        {
            copy.push(bytes[k]);
            assert(copy@ =~= bytes@.take(k + 1));
            k += 1;
        }
        assert(copy@ =~= bytes@);
        Some(copy)
    } else {
        None
    };
    Emitted {
        payload: PtyDataPayload { session_id: session_id.to_owned(), data: data.to_owned() },
        logged,
    }
}

/// What the buffer keeps does not depend on how the output was cut into pieces: it
/// is always the last bytes of everything, and never more than its limit.
pub proof fn law_buffer_keeps_the_last_bytes(
    held: Seq<u8>,
    first: Seq<u8>,
    second: Seq<u8>,
    max: nat,
)
    ensures
        last_bytes(last_bytes(held + first, max) + second, max) == last_bytes(
            held + (first + second),
            max,
        ),
        last_bytes(held, max).len() <= max,
{
    let left = last_bytes(last_bytes(held + first, max) + second, max);
    let right = last_bytes(held + (first + second), max);
    assert(left =~= right);
}

/// The bytes that a buffer keeps, in order.
pub fn buffered_bytes(buffer: &VecDeque<u8>) -> (bytes: Vec<u8>)
    ensures
        bytes@ == buffer@,
{
    let mut bytes: Vec<u8> = Vec::new();
    let mut i: usize = 0;
    while i < buffer.len()
        invariant
            i <= buffer@.len(),
            bytes@ == buffer@.take(i as int),
        decreases buffer.len() - i,
    {
        bytes.push(buffer[i]);
        assert(bytes@ =~= buffer@.take(i + 1));
        i += 1;
    }
    assert(bytes@ =~= buffer@);
    bytes
}

/// The last `max` characters of a text.
pub open spec fn last_chars(text: Seq<char>, max: nat) -> Seq<char> {
    if text.len() > max {
        text.skip(text.len() - max)
    } else {
        text
    }
}

/// The first `max` characters of a text.
pub open spec fn first_chars(text: Seq<char>, max: nat) -> Seq<char> {
    if text.len() > max {
        text.take(max as int)
    } else {
        text
    }
}

/// The first `max` characters of a text.
pub fn take_chars(text: &str, max: usize) -> (taken: String)
    ensures
        taken@ == first_chars(text@, max as nat),
{
    let chars = chars_of(text);
    if chars.len() > max {
        let part = slice_of(&chars, 0, max);
        assert(part@ =~= text@.take(max as int));
        string_of(part.as_slice())
    } else {
        text.to_owned()
    }
}

/// What a terminal keeps of its output when it exits: the last characters, unless
/// they are all blank.
pub open spec fn output_tail(bytes: Seq<u8>) -> Option<Seq<char>> {
    let tail = last_chars(utf8_lossy(bytes), OUTPUT_TAIL_CHARS as nat);
    if bytes.len() == 0 || trimmed(tail).len() == 0 {
        None
    } else {
        Some(tail)
    }
}

/// What a terminal keeps of its output when it exits.
pub fn capture_output_tail(buffer: &VecDeque<u8>) -> (tail: Option<String>)
    ensures
        opt_text(tail) == output_tail(buffer@),
{
    let bytes = buffered_bytes(buffer);
    if bytes.len() == 0 {
        return None;
    }
    let text = string_from_utf8_lossy(bytes.as_slice());
    let chars = chars_of(text.as_str());
    let tail = if chars.len() > OUTPUT_TAIL_CHARS {
        let part = slice_of(&chars, chars.len() - OUTPUT_TAIL_CHARS, chars.len());
        assert(part@ =~= text@.skip(text@.len() - OUTPUT_TAIL_CHARS));
        string_of(part.as_slice())
    } else {
        text
    };
    if trim(tail.as_str()).as_str().is_empty() {
        None
    } else {
        Some(tail)
    }
}

/// What the agent is told of a command of its own that failed in the background.
pub open spec fn exit_context(command: Seq<char>, exit_code: i32, bytes: Seq<u8>) -> Seq<char> {
    "[Terminal Update] Background command '"@ + first_chars(command, SHOWN_COMMAND_CHARS as nat)
        + "' exited with code "@ + signed_decimal(exit_code as int) + ":\n```\n"@ + first_chars(
        utf8_lossy(bytes),
        OUTPUT_TAIL_CHARS as nat,
    ) + "\n```"@
}

/// What the agent is told of a command of its own that failed in the background.
pub fn terminal_exit_context(command: &str, exit_code: i32, buffer: &VecDeque<u8>) -> (message:
    String)
    ensures
        message@ == exit_context(command@, exit_code, buffer@),
{
    let bytes = buffered_bytes(buffer);
    let output = string_from_utf8_lossy(bytes.as_slice());
    let shown = take_chars(command, SHOWN_COMMAND_CHARS);
    let kept = take_chars(output.as_str(), OUTPUT_TAIL_CHARS);
    let mut message = text3(
        "[Terminal Update] Background command '",
        shown.as_str(),
        "' exited with code ",
    );
    message.append(render_i32(exit_code).as_str());
    message.append(":\n```\n");
    message.append(kept.as_str());
    message.append("\n```");
    message
}

/// A phrase that is waited for in the output of a terminal.
#[derive(Debug)]
pub struct TerminalOutputWatcher {
    pub subscription_id: String,
    pub job_id: String,
    pub phrase: String,
    pub carry: String,
    pub terminal_uri: String,
}

/// What a watcher says.
pub struct WatcherModel {
    pub subscription_id: Seq<char>,
    pub job_id: Seq<char>,
    pub phrase: Seq<char>,
    pub carry: Seq<char>,
    pub terminal_uri: Seq<char>,
}

impl View for TerminalOutputWatcher {
    type V = WatcherModel;

    open spec fn view(&self) -> WatcherModel {
        WatcherModel {
            subscription_id: self.subscription_id@,
            job_id: self.job_id@,
            phrase: self.phrase@,
            carry: self.carry@,
            terminal_uri: self.terminal_uri@,
        }
    }
}

/// What the watchers say.
pub open spec fn watcher_models(watchers: Seq<TerminalOutputWatcher>) -> Seq<WatcherModel> {
    watchers.map_values(|watcher: TerminalOutputWatcher| watcher@)
}

/// The first `k` watchers without those of a subscription.
pub open spec fn other_watchers(watchers: Seq<WatcherModel>, subscription: Seq<char>, k: int) -> Seq<
    WatcherModel,
>
    decreases k,
{
    if k <= 0 {
        Seq::empty()
    } else {
        let before = other_watchers(watchers, subscription, k - 1);
        if watchers[k - 1].subscription_id == subscription {
            before
        } else {
            before.push(watchers[k - 1])
        }
    }
}

/// How a phrase is waited for.
#[derive(Debug)]
pub enum OutputWatchRegistration {
    /// It was printed already: the wake is due at once.
    AlreadyPresent { excerpt: Option<String> },
    /// It is waited for.
    Registered,
    /// The output of the terminal cannot be watched.
    NotLive,
}

/// Whether a watcher is registered like this.
pub open spec fn registers(
    watchers: Option<Vec<TerminalOutputWatcher>>,
    excerpt: Option<String>,
    subscription_id: &str,
    job_id: &str,
    phrase: &str,
    terminal_uri: &str,
    registered: (Option<Vec<TerminalOutputWatcher>>, OutputWatchRegistration),
) -> bool {
    match watchers {
        None => registered.0 is None && registered.1 is NotLive,
        Some(before) => if excerpt is Some {
            registered.0 == Some(before) && registered.1 == (
            OutputWatchRegistration::AlreadyPresent { excerpt })
        } else {
            registered.1 is Registered && (registered.0 matches Some(after)
                && watcher_models(after@) == other_watchers(
                watcher_models(before@),
                subscription_id@,
                before@.len() as int,
            ).push(
                WatcherModel {
                    subscription_id: subscription_id@,
                    job_id: job_id@,
                    phrase: phrase@,
                    carry: Seq::empty(),
                    terminal_uri: terminal_uri@,
                },
            ))
        },
    }
}

/// Waits for a phrase in the output of a terminal. `excerpt` is where it stands in
/// what was printed so far. A subscription has one watcher, that for its newest
/// phrase. Without a list of watchers the terminal is not live.
pub fn register_terminal_output_watcher(
    watchers: Option<Vec<TerminalOutputWatcher>>,
    excerpt: Option<String>,
    subscription_id: &str,
    job_id: &str,
    phrase: &str,
    terminal_uri: &str,
) -> (registered: (Option<Vec<TerminalOutputWatcher>>, OutputWatchRegistration))
    ensures
        registers(watchers, excerpt, subscription_id, job_id, phrase, terminal_uri, registered),
{
    let before = match watchers {
        None => return (None, OutputWatchRegistration::NotLive),
        Some(before) => before,
    };
    if excerpt.is_some() {
        return (Some(before), OutputWatchRegistration::AlreadyPresent { excerpt });
    }
    let mut after = without_subscription(&before, subscription_id);
    let ghost others = watcher_models(after@);
    let watcher = TerminalOutputWatcher {
        subscription_id: subscription_id.to_owned(),
        job_id: job_id.to_owned(),
        phrase: phrase.to_owned(),
        carry: String::new(),
        terminal_uri: terminal_uri.to_owned(),
    };
    let ghost said = watcher@;
    after.push(watcher);
    assert(watcher_models(after@) =~= others.push(said));
    assert(said.carry =~= Seq::empty());
    (Some(after), OutputWatchRegistration::Registered)
}

/// The watchers of all other subscriptions.
fn without_subscription(watchers: &Vec<TerminalOutputWatcher>, subscription_id: &str) -> (others:
    Vec<TerminalOutputWatcher>)
    ensures
        watcher_models(others@) == other_watchers(
            watcher_models(watchers@),
            subscription_id@,
            watchers@.len() as int,
        ),
{
    let mut others: Vec<TerminalOutputWatcher> = Vec::new();
    assert(watcher_models(others@) =~= Seq::empty());
    let mut k: usize = 0;
    while k < watchers.len()
        invariant
            k <= watchers@.len(),
            watcher_models(others@) == other_watchers(
                watcher_models(watchers@),
                subscription_id@,
                k as int,
            ),
        decreases watchers.len() - k,
    {
        let ghost before = watcher_models(others@);
        let watcher = &watchers[k];
        assert(watcher_models(watchers@)[k as int] == watcher@);
        if !same_text(watcher.subscription_id.as_str(), subscription_id) {
            let copy = TerminalOutputWatcher {
                subscription_id: watcher.subscription_id.clone(),
                job_id: watcher.job_id.clone(),
                phrase: watcher.phrase.clone(),
                carry: watcher.carry.clone(),
                terminal_uri: watcher.terminal_uri.clone(),
            };
            let ghost said = copy@;
            others.push(copy);
            assert(watcher_models(others@) =~= before.push(said));
        }
        k += 1;
    }
    others
}

/// A subscription never has two watchers: none of those kept beside a new one
/// belongs to it.
pub proof fn law_one_watcher_per_subscription(
    watchers: Seq<WatcherModel>,
    subscription: Seq<char>,
    k: int,
)
    requires
        k <= watchers.len(),
    ensures
        forall|i: int|
            0 <= i < other_watchers(watchers, subscription, k).len() ==> (
            #[trigger] other_watchers(watchers, subscription, k)[i]).subscription_id
                != subscription,
    decreases k,
{
    if k > 0 {
        law_one_watcher_per_subscription(watchers, subscription, k - 1);
        let before = other_watchers(watchers, subscription, k - 1);
        let kept = other_watchers(watchers, subscription, k);
        assert forall|i: int| 0 <= i < kept.len() implies (
        #[trigger] kept[i]).subscription_id != subscription by {
            if i < before.len() {
                assert(kept[i] == before[i]);
            }
        }
    }
}

/// When a terminal wakes the agent that waits for it.
#[derive(Debug)]
pub enum TerminalWakeSpec {
    Exit,
    Output(String),
}

impl TerminalWakeSpec {
    /// What a preview adds to the creation of a terminal with this wake.
    pub fn dry_run_suffix(&self) -> (suffix: String)
        ensures
            suffix@ == match *self {
                TerminalWakeSpec::Exit => " (wake on exit)"@,
                TerminalWakeSpec::Output(phrase) => " (wake on output \""@ + phrase@ + "\")"@,
            },
    {
        match self {
            TerminalWakeSpec::Exit => " (wake on exit)".to_owned(),
            TerminalWakeSpec::Output(phrase) => text3(
                " (wake on output \"",
                phrase.as_str(),
                "\")",
            ),
        }
    }
}

/// The tail that is kept is the end of what was printed: the printed text is some front
/// followed by the tail, which is all of the text or the 2000 characters at its end. None
/// is kept only where nothing was printed or that end is blank.
pub proof fn law_tail_is_the_end_of_the_output(bytes: Seq<u8>)
    ensures
        ({
            let text = utf8_lossy(bytes);
            let end = if text.len() <= 2000 {
                text
            } else {
                text.subrange(text.len() - 2000, text.len() as int)
            };
            match output_tail(bytes) {
                Some(tail) => {
                    &&& exists|front: Seq<char>| text == #[trigger] (front + tail)
                    &&& tail.len() <= 2000
                    &&& tail.len() < 2000 ==> tail == text
                    &&& tail == end
                    &&& bytes.len() > 0
                    &&& exists|i: int| 0 <= i < tail.len() && !is_space(#[trigger] tail[i])
                },
                None => bytes.len() == 0 || forall|i: int|
                    0 <= i < end.len() ==> is_space(#[trigger] end[i]),
            }
        }),
{
    let text = utf8_lossy(bytes);
    let tail = last_chars(text, OUTPUT_TAIL_CHARS as nat);
    let front = text.take(text.len() - tail.len());
    assert(text =~= front + tail);
    lemma_blank_is_trimmed_away(tail);
    if text.len() > 2000 {
        assert(tail =~= text.subrange(text.len() - 2000, text.len() as int));
    }
}

/// A text is trimmed away exactly if it is blank.
proof fn lemma_blank_is_trimmed_away(text: Seq<char>)
    ensures
        trimmed(text).len() == 0 <==> forall|i: int|
            0 <= i < text.len() ==> is_space(#[trigger] text[i]),
{
    lemma_trimmed_start_blank(text);
    lemma_trimmed_end_blank(trimmed_start(text));
    if trimmed_start(text).len() > 0 {
        assert(!is_space(trimmed_start(text)[0]));
    }
}

/// What is left behind leading blanks is empty or begins with another character.
proof fn lemma_trimmed_start_blank(text: Seq<char>)
    ensures
        trimmed_start(text).len() == 0 <==> forall|i: int|
            0 <= i < text.len() ==> is_space(#[trigger] text[i]),
        trimmed_start(text).len() > 0 ==> !is_space(trimmed_start(text)[0]),
    decreases text.len(),
{
    if text.len() > 0 && is_space(text[0]) {
        lemma_trimmed_start_blank(text.skip(1));
        if trimmed_start(text).len() == 0 {
            assert forall|i: int| 0 <= i < text.len() implies is_space(#[trigger] text[i]) by {
                if i > 0 {
                    assert(text.skip(1)[i - 1] == text[i]);
                }
            }
        } else {
            let i = choose|i: int| 0 <= i < text.skip(1).len() && !is_space(text.skip(1)[i]);
            assert(!is_space(text[i + 1]));
        }
    }
}

/// A text that does not begin with a blank is not trimmed away at its end.
proof fn lemma_trimmed_end_blank(text: Seq<char>)
    ensures
        text.len() > 0 && !is_space(text[0]) ==> trimmed_end(text).len() > 0,
        text.len() == 0 ==> trimmed_end(text).len() == 0,
    decreases text.len(),
{
    if text.len() > 1 && is_space(text.last()) {
        lemma_trimmed_end_blank(text.drop_last());
    }
}

/// The buffer keeps the end of all that was printed: some front was dropped, and only as
/// much as the limit asks for.
pub proof fn law_buffer_is_the_end_of_the_output(bytes: Seq<u8>, max: nat)
    ensures
        exists|front: Seq<u8>| bytes == #[trigger] (front + last_bytes(bytes, max)),
        last_bytes(bytes, max).len() == if bytes.len() <= max {
            bytes.len()
        } else {
            max
        },
{
    let kept = last_bytes(bytes, max);
    assert(bytes =~= bytes.take(bytes.len() - kept.len()) + kept);
}

/// The agent is told the command that failed, from its first character on, its exit code,
/// and the output from its first character on, each up to its limit.
pub proof fn law_exit_context_tells_what_failed(command: Seq<char>, exit_code: i32, bytes: Seq<u8>)
    ensures
        exists|shown: Seq<char>, output: Seq<char>| #[trigger]
            is_told(exit_context(command, exit_code, bytes), shown, exit_code, output)
                && shown.is_prefix_of(command) && output.is_prefix_of(utf8_lossy(bytes))
                && (shown == command || shown.len() == 100) && shown.len() <= 100 && (output
                == utf8_lossy(bytes) || output.len() == 2000) && output.len() <= 2000,
{
    let shown = first_chars(command, SHOWN_COMMAND_CHARS as nat);
    let output = first_chars(utf8_lossy(bytes), OUTPUT_TAIL_CHARS as nat);
    assert(shown.is_prefix_of(command));
    assert(output.is_prefix_of(utf8_lossy(bytes)));
    assert(is_told(exit_context(command, exit_code, bytes), shown, exit_code, output));
}

/// Whether a message tells of a command, its exit code and its output.
pub open spec fn is_told(
    message: Seq<char>,
    shown: Seq<char>,
    exit_code: i32,
    output: Seq<char>,
) -> bool {
    message == "[Terminal Update] Background command '"@ + shown + "' exited with code "@
        + signed_decimal(exit_code as int) + ":\n```\n"@ + output + "\n```"@
}

/// Registering a subscription again leaves every watcher of another one as it is, in its
/// place.
pub proof fn law_other_watchers_stay(
    watchers: Seq<WatcherModel>,
    subscription: Seq<char>,
    k: int,
)
    requires
        0 <= k <= watchers.len(),
    ensures
        other_watchers(watchers, subscription, k) == watchers.take(k).filter(
            |watcher: WatcherModel| watcher.subscription_id != subscription,
        ),
    decreases k,
{
    let keep = |watcher: WatcherModel| watcher.subscription_id != subscription;
    reveal(Seq::filter);
    if k > 0 {
        law_other_watchers_stay(watchers, subscription, k - 1);
        assert(watchers.take(k).drop_last() =~= watchers.take(k - 1));
    }
}

/// A watcher is registered exactly if the terminal runs and the phrase has not appeared; it
/// takes the place of the one it had before, behind all others, and starts with no output
/// carried over.
pub proof fn law_watcher_is_registered_once(
    watchers: Option<Vec<TerminalOutputWatcher>>,
    excerpt: Option<String>,
    subscription_id: &str,
    job_id: &str,
    phrase: &str,
    uri: &str,
    registered: (Option<Vec<TerminalOutputWatcher>>, OutputWatchRegistration),
)
    requires
        registers(watchers, excerpt, subscription_id, job_id, phrase, uri, registered),
    ensures
        registered.1 is NotLive <==> watchers is None,
        registered.1 is Registered <==> watchers is Some && excerpt is None,
        registered.1 is AlreadyPresent ==> registered.0 == watchers && registered.1->excerpt
            == excerpt,
        registered.1 is Registered ==> {
            let last = watcher_models(registered.0->Some_0@).last();
            &&& last.subscription_id == subscription_id@
            &&& last.job_id == job_id@
            &&& last.phrase == phrase@
            &&& last.terminal_uri == uri@
            &&& last.carry.len() == 0
        },
{
}

/// Output is passed on as it is, to its session, to the log where there is one, and to the
/// end of the buffer.
pub proof fn law_output_is_passed_on_as_it_is(
    session_id: &str,
    data: &str,
    buffer: VecDeque<u8>,
    after: VecDeque<u8>,
    max_buffer: usize,
    has_log: bool,
    emitted: Emitted,
)
    requires
        emits(session_id, data, buffer, after, max_buffer, has_log, emitted),
    ensures
        emitted.payload.session_id@ == session_id@ && emitted.payload.data@ == data@,
        emitted.logged is Some <==> has_log,
        emitted.logged matches Some(bytes) ==> bytes@ == encode_utf8(data@),
        after@.len() <= max_buffer,
        after@.is_suffix_of(buffer@ + encode_utf8(data@)),
        buffer@.len() + encode_utf8(data@).len() <= max_buffer ==> after@ == buffer@ + encode_utf8(
            data@,
        ),
{
    let all = buffer@ + encode_utf8(data@);
    assert(after@ =~= all.subrange(all.len() - after@.len(), all.len() as int));
}

} // verus!
