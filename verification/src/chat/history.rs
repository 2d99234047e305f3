//! Where a conversation comes from, and how it is named and folded.

use vstd::prelude::*;

use crate::chat::args::{resume_of, ArgsV, ChatArgs, Resume, ResumeV};
use crate::chat::goal::SUMMARY_LEAD;
use crate::json::{Fields, Json, JsonV};
use crate::message::{copy_messages, messages, plain_message, ChatMessage, MessageV};
use crate::text::affix::{
    after_prefix, drop_back, drop_front, is_space, is_white, lemma_drop_back_prefix,
    lemma_drop_front_suffix, one_of, opens, space, starts_with,
    strip_prefix, trim, trim_end, trim_end_of, trim_start, trim_start_of, trimmed, trimmed_end,
    trimmed_start,
};
use crate::text::case::lowercase;
use crate::text::cut::{truncate, truncated};
use crate::text::pieces::{count_chars, lines, lines_of, word_end, words, words_of};
use crate::text::{cat2, cat3, cat4, chars, collect, opt, pairs, same, texts};

verus! {

/// Where the messages of a turn come from.
pub enum Source {
    /// One line of standard input.
    StdinLine,
    /// All of standard input, as messages.
    StdinMessages,
    /// A file of messages.
    File(String),
    /// The prompt on the command line.
    Prompt(String),
    /// Standard input, as the prompt.
    Piped,
    /// Nowhere.
    Nothing,
}

/// Said when there is nothing to ask.
pub const NOTHING_TO_ASK: &'static str =
    "nothing to ask; pass a prompt (aster \"...\"), pipe one in, or use --messages-json";

/// Said when the messages are an empty list.
pub const EMPTY_MESSAGES: &'static str = "nothing to ask; --messages-json was an empty array";

/// The prompt on the command line, trimmed, if there is one.
pub open spec fn prompt_of(a: ArgsV) -> Option<Seq<char>> {
    match a.prompt {
        Some(p) => if trimmed(p).len() > 0 {
            Some(trimmed(p))
        } else {
            None
        },
        None => None,
    }
}

/// True when `s` is where the messages of a turn come from.
pub open spec fn comes_from(s: Source, a: ArgsV, stdin_terminal: bool) -> bool {
    match a.messages_json {
        Some(path) => if path == "-"@ {
            if a.stream {
                s is StdinLine
            } else {
                s is StdinMessages
            }
        } else {
            s matches Source::File(p) && p@ == path
        },
        None => match prompt_of(a) {
            Some(prompt) => s matches Source::Prompt(p) && p@ == prompt,
            None => if !a.stream && !stdin_terminal {
                s is Piped
            } else {
                s is Nothing
            },
        },
    }
}

/// Messages that a flag names come before a prompt, and a prompt before what is
/// piped in; a terminal is never read for them.
pub proof fn a_turn_has_one_source(s: Source, a: ArgsV, stdin_terminal: bool)
    requires
        comes_from(s, a, stdin_terminal),
    ensures
        s matches Source::File(p) ==> a.messages_json == Some(p@) && p@ != "-"@,
        s matches Source::Prompt(p) ==> a.messages_json is None && a.prompt is Some && p@
            == trimmed(a.prompt.unwrap()) && p@.len() > 0,
        s is StdinLine <==> a.messages_json == Some("-"@) && a.stream,
        s is StdinMessages <==> a.messages_json == Some("-"@) && !a.stream,
        s is Piped ==> !stdin_terminal && a.messages_json is None,
        a.messages_json is None && a.prompt is Some && trimmed(a.prompt.unwrap()).len() > 0
            ==> s is Prompt,
{
}

/// Where the messages of a turn come from: the messages that a flag names, then
/// the prompt, then what is piped in.
pub fn read_history(args: &ChatArgs, stdin_terminal: bool) -> (r: Source)
    ensures
        match args@.messages_json {
            Some(path) => if path == "-"@ {
                if args@.stream {
                    r is StdinLine
                } else {
                    r is StdinMessages
                }
            } else {
                r matches Source::File(p) && p@ == path
            },
            None => match prompt_of(args@) {
                Some(prompt) => r matches Source::Prompt(p) && p@ == prompt,
                None => if !args@.stream && !stdin_terminal {
                    r is Piped
                } else {
                    r is Nothing
                },
            },
        },
        comes_from(r, args@, stdin_terminal),
{
    match &args.messages_json {
        Some(path) => {
            return if same(path.as_str(), "-") {
                if args.stream {
                    Source::StdinLine
                } else {
                    Source::StdinMessages
                }
            } else {
                Source::File(path.clone())
            };
        },
        None => {},
    }
    match &args.prompt {
        Some(p) => {
            let t = trim(p.as_str());
            if !t.as_str().is_empty() {
                return Source::Prompt(t);
            }
        },
        None => {},
    }
    if !args.stream && !stdin_terminal {
        Source::Piped
    } else {
        Source::Nothing
    }
}

/// The conversation that a prompt opens.
pub open spec fn asked(prompt: Seq<char>) -> Seq<MessageV> {
    Seq::empty().push(plain_message("user"@, prompt))
}

fn ask(prompt: &str) -> (r: Vec<ChatMessage>)
    ensures
        messages(r@) == asked(prompt@),
{
    let mut out: Vec<ChatMessage> = Vec::new();
    out.push(ChatMessage::plain("user", prompt));
    assert(messages(out@) =~= asked(prompt@));
    out
}

/// True when whitespace is in the text.
pub open spec fn has_space(s: Seq<char>) -> bool {
    exists|i: int| 0 <= i < s.len() && is_space(#[trigger] s[i])
}

fn spaced(s: &str) -> (r: bool)
    ensures
        r == has_space(s@),
{
    let v = chars(s);
    let mut i: usize = 0;
    while i < v.len()
        invariant
            i <= v@.len(),
            v@ == s@,
            forall|k: int| 0 <= k < i ==> !is_space(#[trigger] s@[k]),
        decreases v.len() - i,
    {
        if is_white(v[i]) {
            assert(is_space(s@[i as int]));
            return true;
        }
        i += 1;
    }
    false
}

/// What is said about a prompt that is the name of a file.
pub open spec fn file_prompt_text(prompt: Seq<char>) -> Seq<char> {
    prompt + " is a file, and a bare `aster <file>` would ask a new agent \
                 about it instead of running it. Use `aster python "@ + prompt
        + "` for a script, \
                 or `aster \"<question>\" @"@ + prompt + "` to ask about its contents"@
}

/// The conversation that a prompt on the command line opens. `is_file` says
/// whether a file has that name.
pub fn prompt_messages(prompt: &str, is_file: bool) -> (r: Result<Vec<ChatMessage>, String>)
    ensures
        !has_space(prompt@) && is_file ==> r is Err && r->Err_0@ == file_prompt_text(prompt@),
        has_space(prompt@) || !is_file ==> r is Ok && messages(r->Ok_0@) == asked(prompt@),
{
    if !spaced(prompt) && is_file {
        let head = cat3(
            prompt,
            " is a file, and a bare `aster <file>` would ask a new agent \
                 about it instead of running it. Use `aster python ",
            prompt,
        );
        return Err(
            cat4(
                head.as_str(),
                "` for a script, \
                 or `aster \"<question>\" @",
                prompt,
                "` to ask about its contents",
            ),
        );
    }
    Ok(ask(prompt))
}

/// The conversation that piped text opens.
pub fn piped_messages(text: &str) -> (r: Result<Vec<ChatMessage>, String>)
    ensures
        trimmed(text@).len() > 0 ==> r is Ok && messages(r->Ok_0@) == asked(trimmed(text@)),
        trimmed(text@).len() == 0 ==> r is Err && r->Err_0@ == NOTHING_TO_ASK@,
{
    let t = trim(text);
    if t.as_str().is_empty() {
        return Err(NOTHING_TO_ASK.to_owned());
    }
    Ok(ask(t.as_str()))
}

/// The roles that messages may come with.
pub open spec fn is_role(role: Seq<char>) -> bool {
    role == "user"@ || role == "assistant"@ || role == "system"@
}

/// The messages that a list of roles and contents gives.
pub open spec fn plain_messages(v: Seq<(Seq<char>, Seq<char>)>) -> Seq<MessageV> {
    Seq::new(v.len(), |i: int| plain_message(v[i].0, v[i].1))
}

/// The first role that is none.
pub open spec fn bad_role(v: Seq<(Seq<char>, Seq<char>)>) -> Option<Seq<char>>
    decreases v.len(),
{
    if v.len() == 0 {
        None
    } else if !is_role(v[0].0) {
        Some(v[0].0)
    } else {
        bad_role(v.drop_first())
    }
}

/// The conversation that a list of roles and contents gives.
pub fn wire_messages(wire: &Vec<(String, String)>) -> (r: Result<Vec<ChatMessage>, String>)
    ensures
        wire@.len() == 0 ==> r is Err && r->Err_0@ == EMPTY_MESSAGES@,
        wire@.len() > 0 ==> match bad_role(pairs(wire@)) {
            Some(role) => r is Err && r->Err_0@ == "unsupported role "@
                + crate::tools::memory::debug_text(role) + " in --messages-json"@,
            None => r is Ok && messages(r->Ok_0@) == plain_messages(pairs(wire@)),
        },
{
    if wire.len() == 0 {
        return Err(EMPTY_MESSAGES.to_owned());
    }
    let ghost all = pairs(wire@);
    let mut out: Vec<ChatMessage> = Vec::new();
    let mut i: usize = 0;
    assert(all.skip(0) =~= all);
    while i < wire.len()
        invariant
            i <= wire@.len(),
            wire@.len() > 0,
            all == pairs(wire@),
            out@.len() == i,
            bad_role(all.skip(i as int)) == bad_role(all),
            forall|k: int| 0 <= k < i ==> #[trigger] out@[k]@ == plain_message(all[k].0, all[k].1),
        decreases wire.len() - i,
    {
        let role = wire[i].0.as_str();
        proof {
            assert(all.skip(i as int)[0] == all[i as int]);
            assert(all.skip(i as int).drop_first() =~= all.skip(i + 1));
        }
        if !(same(role, "user") || same(role, "assistant") || same(role, "system")) {
            return Err(
                cat3(
                    "unsupported role ",
                    crate::tools::memory::debug_quote(role).as_str(),
                    " in --messages-json",
                ),
            );
        }
        out.push(ChatMessage::plain(role, wire[i].1.as_str()));
        i += 1;
    }
    assert(messages(out@) =~= plain_messages(all));
    Ok(out)
}

/// The skill a message asks for, and the task for it: what follows the slash up
/// to the first whitespace, and what comes after.
pub open spec fn skill_ask(text: Seq<char>) -> Option<(Seq<char>, Seq<char>)> {
    match after_prefix(text, "/"@) {
        Some(rest) => {
            let n = word_end(rest);
            if n < rest.len() {
                Some((rest.take(n), trimmed_start(rest.skip(n + 1))))
            } else {
                Some((rest, Seq::empty()))
            }
        },
        None => None,
    }
}

/// The skill a message asks for, and the task for it.
pub fn asked_skill(text: &str) -> (r: Option<(String, String)>)
    ensures
        match r {
            Some(p) => skill_ask(text@) == Some((p.0@, p.1@)),
            None => skill_ask(text@) is None,
        },
{
    let rest = match strip_prefix(text, "/") {
        Some(rest) => rest,
        None => return None,
    };
    let v = chars(rest.as_str());
    let mut n: usize = 0;
    while n < v.len() && !is_white(v[n])
        invariant
            n <= v@.len(),
            forall|k: int| 0 <= k < n ==> !is_space(#[trigger] v@[k]),
        decreases v.len() - n,
    {
        n += 1;
    }
    proof {
        crate::text::pieces::lemma_word_end(v@, n as int);
        assert(v@.subrange(0, n as int) =~= v@.take(n as int));
    }
    if n == v.len() {
        let none = String::new();
        assert(none@ =~= Seq::empty());
        return Some((rest, none));
    }
    assert(v@.subrange(n + 1, v@.len() as int) =~= v@.skip(n + 1));
    Some((collect(&v, 0, n), trim_start(collect(&v, n + 1, v.len()).as_str())))
}

/// A message with the skill it asks for spelled out. `skill` is the name of the
/// one that was found.
pub open spec fn skill_spelled(text: Seq<char>, skill: Option<Seq<char>>) -> Seq<char> {
    match (skill_ask(text), skill) {
        (Some(ask), Some(name)) => trimmed_end("Use the \""@ + name + "\" skill: "@ + ask.1),
        _ => text,
    }
}

/// A message with the skill it asks for spelled out; any other as it was typed.
pub fn expand_skill(text: &str, skill: &Option<String>) -> (r: String)
    ensures
        r@ == skill_spelled(text@, opt(*skill)),
{
    match (asked_skill(text), skill) {
        (Some(ask), Some(name)) => trim_end(
            cat4("Use the \"", name.as_str(), "\" skill: ", ask.1.as_str()).as_str(),
        ),
        _ => text.to_owned(),
    }
}

/// What becomes of the session of a headless turn.
pub enum SessionPlan {
    /// Nothing is recorded, and nothing came before.
    Ephemeral,
    /// Record into this session; what came before is not replayed.
    Record(String),
    /// Record into this session, and replay it where it is on disk.
    Continue(String),
    /// Resume this session, which has to be there.
    Resume(String),
    /// Resume the latest session, if there is one.
    Latest,
}

/// True when `p` is what becomes of the session of a headless turn.
pub open spec fn session_kept(p: SessionPlan, a: ArgsV, has_store: bool) -> bool {
    if !has_store {
        p is Ephemeral
    } else if a.messages_json is Some {
        match a.session {
            Some(id) => p matches SessionPlan::Record(s) && s@ == id,
            None => p is Ephemeral,
        }
    } else {
        match a.session {
            Some(id) => p matches SessionPlan::Continue(s) && s@ == id,
            None => match resume_of(a) {
                ResumeV::Id(id) => p matches SessionPlan::Resume(s) && s@ == id,
                ResumeV::Latest => p is Latest,
                _ => p is Ephemeral,
            },
        }
    }
}

/// A session that goes on is the one that was named: by the session flag, by the
/// resume flag, or as the latest; without a name, or without a store, nothing is
/// kept.
pub proof fn the_named_session_goes_on(p: SessionPlan, a: ArgsV, has_store: bool)
    requires
        session_kept(p, a, has_store),
    ensures
        p matches SessionPlan::Record(s) ==> a.session == Some(s@) && a.messages_json is Some,
        p matches SessionPlan::Continue(s) ==> a.session == Some(s@) && a.messages_json is None,
        p matches SessionPlan::Resume(s) ==> a.resume == Some(Some(s@)) && a.session is None,
        p is Latest ==> a.continue_session && a.session is None,
        !has_store ==> p is Ephemeral,
        has_store && a.session is Some ==> p is Record || p is Continue,
        has_store && a.session is None && a.messages_json is None && a.resume is Some
            && a.resume.unwrap() is Some ==> p is Resume,
{
}

/// What becomes of the session of a headless turn.
pub fn resolve_headless_session(args: &ChatArgs, has_store: bool) -> (r: SessionPlan)
    ensures
        ({
            let a = args@;
            if !has_store {
                r is Ephemeral
            } else if a.messages_json is Some {
                match a.session {
                    Some(id) => r matches SessionPlan::Record(s) && s@ == id,
                    None => r is Ephemeral,
                }
            } else {
                match a.session {
                    Some(id) => r matches SessionPlan::Continue(s) && s@ == id,
                    None => match resume_of(a) {
                        ResumeV::Id(id) => r matches SessionPlan::Resume(s) && s@ == id,
                        ResumeV::Latest => r is Latest,
                        _ => r is Ephemeral,
                    },
                }
            }
        }),
        session_kept(r, args@, has_store),
{
    if !has_store {
        return SessionPlan::Ephemeral;
    }
    if args.messages_json.is_some() {
        return match &args.session {
            Some(id) => SessionPlan::Record(id.clone()),
            None => SessionPlan::Ephemeral,
        };
    }
    match &args.session {
        Some(id) => return SessionPlan::Continue(id.clone()),
        None => {},
    }
    match args.resume_mode() {
        Resume::Id(id) => SessionPlan::Resume(id),
        Resume::Latest => SessionPlan::Latest,
        _ => SessionPlan::Ephemeral,
    }
}

/// Said when a session is not there.
pub fn no_session(id: &str) -> (r: String)
    ensures
        r@ == "no session "@ + crate::tools::memory::debug_text(id@) + " for this repo"@,
{
    cat3("no session ", crate::tools::memory::debug_quote(id).as_str(), " for this repo")
}

/// The message of a turn that is recorded: the last one, when the user said it.
pub fn recorded_turn(turns: &Vec<ChatMessage>) -> (r: Option<String>)
    ensures
        opt(r) == if turns@.len() > 0 && turns@.last().role@ == "user"@ {
            Some(turns@.last().text@)
        } else {
            None
        },
{
    if turns.len() > 0 && same(turns[turns.len() - 1].role.as_str(), "user") {
        Some(turns[turns.len() - 1].text.clone())
    } else {
        None
    }
}

/// How many of the last messages stay when a history is folded.
pub const COMPACT_KEEP_TAIL: usize = 6;

/// What the model is asked when a history is folded.
pub const COMPACT_PROMPT: &'static str = "You are compacting a conversation to fit a context \
window. Summarize the exchange below into a compact brief the assistant can \
continue from: the user's goals, the key decisions and facts established, the \
files and code touched, and any open threads or next steps. Be specific and \
terse. Do not add commentary or a preamble.";

/// True when there is anything to fold.
pub fn can_compact(history: &Vec<ChatMessage>) -> (r: bool)
    ensures
        r == (history@.len() > 0),
{
    history.len() > 0
}

/// Whether a history is folded before a turn: it is over its budget and there
/// is anything to fold. `total` is its size.
pub fn compact_if_needed(history: &Vec<ChatMessage>, total: usize, budget: usize) -> (r: bool)
    ensures
        r == (total > budget && history@.len() > 0),
{
    total > budget && can_compact(history)
}

/// Where a history is split when it is folded.
pub open spec fn split_at(len: int) -> int {
    if len > COMPACT_KEEP_TAIL {
        len - COMPACT_KEEP_TAIL
    } else {
        0
    }
}

/// The part of a history that is summarised: everything before the tail, or all
/// of it where there is no more than a tail.
pub open spec fn folded_head(history: Seq<MessageV>) -> Seq<MessageV> {
    let n = split_at(history.len() as int);
    if n == 0 {
        history
    } else {
        history.take(n)
    }
}

/// The exchange that is summarised, as text.
pub open spec fn transcript_text(v: Seq<MessageV>) -> Seq<char>
    decreases v.len(),
{
    if v.len() == 0 {
        Seq::empty()
    } else {
        transcript_text(v.drop_last()) + v.last().role + ": "@ + v.last().text + "\n\n"@
    }
}

/// The request that summarises a history.
pub open spec fn summary_request(history: Seq<MessageV>) -> Seq<MessageV> {
    Seq::empty().push(plain_message("system"@, COMPACT_PROMPT@)).push(
        plain_message("user"@, transcript_text(folded_head(history))),
    )
}

/// The request that summarises a history. An empty one is refused.
pub fn summarize(history: &Vec<ChatMessage>) -> (r: Result<Vec<ChatMessage>, String>)
    ensures
        history@.len() == 0 ==> r is Err && r->Err_0@ == "nothing to compact yet"@,
        history@.len() > 0 ==> r is Ok && messages(r->Ok_0@) == summary_request(
            messages(history@),
        ),
{
    if history.len() == 0 {
        return Err("nothing to compact yet".to_owned());
    }
    let ghost all = messages(history@);
    let stop: usize = if history.len() > COMPACT_KEEP_TAIL {
        history.len() - COMPACT_KEEP_TAIL
    } else {
        history.len()
    };
    let mut text = String::new();
    let mut i: usize = 0;
    assert(text@ =~= transcript_text(all.take(0)));
    while i < stop
        invariant
            i <= stop <= history@.len(),
            all == messages(history@),
            text@ == transcript_text(all.take(i as int)),
        decreases stop - i,
    {
        proof {
            assert(all.take(i + 1).drop_last() =~= all.take(i as int));
            assert(all.take(i + 1).last() == all[i as int]);
        }
        text.push_str(history[i].role.as_str());
        text.push_str(": ");
        text.push_str(history[i].text.as_str());
        text.push_str("\n\n");
        i += 1;
    }
    assert(all.take(stop as int) =~= folded_head(all));
    let mut out: Vec<ChatMessage> = Vec::new();
    out.push(ChatMessage::plain("system", COMPACT_PROMPT));
    out.push(ChatMessage::plain("user", text.as_str()));
    assert(messages(out@) =~= summary_request(all));
    Ok(out)
}

/// A history with everything but its tail folded into a summary.
pub open spec fn folded(history: Seq<MessageV>, summary: Seq<char>) -> Seq<MessageV> {
    Seq::empty().push(plain_message("assistant"@, SUMMARY_LEAD@ + summary)) + history.skip(
        split_at(history.len() as int),
    )
}

/// A history with everything but its tail folded into a summary, and how many
/// messages that replaces.
pub fn compact_now(history: &Vec<ChatMessage>, summary: &str) -> (r: (Vec<ChatMessage>, usize))
    ensures
        messages(r.0@) == folded(messages(history@), summary@),
        r.1 == split_at(history@.len() as int),
{
    let split: usize = if history.len() > COMPACT_KEEP_TAIL {
        history.len() - COMPACT_KEEP_TAIL
    } else {
        0
    };
    let ghost all = messages(history@);
    let mut out = copy_messages(history, split);
    out.insert(0, ChatMessage::plain("assistant", cat2(SUMMARY_LEAD, summary).as_str()));
    assert(messages(out@) =~= folded(all, summary@));
    (out, split)
}

/// Folding keeps the last messages word for word, leaves at most one more than
/// that, and the summary reads back.
pub proof fn folding_keeps_the_tail(history: Seq<MessageV>, summary: Seq<char>)
    ensures
        folded(history, summary).len() <= COMPACT_KEEP_TAIL + 1,
        folded(history, summary).len() <= history.len() + 1,
        forall|k: int|
            1 <= k <= COMPACT_KEEP_TAIL && k <= history.len() ==> #[trigger] folded(
                history,
                summary,
            )[folded(history, summary).len() - k] == history[history.len() - k],
        crate::chat::goal::summary_of(folded(history, summary)) == summary,
{
    let text = SUMMARY_LEAD@ + summary;
    assert(text.take(SUMMARY_LEAD@.len() as int) =~= SUMMARY_LEAD@);
    assert(text.skip(SUMMARY_LEAD@.len() as int) =~= summary);
    assert(folded(history, summary)[0].text == text);
}

/// What the model is asked to name a conversation.
pub const TITLE_PROMPT: &'static str = "Name the conversation below. Reply with the name \
and nothing else: 3 to 6 words, sentence case, no quotes, no trailing period. \
Start with a plain verb and drop articles. Name what the user is trying to do, \
not what the assistant did, and be concrete about the subject (\"Fix sandbox \
seccomp filter\", not \"Debugging a bug\"). Keep the user's own nouns for \
files, tools, and features.";

/// The turn after which a session without a telling opener is named.
pub const TITLE_AFTER_TURNS: usize = 2;

/// Words that make an opener telling.
pub const OPENER_WORDS: usize = 3;

/// Characters that make an opener telling.
pub const OPENER_CHARS: usize = 12;

/// The longest name, in characters.
pub const TITLE_MAX_CHARS: usize = 60;

/// True for the openers that say nothing.
pub open spec fn is_empty_opener(bare: Seq<char>) -> bool {
    ||| bare == "hi"@
    ||| bare == "hey"@
    ||| bare == "hello"@
    ||| bare == "yo"@
    ||| bare == "sup"@
    ||| bare == "help"@
    ||| bare == "continue"@
    ||| bare == "go"@
    ||| bare == "go on"@
    ||| bare == "ok"@
    ||| bare == "okay"@
    ||| bare == "k"@
    ||| bare == "thanks"@
    ||| bare == "ty"@
    ||| bare == "test"@
    ||| bare == "testing"@
    ||| bare == "ping"@
    ||| bare == "hi there"@
    ||| bare == "hello there"@
    ||| bare == "what's up"@
    ||| bare == "whats up"@
}

fn empty_opener(bare: &str) -> (r: bool)
    ensures
        r == is_empty_opener(bare@),
{
    same(bare, "hi") || same(bare, "hey") || same(bare, "hello") || same(bare, "yo") || same(
        bare,
        "sup",
    ) || same(bare, "help") || same(bare, "continue") || same(bare, "go") || same(bare, "go on")
        || same(bare, "ok") || same(bare, "okay") || same(bare, "k") || same(bare, "thanks")
        || same(bare, "ty") || same(bare, "test") || same(bare, "testing") || same(bare, "ping")
        || same(bare, "hi there") || same(bare, "hello there") || same(bare, "what's up") || same(
        bare,
        "whats up",
    )
}

/// What is left of an opener without the marks at its end.
pub open spec fn bare_opener(first: Seq<char>) -> Seq<char> {
    drop_back(trimmed(first), one_of(".!? "@))
}

/// True when an opening message names the topic. `low` is the bare opener in
/// lower case.
pub open spec fn names_topic(first: Seq<char>, low: Seq<char>) -> bool {
    !is_empty_opener(low) && (words_of(trimmed(first)).len() >= OPENER_WORDS || trimmed(first).len()
        >= OPENER_CHARS)
}

/// [`opener_names_session`] over the bare opener in lower case.
pub fn telling_opener(first: &str, low: &str) -> (r: bool)
    ensures
        r == names_topic(first@, low@),
{
    if empty_opener(low) {
        return false;
    }
    let text = trim(first);
    let w = words(text.as_str());
    assert(texts(w@).len() == w@.len());
    w.len() >= OPENER_WORDS || count_chars(text.as_str()) >= OPENER_CHARS
}

/// Whether an opening message names the topic.
pub fn opener_names_session(first: &str) -> (r: bool)
    ensures
        r == names_topic(first@, lowercase(bare_opener(first@))),
{
    let bare = trim_end_of(trim(first).as_str(), ".!? ");
    telling_opener(first, bare.as_str().to_lowercase().as_str())
}

/// The first thing the user said.
pub open spec fn opener_of(history: Seq<MessageV>) -> Option<Seq<char>>
    decreases history.len(),
{
    if history.len() == 0 {
        None
    } else if history[0].role == "user"@ {
        Some(history[0].text)
    } else {
        opener_of(history.drop_first())
    }
}

/// How many things the user said.
pub open spec fn user_turns(history: Seq<MessageV>) -> nat
    decreases history.len(),
{
    if history.len() == 0 {
        0
    } else {
        user_turns(history.drop_last()) + if history.last().role == "user"@ {
            1nat
        } else {
            0nat
        }
    }
}

/// The turn after which a conversation is named.
pub open spec fn naming_turn(history: Seq<MessageV>) -> int {
    match opener_of(history) {
        Some(first) => if names_topic(first, lowercase(bare_opener(first))) {
            1
        } else {
            TITLE_AFTER_TURNS as int
        },
        None => TITLE_AFTER_TURNS as int,
    }
}

/// The turn after which a conversation is named.
pub fn turns_before_naming(history: &Vec<ChatMessage>) -> (r: usize)
    ensures
        r == naming_turn(messages(history@)),
{
    let ghost all = messages(history@);
    let mut i: usize = 0;
    assert(all.skip(0) =~= all);
    while i < history.len()
        invariant
            i <= history@.len(),
            all == messages(history@),
            opener_of(all.skip(i as int)) == opener_of(all),
        decreases history.len() - i,
    {
        assert(all.skip(i as int)[0] == history@[i as int]@);
        if same(history[i].role.as_str(), "user") {
            return if opener_names_session(history[i].text.as_str()) {
                1
            } else {
                TITLE_AFTER_TURNS
            };
        }
        assert(all.skip(i as int).drop_first() =~= all.skip(i + 1));
        i += 1;
    }
    TITLE_AFTER_TURNS
}

fn count_user_turns(history: &Vec<ChatMessage>) -> (r: usize)
    ensures
        r == user_turns(messages(history@)),
{
    let ghost all = messages(history@);
    let mut n: usize = 0;
    let mut i: usize = 0;
    assert(user_turns(all.take(0)) == 0);
    while i < history.len()
        invariant
            i <= history@.len(),
            n <= i,
            all == messages(history@),
            n == user_turns(all.take(i as int)),
        decreases history.len() - i,
    {
        proof {
            assert(all.take(i + 1).drop_last() =~= all.take(i as int));
            assert(all.take(i + 1).last() == all[i as int]);
        }
        if same(history[i].role.as_str(), "user") {
            n += 1;
        }
        i += 1;
    }
    assert(all.take(all.len() as int) =~= all);
    n
}

/// True when a conversation is named now: a recorded one once it is due and has
/// no name, an unrecorded one on exactly the turn it is due.
pub open spec fn due_for_a_name(
    history: Seq<MessageV>,
    sub_agent: bool,
    recorded: bool,
    titled: bool,
) -> bool {
    !sub_agent && user_turns(history) >= naming_turn(history) && (if recorded {
        !titled
    } else {
        user_turns(history) == naming_turn(history)
    })
}

/// The request that names a conversation.
pub open spec fn naming_request(history: Seq<MessageV>) -> Seq<MessageV> {
    Seq::empty().push(plain_message("system"@, TITLE_PROMPT@)).push(
        plain_message("user"@, naming_text(history)),
    )
}

/// What the name of a conversation is drawn from.
pub open spec fn naming_text(v: Seq<MessageV>) -> Seq<char>
    decreases v.len(),
{
    if v.len() == 0 {
        Seq::empty()
    } else {
        let head = naming_text(v.drop_last());
        let m = v.last();
        if m.role == "user"@ {
            head + m.role + ": "@ + truncated(trimmed(m.text), 2000) + "\n\n"@
        } else if m.role == "assistant"@ {
            head + m.role + ": "@ + truncated(trimmed(m.text), 500) + "\n\n"@
        } else {
            head
        }
    }
}

/// What the name of a conversation is drawn from.
pub fn title_context(history: &Vec<ChatMessage>) -> (r: String)
    ensures
        r@ == naming_text(messages(history@)),
{
    let ghost all = messages(history@);
    let mut out = String::new();
    let mut i: usize = 0;
    assert(out@ =~= naming_text(all.take(0)));
    while i < history.len()
        invariant
            i <= history@.len(),
            all == messages(history@),
            out@ == naming_text(all.take(i as int)),
        decreases history.len() - i,
    {
        proof {
            assert(all.take(i + 1).drop_last() =~= all.take(i as int));
            assert(all.take(i + 1).last() == all[i as int]);
        }
        let role = history[i].role.as_str();
        let user = same(role, "user");
        if user || same(role, "assistant") {
            let room: usize = if user { 2000 } else { 500 };
            out.push_str(role);
            out.push_str(": ");
            out.push_str(truncate(trim(history[i].text.as_str()).as_str(), room).as_str());
            out.push_str("\n\n");
        }
        i += 1;
    }
    assert(all.take(all.len() as int) =~= all);
    out
}

/// The request that names a conversation, if it is named now.
pub fn name_session(
    history: &Vec<ChatMessage>,
    sub_agent: bool,
    recorded: bool,
    titled: bool,
) -> (r: Option<Vec<ChatMessage>>)
    ensures
        r is Some <==> due_for_a_name(messages(history@), sub_agent, recorded, titled),
        r is Some ==> messages(r.unwrap()@) == naming_request(messages(history@)),
{
    if sub_agent {
        return None;
    }
    let turns = count_user_turns(history);
    let needed = turns_before_naming(history);
    if turns < needed {
        return None;
    }
    if recorded {
        if titled {
            return None;
        }
    } else if turns != needed {
        return None;
    }
    let mut out: Vec<ChatMessage> = Vec::new();
    out.push(ChatMessage::plain("system", TITLE_PROMPT));
    out.push(ChatMessage::plain("user", title_context(history).as_str()));
    assert(messages(out@) =~= naming_request(messages(history@)));
    Some(out)
}

/// The name in a reply: its first line without heading marks, quotes and a
/// final period; none when nothing or too much is left.
pub open spec fn title_of(reply: Seq<char>) -> Option<Seq<char>> {
    let all = lines_of(trimmed(reply));
    if all.len() == 0 {
        None
    } else {
        let a = trimmed(drop_front(trimmed(all[0]), one_of("#"@)));
        let b = drop_back(drop_front(a, one_of("\"'`"@)), one_of("\"'`"@));
        let c = trimmed(drop_back(b, one_of("."@)));
        if c.len() == 0 || c.len() > TITLE_MAX_CHARS {
            None
        } else {
            Some(c)
        }
    }
}

/// The name in a reply.
pub fn clean_title(reply: &str) -> (r: Option<String>)
    ensures
        opt(r) == title_of(reply@),
{
    let all = lines(trim(reply).as_str());
    if all.len() == 0 {
        assert(texts(all@).len() == 0);
        return None;
    }
    assert(texts(all@)[0] == all@[0]@);
    let a = trim(trim_start_of(trim(all[0].as_str()).as_str(), "#").as_str());
    let b = trim_end_of(trim_start_of(a.as_str(), "\"'`").as_str(), "\"'`");
    let c = trim(trim_end_of(b.as_str(), ".").as_str());
    if c.as_str().is_empty() || count_chars(c.as_str()) > TITLE_MAX_CHARS {
        return None;
    }
    Some(c)
}

/// A name is there, fits, and has no padding.
pub proof fn names_fit(reply: Seq<char>)
    ensures
        match title_of(reply) {
            Some(t) => 0 < t.len() <= TITLE_MAX_CHARS && !is_space(t[0]) && !is_space(t.last()),
            None => true,
        },
{
    let all = lines_of(trimmed(reply));
    if all.len() > 0 {
        let a = trimmed(drop_front(trimmed(all[0]), one_of("#"@)));
        let b = drop_back(drop_front(a, one_of("\"'`"@)), one_of("\"'`"@));
        let c = drop_back(b, one_of("."@));
        let front = trimmed_start(c);
        let t = trimmed(c);
        lemma_drop_front_suffix(c, space());
        lemma_drop_back_prefix(front, space());
        if t.len() > 0 {
            assert(t[0] == front[0]);
            assert(!space()(front[0]));
            assert(!space()(t.last()));
        }
    }
}

/// A turn with the skill it asks for spelled out; `skill` is the one that was
/// found. Only what the user says with a leading slash asks for one.
pub open spec fn turn_spelled(m: MessageV, skill: Option<Seq<char>>) -> MessageV {
    if m.role == "user"@ && opens(m.text, "/"@) {
        plain_message(m.role, skill_spelled(m.text, skill))
    } else {
        m
    }
}

/// The turns with the skills they ask for spelled out; `skills` names, for each
/// turn, the one that was found.
pub fn expand_skill_asks(turns: &Vec<ChatMessage>, skills: &Vec<Option<String>>) -> (r: Vec<
    ChatMessage,
>)
    requires
        skills@.len() == turns@.len(),
    ensures
        messages(r@) == Seq::new(
            turns@.len(),
            |i: int| turn_spelled(turns@[i]@, opt(skills@[i])),
        ),
{
    let mut out: Vec<ChatMessage> = Vec::new();
    let mut i: usize = 0;
    while i < turns.len()
        invariant
            i <= turns@.len(),
            skills@.len() == turns@.len(),
            out@.len() == i,
            forall|k: int|
                0 <= k < i ==> #[trigger] out@[k]@ == turn_spelled(turns@[k]@, opt(skills@[k])),
        decreases turns.len() - i,
    {
        let m = &turns[i];
        if same(m.role.as_str(), "user") && starts_with(m.text.as_str(), "/") {
            let text = expand_skill(m.text.as_str(), &skills[i]);
            out.push(ChatMessage::plain(m.role.as_str(), text.as_str()));
        } else {
            out.push(m.copy());
        }
        i += 1;
    }
    assert(messages(out@) =~= Seq::new(
        turns@.len(),
        |i: int| turn_spelled(turns@[i]@, opt(skills@[i])),
    ));
    out
}

/// A folded history as JSON.
pub fn run_compact(summary: &str, count: usize, compacted: &Vec<ChatMessage>) -> (r: Json)
    ensures
        r@ == JsonV::Obj(
            Seq::empty().push(("ok"@, JsonV::Bool(true))).push(
                ("summary"@, JsonV::Str(summary@)),
            ).push(("folded"@, JsonV::Number(count as u64))).push(
                ("messages"@, crate::chat::goal::wire_messages(messages(compacted@))),
            ),
        ),
{
    Fields::new().with("ok", Json::Bool(true)).text("summary", summary).with(
        "folded",
        Json::Number(count as u64),
    ).with("messages", crate::chat::goal::messages_json(compacted)).json()
}

/// A greeting never names a session; any other opener does as soon as it is long
/// enough.
pub proof fn a_greeting_names_nothing(first: Seq<char>, low: Seq<char>)
    ensures
        low == "hi"@ || low == "hello"@ || low == "continue"@ || low == "thanks"@ ==> !names_topic(
            first,
            low,
        ),
        !is_empty_opener(low) && trimmed(first).len() >= 12 ==> names_topic(first, low),
        !is_empty_opener(low) && words_of(trimmed(first)).len() >= 3 ==> names_topic(first, low),
        words_of(trimmed(first)).len() < 3 && trimmed(first).len() < 12 ==> !names_topic(first, low),
{
}

} // verus!
