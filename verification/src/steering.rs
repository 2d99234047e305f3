//! What the harness says to the model to keep a turn on course, and the signs
//! it looks for.

use vstd::prelude::*;

use crate::text::affix::{
    closes, contains, ends_with, holds, is_blank, trim_end, trimmed, trimmed_end,
};
use crate::text::case::lowercase;
use crate::text::number::{dec, decimal_usize};
use crate::text::pieces::{lines, lines_of};
use crate::text::{cat3, cat5, texts};

verus! {

/// Sent after the same calls with the same results three times in a row.
pub const LOOP_CORRECTION: &'static str = "You repeated the same tool calls with the same \
    results three times in a row. Stop repeating. Re-read the results above and \
    do something different, or give your final answer.";

/// Sent after a reply without text and without calls.
pub const EMPTY_CORRECTION: &'static str = "Your last reply was empty: no text and no tool \
    calls. Continue the work now with a tool call or a final answer. Do not \
    describe what you would do; if something is blocking you, name it in one \
    line.";

/// The reply of a turn whose model never said anything.
pub const SILENT_MODEL: &'static str = "The model returned nothing, twice over and again \
    when asked for a plain answer. Everything above this line still happened and \
    is saved. Send the message again, or switch models if it keeps up.";

/// Sent after a reply that was cut off for repeating itself.
pub const DEGENERATE_CORRECTION: &'static str = "Your last reply degenerated into repeated \
    text and was cut off; everything before it still stands. Continue from where \
    it stopped: keep replies short, act with tool calls instead of long prose, \
    and keep any final report to tight bullets. Do not restate text you already \
    wrote.";

/// Sent after a reply that promises work and does none.
pub const DANGLING_INTENT_CORRECTION: &'static str = "You ended your reply promising work \
    you have not done. Do not narrate intent. If the work was asked for, do it \
    now with your tools and then report what actually changed; if you cannot, \
    name the blocker in one line.";

/// Sent at the start of a turn whose last reply was such a promise.
pub const PROMISED_WORK_KICK: &'static str = "Your previous reply promised work that was \
    never done. Your tools are live right now, in this turn. Start with the \
    first tool call for that work; do not restate the plan and do not mention \
    tool availability.";

/// Sent when a check of the turn advises another approach.
pub const RETRY_ADVICE: &'static str = "A check of this turn says the current approach is not \
    working. Try a different way, or give your final answer.";

/// Sent when a check of the turn finds a fact missing.
pub const ASK_USER_ADVICE: &'static str = "A check of this turn says a fact you need is missing. Ask \
    the user one concrete question instead of guessing.";

/// Sent when the turn ends without an answer of the model's own.
pub const FORCED_ANSWER: &'static str = "Stop using tools and answer now with what you have. This applies to \
    this reply only; your tools come back on the next message. Report \
    only what actually happened; anything unfinished gets one plain \
    line, not a section. Never describe an edit, command, or check that \
    did not run as if it happened.";

/// What a turn that kept repeating itself fails with.
pub const REPEATED_CALLS: &'static str =
    "the model kept repeating the same tool calls after being told to stop; ending the turn";

/// How often the round budget may be extended.
pub const MAX_ROUND_EXTENSIONS: usize = 2;

/// Rounds without a find before the model is told to act.
pub const BARREN_ROUNDS: usize = 10;

/// Silent rounds that are asked again.
pub const MAX_EMPTY_ROUNDS: usize = 2;

/// Degenerate replies that are steered instead of failing the turn.
pub const MAX_DEGENERATE_RETRIES: usize = 2;

/// Rounds of one lookup each before the model is told to batch.
pub const SINGLE_LOOKUP_ROUNDS: usize = 4;

/// What is said after `rounds` rounds of lookups that found nothing.
pub open spec fn barren_text(rounds: nat) -> Seq<char> {
    "Your last "@ + dec(rounds) + " tool rounds were lookups that came back empty. \
         Stop searching the same way: act on what is already above, try a \
         different angle, or say in one line what is blocking you."@
}

/// What is said after `rounds` rounds of lookups that found nothing.
pub fn barren_correction(rounds: usize) -> (r: String)
    ensures
        r@ == barren_text(rounds as nat),
{
    cat3(
        "Your last ",
        decimal_usize(rounds).as_str(),
        " tool rounds were lookups that came back empty. \
         Stop searching the same way: act on what is already above, try a \
         different angle, or say in one line what is blocking you.",
    )
}

/// What is said after `rounds` rounds of one lookup each.
pub open spec fn batch_text(rounds: nat) -> Seq<char> {
    "Your last "@ + dec(rounds) + " rounds each carried a single lookup, and every \
         round costs a full model round-trip. Decide everything you still \
         need to see and request it in one round: several tool calls in one \
         reply, or one `explore` with all the steps."@
}

/// What is said after `rounds` rounds of one lookup each.
pub fn batch_correction(rounds: usize) -> (r: String)
    ensures
        r@ == batch_text(rounds as nat),
{
    cat3(
        "Your last ",
        decimal_usize(rounds).as_str(),
        " rounds each carried a single lookup, and every \
         round costs a full model round-trip. Decide everything you still \
         need to see and request it in one round: several tool calls in one \
         reply, or one `explore` with all the steps.",
    )
}

/// What is said halfway through the round budget.
pub open spec fn budget_text(spent: nat, cap: nat) -> Seq<char> {
    "You are "@ + dec(spent) + " tool rounds into this turn; "@ + dec(
        if cap >= spent {
            (cap - spent) as nat
        } else {
            0
        },
    ) + " remain before it ends \
         and you have to answer with whatever you have. Spend them finishing, \
         not gathering."@
}

/// What is said halfway through the round budget.
pub fn budget_notice(spent: usize, cap: usize) -> (r: String)
    ensures
        r@ == budget_text(spent as nat, cap as nat),
{
    let left: usize = if cap >= spent { cap - spent } else { 0 };
    cat5(
        "You are ",
        decimal_usize(spent).as_str(),
        " tool rounds into this turn; ",
        decimal_usize(left).as_str(),
        " remain before it ends \
         and you have to answer with whatever you have. Spend them finishing, \
         not gathering.",
    )
}

/// The last line that is not blank.
pub open spec fn last_filled(v: Seq<Seq<char>>) -> Option<Seq<char>>
    decreases v.len(),
{
    if v.len() == 0 {
        None
    } else if trimmed(v.last()).len() > 0 {
        Some(v.last())
    } else {
        last_filled(v.drop_last())
    }
}

/// True when the last line with anything on it ends in a question mark.
pub open spec fn asks(reply: Seq<char>) -> bool {
    match last_filled(lines_of(reply)) {
        Some(line) => closes(trimmed_end(line), "?"@),
        None => false,
    }
}

/// Whether a reply ends on a question: it waits for an answer.
pub fn awaits_an_answer(reply: &str) -> (r: bool)
    ensures
        r == asks(reply@),
{
    let all = lines(reply);
    let mut n: usize = all.len();
    let ghost full = texts(all@);
    assert(full.take(n as int) =~= full);
    while n > 0
        invariant
            n <= all@.len(),
            full == texts(all@),
            full == lines_of(reply@),
            last_filled(full.take(n as int)) == last_filled(full),
        decreases n,
    {
        proof {
            assert(full.take(n as int).last() == all@[n - 1]@);
            assert(full.take(n as int).drop_last() =~= full.take(n - 1));
        }
        if !is_blank(all[n - 1].as_str()) {
            return ends_with(trim_end(all[n - 1].as_str()).as_str(), "?");
        }
        n -= 1;
    }
    false
}

/// True when the lower case text holds a phrase that puts work off.
pub open spec fn promises(low: Seq<char>) -> bool {
    ||| holds(low, "fixing it now"@)
    ||| holds(low, "fixing that now"@)
    ||| holds(low, "fixing this now"@)
    ||| holds(low, "doing that now"@)
    ||| holds(low, "doing this now"@)
    ||| holds(low, "doing that next"@)
    ||| holds(low, "doing this next"@)
    ||| holds(low, "i will now"@)
    ||| holds(low, "i'll now"@)
    ||| holds(low, "let me now"@)
    ||| holds(low, "making the edit now"@)
    ||| holds(low, "making the change now"@)
    ||| holds(low, "next message i'll"@)
    ||| holds(low, "next message i will"@)
    ||| holds(low, "next session:"@)
    ||| holds(low, "not applied yet"@)
    ||| holds(low, "not applied any edits"@)
    ||| holds(low, "no edits are written"@)
    ||| holds(low, "ready to apply"@)
    ||| holds(low, "unapplied"@)
    ||| holds(low, "what i did not get to"@)
    ||| holds(low, "what i have not done"@)
    ||| holds(low, "what i haven't done"@)
}

/// Whether a lower case text holds a phrase that puts work off.
pub fn holds_a_promise(low: &str) -> (r: bool)
    ensures
        r == promises(low@),
{
    contains(low, "fixing it now") || contains(low, "fixing that now") || contains(
        low,
        "fixing this now",
    ) || contains(low, "doing that now") || contains(low, "doing this now") || contains(
        low,
        "doing that next",
    ) || contains(low, "doing this next") || contains(low, "i will now") || contains(
        low,
        "i'll now",
    ) || contains(low, "let me now") || contains(low, "making the edit now") || contains(
        low,
        "making the change now",
    ) || contains(low, "next message i'll") || contains(low, "next message i will") || contains(
        low,
        "next session:",
    ) || contains(low, "not applied yet") || contains(low, "not applied any edits") || contains(
        low,
        "no edits are written",
    ) || contains(low, "ready to apply") || contains(low, "unapplied") || contains(
        low,
        "what i did not get to",
    ) || contains(low, "what i have not done") || contains(low, "what i haven't done")
}

/// True when a reply narrates work instead of doing it: it holds a promise and
/// does not end on a question.
pub open spec fn pending_work(reply: Seq<char>) -> bool {
    !asks(reply) && promises(lowercase(reply))
}

/// Whether a reply narrates work instead of doing it. A reply that ends on a
/// question never does.
pub fn announces_pending_work(reply: &str) -> (r: bool)
    ensures
        r == pending_work(reply@),
        asks(reply@) ==> !r,
{
    if awaits_an_answer(reply) {
        return false;
    }
    holds_a_promise(reply.to_lowercase().as_str())
}

/// Why a request to the model failed.
pub struct ModelFailure {
    /// The reply was cut off for repeating itself.
    pub degenerate: bool,
    /// The whole error, causes included.
    pub text: String,
}

/// True when an error text in lower case says that tools are the problem.
pub open spec fn blames_tools(low: Seq<char>) -> bool {
    holds(low, "tool"@) || holds(low, "function"@)
}

/// Whether an error text in lower case says that tools are the problem.
pub fn blames_tools_in(low: &str) -> (r: bool)
    ensures
        r == blames_tools(low@),
{
    contains(low, "tool") || contains(low, "function")
}

/// True when the failure means that the model rejects tool definitions.
pub open spec fn rejects_tools(degenerate: bool, text: Seq<char>) -> bool {
    !degenerate && blames_tools(lowercase(text))
}

/// Whether the failure means that the model rejects tool definitions. A
/// degenerate reply never does, whatever its text mentions.
pub fn is_tool_unsupported(e: &ModelFailure) -> (r: bool)
    ensures
        r == rejects_tools(e.degenerate, e.text@),
        e.degenerate ==> !r,
{
    if e.degenerate {
        return false;
    }
    blames_tools_in(e.text.as_str().to_lowercase().as_str())
}

} // verus!
