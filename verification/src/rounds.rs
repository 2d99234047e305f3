//! One round of tool calls: what it amounted to, and when rounds stop getting
//! anywhere.

use std::collections::hash_map::DefaultHasher;
use std::hash::Hasher;

use vstd::prelude::*;
use vstd::std_specs::hash::DefaultHasherAdditionalSpecFns;
use vstd::utf8::encode_utf8;

use crate::json::{items, message, message_json, Fields, Json, JsonV};
use crate::steering::BARREN_ROUNDS;
use crate::text::affix::{
    after_prefix, drop_back, one_of, opens, starts_with, strip_prefix, trim_end_of,
};
use crate::text::{cat3, same};

verus! {

/// One executed call: the tool, its arguments and its result.
pub struct RoundCall {
    pub name: String,
    pub arguments: String,
    pub result: String,
}

/// The models of the calls of a round: tool, arguments, result.
pub open spec fn round_view(v: Seq<RoundCall>) -> Seq<(Seq<char>, Seq<char>, Seq<char>)> {
    Seq::new(v.len(), |i: int| (v[i].name@, v[i].arguments@, v[i].result@))
}

/// The tools that only look something up and may run side by side.
pub open spec fn is_read_tool(name: Seq<char>) -> bool {
    ||| name == "read_file"@
    ||| name == "list_files"@
    ||| name == "search_files"@
    ||| name == "find_files"@
    ||| name == "recall"@
    ||| name == "read_skill"@
    ||| name == "chat_history"@
}

/// The names of the lookup tools, as they are listed to the model.
pub const READ_TOOL_LIST: &'static str =
    "read_file, list_files, search_files, find_files, recall, read_skill, chat_history";

/// Whether a tool only looks something up.
pub fn read_tool(name: &str) -> (r: bool)
    ensures
        r == is_read_tool(name@),
{
    same(name, "read_file") || same(name, "list_files") || same(name, "search_files") || same(
        name,
        "find_files",
    ) || same(name, "recall") || same(name, "read_skill") || same(name, "chat_history")
}

/// What a round of tool calls says about the turn.
#[derive(Clone, Copy, PartialEq, Eq, Structural, Debug)]
pub enum RoundVerdict {
    Continue,
    Correct,
    Abort,
    Nudge(usize),
    Wrap,
}

/// How long the rounds of a turn have been getting nowhere.
#[derive(Clone, Copy, PartialEq, Eq, Structural, Debug)]
pub struct NoProgress {
    pub last_round: Option<u64>,
    pub identical_rounds: usize,
    pub error_rounds: usize,
    pub barren_rounds: usize,
    pub corrected: bool,
    pub nudged: bool,
}

/// A turn that has not run a round yet.
pub open spec fn fresh_progress() -> NoProgress {
    NoProgress {
        last_round: None,
        identical_rounds: 0,
        error_rounds: 0,
        barren_rounds: 0,
        corrected: false,
        nudged: false,
    }
}

/// How many rounds in a row have now had this signature.
pub open spec fn identical_now(p: NoProgress, sig: u64) -> int {
    if p.last_round == Some(sig) {
        p.identical_rounds + 1
    } else {
        1
    }
}

/// How many rounds in a row have now only failed.
pub open spec fn errors_now(p: NoProgress, all_errors: bool) -> int {
    if all_errors {
        p.error_rounds + 1
    } else {
        0
    }
}

/// How many rounds in a row have now found nothing.
pub open spec fn barren_now(p: NoProgress, productive: bool) -> int {
    if productive {
        0
    } else {
        p.barren_rounds + 1
    }
}

/// True when the turn repeats itself or only fails.
pub open spec fn stuck(p: NoProgress, sig: u64, all_errors: bool) -> bool {
    identical_now(p, sig) >= 3 || errors_now(p, all_errors) >= 3
}

/// The verdict on a round, given how the turn went before it.
pub open spec fn verdict_of(
    p: NoProgress,
    sig: u64,
    all_errors: bool,
    productive: bool,
) -> RoundVerdict {
    if stuck(p, sig, all_errors) {
        if p.corrected {
            RoundVerdict::Abort
        } else {
            RoundVerdict::Correct
        }
    } else if barren_now(p, productive) >= BARREN_ROUNDS {
        if p.nudged {
            RoundVerdict::Wrap
        } else {
            RoundVerdict::Nudge(barren_now(p, productive) as usize)
        }
    } else {
        RoundVerdict::Continue
    }
}

/// How the turn stands after a round.
pub open spec fn progress_after(
    p: NoProgress,
    sig: u64,
    all_errors: bool,
    productive: bool,
) -> NoProgress {
    let is_stuck = stuck(p, sig, all_errors);
    let correcting = is_stuck && !p.corrected;
    let tired = !is_stuck && barren_now(p, productive) >= BARREN_ROUNDS;
    NoProgress {
        last_round: Some(sig),
        identical_rounds: if correcting { 0 } else { identical_now(p, sig) as usize },
        error_rounds: if correcting { 0 } else { errors_now(p, all_errors) as usize },
        barren_rounds: if tired { 0 } else { barren_now(p, productive) as usize },
        corrected: p.corrected || is_stuck,
        nudged: p.nudged || tired,
    }
}

impl NoProgress {
    /// A turn that has not run a round yet.
    pub fn new() -> (r: NoProgress)
        ensures
            r == fresh_progress(),
    {
        NoProgress {
            last_round: None,
            identical_rounds: 0,
            error_rounds: 0,
            barren_rounds: 0,
            corrected: false,
            nudged: false,
        }
    }

    /// No counter is above `n`.
    pub open spec fn within(self, n: int) -> bool {
        self.identical_rounds <= n && self.error_rounds <= n && self.barren_rounds <= n
    }

    /// Take one round into account.
    pub fn feed(&mut self, sig: u64, all_errors: bool, productive: bool) -> (r: RoundVerdict)
        requires
            old(self).within(usize::MAX - 1),
        ensures
            r == verdict_of(*old(self), sig, all_errors, productive),
            *final(self) == progress_after(*old(self), sig, all_errors, productive),
    {
        let same_round = match self.last_round {
            Some(last) => last == sig,
            None => false,
        };
        if same_round {
            self.identical_rounds += 1;
        } else {
            self.last_round = Some(sig);
            self.identical_rounds = 1;
        }
        self.error_rounds = if all_errors { self.error_rounds + 1 } else { 0 };
        self.barren_rounds = if productive { 0 } else { self.barren_rounds + 1 };
        if self.identical_rounds >= 3 || self.error_rounds >= 3 {
            if !self.corrected {
                self.corrected = true;
                self.identical_rounds = 0;
                self.error_rounds = 0;
                return RoundVerdict::Correct;
            }
            return RoundVerdict::Abort;
        }
        if self.barren_rounds >= BARREN_ROUNDS {
            let streak: usize = self.barren_rounds;
            self.barren_rounds = 0;
            if !self.nudged {
                self.nudged = true;
                return RoundVerdict::Nudge(streak);
            }
            return RoundVerdict::Wrap;
        }
        RoundVerdict::Continue
    }
}

/// Three rounds in a row with the same calls and results are corrected, whatever
/// else they were, and three more end the turn.
pub proof fn repetition_is_corrected_and_then_ended(sig: u64, e: Seq<bool>, p: Seq<bool>)
    requires
        e.len() == 6,
        p.len() == 6,
    ensures
        ({
            let a = progress_after(fresh_progress(), sig, e[0], p[0]);
            let b = progress_after(a, sig, e[1], p[1]);
            let c = progress_after(b, sig, e[2], p[2]);
            let d = progress_after(c, sig, e[3], p[3]);
            let f = progress_after(d, sig, e[4], p[4]);
            &&& verdict_of(fresh_progress(), sig, e[0], p[0]) == RoundVerdict::Continue
            &&& verdict_of(a, sig, e[1], p[1]) == RoundVerdict::Continue
            &&& verdict_of(b, sig, e[2], p[2]) == RoundVerdict::Correct
            &&& verdict_of(c, sig, e[3], p[3]) == RoundVerdict::Continue
            &&& verdict_of(d, sig, e[4], p[4]) == RoundVerdict::Continue
            &&& verdict_of(f, sig, e[5], p[5]) == RoundVerdict::Abort
        }),
{
}

/// A turn is only ended for repetition after it was corrected, and only wrapped
/// up for finding nothing after it was nudged; each is said once.
pub proof fn warned_before_ended(p: NoProgress, sig: u64, all_errors: bool, productive: bool)
    ensures
        verdict_of(p, sig, all_errors, productive) == RoundVerdict::Abort ==> p.corrected,
        verdict_of(p, sig, all_errors, productive) == RoundVerdict::Wrap ==> p.nudged,
        verdict_of(p, sig, all_errors, productive) == RoundVerdict::Correct ==> !p.corrected
            && progress_after(p, sig, all_errors, productive).corrected,
        verdict_of(p, sig, all_errors, productive) is Nudge ==> !p.nudged && progress_after(
            p,
            sig,
            all_errors,
            productive,
        ).nudged,
        p.corrected ==> progress_after(p, sig, all_errors, productive).corrected,
        p.nudged ==> progress_after(p, sig, all_errors, productive).nudged,
{
}

/// One round as the count of rounds sees it: its signature, whether every call
/// failed, and whether it got something done.
pub type Fed = (u64, bool, bool);

/// How a turn stands after its rounds.
pub open spec fn after_rounds(rounds: Seq<Fed>) -> NoProgress
    decreases rounds.len(),
{
    if rounds.len() == 0 {
        fresh_progress()
    } else {
        let last = rounds.last();
        progress_after(after_rounds(rounds.drop_last()), last.0, last.1, last.2)
    }
}

/// The verdict on round `i` of a turn.
pub open spec fn verdict_at(rounds: Seq<Fed>, i: int) -> RoundVerdict {
    verdict_of(after_rounds(rounds.take(i)), rounds[i].0, rounds[i].1, rounds[i].2)
}

/// True when the turn was corrected in one of its first `n` rounds.
pub open spec fn corrected_by(rounds: Seq<Fed>, n: int) -> bool {
    exists|i: int| 0 <= i < n && #[trigger] verdict_at(rounds, i) == RoundVerdict::Correct
}

/// True when the turn was nudged in one of its first `n` rounds.
pub open spec fn nudged_by(rounds: Seq<Fed>, n: int) -> bool {
    exists|i: int| 0 <= i < n && (#[trigger] verdict_at(rounds, i)) is Nudge
}

proof fn lemma_after_rounds(rounds: Seq<Fed>, n: int)
    requires
        0 <= n <= rounds.len() <= usize::MAX,
    ensures
        after_rounds(rounds.take(n)).within(n),
        after_rounds(rounds.take(n)).corrected == corrected_by(rounds, n),
        after_rounds(rounds.take(n)).nudged == nudged_by(rounds, n),
    decreases n,
{
    if n > 0 {
        let i = n - 1;
        lemma_after_rounds(rounds, i);
        let before = after_rounds(rounds.take(i));
        let (sig, all_errors, productive) = rounds[i];
        assert(rounds.take(n).drop_last() =~= rounds.take(i));
        assert(rounds.take(n).last() == rounds[i]);
        warned_before_ended(before, sig, all_errors, productive);
        let said = verdict_at(rounds, i);
        assert(said == verdict_of(before, sig, all_errors, productive));
        if corrected_by(rounds, n) {
            let k = choose|k: int|
                0 <= k < n && #[trigger] verdict_at(rounds, k) == RoundVerdict::Correct;
            if k < i {
                assert(corrected_by(rounds, i));
            }
        }
        if nudged_by(rounds, n) {
            let k = choose|k: int| 0 <= k < n && (#[trigger] verdict_at(rounds, k)) is Nudge;
            if k < i {
                assert(nudged_by(rounds, i));
            }
        }
        if corrected_by(rounds, i) {
            assert(corrected_by(rounds, n));
        }
        if nudged_by(rounds, i) {
            assert(nudged_by(rounds, n));
        }
    }
}

/// Over all rounds of a turn, however many a counter can count: it is corrected
/// at most once, and before it is ever ended; it is nudged at most once, and
/// before it is ever wrapped up. A nudge names a streak of at least the rounds
/// that call for one, and a round that got something done is never nudged or
/// wrapped up. Every round can be counted.
pub proof fn a_turn_is_warned_once(rounds: Seq<Fed>)
    requires
        rounds.len() <= usize::MAX,
    ensures
        forall|i: int, j: int|
            0 <= i < j < rounds.len() && #[trigger] verdict_at(rounds, i) == RoundVerdict::Correct
                ==> #[trigger] verdict_at(rounds, j) != RoundVerdict::Correct,
        forall|i: int, j: int|
            0 <= i < j < rounds.len() && #[trigger] verdict_at(rounds, i) is Nudge ==> !(
            #[trigger] verdict_at(rounds, j) is Nudge),
        forall|j: int|
            0 <= j < rounds.len() && #[trigger] verdict_at(rounds, j) == RoundVerdict::Abort
                ==> corrected_by(rounds, j),
        forall|j: int|
            0 <= j < rounds.len() && #[trigger] verdict_at(rounds, j) == RoundVerdict::Wrap
                ==> nudged_by(rounds, j),
        forall|j: int|
            0 <= j < rounds.len() ==> match #[trigger] verdict_at(rounds, j) {
                RoundVerdict::Nudge(n) => n >= BARREN_ROUNDS && !rounds[j].2,
                RoundVerdict::Wrap => !rounds[j].2,
                _ => true,
            },
        forall|j: int|
            0 <= j < rounds.len() ==> (#[trigger] after_rounds(rounds.take(j))).within(
                usize::MAX - 1,
            ),
{
    assert forall|j: int| 0 <= j < rounds.len() implies ({
        &&& (#[trigger] after_rounds(rounds.take(j))).within(j)
        &&& after_rounds(rounds.take(j)).corrected == corrected_by(rounds, j)
        &&& after_rounds(rounds.take(j)).nudged == nudged_by(rounds, j)
    }) by {
        lemma_after_rounds(rounds, j);
    }
    assert forall|j: int| 0 <= j < rounds.len() implies match #[trigger] verdict_at(rounds, j) {
        RoundVerdict::Nudge(n) => n >= BARREN_ROUNDS && !rounds[j].2,
        RoundVerdict::Wrap => !rounds[j].2,
        _ => true,
    } by {
        assert(after_rounds(rounds.take(j)).within(j));
    }
}

/// True when some call of the round did more than look something up.
pub open spec fn productive(round: Seq<(Seq<char>, Seq<char>, Seq<char>)>) -> bool {
    exists|i: int|
        0 <= i < round.len() && !is_read_tool((#[trigger] round[i]).0) && round[i].0 != "explore"@
}

/// Whether some call of the round did more than look something up.
pub fn is_productive_round(round: &Vec<RoundCall>) -> (r: bool)
    ensures
        r == productive(round_view(round@)),
{
    let ghost all = round_view(round@);
    let mut i: usize = 0;
    while i < round.len()
        invariant
            i <= round@.len(),
            all == round_view(round@),
            forall|k: int|
                0 <= k < i ==> is_read_tool((#[trigger] all[k]).0) || all[k].0 == "explore"@,
        decreases round.len() - i,
    {
        if !read_tool(round[i].name.as_str()) && !same(round[i].name.as_str(), "explore") {
            assert(all[i as int].0 == round@[i as int].name@);
            return true;
        }
        i += 1;
    }
    false
}

/// True when a result is an error message.
pub open spec fn is_error(result: Seq<char>) -> bool {
    opens(result, "error: "@)
}

/// Whether a result is an error message.
pub fn error_result(result: &str) -> (r: bool)
    ensures
        r == is_error(result@),
{
    starts_with(result, "error: ")
}

/// True when some call of the round found something: its result is no error, no
/// pointer to an earlier result, and not barren. `barren` says of each result
/// whether it is.
pub open spec fn found_something(
    round: Seq<(Seq<char>, Seq<char>, Seq<char>)>,
    barren: Seq<bool>,
) -> bool {
    exists|i: int|
        0 <= i < round.len() && !is_error((#[trigger] round[i]).2) && !opens(
            round[i].2,
            "[identical "@,
        ) && !barren[i]
}

/// Whether some call of the round found something.
pub fn round_found_something(round: &Vec<RoundCall>, barren: &Vec<bool>) -> (r: bool)
    requires
        barren@.len() == round@.len(),
    ensures
        r == found_something(round_view(round@), barren@),
{
    let ghost all = round_view(round@);
    let mut i: usize = 0;
    while i < round.len()
        invariant
            i <= round@.len(),
            barren@.len() == round@.len(),
            all == round_view(round@),
            forall|k: int|
                0 <= k < i ==> is_error((#[trigger] all[k]).2) || opens(all[k].2, "[identical "@)
                    || barren@[k],
        decreases round.len() - i,
    {
        let result = round[i].result.as_str();
        if !error_result(result) && !starts_with(result, "[identical ") && !barren[i] {
            assert(all[i as int].2 == round@[i as int].result@);
            return true;
        }
        i += 1;
    }
    false
}

/// True when every call of the round failed.
pub open spec fn all_failed(round: Seq<(Seq<char>, Seq<char>, Seq<char>)>) -> bool {
    forall|i: int| 0 <= i < round.len() ==> is_error((#[trigger] round[i]).2)
}

/// Whether every call of the round failed.
pub fn round_all_errors(round: &Vec<RoundCall>) -> (r: bool)
    ensures
        r == all_failed(round_view(round@)),
{
    let ghost all = round_view(round@);
    let mut i: usize = 0;
    while i < round.len()
        invariant
            i <= round@.len(),
            all == round_view(round@),
            forall|k: int| 0 <= k < i ==> is_error((#[trigger] all[k]).2),
        decreases round.len() - i,
    {
        if !error_result(round[i].result.as_str()) {
            assert(!is_error(all[i as int].2));
            return false;
        }
        i += 1;
    }
    true
}

/// What is hashed for the first `n` calls of a round: each text's bytes and a
/// byte that ends it.
pub open spec fn hashed(round: Seq<(Seq<char>, Seq<char>, Seq<char>)>, n: nat) -> Seq<Seq<u8>>
    decreases n,
{
    if n == 0 || n > round.len() {
        seq![]
    } else {
        let call = round[n - 1];
        hashed(round, (n - 1) as nat).push(encode_utf8(call.0)).push(seq![0xffu8]).push(
            encode_utf8(call.1),
        ).push(seq![0xffu8]).push(encode_utf8(call.2)).push(seq![0xffu8])
    }
}

/// The signature of a round: a hash of its calls and results.
pub open spec fn signature(round: Seq<(Seq<char>, Seq<char>, Seq<char>)>) -> u64 {
    DefaultHasher::spec_finish(hashed(round, round.len()))
}

fn hash_text(hasher: &mut DefaultHasher, s: &str)
    ensures
        final(hasher)@ == old(hasher)@.push(encode_utf8(s@)).push(seq![0xffu8]),
{
    hasher.write(s.as_bytes());
    let end: Vec<u8> = vec![0xffu8];
    assert(end@ =~= seq![0xffu8]);
    hasher.write(end.as_slice());
}

/// The signature of a round: rounds with the same calls and results have the
/// same one.
pub fn round_signature(round: &Vec<RoundCall>) -> (r: u64)
    ensures
        r == signature(round_view(round@)),
{
    let mut hasher = DefaultHasher::new();
    let ghost all = round_view(round@);
    let mut i: usize = 0;
    while i < round.len()
        invariant
            i <= round@.len(),
            all == round_view(round@),
            hasher@ == hashed(all, i as nat),
        decreases round.len() - i,
    {
        hash_text(&mut hasher, round[i].name.as_str());
        hash_text(&mut hasher, round[i].arguments.as_str());
        hash_text(&mut hasher, round[i].result.as_str());
        i += 1;
    }
    hasher.finish()
}

/// What the turn that carries a tool's images opens with.
pub const IMAGE_TURN_LEAD: &'static str = "Image(s) returned by the ";

/// How many image turns stay pictures.
pub const LIVE_IMAGES: usize = 1;

/// One image on the wire.
pub open spec fn image_part(url: Seq<char>) -> JsonV {
    JsonV::Obj(
        Seq::empty().push(("type"@, JsonV::Str("image_url"@))).push(
            (
                "image_url"@,
                JsonV::Obj(Seq::empty().push(("url"@, JsonV::Str(url)))),
            ),
        ),
    )
}

/// One text on the wire.
pub open spec fn text_part(text: Seq<char>) -> JsonV {
    JsonV::Obj(
        Seq::empty().push(("type"@, JsonV::Str("text"@))).push(("text"@, JsonV::Str(text))),
    )
}

/// The user turn that carries a tool's images.
pub open spec fn image_message(tool: Seq<char>, images: Seq<Seq<char>>) -> JsonV {
    message(
        "user"@,
        JsonV::Arr(
            Seq::empty().push(text_part(IMAGE_TURN_LEAD@ + tool + " call above:"@)) + Seq::new(
                images.len(),
                |i: int| image_part(images[i]),
            ),
        ),
    )
}

/// The user turn that carries a tool's images.
pub fn image_turn(tool: &str, images: &Vec<String>) -> (r: Json)
    ensures
        r@ == image_message(tool@, crate::text::texts(images@)),
{
    let lead = cat3(IMAGE_TURN_LEAD, tool, " call above:");
    let first = Fields::new().text("type", "text").text("text", lead.as_str()).json();
    let mut parts: Vec<Json> = Vec::new();
    parts.push(first);
    let mut i: usize = 0;
    while i < images.len()
        invariant
            i <= images@.len(),
            parts@.len() == i + 1,
            parts@[0]@ == first@,
            forall|k: int| 0 <= k < i ==> #[trigger] parts@[k + 1]@ == image_part(images@[k]@),
        decreases images.len() - i,
    {
        let url = Fields::new().text("url", images[i].as_str()).json();
        parts.push(Fields::new().text("type", "image_url").with("image_url", url).json());
        i += 1;
    }
    proof {
        let want = Seq::empty().push(text_part(lead@)) + Seq::new(
            images@.len(),
            |i: int| image_part(crate::text::texts(images@)[i]),
        );
        assert forall|k: int| 0 <= k < want.len() implies #[trigger] items(parts@)[k] == want[k] by {
            if k > 0 {
                assert(parts@[(k - 1) + 1]@ == image_part(images@[k - 1]@));
            }
        }
        assert(items(parts@) =~= want);
    }
    message_json("user", Json::array(parts))
}

/// What follows the lead of an image turn; none when the message is no image
/// turn.
pub open spec fn image_lead(m: JsonV) -> Option<Seq<char>> {
    if m.text_at("role"@) != Some("user"@) {
        None
    } else {
        match m.elements_at("content"@) {
            Some(parts) => if parts.len() == 0 {
                None
            } else {
                match parts[0].text_at("text"@) {
                    Some(lead) => after_prefix(lead, IMAGE_TURN_LEAD@),
                    None => None,
                }
            },
            None => None,
        }
    }
}

fn lead_of(m: &Json) -> (r: Option<String>)
    ensures
        crate::text::opt(r) == image_lead(m@),
{
    match m.str_at("role") {
        Some(role) => if !same(role, "user") {
            return None;
        },
        None => return None,
    }
    match m.array_at("content") {
        Some(parts) => {
            if parts.len() == 0 {
                return None;
            }
            assert(items(parts@)[0] == parts@[0]@);
            match parts[0].str_at("text") {
                Some(lead) => strip_prefix(lead, IMAGE_TURN_LEAD),
                None => None,
            }
        },
        None => None,
    }
}

/// The one-line stub for an image turn, given what follows its lead.
pub open spec fn image_stub(rest: Seq<char>) -> JsonV {
    message(
        "user"@,
        JsonV::Str(
            "[earlier image from the "@ + drop_back(rest, one_of(":"@))
                + " call above, replaced by a newer one]"@,
        ),
    )
}

/// The messages with all but the newest `keep` image turns replaced by stubs;
/// `seen` newer ones come after them.
pub open spec fn images_retired(wire: Seq<JsonV>, keep: int, seen: int) -> Seq<JsonV>
    decreases wire.len(),
{
    if wire.len() == 0 {
        seq![]
    } else {
        match image_lead(wire.last()) {
            Some(rest) => images_retired(wire.drop_last(), keep, seen + 1).push(
                if seen + 1 > keep {
                    image_stub(rest)
                } else {
                    wire.last()
                },
            ),
            None => images_retired(wire.drop_last(), keep, seen).push(wire.last()),
        }
    }
}

proof fn lemma_images_retired_len(wire: Seq<JsonV>, keep: int, seen: int)
    ensures
        images_retired(wire, keep, seen).len() == wire.len(),
    decreases wire.len(),
{
    if wire.len() > 0 {
        lemma_images_retired_len(wire.drop_last(), keep, seen + 1);
        lemma_images_retired_len(wire.drop_last(), keep, seen);
    }
}

/// How many of the messages are image turns.
pub open spec fn image_turns(wire: Seq<JsonV>) -> nat
    decreases wire.len(),
{
    if wire.len() == 0 {
        0
    } else {
        image_turns(wire.drop_last()) + if image_lead(wire.last()) is Some { 1nat } else { 0nat }
    }
}

/// Retiring leaves no more than `keep` image turns, and every message that is
/// no image turn as it was.
pub proof fn retiring_leaves_the_newest(wire: Seq<JsonV>, keep: nat, seen: nat)
    ensures
        images_retired(wire, keep as int, seen as int).len() == wire.len(),
        image_turns(images_retired(wire, keep as int, seen as int)) <= if keep >= seen {
            keep - seen
        } else {
            0
        },
        forall|i: int|
            0 <= i < wire.len() && image_lead(#[trigger] wire[i]) is None ==> images_retired(
                wire,
                keep as int,
                seen as int,
            )[i] == wire[i],
    decreases wire.len(),
{
    lemma_images_retired_len(wire, keep as int, seen as int);
    if wire.len() > 0 {
        let rest = wire.drop_last();
        let out = images_retired(wire, keep as int, seen as int);
        let next: nat = if image_lead(wire.last()) is Some { seen + 1 } else { seen };
        retiring_leaves_the_newest(rest, keep, next);
        assert(out.drop_last() =~= images_retired(rest, keep as int, next as int));
        match image_lead(wire.last()) {
            Some(lead) => {
                lemma_stub_is_no_image(lead);
            },
            None => {},
        }
        assert forall|i: int|
            0 <= i < wire.len() && image_lead(#[trigger] wire[i]) is None implies out[i]
            == wire[i] by {
            if i < rest.len() {
                assert(rest[i] == wire[i]);
            }
        }
    }
}

proof fn lemma_stub_is_no_image(rest: Seq<char>)
    ensures
        image_lead(image_stub(rest)) is None,
{
    let stub = image_stub(rest);
    let v = stub->Obj_0;
    reveal_strlit("role");
    reveal_strlit("content");
    assert("role"@.len() != "content"@.len());
    assert(v.drop_first()[0] == v[1]);
    reveal_with_fuel(crate::json::lookup, 3);
    assert(stub.get("content"@) == Some(v[1].1));
}

/// Replace all but the newest `keep` image turns by one-line stubs.
pub fn retire_old_images(wire: &mut Vec<Json>, keep: usize)
    ensures
        items(final(wire)@) == images_retired(items(old(wire)@), keep as int, 0),
{
    let ghost start = items(wire@);
    let total: usize = wire.len();
    let mut n: usize = total;
    let mut seen: usize = 0;
    assert(start.take(n as int) =~= start);
    assert(images_retired(start.take(n as int), keep as int, 0) + items(wire@).skip(n as int)
        =~= images_retired(start, keep as int, 0)) by {
        lemma_images_retired_len(start, keep as int, 0);
    }
    while n > 0
        invariant
            n <= total,
            wire@.len() == total,
            start.len() == total,
            seen <= total - n,
            items(wire@).take(n as int) == start.take(n as int),
            images_retired(start.take(n as int), keep as int, seen as int) + items(wire@).skip(
                n as int,
            ) == images_retired(start, keep as int, 0),
        decreases n,
    {
        let lead = lead_of(&wire[n - 1]);
        let ghost head = start.take(n as int);
        let ghost now = items(wire@);
        proof {
            assert(head.last() == start[n - 1]);
            assert(now.take(n as int)[n - 1] == now[n - 1]);
            assert(now[n - 1] == wire@[n - 1]@);
            assert(head.drop_last() =~= start.take(n - 1));
        }
        match lead {
            Some(rest) => {
                seen += 1;
                if seen > keep {
                    let tool = trim_end_of(rest.as_str(), ":");
                    let stub = message_json(
                        "user",
                        Json::Str(
                            cat3(
                                "[earlier image from the ",
                                tool.as_str(),
                                " call above, replaced by a newer one]",
                            ),
                        ),
                    );
                    assert(stub@ == image_stub(rest@));
                    wire.set(n - 1, stub);
                    assert(items(wire@) =~= now.update(n - 1, stub@));
                }
            },
            None => {},
        }
        proof {
            let after = items(wire@);
            let t = images_retired(start.take(n - 1), keep as int, seen as int);
            assert(after.take(n - 1) =~= start.take(n - 1)) by {
                assert forall|k: int| 0 <= k < n - 1 implies after[k] == start[k] by {
                    assert(now.take(n as int)[k] == start.take(n as int)[k]);
                }
            }
            assert(t.push(after[n - 1]) + after.skip(n as int) =~= t + after.skip(n - 1));
            assert(after.skip(n as int) =~= now.skip(n as int));
        }
        n -= 1;
    }
    proof {
        assert(start.take(0) =~= Seq::empty());
        assert(images_retired(start.take(0), keep as int, seen as int) =~= Seq::empty());
        assert(items(wire@).skip(0) =~= items(wire@));
        assert(Seq::<JsonV>::empty() + items(wire@) =~= items(wire@));
    }
}

} // verus!
