//! Replies that come whole, and what is done when one hits the output budget:
//! the partial goes back so the model finishes it.

use vstd::prelude::*;

use crate::client::errors::{blames_images, rejected_images};
use crate::client::reasoning::{
    blocks_wire, detail_shown, detail_wire, details, details_wire, plain_block, thoughts,
    thoughts_of, DetailV, ReasoningDetail,
};
use crate::client::usage::Usage;
use crate::json::{items, message, message_json, Json, JsonV};
use crate::message::{calls, citations, Annotation, CallV, ToolCall};
use crate::text::affix::{is_blank, trimmed};
use crate::text::case::lowercase;
use crate::text::{opt, opt_str, same, texts};
use crate::turn::{Reply, ReplyV};

verus! {

/// How often a reply that hit the output budget is continued.
pub const MAX_CONTINUATION_PASSES: usize = 3;

/// True when a reply stopped because it hit the output budget.
pub open spec fn hit_budget(finish: Option<Seq<char>>) -> bool {
    finish == Some("length"@)
}

/// Whether a reply stopped because it hit the output budget.
pub fn cut_short(finish: Option<&str>) -> (r: bool)
    ensures
        r == hit_budget(opt_str(finish)),
{
    match finish {
        Some(f) => same(f, "length"),
        None => false,
    }
}

/// What is to be done after a pass.
#[derive(Clone, Copy, PartialEq, Eq, Structural, Debug)]
pub enum PassStep {
    /// The reply is complete.
    Done,
    /// The output budget went on thinking alone.
    ThinkingExhausted,
    /// The reply only repeats itself.
    Degenerate,
    /// Send the partial back and go on.
    Again,
}

/// A plain reply over its passes.
pub struct TextPasses {
    pub content: String,
    pub pass: usize,
}

/// What is to be done after a pass that left the reply at `content`.
pub open spec fn text_step(
    content: Seq<char>,
    pass: int,
    finish: Option<Seq<char>>,
) -> PassStep {
    if !hit_budget(finish) {
        PassStep::Done
    } else if trimmed(content).len() == 0 {
        PassStep::ThinkingExhausted
    } else if pass < MAX_CONTINUATION_PASSES {
        PassStep::Again
    } else {
        PassStep::Done
    }
}

impl TextPasses {
    /// No pass yet.
    pub fn new() -> (r: TextPasses)
        ensures
            r.content@ == Seq::<char>::empty(),
            r.pass == 0,
    {
        let r = TextPasses { content: String::new(), pass: 0 };
        assert(r.content@ =~= Seq::<char>::empty());
        r
    }

    /// Take the text of one pass in.
    pub fn take(&mut self, text: &str, finish: Option<&str>) -> (r: PassStep)
        requires
            old(self).pass <= MAX_CONTINUATION_PASSES,
        ensures
            final(self).content@ == old(self).content@ + text@,
            r == text_step(final(self).content@, old(self).pass as int, opt_str(finish)),
            r == PassStep::Again ==> final(self).pass == old(self).pass + 1 && final(self).pass
                <= MAX_CONTINUATION_PASSES,
            r != PassStep::Again ==> final(self).pass == old(self).pass,
    {
        self.content.push_str(text);
        if !cut_short(finish) {
            return PassStep::Done;
        }
        if is_blank(self.content.as_str()) {
            return PassStep::ThinkingExhausted;
        }
        if self.pass < MAX_CONTINUATION_PASSES {
            self.pass += 1;
            PassStep::Again
        } else {
            PassStep::Done
        }
    }
}

/// A reply is sent back no more than three times.
pub proof fn passes_are_bounded(content: Seq<char>, pass: int, finish: Option<Seq<char>>)
    requires
        pass >= MAX_CONTINUATION_PASSES,
    ensures
        text_step(content, pass, finish) != PassStep::Again,
{
}

/// Whether a refused request is sent again with its images described: it has
/// some, it is the first, and the refusal is about them.
pub fn describe_instead(images: bool, pass: usize, error: &str) -> (r: bool)
    ensures
        r == (images && pass == 0 && blames_images(lowercase(error@))),
{
    images && pass == 0 && rejected_images(error)
}

/// The text and the calls of a whole reply, given what its text holds inline:
/// calls that were written into the text count only where there are no others,
/// and what is left of the text is dropped when empty.
pub open spec fn message_with_inline(
    content: Option<Seq<char>>,
    own: Seq<CallV>,
    text: Seq<char>,
    inline: Seq<CallV>,
) -> (Option<Seq<char>>, Seq<CallV>) {
    if own.len() == 0 && content is Some && inline.len() > 0 {
        (
            if text.len() > 0 {
                Some(text)
            } else {
                None
            },
            inline,
        )
    } else {
        (content, own)
    }
}

/// The text and the calls of a whole reply, given what its text holds inline.
pub fn settle_message(
    content: Option<String>,
    own: Vec<ToolCall>,
    text: String,
    inline: Vec<ToolCall>,
) -> (r: (Option<String>, Vec<ToolCall>))
    ensures
        (opt(r.0), calls(r.1@)) == message_with_inline(
            opt(content),
            calls(own@),
            text@,
            calls(inline@),
        ),
{
    if own.len() == 0 && content.is_some() && inline.len() > 0 {
        (
            if text.as_str().is_empty() {
                None
            } else {
                Some(text)
            },
            inline,
        )
    } else {
        (content, own)
    }
}

/// The thinking of a reply that came as bare text, where it has no blocks.
pub open spec fn bare_thinking(blocks: int, text: Option<Seq<char>>) -> Option<Seq<char>> {
    match text {
        Some(t) => if blocks == 0 && trimmed(t).len() > 0 {
            Some(t)
        } else {
            None
        },
        None => None,
    }
}

/// The thinking of a reply that came as bare text, where it has no blocks.
pub fn thinking_block(blocks: usize, text: &Option<String>) -> (r: Option<String>)
    ensures
        opt(r) == bare_thinking(blocks as int, opt(*text)),
{
    match text {
        Some(t) => if blocks == 0 && !is_blank(t.as_str()) {
            Some(t.clone())
        } else {
            None
        },
        None => None,
    }
}

/// A reply that may call tools, over its passes.
pub struct ToolPasses {
    pub content: String,
    pub pass: usize,
}

/// True when a pass spent the whole output budget on thinking.
pub open spec fn exhausted(
    have: Seq<char>,
    fragment: Seq<char>,
    finish: Option<Seq<char>>,
) -> bool {
    hit_budget(finish) && have.len() == 0 && trimmed(fragment).len() == 0
}

/// What is to be done after a pass without calls, once its text was added and
/// looked at.
pub open spec fn prose_step(degenerate: bool, pass: int, finish: Option<Seq<char>>) -> PassStep {
    if degenerate {
        PassStep::Degenerate
    } else if hit_budget(finish) && pass < MAX_CONTINUATION_PASSES {
        PassStep::Again
    } else {
        PassStep::Done
    }
}

impl ToolPasses {
    /// No pass yet.
    pub fn new() -> (r: ToolPasses)
        ensures
            r.content@ == Seq::<char>::empty(),
            r.pass == 0,
    {
        let r = ToolPasses { content: String::new(), pass: 0 };
        assert(r.content@ =~= Seq::<char>::empty());
        r
    }

    /// Add the text of a pass without calls. False when the pass spent the
    /// whole output budget on thinking; then nothing is added.
    pub fn add_text(&mut self, fragment: &Option<String>, finish: Option<&str>) -> (r: bool)
        ensures
            ({
                let text = match opt(*fragment) {
                    Some(t) => t,
                    None => Seq::empty(),
                };
                &&& r == !exhausted(old(self).content@, text, opt_str(finish))
                &&& final(self).content@ == if r {
                    old(self).content@ + text
                } else {
                    old(self).content@
                }
                &&& final(self).pass == old(self).pass
            }),
    {
        let text = match fragment {
            Some(t) => t.clone(),
            None => String::new(),
        };
        assert(opt(*fragment) is None ==> text@ =~= Seq::empty());
        if cut_short(finish) && self.content.as_str().is_empty() && is_blank(text.as_str()) {
            return false;
        }
        self.content.push_str(text.as_str());
        true
    }

    /// Decide what follows a pass without calls, given whether the reply so far
    /// only repeats itself.
    pub fn settle(&mut self, degenerate: bool, finish: Option<&str>) -> (r: PassStep)
        requires
            old(self).pass <= MAX_CONTINUATION_PASSES,
        ensures
            r == prose_step(degenerate, old(self).pass as int, opt_str(finish)),
            final(self).content == old(self).content,
            r == PassStep::Again ==> final(self).pass == old(self).pass + 1 && final(self).pass
                <= MAX_CONTINUATION_PASSES,
            r != PassStep::Again ==> final(self).pass == old(self).pass,
    {
        if degenerate {
            return PassStep::Degenerate;
        }
        if cut_short(finish) && self.pass < MAX_CONTINUATION_PASSES {
            self.pass += 1;
            PassStep::Again
        } else {
            PassStep::Done
        }
    }

    /// The partial reply as it goes back to the model.
    pub fn partial(&self) -> (r: Json)
        ensures
            r@ == message("assistant"@, JsonV::Str(self.content@)),
    {
        message_json("assistant", Json::text(self.content.as_str()))
    }
}

/// A whole reply as it was parsed.
pub struct AssistantMessage {
    pub content: Option<String>,
    pub tool_calls: Vec<ToolCall>,
    pub annotations: Vec<Annotation>,
    pub reasoning_details: Vec<ReasoningDetail>,
    /// Thinking that came as bare text.
    pub reasoning_content: Option<String>,
}

/// The model of a whole reply.
#[verifier::ext_equal]
pub struct WholeV {
    pub content: Option<Seq<char>>,
    pub tool_calls: Seq<CallV>,
    pub annotations: Seq<(Seq<char>, Option<Seq<char>>)>,
    pub reasoning_details: Seq<DetailV>,
    pub reasoning_content: Option<Seq<char>>,
}

impl View for AssistantMessage {
    type V = WholeV;

    open spec fn view(&self) -> WholeV {
        WholeV {
            content: opt(self.content),
            tool_calls: calls(self.tool_calls@),
            annotations: citations(self.annotations@),
            reasoning_details: details(self.reasoning_details@),
            reasoning_content: opt(self.reasoning_content),
        }
    }
}

/// The blocks of thinking of a whole reply, with the one that bare text becomes.
pub open spec fn whole_blocks(m: WholeV) -> Seq<DetailV> {
    match bare_thinking(m.reasoning_details.len() as int, m.reasoning_content) {
        Some(text) => m.reasoning_details.push(plain_block(text)),
        None => m.reasoning_details,
    }
}

/// What follows a pass of a reply that may call tools.
pub enum ToolStep {
    /// Send this partial reply back and go on.
    Again(Json),
    /// The output budget went on thinking alone.
    ThinkingExhausted,
    /// The reply only repeats itself.
    Degenerate,
    /// The reply is complete.
    Reply(Reply),
}

/// The model of what follows a pass.
#[verifier::ext_equal]
pub enum ToolStepV {
    Again(JsonV),
    ThinkingExhausted,
    Degenerate,
    Reply(ReplyV),
}

impl View for ToolStep {
    type V = ToolStepV;

    open spec fn view(&self) -> ToolStepV {
        match self {
            ToolStep::Again(m) => ToolStepV::Again(m@),
            ToolStep::ThinkingExhausted => ToolStepV::ThinkingExhausted,
            ToolStep::Degenerate => ToolStepV::Degenerate,
            ToolStep::Reply(r) => ToolStepV::Reply(r@),
        }
    }
}

/// A reply with the annotations and the thinking of the message it came in.
pub open spec fn reply_with(m: WholeV, content: Option<Seq<char>>, own: Seq<CallV>) -> ReplyV {
    ReplyV {
        content,
        tool_calls: own,
        annotations: m.annotations,
        reasoning_details: details_wire(whole_blocks(m)),
        thoughts: thoughts_of(whole_blocks(m), whole_blocks(m).len()),
    }
}

/// A reply that is nothing but its text.
pub open spec fn bare_reply(content: Seq<char>) -> ReplyV {
    ReplyV {
        content: Some(content),
        tool_calls: Seq::empty(),
        annotations: Seq::empty(),
        reasoning_details: Seq::empty(),
        thoughts: Seq::empty(),
    }
}

/// What follows a pass. `have` is the reply before it, `text` and `inline` what
/// its text holds inline, and `repeats` says whether the reply with this pass
/// only repeats itself. Calls end the passes, and their message comes out as it
/// is. Prose is gathered: a finished one comes out with the last message's
/// annotations and thinking, one that was cut once too often with neither.
pub open spec fn tool_step(
    have: Seq<char>,
    pass: int,
    m: WholeV,
    finish: Option<Seq<char>>,
    text: Seq<char>,
    inline: Seq<CallV>,
    repeats: bool,
) -> ToolStepV {
    let (content, own) = message_with_inline(m.content, m.tool_calls, text, inline);
    let fragment = match content {
        Some(t) => t,
        None => Seq::empty(),
    };
    let all = have + fragment;
    if own.len() > 0 {
        ToolStepV::Reply(reply_with(m, content, own))
    } else if exhausted(have, fragment, finish) {
        ToolStepV::ThinkingExhausted
    } else if repeats {
        ToolStepV::Degenerate
    } else if !hit_budget(finish) {
        ToolStepV::Reply(reply_with(m, Some(all), Seq::empty()))
    } else if pass < MAX_CONTINUATION_PASSES {
        ToolStepV::Again(message("assistant"@, JsonV::Str(all)))
    } else {
        ToolStepV::Reply(bare_reply(all))
    }
}

fn thinking_of(m: &AssistantMessage) -> (r: (Vec<Json>, Vec<String>))
    ensures
        items(r.0@) == details_wire(whole_blocks(m@)),
        texts(r.1@) == thoughts_of(whole_blocks(m@), whole_blocks(m@).len()),
{
    let mut blocks = blocks_wire(&m.reasoning_details);
    let mut read = thoughts(&m.reasoning_details);
    let ghost plain = details(m.reasoning_details@);
    match thinking_block(m.reasoning_details.len(), &m.reasoning_content) {
        Some(text) => {
            let block = ReasoningDetail::from_text(text);
            let ghost all = plain.push(block@);
            let ghost had = items(blocks@);
            let ghost had_read = texts(read@);
            blocks.push(block.wire());
            assert(items(blocks@) =~= had.push(detail_wire(block@)));
            assert(items(blocks@) =~= details_wire(all));
            proof {
                lemma_thoughts_push(plain, block@);
            }
            match block.plain() {
                Some(t) => {
                    read.push(t);
                    assert(texts(read@) =~= had_read.push(t@));
                },
                None => {},
            }
        },
        None => {},
    }
    (blocks, read)
}

proof fn lemma_thoughts_push(v: Seq<DetailV>, d: DetailV)
    ensures
        thoughts_of(v.push(d), v.push(d).len()) == match detail_shown(d) {
            Some(t) => thoughts_of(v, v.len()).push(t),
            None => thoughts_of(v, v.len()),
        },
{
    lemma_thoughts_prefix(v, v.push(d), v.len());
}

proof fn lemma_thoughts_prefix(a: Seq<DetailV>, b: Seq<DetailV>, n: nat)
    requires
        n <= a.len() <= b.len(),
        forall|k: int| 0 <= k < n ==> #[trigger] a[k] == b[k],
    ensures
        thoughts_of(a, n) == thoughts_of(b, n),
    decreases n,
{
    if n > 0 {
        lemma_thoughts_prefix(a, b, (n - 1) as nat);
        assert(a[n - 1] == b[n - 1]);
    }
}

impl ToolPasses {
    /// Take one pass in and say what follows.
    pub fn step(
        &mut self,
        m: AssistantMessage,
        finish: Option<&str>,
        text: String,
        inline: Vec<ToolCall>,
        repeats: bool,
    ) -> (r: ToolStep)
        requires
            old(self).pass <= MAX_CONTINUATION_PASSES,
        ensures
            r@ == tool_step(
                old(self).content@,
                old(self).pass as int,
                m@,
                opt_str(finish),
                text@,
                calls(inline@),
                repeats,
            ),
            match r {
                ToolStep::Again(_) => final(self).pass == old(self).pass + 1 && final(self).pass
                    <= MAX_CONTINUATION_PASSES && r@ == ToolStepV::Again(
                    message("assistant"@, JsonV::Str(final(self).content@)),
                ),
                _ => final(self).pass == old(self).pass,
            },
    {
        let ghost have = self.content@;
        let ghost start = self.pass;
        let (reasoning_details, thoughts) = thinking_of(&m);
        let ghost whole = m@;
        let (content, own) = settle_message(m.content, m.tool_calls, text, inline);
        if own.len() > 0 {
            let r = Reply {
                content,
                tool_calls: own,
                annotations: m.annotations,
                reasoning_details,
                thoughts,
            };
            assert(r@ =~= reply_with(whole, opt(content), calls(own@)));
            return ToolStep::Reply(r);
        }
        if !self.add_text(&content, finish) {
            return ToolStep::ThinkingExhausted;
        }
        match self.settle(repeats, finish) {
            PassStep::Degenerate => ToolStep::Degenerate,
            PassStep::Again => ToolStep::Again(self.partial()),
            _ => {
                let no_calls: Vec<ToolCall> = Vec::new();
                assert(calls(no_calls@) =~= Seq::empty());
                if cut_short(finish) {
                    let r = Reply {
                        content: Some(self.content.clone()),
                        tool_calls: no_calls,
                        annotations: Vec::new(),
                        reasoning_details: Vec::new(),
                        thoughts: Vec::new(),
                    };
                    assert(r@ =~= bare_reply(self.content@));
                    ToolStep::Reply(r)
                } else {
                    let r = Reply {
                        content: Some(self.content.clone()),
                        tool_calls: no_calls,
                        annotations: m.annotations,
                        reasoning_details,
                        thoughts,
                    };
                    assert(r@ =~= reply_with(whole, Some(self.content@), Seq::empty()));
                    ToolStep::Reply(r)
                }
            },
        }
    }
}

/// A reply with calls ends the passes, whatever else holds, and comes out with
/// its annotations and thinking.
pub proof fn calls_end_the_passes(
    have: Seq<char>,
    pass: int,
    m: WholeV,
    finish: Option<Seq<char>>,
    text: Seq<char>,
    inline: Seq<CallV>,
    repeats: bool,
)
    requires
        m.tool_calls.len() > 0,
    ensures
        tool_step(have, pass, m, finish, text, inline, repeats) == ToolStepV::Reply(
            reply_with(m, m.content, m.tool_calls),
        ),
{
}

/// After the last pass nothing is asked again.
pub proof fn tool_passes_are_bounded(
    have: Seq<char>,
    pass: int,
    m: WholeV,
    finish: Option<Seq<char>>,
    text: Seq<char>,
    inline: Seq<CallV>,
    repeats: bool,
)
    requires
        pass >= MAX_CONTINUATION_PASSES,
    ensures
        !(tool_step(have, pass, m, finish, text, inline, repeats) is Again),
{
}

/// A plain reply as far as it has streamed.
pub struct TextStream {
    pub content: String,
    pub usage: Option<Usage>,
    pub thought: bool,
    pub finish: Option<String>,
}

/// One piece of a plain streamed reply, its text parted from tagged thinking.
pub struct TextDelta {
    pub usage: Option<Usage>,
    pub choice: Option<TextChoice>,
}

/// The part of a piece that is about the reply itself.
pub struct TextChoice {
    pub finish_reason: Option<String>,
    pub text: String,
    /// The piece carried thinking, tagged or in a field of its own.
    pub thinking: bool,
}

/// What a plain stream comes to.
#[derive(Clone, Copy, PartialEq, Eq, Structural, Debug)]
pub enum TextEnd {
    /// Ask again without streaming: nothing was shown.
    Retry,
    /// The stream dropped after something was shown.
    Dropped,
    /// The model only thought.
    ThinkingExhausted,
    /// There is a reply.
    Reply,
}

/// What a plain stream comes to.
pub open spec fn text_end(content: Seq<char>, thought: bool, failed: bool) -> TextEnd {
    if failed {
        if content.len() == 0 && !thought {
            TextEnd::Retry
        } else {
            TextEnd::Dropped
        }
    } else if content.len() == 0 && thought {
        TextEnd::ThinkingExhausted
    } else if content.len() == 0 {
        TextEnd::Retry
    } else {
        TextEnd::Reply
    }
}

/// The text that one piece brings.
pub open spec fn delta_text(d: TextDelta) -> Seq<char> {
    match d.choice {
        Some(c) => c.text@,
        None => Seq::empty(),
    }
}

/// What is shown of a text: nothing where it is empty.
pub open spec fn shown_of(text: Seq<char>) -> Option<Seq<char>> {
    if text.len() > 0 {
        Some(text)
    } else {
        None
    }
}

/// The content once the first `n` pieces are in.
pub open spec fn content_after(pieces: Seq<TextDelta>, n: nat) -> Seq<char>
    decreases n,
{
    if n == 0 || n > pieces.len() {
        Seq::empty()
    } else {
        content_after(pieces, (n - 1) as nat) + delta_text(pieces[n - 1])
    }
}

/// What the first `n` pieces showed.
pub open spec fn shown_after(pieces: Seq<TextDelta>, n: nat) -> Seq<Seq<char>>
    decreases n,
{
    if n == 0 || n > pieces.len() {
        Seq::empty()
    } else {
        let head = shown_after(pieces, (n - 1) as nat);
        match shown_of(delta_text(pieces[n - 1])) {
            Some(text) => head.push(text),
            None => head,
        }
    }
}

/// All that a stream showed, once its end let the held-back text through.
pub open spec fn shown_in_all(pieces: Seq<TextDelta>, rest: Seq<char>) -> Seq<Seq<char>> {
    let head = shown_after(pieces, pieces.len());
    match shown_of(rest) {
        Some(text) => head.push(text),
        None => head,
    }
}

/// The content is the pieces that were shown, one after the other, and none of
/// them is empty.
pub proof fn the_content_is_what_was_shown(pieces: Seq<TextDelta>, rest: Seq<char>)
    ensures
        shown_in_all(pieces, rest).flatten() == content_after(pieces, pieces.len()) + rest,
        forall|i: int|
            0 <= i < shown_in_all(pieces, rest).len() ==> (#[trigger] shown_in_all(
                pieces,
                rest,
            )[i]).len() > 0,
{
    let head = shown_after(pieces, pieces.len());
    lemma_shown_after(pieces, pieces.len());
    if rest.len() > 0 {
        lemma_flatten_push(head, rest);
    } else {
        assert(content_after(pieces, pieces.len()) + rest =~= content_after(pieces, pieces.len()));
    }
}

proof fn lemma_flatten_push(v: Seq<Seq<char>>, x: Seq<char>)
    ensures
        v.push(x).flatten() == v.flatten() + x,
    decreases v.len(),
{
    if v.len() == 0 {
        let w = v.push(x);
        assert(w.drop_first() =~= Seq::empty());
        assert(w.drop_first().flatten() =~= Seq::empty());
        assert(v.flatten() =~= Seq::empty());
        assert(w.first() == x);
        assert(w.flatten() == x + w.drop_first().flatten());
        assert(w.flatten() =~= v.flatten() + x);
    } else {
        lemma_flatten_push(v.drop_first(), x);
        assert(v.push(x).drop_first() =~= v.drop_first().push(x));
        assert(v.push(x).flatten() =~= v.flatten() + x);
    }
}

proof fn lemma_shown_after(pieces: Seq<TextDelta>, n: nat)
    requires
        n <= pieces.len(),
    ensures
        shown_after(pieces, n).flatten() == content_after(pieces, n),
        forall|i: int|
            0 <= i < shown_after(pieces, n).len() ==> (#[trigger] shown_after(pieces, n)[i]).len()
                > 0,
    decreases n,
{
    if n > 0 {
        lemma_shown_after(pieces, (n - 1) as nat);
        let text = delta_text(pieces[n - 1]);
        let head = shown_after(pieces, (n - 1) as nat);
        if text.len() > 0 {
            lemma_flatten_push(head, text);
        } else {
            assert(content_after(pieces, (n - 1) as nat) + text =~= content_after(
                pieces,
                (n - 1) as nat,
            ));
        }
    } else {
        assert(shown_after(pieces, 0).flatten() =~= Seq::empty());
    }
}

impl TextStream {
    /// Nothing has arrived.
    pub fn new() -> (r: TextStream)
        ensures
            r.content@ == Seq::<char>::empty(),
            r.usage is None,
            !r.thought,
            r.finish is None,
    {
        let r = TextStream {
            content: String::new(),
            usage: None,
            thought: false,
            finish: None,
        };
        assert(r.content@ =~= Seq::<char>::empty());
        r
    }

    /// Take one piece in; gives back the text to show, if there is any.
    pub fn feed(&mut self, delta: TextDelta) -> (r: Option<String>)
        ensures
            final(self).usage == match delta.usage {
                Some(u) => Some(u),
                None => old(self).usage,
            },
            final(self).content@ == old(self).content@ + delta_text(delta),
            opt(r) == shown_of(delta_text(delta)),
            match delta.choice {
                Some(c) => {
                    &&& final(self).thought == (old(self).thought || c.thinking)
                    &&& opt(final(self).finish) == match opt(c.finish_reason) {
                        Some(f) => Some(f),
                        None => opt(old(self).finish),
                    }
                },
                None => {
                    &&& final(self).thought == old(self).thought
                    &&& final(self).finish == old(self).finish
                },
            },
    {
        match delta.usage {
            Some(u) => {
                self.usage = Some(u);
            },
            None => {},
        }
        match delta.choice {
            Some(c) => {
                match c.finish_reason {
                    Some(f) => {
                        self.finish = Some(f);
                    },
                    None => {},
                }
                if c.thinking {
                    self.thought = true;
                }
                let had = self.content.clone();
                self.content.push_str(c.text.as_str());
                if c.text.as_str().is_empty() {
                    assert(had@ + c.text@ =~= had@);
                    None
                } else {
                    Some(c.text)
                }
            },
            None => {
                assert(old(self).content@ + Seq::<char>::empty() =~= old(self).content@);
                None
            },
        }
    }

    /// Take in the text that the tags held back at the end of the stream; gives
    /// it back to be shown, if there is any.
    pub fn end_tags(&mut self, rest: &str) -> (r: Option<String>)
        ensures
            final(self).content@ == old(self).content@ + rest@,
            opt(r) == shown_of(rest@),
            final(self).usage == old(self).usage,
            final(self).thought == old(self).thought,
            final(self).finish == old(self).finish,
    {
        self.content.push_str(rest);
        if rest.is_empty() {
            None
        } else {
            Some(rest.to_owned())
        }
    }

    /// What the stream comes to, given whether it broke off.
    pub fn end(&self, failed: bool) -> (r: TextEnd)
        ensures
            r == text_end(self.content@, self.thought, failed),
    {
        let empty = self.content.as_str().is_empty();
        if failed {
            if empty && !self.thought {
                TextEnd::Retry
            } else {
                TextEnd::Dropped
            }
        } else if empty && self.thought {
            TextEnd::ThinkingExhausted
        } else if empty {
            TextEnd::Retry
        } else {
            TextEnd::Reply
        }
    }
}

} // verus!
