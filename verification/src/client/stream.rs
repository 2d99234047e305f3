//! A streamed reply, from its pieces to the message it amounts to.

use vstd::prelude::*;

use crate::client::partials::{
    finished, merged, target_index, DeltaV, PartialV, Partials, ToolCallDelta,
};
use crate::client::reasoning::{
    blocks_wire, detail_shown, details, details_wire, merge_reasoning, plain_block, reasoned,
    thoughts, thoughts_of, DetailV, ReasoningDetail,
};
use crate::client::usage::Usage;
use crate::message::{calls, citations, Annotation, CallV, ToolCall};
use crate::text::affix::{is_blank, trimmed};
use crate::text::utf8::{byte_len, utf8_len};
use crate::text::{opt, same};
use crate::turn::{Reply, ReplyV};

verus! {

/// One piece of a streamed reply, its text already parted from the thinking
/// that was tagged in it.
pub struct StreamDelta {
    pub usage: Option<Usage>,
    pub choice: Option<StreamChoice>,
}

/// The part of a piece that is about the reply itself.
pub struct StreamChoice {
    pub finish_reason: Option<String>,
    /// Text of the reply.
    pub text: String,
    /// Thinking that stood in the text between tags.
    pub tagged: String,
    /// The text makes the reply one that only repeats itself.
    pub repeats: bool,
    pub annotations: Vec<Annotation>,
    pub reasoning_content: Option<String>,
    pub reasoning_details: Vec<ReasoningDetail>,
    pub tool_calls: Vec<ToolCallDelta>,
}

/// The model of a choice.
#[verifier::ext_equal]
pub struct ChoiceV {
    pub finish_reason: Option<Seq<char>>,
    pub text: Seq<char>,
    pub tagged: Seq<char>,
    pub repeats: bool,
    pub annotations: Seq<(Seq<char>, Option<Seq<char>>)>,
    pub reasoning_content: Option<Seq<char>>,
    pub reasoning_details: Seq<DetailV>,
    pub tool_calls: Seq<DeltaV>,
}

/// The models of a list of fragments.
pub open spec fn deltas(v: Seq<ToolCallDelta>) -> Seq<DeltaV> {
    Seq::new(v.len(), |i: int| v[i]@)
}

impl View for StreamChoice {
    type V = ChoiceV;

    open spec fn view(&self) -> ChoiceV {
        ChoiceV {
            finish_reason: opt(self.finish_reason),
            text: self.text@,
            tagged: self.tagged@,
            repeats: self.repeats,
            annotations: citations(self.annotations@),
            reasoning_content: opt(self.reasoning_content),
            reasoning_details: details(self.reasoning_details@),
            tool_calls: deltas(self.tool_calls@),
        }
    }
}

/// Something to show while the reply streams.
pub enum Shown {
    /// A piece of thinking.
    Reasoning(String),
    /// A piece of text, for the guard that keeps tool markup off the screen.
    Text(String),
}

/// The model of something shown: whether it is thinking, and the text.
pub open spec fn shown_view(v: Seq<Shown>) -> Seq<(bool, Seq<char>)> {
    Seq::new(
        v.len(),
        |i: int|
            match v[i] {
                Shown::Reasoning(s) => (true, s@),
                Shown::Text(s) => (false, s@),
            },
    )
}

/// A reply as far as it has streamed.
pub struct ToolStream {
    pub content: String,
    pub usage: Option<Usage>,
    pub partials: Partials,
    pub annotations: Vec<Annotation>,
    pub reasoning_details: Vec<ReasoningDetail>,
    pub plain_thinking: String,
    pub finish: Option<String>,
    pub degenerate: bool,
}

/// The model of a streaming reply.
#[verifier::ext_equal]
pub struct StreamV {
    pub content: Seq<char>,
    pub usage: Option<Usage>,
    pub partials: Seq<PartialV>,
    pub annotations: Seq<(Seq<char>, Option<Seq<char>>)>,
    pub reasoning_details: Seq<DetailV>,
    pub plain_thinking: Seq<char>,
    pub finish: Option<Seq<char>>,
    pub degenerate: bool,
}

impl View for ToolStream {
    type V = StreamV;

    open spec fn view(&self) -> StreamV {
        StreamV {
            content: self.content@,
            usage: self.usage,
            partials: self.partials@,
            annotations: citations(self.annotations@),
            reasoning_details: details(self.reasoning_details@),
            plain_thinking: self.plain_thinking@,
            finish: opt(self.finish),
            degenerate: self.degenerate,
        }
    }
}

/// What the first `n` fragments of thinking show.
pub open spec fn details_shown(v: Seq<DetailV>, n: nat) -> Seq<(bool, Seq<char>)>
    decreases n,
{
    if n == 0 || n > v.len() {
        Seq::empty()
    } else {
        match detail_shown(v[n - 1]) {
            Some(text) => details_shown(v, (n - 1) as nat).push((true, text)),
            None => details_shown(v, (n - 1) as nat),
        }
    }
}

/// The blocks of thinking after the first `n` fragments.
pub open spec fn details_after(have: Seq<DetailV>, v: Seq<DetailV>, n: nat) -> Seq<DetailV>
    decreases n,
{
    if n == 0 || n > v.len() {
        have
    } else {
        reasoned(details_after(have, v, (n - 1) as nat), v[n - 1])
    }
}

/// The partial calls after the first `n` fragments.
pub open spec fn partials_after(have: Seq<PartialV>, v: Seq<DeltaV>, n: nat) -> Seq<PartialV>
    decreases n,
{
    if n == 0 || n > v.len() {
        have
    } else {
        merged(partials_after(have, v, (n - 1) as nat), v[n - 1])
    }
}

/// True when every fragment finds an index.
pub open spec fn all_have_room(have: Seq<PartialV>, v: Seq<DeltaV>) -> bool {
    forall|i: int|
        0 <= i < v.len() ==> target_index(partials_after(have, v, i as nat), #[trigger] v[i])
            <= usize::MAX
}

/// The stream after the text of a choice, before anything else of it.
pub open spec fn texts_taken(s: StreamV, c: ChoiceV) -> StreamV {
    StreamV {
        finish: match c.finish_reason {
            Some(f) => Some(f),
            None => s.finish,
        },
        plain_thinking: s.plain_thinking + c.tagged,
        content: s.content + c.text,
        degenerate: s.degenerate || (c.text.len() > 0 && c.repeats),
        ..s
    }
}

/// True when the stream is dropped at this choice: its text makes the reply one
/// that only repeats itself.
pub open spec fn stops(c: ChoiceV) -> bool {
    c.text.len() > 0 && c.repeats
}

/// The stream after a choice.
pub open spec fn choice_taken(s: StreamV, c: ChoiceV) -> StreamV {
    let t = texts_taken(s, c);
    if stops(c) {
        t
    } else {
        StreamV {
            annotations: if c.annotations.len() > 0 {
                c.annotations
            } else {
                t.annotations
            },
            plain_thinking: match c.reasoning_content {
                Some(text) => t.plain_thinking + text,
                None => t.plain_thinking,
            },
            reasoning_details: details_after(
                t.reasoning_details,
                c.reasoning_details,
                c.reasoning_details.len(),
            ),
            partials: partials_after(t.partials, c.tool_calls, c.tool_calls.len()),
            ..t
        }
    }
}

/// What a choice shows.
pub open spec fn choice_shown(c: ChoiceV) -> Seq<(bool, Seq<char>)> {
    let a = if c.tagged.len() > 0 {
        Seq::empty().push((true, c.tagged))
    } else {
        Seq::empty()
    };
    if stops(c) {
        a
    } else {
        let b = if c.text.len() > 0 {
            a.push((false, c.text))
        } else {
            a
        };
        let d = match c.reasoning_content {
            Some(text) => if text.len() > 0 {
                b.push((true, text))
            } else {
                b
            },
            None => b,
        };
        d + details_shown(c.reasoning_details, c.reasoning_details.len())
    }
}

/// The stream after its end: what the tags held back comes through.
pub open spec fn tail_taken(s: StreamV, rest: Seq<char>, tagged: Seq<char>) -> StreamV {
    StreamV { content: s.content + rest, plain_thinking: s.plain_thinking + tagged, ..s }
}

/// The thinking that came as bare text, where no block of it did.
pub open spec fn bare_thinking_of(s: StreamV) -> Option<Seq<char>> {
    if s.reasoning_details.len() == 0 && trimmed(s.plain_thinking).len() > 0 {
        Some(s.plain_thinking)
    } else {
        None
    }
}

/// The blocks of thinking of a stream, with the one that bare text becomes.
pub open spec fn blocks_of(s: StreamV) -> Seq<DetailV> {
    match bare_thinking_of(s) {
        Some(text) => s.reasoning_details.push(plain_block(text)),
        None => s.reasoning_details,
    }
}

/// A stream whose bare thinking became a block.
pub open spec fn folded(s: StreamV) -> StreamV {
    StreamV { reasoning_details: blocks_of(s), ..s }
}

/// What a stream comes to.
#[derive(Clone, Copy, PartialEq, Eq, Structural, Debug)]
pub enum StreamEnd {
    /// Ask again without streaming: nothing was shown.
    Retry,
    /// The stream dropped after something was shown.
    Dropped,
    /// The reply only repeats itself.
    Degenerate,
    /// The output budget went on thinking alone.
    ThinkingExhausted,
    /// The model only thought.
    Thought,
    /// There is a reply.
    Reply,
}

/// True when nothing of the reply has arrived but, perhaps, thinking.
pub open spec fn bare(s: StreamV) -> bool {
    s.content.len() == 0 && s.partials.len() == 0
}

/// What a stream comes to, given whether it broke off. It is only redone while
/// nothing was shown; a reply that is only thinking is not asked for again.
pub open spec fn stream_end(s: StreamV, failed: bool) -> StreamEnd {
    let thought = s.reasoning_details.len() > 0;
    if failed {
        if bare(s) && !thought {
            StreamEnd::Retry
        } else {
            StreamEnd::Dropped
        }
    } else if s.degenerate {
        StreamEnd::Degenerate
    } else if bare(s) && thought {
        if s.finish == Some("length"@) {
            StreamEnd::ThinkingExhausted
        } else {
            StreamEnd::Thought
        }
    } else if bare(s) {
        StreamEnd::Retry
    } else {
        StreamEnd::Reply
    }
}

fn show(list: &mut Vec<Shown>, s: Shown)
    ensures
        shown_view(final(list)@) == shown_view(old(list)@).push(
            match s {
                Shown::Reasoning(t) => (true, t@),
                Shown::Text(t) => (false, t@),
            },
        ),
{
    list.push(s);
    assert(shown_view(list@) =~= shown_view(old(list)@).push(
        match s {
            Shown::Reasoning(t) => (true, t@),
            Shown::Text(t) => (false, t@),
        },
    ));
}

impl ToolStream {
    /// Nothing has arrived.
    pub fn new() -> (r: ToolStream)
        ensures
            r@ == (StreamV {
                content: Seq::empty(),
                usage: None,
                partials: Seq::empty(),
                annotations: Seq::empty(),
                reasoning_details: Seq::empty(),
                plain_thinking: Seq::empty(),
                finish: None,
                degenerate: false,
            }),
            r.partials.wf(),
    {
        let r = ToolStream {
            content: String::new(),
            usage: None,
            partials: Partials::new(),
            annotations: Vec::new(),
            reasoning_details: Vec::new(),
            plain_thinking: String::new(),
            finish: None,
            degenerate: false,
        };
        assert(r@.content =~= Seq::empty());
        assert(r@.annotations =~= Seq::empty());
        assert(r@.reasoning_details =~= Seq::empty());
        assert(r@.plain_thinking =~= Seq::empty());
        r
    }

    /// Take one piece in. False when the stream is to be dropped.
    #[verifier::rlimit(30)]
    pub fn feed(&mut self, delta: StreamDelta) -> (r: (bool, Vec<Shown>))
        requires
            old(self).partials.wf(),
            delta.choice is Some && !stops(delta.choice.unwrap()@) ==> all_have_room(
                old(self)@.partials,
                delta.choice.unwrap()@.tool_calls,
            ),
        ensures
            final(self).partials.wf(),
            ({
                let counted = StreamV {
                    usage: match delta.usage {
                        Some(u) => Some(u),
                        None => old(self)@.usage,
                    },
                    ..old(self)@
                };
                match delta.choice {
                    Some(c) => final(self)@ == choice_taken(counted, c@) && r.0 == !stops(c@)
                        && shown_view(r.1@) == choice_shown(c@),
                    None => final(self)@ == counted && r.0 && shown_view(r.1@) == Seq::<
                        (bool, Seq<char>),
                    >::empty(),
                }
            }),
    {
        let mut out: Vec<Shown> = Vec::new();
        assert(shown_view(out@) =~= Seq::empty());
        match delta.usage {
            Some(u) => {
                self.usage = Some(u);
            },
            None => {},
        }
        let choice = match delta.choice {
            Some(c) => c,
            None => return (true, out),
        };
        let ghost start = self@;
        let ghost c = choice@;
        match choice.finish_reason {
            Some(f) => {
                self.finish = Some(f);
            },
            None => {},
        }
        if !choice.tagged.as_str().is_empty() {
            self.plain_thinking.push_str(choice.tagged.as_str());
            show(&mut out, Shown::Reasoning(choice.tagged));
        } else {
            assert(start.plain_thinking + c.tagged =~= start.plain_thinking);
        }
        if !choice.text.as_str().is_empty() {
            self.content.push_str(choice.text.as_str());
            if choice.repeats {
                self.degenerate = true;
                assert(self@ =~= choice_taken(start, c));
                return (false, out);
            }
            show(&mut out, Shown::Text(choice.text));
        } else {
            assert(start.content + c.text =~= start.content);
        }
        assert(self@ =~= texts_taken(start, c));
        if choice.annotations.len() > 0 {
            self.annotations = choice.annotations;
        }
        match choice.reasoning_content {
            Some(text) => {
                if !text.as_str().is_empty() {
                    self.plain_thinking.push_str(text.as_str());
                    show(&mut out, Shown::Reasoning(text));
                } else {
                    assert(self.plain_thinking@ + text@ =~= self.plain_thinking@);
                }
            },
            None => {},
        }
        let ghost had = start.reasoning_details;
        let ghost fresh = c.reasoning_details;
        let ghost before = shown_view(out@);
        let mut blocks = choice.reasoning_details;
        let ghost total = blocks@.len();
        let mut list: Vec<ReasoningDetail> = Vec::new();
        while blocks.len() > 0
            invariant
                blocks@.len() + list@.len() == total,
                fresh.len() == total,
                forall|k: int| 0 <= k < blocks@.len() ==> #[trigger] blocks@[k]@ == fresh[k],
                forall|k: int| 0 <= k < list@.len() ==> #[trigger] list@[k]@ == fresh[total - 1 - k],
            decreases blocks@.len(),
        {
            match blocks.pop() {
                Some(b) => {
                    list.push(b);
                },
                None => {},
            }
        }
        assert(before + details_shown(fresh, 0) =~= before);
        let ghost mut taken: nat = 0;
        while list.len() > 0
            invariant
                list@.len() + taken == total,
                fresh.len() == total,
                forall|k: int| 0 <= k < list@.len() ==> #[trigger] list@[k]@ == fresh[total - 1 - k],
                shown_view(out@) == before + details_shown(fresh, taken),
                details(self.reasoning_details@) == details_after(had, fresh, taken),
                self.partials.wf(),
                self@ == (StreamV {
                    reasoning_details: details_after(had, fresh, taken),
                    annotations: self@.annotations,
                    plain_thinking: self@.plain_thinking,
                    ..texts_taken(start, c)
                }),
                self@.annotations == choice_taken(start, c).annotations,
                self@.plain_thinking == choice_taken(start, c).plain_thinking,
            decreases list@.len(),
        {
            match list.pop() {
                Some(b) => {
                    assert(b@ == fresh[taken as int]);
                    match b.plain() {
                        Some(text) => {
                            show(&mut out, Shown::Reasoning(text));
                        },
                        None => {},
                    }
                    merge_reasoning(&mut self.reasoning_details, b);
                    proof {
                        taken = taken + 1;
                        assert(shown_view(out@) =~= before + details_shown(fresh, taken));
                    }
                },
                None => {},
            }
        }
        let ghost frags = c.tool_calls;
        let ghost mid = self@;
        let mut i: usize = 0;
        while i < choice.tool_calls.len()
            invariant
                i <= choice.tool_calls@.len(),
                frags == deltas(choice.tool_calls@),
                all_have_room(start.partials, frags),
                self.partials.wf(),
                self@ == (StreamV {
                    partials: partials_after(start.partials, frags, i as nat),
                    ..mid
                }),
            decreases choice.tool_calls.len() - i,
        {
            assert(choice.tool_calls@[i as int]@ == frags[i as int]);
            self.partials.merge_tool_call(&choice.tool_calls[i]);
            i += 1;
        }
        assert(self@ =~= choice_taken(start, c));
        (true, out)
    }

    /// Whether every fragment of a piece finds an index.
    pub fn has_room(&self, fragments: &Vec<ToolCallDelta>) -> (r: bool)
        requires
            self.partials.wf(),
        ensures
            r == all_have_room(self@.partials, deltas(fragments@)),
    {
        let ghost frags = deltas(fragments@);
        let ghost start = self.partials@;
        let mut scratch = self.partials.copy();
        let mut i: usize = 0;
        while i < fragments.len()
            invariant
                i <= fragments@.len(),
                frags == deltas(fragments@),
                scratch.wf(),
                scratch@ == partials_after(start, frags, i as nat),
                start == self@.partials,
                forall|k: int|
                    0 <= k < i ==> target_index(
                        partials_after(start, frags, k as nat),
                        #[trigger] frags[k],
                    ) <= usize::MAX,
            decreases fragments.len() - i,
        {
            assert(fragments@[i as int]@ == frags[i as int]);
            if !scratch.has_room(&fragments[i]) {
                assert(!(target_index(partials_after(start, frags, i as nat), frags[i as int])
                    <= usize::MAX));
                return false;
            }
            scratch.merge_tool_call(&fragments[i]);
            i += 1;
        }
        true
    }

    /// Take in what the tags held back at the end of the stream.
    pub fn end_tags(&mut self, rest: &str, tagged: &str) -> (r: Vec<Shown>)
        ensures
            final(self)@ == tail_taken(old(self)@, rest@, tagged@),
            old(self).partials.wf() ==> final(self).partials.wf(),
            shown_view(r@) == (if tagged@.len() > 0 {
                Seq::empty().push((true, tagged@))
            } else {
                Seq::empty()
            }) + (if rest@.len() > 0 {
                Seq::empty().push((false, rest@))
            } else {
                Seq::empty()
            }),
    {
        let ghost start = self@;
        let mut out: Vec<Shown> = Vec::new();
        assert(shown_view(out@) =~= Seq::empty());
        if !tagged.is_empty() {
            self.plain_thinking.push_str(tagged);
            show(&mut out, Shown::Reasoning(tagged.to_owned()));
        } else {
            assert(start.plain_thinking + tagged@ =~= start.plain_thinking);
        }
        if !rest.is_empty() {
            self.content.push_str(rest);
            show(&mut out, Shown::Text(rest.to_owned()));
        } else {
            assert(start.content + rest@ =~= start.content);
        }
        assert(self@ =~= tail_taken(start, rest@, tagged@));
        proof {
            let want = (if tagged@.len() > 0 {
                Seq::empty().push((true, tagged@))
            } else {
                Seq::empty()
            }) + (if rest@.len() > 0 {
                Seq::empty().push((false, rest@))
            } else {
                Seq::empty()
            });
            assert(shown_view(out@) =~= want);
        }
        out
    }

    /// The thinking that came as bare text, where no block of it did: it is to
    /// become a block.
    pub fn bare_thinking(&self) -> (r: Option<String>)
        ensures
            opt(r) == bare_thinking_of(self@),
    {
        if self.reasoning_details.len() == 0 && !is_blank(self.plain_thinking.as_str()) {
            Some(self.plain_thinking.clone())
        } else {
            None
        }
    }

    /// Make bare thinking a block.
    pub fn fold_thinking(&mut self)
        ensures
            final(self)@ == folded(old(self)@),
            old(self).partials.wf() ==> final(self).partials.wf(),
    {
        match self.bare_thinking() {
            Some(text) => {
                self.reasoning_details.push(ReasoningDetail::from_text(text));
                assert(details(self.reasoning_details@) =~= blocks_of(old(self)@));
            },
            None => {},
        }
        assert(self@ =~= folded(old(self)@));
    }

    /// What the stream comes to, given whether it broke off.
    pub fn end(&self, failed: bool) -> (r: StreamEnd)
        ensures
            r == stream_end(self@, failed),
    {
        let thought = self.reasoning_details.len() > 0;
        let bare = self.content.as_str().is_empty() && self.partials.is_empty();
        if failed {
            return if bare && !thought {
                StreamEnd::Retry
            } else {
                StreamEnd::Dropped
            };
        }
        if self.degenerate {
            return StreamEnd::Degenerate;
        }
        if bare && thought {
            let cut = match &self.finish {
                Some(f) => same(f.as_str(), "length"),
                None => false,
            };
            return if cut {
                StreamEnd::ThinkingExhausted
            } else {
                StreamEnd::Thought
            };
        }
        if bare {
            StreamEnd::Retry
        } else {
            StreamEnd::Reply
        }
    }
}

/// The text and the calls of a reply, given what its text holds inline: calls
/// that were written into the text count only where there are no others.
pub open spec fn with_inline(
    content: Seq<char>,
    own: Seq<CallV>,
    text: Seq<char>,
    inline: Seq<CallV>,
) -> (Seq<char>, Seq<CallV>) {
    if own.len() == 0 && inline.len() > 0 {
        (text, inline)
    } else {
        (content, own)
    }
}

/// The text and the calls of a reply, given what its text holds inline.
pub fn settle_inline(
    content: String,
    own: Vec<ToolCall>,
    text: String,
    inline: Vec<ToolCall>,
) -> (r: (String, Vec<ToolCall>))
    ensures
        (r.0@, calls(r.1@)) == with_inline(content@, calls(own@), text@, calls(inline@)),
{
    if own.len() == 0 && inline.len() > 0 {
        (text, inline)
    } else {
        (content, own)
    }
}

/// The reply that a stream amounts to, given what its text holds inline. It has
/// content just where there is any text; thinking stands in its blocks alone.
pub open spec fn reply_of(s: StreamV, text: Seq<char>, inline: Seq<CallV>) -> ReplyV {
    let (content, own) = with_inline(s.content, finished(s.partials), text, inline);
    let blocks = blocks_of(s);
    ReplyV {
        content: if content.len() == 0 {
            None
        } else {
            Some(content)
        },
        tool_calls: own,
        annotations: s.annotations,
        reasoning_details: details_wire(blocks),
        thoughts: thoughts_of(blocks, blocks.len()),
    }
}

/// The reply that a stream amounts to, given what its text holds inline.
pub fn reply(stream: ToolStream, text: String, inline: Vec<ToolCall>) -> (r: Reply)
    ensures
        ({
            let (c, t) = with_inline(
                stream@.content,
                finished(stream@.partials),
                text@,
                calls(inline@),
            );
            &&& r@.tool_calls == t
            &&& r@.content == if c.len() == 0 {
                None
            } else {
                Some(c)
            }
        }),
        r@ == reply_of(stream@, text@, calls(inline@)),
{
    let mut stream = stream;
    let ghost start = stream@;
    stream.fold_thinking();
    let own = stream.partials.finish();
    let reasoning_details = blocks_wire(&stream.reasoning_details);
    let thoughts = thoughts(&stream.reasoning_details);
    let (content, tool_calls) = settle_inline(stream.content, own, text, inline);
    let content = if content.as_str().is_empty() {
        None
    } else {
        Some(content)
    };
    let r = Reply {
        content,
        tool_calls,
        annotations: stream.annotations,
        reasoning_details,
        thoughts,
    };
    assert(r@ =~= reply_of(start, text@, calls(inline@)));
    r
}

/// How a streamed reply came out.
pub enum StreamResult {
    /// Ask again without streaming: nothing was shown.
    Retry,
    /// The stream dropped after something was shown.
    Dropped,
    /// The reply only repeats itself.
    Degenerate,
    /// The output budget went on thinking alone.
    ThinkingExhausted,
    /// There is a reply.
    Reply(Reply),
}

/// How a streamed reply came out, given whether the stream broke off, what its
/// text holds inline, and whether the text that is left only repeats itself.
pub fn finish_stream(
    stream: ToolStream,
    failed: bool,
    text: String,
    inline: Vec<ToolCall>,
    repeats: bool,
) -> (r: StreamResult)
    ensures
        match stream_end(folded(stream@), failed) {
            StreamEnd::Retry => r is Retry,
            StreamEnd::Dropped => r is Dropped,
            StreamEnd::Degenerate => r is Degenerate,
            StreamEnd::ThinkingExhausted => r is ThinkingExhausted,
            StreamEnd::Thought => r matches StreamResult::Reply(x) && x@ == reply_of(
                stream@,
                Seq::empty(),
                Seq::empty(),
            ),
            StreamEnd::Reply => if repeats {
                r is Degenerate
            } else {
                r matches StreamResult::Reply(x) && x@ == reply_of(
                    stream@,
                    text@,
                    calls(inline@),
                )
            },
        },
{
    let mut stream = stream;
    let ghost start = stream@;
    stream.fold_thinking();
    proof {
        lemma_folded_once(start);
    }
    match stream.end(failed) {
        StreamEnd::Retry => StreamResult::Retry,
        StreamEnd::Dropped => StreamResult::Dropped,
        StreamEnd::Degenerate => StreamResult::Degenerate,
        StreamEnd::ThinkingExhausted => StreamResult::ThinkingExhausted,
        StreamEnd::Thought => {
            let none: String = String::new();
            let no_calls: Vec<ToolCall> = Vec::new();
            assert(none@ =~= Seq::empty());
            assert(calls(no_calls@) =~= Seq::empty());
            StreamResult::Reply(reply(stream, none, no_calls))
        },
        StreamEnd::Reply => if repeats {
            StreamResult::Degenerate
        } else {
            StreamResult::Reply(reply(stream, text, inline))
        },
    }
}

/// Thinking becomes a block once.
proof fn lemma_folded_once(s: StreamV)
    ensures
        blocks_of(folded(s)) == blocks_of(s),
        forall|text: Seq<char>, inline: Seq<CallV>| #[trigger]
            reply_of(folded(s), text, inline) == reply_of(s, text, inline),
{
}

/// A reply has no content just where nothing but thinking and markup came, and
/// what was thought in the open is said in its blocks, not in its content.
pub proof fn thinking_is_no_content(s: StreamV)
    ensures
        reply_of(s, Seq::empty(), Seq::empty()).content is None <==> s.content.len() == 0,
        bare_thinking_of(s) is Some ==> reply_of(s, Seq::empty(), Seq::empty()).thoughts
            == Seq::empty().push(s.plain_thinking),
{
    if bare_thinking_of(s) is Some {
        let blocks = blocks_of(s);
        assert(blocks.len() == 1);
        assert(s.plain_thinking.len() > 0) by {
            if s.plain_thinking.len() == 0 {
                assert(s.plain_thinking =~= Seq::empty());
                assert(trimmed(s.plain_thinking).len() == 0);
            }
        }
        assert(thoughts_of(blocks, 0) =~= Seq::empty());
        reveal_with_fuel(thoughts_of, 2);
    }
}

/// The bytes of all arguments together.
pub open spec fn argument_bytes(v: Seq<CallV>) -> nat
    decreases v.len(),
{
    if v.len() == 0 {
        0
    } else {
        argument_bytes(v.drop_last()) + utf8_len(v.last().arguments)
    }
}

/// The size of a reply for the estimate of its tokens: its text and the
/// arguments of its calls.
pub fn completion_chars(content: &str, tool_calls: &Vec<ToolCall>) -> (r: usize)
    requires
        utf8_len(content@) + argument_bytes(calls(tool_calls@)) <= usize::MAX,
    ensures
        r == utf8_len(content@) + argument_bytes(calls(tool_calls@)),
{
    let ghost all = calls(tool_calls@);
    let mut n: usize = byte_len(content);
    let mut i: usize = 0;
    assert(argument_bytes(all.take(0)) == 0);
    while i < tool_calls.len()
        invariant
            i <= tool_calls@.len(),
            all == calls(tool_calls@),
            utf8_len(content@) + argument_bytes(all) <= usize::MAX,
            n == utf8_len(content@) + argument_bytes(all.take(i as int)),
        decreases tool_calls.len() - i,
    {
        proof {
            assert(all.take(i + 1).drop_last() =~= all.take(i as int));
            assert(all.take(i + 1).last() == all[i as int]);
            lemma_argument_bytes(all, i + 1);
        }
        n += byte_len(tool_calls[i].arguments.as_str());
        i += 1;
    }
    assert(all.take(all.len() as int) =~= all);
    n
}

proof fn lemma_argument_bytes(v: Seq<CallV>, n: int)
    requires
        0 <= n <= v.len(),
    ensures
        argument_bytes(v.take(n)) <= argument_bytes(v),
    decreases v.len() - n,
{
    if n < v.len() {
        lemma_argument_bytes(v.drop_last(), n);
        assert(v.drop_last().take(n) =~= v.take(n));
    } else {
        assert(v.take(n) =~= v);
    }
}

/// The reply of a stream that was dropped or that showed anything is never
/// asked for again.
pub proof fn nothing_shown_twice(s: StreamV, failed: bool)
    requires
        stream_end(s, failed) == StreamEnd::Retry,
    ensures
        s.content.len() == 0,
        s.partials.len() == 0,
        s.reasoning_details.len() == 0,
{
}

} // verus!
