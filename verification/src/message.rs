//! Messages, tool calls and what a turn reports about them.

use vstd::prelude::*;

use crate::json::{items, message, message_json, Fields, Json, JsonV};
use crate::text::opt;

verus! {

/// One message of a conversation: who said it, the text it reads as, and the
/// content it goes on the wire with.
pub struct ChatMessage {
    pub role: String,
    pub text: String,
    pub content: Json,
}

/// The model of a chat message.
#[verifier::ext_equal]
pub struct MessageV {
    pub role: Seq<char>,
    pub text: Seq<char>,
    pub content: JsonV,
}

impl View for ChatMessage {
    type V = MessageV;

    open spec fn view(&self) -> MessageV {
        MessageV { role: self.role@, text: self.text@, content: self.content@ }
    }
}

/// A message whose content is its text.
pub open spec fn plain_message(role: Seq<char>, text: Seq<char>) -> MessageV {
    MessageV { role, text, content: JsonV::Str(text) }
}

/// The models of a list of messages.
pub open spec fn messages(v: Seq<ChatMessage>) -> Seq<MessageV> {
    Seq::new(v.len(), |i: int| v[i]@)
}

impl ChatMessage {
    /// A message whose content is its text.
    pub fn plain(role: &str, text: &str) -> (r: ChatMessage)
        ensures
            r@ == plain_message(role@, text@),
    {
        ChatMessage { role: role.to_owned(), text: text.to_owned(), content: Json::text(text) }
    }

    /// A message with the same contents.
    pub fn copy(&self) -> (r: ChatMessage)
        ensures
            r@ == self@,
    {
        ChatMessage {
            role: self.role.clone(),
            text: self.text.clone(),
            content: self.content.copy(),
        }
    }

    /// The message as it goes on the wire.
    pub fn wire(&self) -> (r: Json)
        ensures
            r@ == message(self.role@, self.content@),
    {
        message_json(self.role.as_str(), self.content.copy())
    }
}

/// A list of messages with the same contents as `v[from..]`.
pub fn copy_messages(v: &Vec<ChatMessage>, from: usize) -> (r: Vec<ChatMessage>)
    requires
        from <= v@.len(),
    ensures
        messages(r@) == messages(v@).skip(from as int),
{
    let mut out: Vec<ChatMessage> = Vec::new();
    let mut i: usize = from;
    while i < v.len()
        invariant
            from <= i <= v@.len(),
            out@.len() == i - from,
            forall|k: int| 0 <= k < i - from ==> #[trigger] out@[k]@ == v@[from + k]@,
        decreases v.len() - i,
    {
        out.push(v[i].copy());
        i += 1;
    }
    assert(messages(out@) =~= messages(v@).skip(from as int));
    out
}

/// A call of a tool that the model asked for.
pub struct ToolCall {
    pub id: String,
    pub name: String,
    pub arguments: String,
    pub extra_content: Option<Json>,
}

/// The model of a tool call.
#[verifier::ext_equal]
pub struct CallV {
    pub id: Seq<char>,
    pub name: Seq<char>,
    pub arguments: Seq<char>,
    pub extra_content: Option<JsonV>,
}

/// The model of an optional JSON value.
pub open spec fn opt_json(j: Option<Json>) -> Option<JsonV> {
    match j {
        Some(v) => Some(v@),
        None => None,
    }
}

impl View for ToolCall {
    type V = CallV;

    open spec fn view(&self) -> CallV {
        CallV {
            id: self.id@,
            name: self.name@,
            arguments: self.arguments@,
            extra_content: opt_json(self.extra_content),
        }
    }
}

/// The models of a list of tool calls.
pub open spec fn calls(v: Seq<ToolCall>) -> Seq<CallV> {
    Seq::new(v.len(), |i: int| v[i]@)
}

/// A tool call as it goes on the wire.
pub open spec fn call_wire(c: CallV) -> JsonV {
    let function = JsonV::Obj(
        Seq::empty().push(("name"@, JsonV::Str(c.name))).push(
            ("arguments"@, JsonV::Str(c.arguments)),
        ),
    );
    let base = Seq::empty().push(("id"@, JsonV::Str(c.id))).push(
        ("type"@, JsonV::Str("function"@)),
    ).push(("function"@, function));
    match c.extra_content {
        Some(extra) => JsonV::Obj(base.push(("extra_content"@, extra))),
        None => JsonV::Obj(base),
    }
}

/// A list of tool calls as it goes on the wire.
pub open spec fn calls_wire(v: Seq<CallV>) -> JsonV {
    JsonV::Arr(Seq::new(v.len(), |i: int| call_wire(v[i])))
}

/// A copy of an optional JSON value.
pub fn copy_opt_json(j: &Option<Json>) -> (r: Option<Json>)
    ensures
        opt_json(r) == opt_json(*j),
{
    match j {
        Some(v) => Some(v.copy()),
        None => None,
    }
}

impl ToolCall {
    /// A call with the same contents.
    pub fn copy(&self) -> (r: ToolCall)
        ensures
            r@ == self@,
    {
        ToolCall {
            id: self.id.clone(),
            name: self.name.clone(),
            arguments: self.arguments.clone(),
            extra_content: copy_opt_json(&self.extra_content),
        }
    }

    /// The call as it goes on the wire.
    pub fn wire(&self) -> (r: Json)
        ensures
            r@ == call_wire(self@),
    {
        let function = Fields::new().text("name", self.name.as_str()).text(
            "arguments",
            self.arguments.as_str(),
        ).json();
        let base = Fields::new().text("id", self.id.as_str()).text("type", "function").with(
            "function",
            function,
        );
        match &self.extra_content {
            Some(extra) => base.with("extra_content", extra.copy()).json(),
            None => base.json(),
        }
    }
}

/// A list of calls with the same contents.
pub fn copy_calls(v: &Vec<ToolCall>) -> (r: Vec<ToolCall>)
    ensures
        calls(r@) == calls(v@),
{
    let mut out: Vec<ToolCall> = Vec::new();
    let mut i: usize = 0;
    while i < v.len()
        invariant
            i <= v@.len(),
            out@.len() == i,
            forall|k: int| 0 <= k < i ==> #[trigger] out@[k]@ == v@[k]@,
        decreases v.len() - i,
    {
        out.push(v[i].copy());
        i += 1;
    }
    assert(calls(out@) =~= calls(v@));
    out
}

/// A list of calls as it goes on the wire.
pub fn calls_json(v: &Vec<ToolCall>) -> (r: Json)
    ensures
        r@ == calls_wire(calls(v@)),
{
    let mut out: Vec<Json> = Vec::new();
    let mut i: usize = 0;
    while i < v.len()
        invariant
            i <= v@.len(),
            out@.len() == i,
            forall|k: int| 0 <= k < i ==> #[trigger] out@[k]@ == call_wire(v@[k]@),
        decreases v.len() - i,
    {
        out.push(v[i].wire());
        i += 1;
    }
    assert(items(out@) =~= Seq::new(calls(v@).len(), |i: int| call_wire(calls(v@)[i])));
    Json::array(out)
}

/// A source that the reply cites.
pub struct Annotation {
    pub url: String,
    pub title: Option<String>,
}

/// The model of a cited source: its address and title.
pub open spec fn citations(v: Seq<Annotation>) -> Seq<(Seq<char>, Option<Seq<char>>)> {
    Seq::new(v.len(), |i: int| (v[i].url@, opt(v[i].title)))
}

/// A list of sources with the same contents.
pub fn copy_annotations(v: &Vec<Annotation>) -> (r: Vec<Annotation>)
    ensures
        citations(r@) == citations(v@),
{
    let mut out: Vec<Annotation> = Vec::new();
    let mut i: usize = 0;
    while i < v.len()
        invariant
            i <= v@.len(),
            out@.len() == i,
            forall|k: int|
                0 <= k < i ==> (#[trigger] out@[k]).url@ == v@[k].url@ && opt(out@[k].title) == opt(
                    v@[k].title,
                ),
        decreases v.len() - i,
    {
        out.push(Annotation { url: v[i].url.clone(), title: v[i].title.clone() });
        i += 1;
    }
    assert(citations(out@) =~= citations(v@));
    out
}

/// The event that lists the cited sources.
pub open spec fn citations_event(v: Seq<(Seq<char>, Option<Seq<char>>)>) -> JsonV {
    JsonV::Obj(
        Seq::empty().push(("type"@, JsonV::Str("citations"@))).push(
            ("sources"@, JsonV::Arr(Seq::new(v.len(), |i: int| source(v[i])))),
        ),
    )
}

/// One cited source in the event.
pub open spec fn source(c: (Seq<char>, Option<Seq<char>>)) -> JsonV {
    JsonV::Obj(
        Seq::empty().push(("url"@, JsonV::Str(c.0))).push(
            ("title"@, crate::json::opt_value(c.1)),
        ),
    )
}

/// The event that lists the cited sources.
pub fn emit_citations(v: &Vec<Annotation>) -> (r: Json)
    ensures
        r@ == citations_event(citations(v@)),
{
    let mut out: Vec<Json> = Vec::new();
    let mut i: usize = 0;
    while i < v.len()
        invariant
            i <= v@.len(),
            out@.len() == i,
            forall|k: int| 0 <= k < i ==> #[trigger] out@[k]@ == source(citations(v@)[k]),
        decreases v.len() - i,
    {
        out.push(
            Fields::new().text("url", v[i].url.as_str()).with(
                "title",
                Json::opt_text(&v[i].title),
            ).json(),
        );
        i += 1;
    }
    assert(items(out@) =~= Seq::new(
        citations(v@).len(),
        |i: int| source(citations(v@)[i]),
    ));
    Fields::new().text("type", "citations").with("sources", Json::array(out)).json()
}

/// Tokens that one round spent.
#[derive(Clone, Copy, PartialEq, Eq, Structural, Debug)]
pub struct EventUsage {
    pub prompt_tokens: u64,
    pub completion_tokens: u64,
}

/// The thinking kept with a reply.
pub struct ReasoningRecord {
    pub text: String,
    pub tokens: Option<u64>,
    pub duration_ms: Option<u64>,
}

/// The model of the thinking kept with a reply.
#[verifier::ext_equal]
pub struct ThoughtV {
    pub text: Seq<char>,
    pub tokens: Option<u64>,
    pub duration_ms: Option<u64>,
}

/// The model of optional thinking.
pub open spec fn thought(r: Option<ReasoningRecord>) -> Option<ThoughtV> {
    match r {
        Some(t) => Some(
            ThoughtV { text: t.text@, tokens: t.tokens, duration_ms: t.duration_ms },
        ),
        None => None,
    }
}

/// A reply as it is kept in the transcript.
pub struct AssistantRecord {
    pub content: Option<String>,
    pub tool_calls: Vec<ToolCall>,
    pub annotations: Vec<Annotation>,
    pub reasoning: Option<ReasoningRecord>,
    pub usage: Option<EventUsage>,
}

/// The model of a kept reply.
#[verifier::ext_equal]
pub struct AssistantV {
    pub content: Option<Seq<char>>,
    pub tool_calls: Seq<CallV>,
    pub annotations: Seq<(Seq<char>, Option<Seq<char>>)>,
    pub reasoning: Option<ThoughtV>,
    pub usage: Option<EventUsage>,
}

impl View for AssistantRecord {
    type V = AssistantV;

    open spec fn view(&self) -> AssistantV {
        AssistantV {
            content: opt(self.content),
            tool_calls: calls(self.tool_calls@),
            annotations: citations(self.annotations@),
            reasoning: thought(self.reasoning),
            usage: self.usage,
        }
    }
}

/// Something a turn does outside itself: show an event, or keep a line of the
/// transcript.
pub enum Effect {
    Emit(Json),
    System(String),
    User(String),
    Assistant(AssistantRecord),
    Tool(String, String),
}

/// The model of an effect.
#[verifier::ext_equal]
pub enum EffectV {
    Emit(JsonV),
    System(Seq<char>),
    User(Seq<char>),
    Assistant(AssistantV),
    Tool(Seq<char>, Seq<char>),
}

impl View for Effect {
    type V = EffectV;

    open spec fn view(&self) -> EffectV {
        match self {
            Effect::Emit(j) => EffectV::Emit(j@),
            Effect::System(s) => EffectV::System(s@),
            Effect::User(s) => EffectV::User(s@),
            Effect::Assistant(a) => EffectV::Assistant(a@),
            Effect::Tool(id, s) => EffectV::Tool(id@, s@),
        }
    }
}

/// The models of a list of effects.
pub open spec fn effects(v: Seq<Effect>) -> Seq<EffectV> {
    Seq::new(v.len(), |i: int| v[i]@)
}

/// One more effect at the end.
pub fn add_effect(list: &mut Vec<Effect>, e: Effect)
    ensures
        effects(final(list)@) == effects(old(list)@).push(e@),
{
    list.push(e);
    assert(effects(list@) =~= effects(old(list)@).push(e@));
}

/// No effects.
pub fn no_effects() -> (r: Vec<Effect>)
    ensures
        effects(r@) == Seq::<EffectV>::empty(),
{
    let r: Vec<Effect> = Vec::new();
    assert(effects(r@) =~= Seq::<EffectV>::empty());
    r
}

/// The estimated number of tokens in a run of characters: four to a token,
/// rounded up.
pub open spec fn tokens_in(chars: int) -> int {
    (chars + 3) / 4
}

/// The estimated number of tokens in a run of characters.
pub fn estimate_reasoning_tokens(chars: usize) -> (r: u64)
    ensures
        r == tokens_in(chars as int),
{
    let n: u64 = chars as u64;
    if n % 4 == 0 { n / 4 } else { n / 4 + 1 }
}

} // verus!
