//! What holds of every request, reply and picture.

use vstd::prelude::*;

use crate::client::config::{built, effort_known, missing_key_text, number_or, ClientEnv, Effort};
use crate::client::errors::{
    body_message, detail_of, error_text, status_label, transport_text, Transport,
};
use crate::client::images::{
    caption_request, captions_of, chat_described, chat_images, chat_urls, described, image_address,
    image_urls, images_among, images_in, is_image, part_urls, parts_described, parts_of,
};
use crate::client::models::{entry_for, images_declared, InfoV};
use crate::client::partials::finished;
use crate::client::passes::{reply_with, text_step, tool_step, PassStep, ToolStepV, WholeV};
use crate::client::reasoning::{
    detail_shown, detail_wire, grown, joins, reasoned, thoughts_of, with_text, DetailV,
};
use crate::client::request::{
    codex_headers, header_index, header_put, header_value, headers_over, reasoned_step, status_step,
    trailing, valid_headers, ReasonedStep, StatusStep,
};
use crate::client::sse::{complete_lines, line_end, partial_line, payload};
use crate::client::stream::{argument_bytes, blocks_of, reply_of, stream_end, StreamEnd, StreamV};
use crate::client::usage::{
    budget_for, spent_between, usage_after, Usage, UsageCounter, UsageSnapshot, MIN_OUTPUT_TOKENS,
    WINDOW_SLACK,
};
use crate::json::{
    found_after_push, lookup, nothing_in_nothing, put_keeps_others, put_then_lookup, JsonV,
};
use crate::message::{CallV, MessageV};
use crate::text::affix::{
    closes, holds, lemma_drop_back_prefix, lemma_holds_between, lemma_holds_wider, one_of, opens,
    trimmed,
};
use crate::text::number::{dec, dec_reads_back};
use crate::text::pieces::{joined, lemma_joined_holds};
use crate::text::utf8::utf8_len;

verus! {

proof fn lemma_keys()
    ensures
        "type"@ != "text"@,
        "type"@ != "image_url"@,
        "type"@ != "summary"@,
        "type"@ != "data"@,
        "type"@ != "signature"@,
        "type"@ != "id"@,
        "type"@ != "index"@,
        "text"@ != "summary"@,
        "text"@ != "data"@,
        "text"@ != "signature"@,
        "text"@ != "id"@,
        "text"@ != "index"@,
        "summary"@ != "data"@,
        "summary"@ != "signature"@,
        "summary"@ != "id"@,
        "summary"@ != "index"@,
        "data"@ != "signature"@,
        "data"@ != "id"@,
        "data"@ != "index"@,
        "signature"@ != "id"@,
        "signature"@ != "index"@,
        "id"@ != "index"@,
        "role"@ != "content"@,
{
    reveal_strlit("type");
    reveal_strlit("text");
    reveal_strlit("image_url");
    reveal_strlit("summary");
    reveal_strlit("data");
    reveal_strlit("signature");
    reveal_strlit("id");
    reveal_strlit("index");
    reveal_strlit("role");
    reveal_strlit("content");
    assert("type"@.len() == 4 && "text"@.len() == 4 && "data"@.len() == 4 && "role"@.len() == 4);
    assert("image_url"@.len() == 9 && "summary"@.len() == 7 && "signature"@.len() == 9);
    assert("id"@.len() == 2 && "index"@.len() == 5 && "content"@.len() == 7);
    assert("type"@[1] != "text"@[1]);
    assert("type"@[0] != "data"@[0]);
    assert("text"@[0] != "data"@[0]);
}

/// True when every picture among the parts has an address.
pub open spec fn all_addressed(parts: Seq<JsonV>) -> bool {
    forall|i: int|
        0 <= i < parts.len() && is_image(#[trigger] parts[i]) ==> image_address(parts[i]) is Some
}

proof fn lemma_part_urls(parts: Seq<JsonV>, n: nat)
    requires
        n <= parts.len(),
        all_addressed(parts),
    ensures
        part_urls(parts, n).len() == images_among(parts, n),
        forall|i: int|
            0 <= i < n && is_image(#[trigger] parts[i]) ==> images_among(parts, i as nat)
                < images_among(parts, n) && Some(
                part_urls(parts, n)[images_among(parts, i as nat) as int],
            ) == image_address(parts[i]),
    decreases n,
{
    if n > 0 {
        lemma_part_urls(parts, (n - 1) as nat);
        let most = part_urls(parts, (n - 1) as nat);
        let all = part_urls(parts, n);
        if is_image(parts[n - 1]) {
            assert(image_address(parts[n - 1]) is Some);
        }
        assert forall|i: int| 0 <= i < n && is_image(#[trigger] parts[i]) implies images_among(
            parts,
            i as nat,
        ) < images_among(parts, n) && Some(all[images_among(parts, i as nat) as int])
            == image_address(parts[i]) by {
            if i < n - 1 {
                assert(all[images_among(parts, i as nat) as int] == most[images_among(
                    parts,
                    i as nat,
                ) as int]);
            }
        }
    }
}

proof fn lemma_image_urls(messages: Seq<JsonV>, n: nat)
    requires
        n <= messages.len(),
        forall|m: int| 0 <= m < messages.len() ==> all_addressed(parts_of(#[trigger] messages[m])),
    ensures
        image_urls(messages, n).len() == images_in(messages, n),
        forall|m: int, i: int|
            0 <= m < n && 0 <= i < parts_of(messages[m]).len() && is_image(
                #[trigger] parts_of(messages[m])[i],
            ) ==> {
                let k = images_in(messages, m as nat) + images_among(
                    parts_of(messages[m]),
                    i as nat,
                );
                k < images_in(messages, n) && Some(image_urls(messages, n)[k as int])
                    == image_address(parts_of(messages[m])[i])
            },
    decreases n,
{
    if n > 0 {
        let before = image_urls(messages, (n - 1) as nat);
        let now = image_urls(messages, n);
        let parts = parts_of(messages[n - 1]);
        lemma_image_urls(messages, (n - 1) as nat);
        assert(all_addressed(parts));
        lemma_part_urls(parts, parts.len());
        assert forall|m: int, i: int|
            0 <= m < n && 0 <= i < parts_of(messages[m]).len() && is_image(
                #[trigger] parts_of(messages[m])[i],
            ) implies {
            let k = images_in(messages, m as nat) + images_among(parts_of(messages[m]), i as nat);
            k < images_in(messages, n) && Some(now[k as int]) == image_address(
                parts_of(messages[m])[i],
            )
        } by {
            let k = images_in(messages, m as nat) + images_among(parts_of(messages[m]), i as nat);
            if m < n - 1 {
                assert(now[k as int] == before[k as int]);
            } else {
                assert(now[k as int] == part_urls(parts, parts.len())[images_among(
                    parts,
                    i as nat,
                ) as int]);
            }
        }
    }
}

/// Pictures and descriptions line up: where the descriptions are those of the
/// addresses found, one for one, every picture is replaced by a text part with
/// the description of its own address. `k` is the place of both.
pub proof fn every_picture_gets_its_own_description(
    messages: Seq<JsonV>,
    list: Seq<Seq<char>>,
    m: int,
    i: int,
) -> (k: int)
    requires
        forall|j: int| 0 <= j < messages.len() ==> all_addressed(parts_of(#[trigger] messages[j])),
        list.len() == image_urls(messages, messages.len()).len(),
        0 <= m < messages.len(),
        0 <= i < parts_of(messages[m]).len(),
        is_image(parts_of(messages[m])[i]),
    ensures
        0 <= k < list.len(),
        Some(image_urls(messages, messages.len())[k]) == image_address(parts_of(messages[m])[i]),
        parts_of(described(messages, list)[m]).len() == parts_of(messages[m]).len(),
        parts_of(described(messages, list)[m])[i].text_at("type"@) == Some("text"@),
        parts_of(described(messages, list)[m])[i].text_at("text"@) == Some(list[k]),
{
    broadcast use {found_after_push, nothing_in_nothing};

    lemma_keys();
    lemma_image_urls(messages, messages.len());
    let parts = parts_of(messages[m]);
    let used = images_in(messages, m as nat);
    let k = (used + images_among(parts, i as nat)) as int;
    let now = described(messages, list)[m];
    match messages[m] {
        JsonV::Obj(v) => {
            put_then_lookup(v, "content"@, JsonV::Arr(parts_described(parts, list, used)));
        },
        _ => {},
    }
    assert(parts_of(now) == parts_described(parts, list, used));
    assert(parts[i] == parts_of(messages[m])[i]);
    k
}

/// Describing pictures leaves the rest of a message: every part that is no
/// picture, and every other member.
pub proof fn describing_leaves_the_rest(
    messages: Seq<JsonV>,
    list: Seq<Seq<char>>,
    m: int,
    key: Seq<char>,
)
    requires
        0 <= m < messages.len(),
        key != "content"@,
    ensures
        described(messages, list).len() == messages.len(),
        described(messages, list)[m].get(key) == messages[m].get(key),
        messages[m].elements_at("content"@) is None ==> described(messages, list)[m]
            == messages[m],
        forall|i: int|
            0 <= i < parts_of(messages[m]).len() && !is_image(parts_of(messages[m])[i])
                ==> #[trigger] parts_of(described(messages, list)[m])[i] == parts_of(
                messages[m],
            )[i],
{
    let parts = parts_of(messages[m]);
    let used = images_in(messages, m as nat);
    let now = JsonV::Arr(parts_described(parts, list, used));
    match messages[m] {
        JsonV::Obj(v) => {
            put_then_lookup(v, "content"@, now);
            put_keeps_others(v, "content"@, now, key);
        },
        _ => {},
    }
}

/// A chat message keeps its role when its pictures are described.
pub proof fn described_messages_keep_their_role(
    m: MessageV,
    list: Seq<Seq<char>>,
    used: nat,
    between: Seq<char>,
)
    ensures
        chat_described(m, list, used, between).role == m.role,
        m.content.elements() is None ==> chat_described(m, list, used, between) == m,
        m.content.elements() is Some ==> chat_described(m, list, used, between).content
            == JsonV::Str(chat_described(m, list, used, between).text),
{
}

/// There is a caption for every picture: those that were described have their
/// own description, the others the word for a picture left out.
pub proof fn every_picture_has_a_caption(
    done: Seq<Seq<char>>,
    total: int,
    omitted: Seq<char>,
    i: int,
)
    requires
        done.len() <= total,
        0 <= i < total,
    ensures
        captions_of(done, total, omitted).len() == total,
        i < done.len() ==> captions_of(done, total, omitted)[i] == "[image: "@ + done[i] + "]"@,
        i >= done.len() ==> captions_of(done, total, omitted)[i] == omitted,
{
}

/// The request for a description shows the picture itself.
pub proof fn a_description_is_asked_of_the_picture(url: Seq<char>)
    ensures
        caption_request(url).text_at("role"@) == Some("user"@),
        parts_of(caption_request(url)).len() == 2,
        is_image(parts_of(caption_request(url))[1]),
        image_address(parts_of(caption_request(url))[1]) == Some(url),
{
    broadcast use {found_after_push, nothing_in_nothing};

    lemma_keys();
}

/// A text reply goes on exactly while it was cut short, has said something and
/// has passes left; cut short with nothing said, all was thinking.
pub proof fn a_cut_reply_goes_on(content: Seq<char>, pass: int, finish: Option<Seq<char>>)
    ensures
        text_step(content, pass, finish) == PassStep::Again <==> finish == Some("length"@)
            && trimmed(content).len() > 0 && pass < 3,
        text_step(content, pass, finish) == PassStep::ThinkingExhausted <==> finish == Some(
            "length"@,
        ) && trimmed(content).len() == 0,
        text_step(content, pass, finish) != PassStep::Degenerate,
{
}

/// Over the passes of a reply nothing that was said is lost: what goes back to
/// the model, and the reply at the end, is what was said before and the new
/// text behind it. A reply with calls has those calls and its own text.
pub proof fn passes_lose_nothing(
    have: Seq<char>,
    pass: int,
    m: WholeV,
    finish: Option<Seq<char>>,
    text: Seq<char>,
    repeats: bool,
)
    ensures
        ({
            let said = if m.content is Some { m.content.unwrap() } else { Seq::empty() };
            match tool_step(have, pass, m, finish, text, Seq::empty(), repeats) {
                ToolStepV::Again(back) => {
                    &&& back.text_at("role"@) == Some("assistant"@)
                    &&& back.text_at("content"@) == Some(have + said)
                    &&& finish == Some("length"@) && m.tool_calls.len() == 0 && pass < 3
                },
                ToolStepV::Reply(r) => {
                    &&& r.tool_calls == m.tool_calls
                    &&& m.tool_calls.len() == 0 ==> r.content == Some(have + said)
                    &&& m.tool_calls.len() > 0 ==> r.content == m.content
                    &&& finish != Some("length"@) || m.tool_calls.len() > 0 ==> r.annotations
                        == m.annotations
                },
                ToolStepV::ThinkingExhausted => finish == Some("length"@) && have.len() == 0
                    && trimmed(said).len() == 0 && m.tool_calls.len() == 0,
                ToolStepV::Degenerate => repeats && m.tool_calls.len() == 0,
            }
        }),
{
    broadcast use {found_after_push, nothing_in_nothing};

    lemma_keys();
}

/// Calls written into the text count only where the reply has none of its own;
/// then they are the reply's, and its text is what is left.
pub proof fn calls_in_the_text_count(
    have: Seq<char>,
    pass: int,
    m: WholeV,
    finish: Option<Seq<char>>,
    text: Seq<char>,
    inline: Seq<CallV>,
    repeats: bool,
)
    requires
        m.tool_calls.len() == 0,
        m.content is Some,
        inline.len() > 0,
    ensures
        tool_step(have, pass, m, finish, text, inline, repeats) matches ToolStepV::Reply(r)
            && r.tool_calls == inline && (text.len() > 0 ==> r.content == Some(text)) && (
        text.len() == 0 ==> r.content is None),
{
}

/// The reply of a stream has the stream's text, its calls in order, its sources
/// and its thinking; calls in the text count only where it has no others.
pub proof fn a_stream_becomes_its_reply(s: StreamV, text: Seq<char>, inline: Seq<CallV>)
    ensures
        finished(s.partials).len() > 0 || inline.len() == 0 ==> {
            &&& reply_of(s, text, inline).tool_calls == finished(s.partials)
            &&& s.content.len() > 0 ==> reply_of(s, text, inline).content == Some(s.content)
            &&& s.content.len() == 0 ==> reply_of(s, text, inline).content is None
        },
        finished(s.partials).len() == 0 && inline.len() > 0 ==> {
            &&& reply_of(s, text, inline).tool_calls == inline
            &&& text.len() > 0 ==> reply_of(s, text, inline).content == Some(text)
        },
        reply_of(s, text, inline).annotations == s.annotations,
        reply_of(s, text, inline).reasoning_details.len() == blocks_of(s).len(),
        s.reasoning_details.len() > 0 ==> blocks_of(s) == s.reasoning_details,
        s.reasoning_details.len() == 0 && trimmed(s.plain_thinking).len() > 0 ==> blocks_of(s).len()
            == 1 && blocks_of(s)[0].text == Some(s.plain_thinking),
{
}

/// A stream that broke off is asked for again only while nothing of it was
/// shown. One that did not is a reply as soon as it has text or calls.
pub proof fn streams_end_by_what_they_brought(s: StreamV, failed: bool)
    ensures
        ({
            let nothing = s.content.len() == 0 && s.partials.len() == 0
                && s.reasoning_details.len() == 0;
            &&& failed ==> (stream_end(s, failed) == StreamEnd::Retry <==> nothing)
            &&& failed && !nothing ==> stream_end(s, failed) == StreamEnd::Dropped
            &&& !failed && s.degenerate ==> stream_end(s, failed) == StreamEnd::Degenerate
            &&& !failed && !s.degenerate ==> (stream_end(s, failed) == StreamEnd::Reply <==> (
            s.content.len() > 0 || s.partials.len() > 0))
            &&& !failed && !s.degenerate && nothing ==> stream_end(s, failed) == StreamEnd::Retry
            &&& stream_end(s, failed) == StreamEnd::ThinkingExhausted ==> s.finish == Some(
                "length"@,
            )
        }),
{
}

/// A fragment of thinking joins the block of its kind and index: its texts go
/// behind the block's own, and every other block stays. Without such a block it
/// becomes one, behind all others.
pub proof fn thinking_joins_its_block(v: Seq<DetailV>, f: DetailV)
    ensures
        !joins(v, f) ==> reasoned(v, f) == v.push(f),
        joins(v, f) ==> reasoned(v, f).len() == v.len() && exists|i: int|
            0 <= i < v.len() && v[i].kind == f.kind && v[i].index == f.index && reasoned(v, f)
                == #[trigger] v.update(i, grown(v[i], f)),
    decreases v.len(),
{
    if v.len() > 0 {
        let last = v.last();
        let head = v.drop_last();
        if last.kind == f.kind && last.index == f.index {
            assert(v[v.len() - 1] == last);
            assert(reasoned(v, f) =~= v.update(v.len() - 1, grown(last, f)));
        } else if joins(head, f) {
            thinking_joins_its_block(head, f);
            let i = choose|i: int|
                0 <= i < head.len() && head[i].kind == f.kind && head[i].index == f.index
                    && reasoned(head, f) == #[trigger] head.update(i, grown(head[i], f));
            assert(v[i] == head[i]);
            assert(reasoned(v, f) =~= v.update(i, grown(v[i], f)));
        } else {
            assert(!joins(v, f)) by {
                if joins(v, f) {
                    let i = choose|i: int|
                        0 <= i < v.len() && (#[trigger] v[i]).kind == f.kind && v[i].index
                            == f.index;
                    assert(i < v.len() - 1);
                    assert(head[i] == v[i]);
                }
            }
        }
    } else {
        assert(reasoned(v, f) =~= v.push(f));
    }
}

/// A block grows by the text of a fragment, takes over its signature and id, and
/// stays of its kind.
pub proof fn a_block_grows_by_its_fragment(slot: DetailV, f: DetailV)
    ensures
        grown(slot, f).kind == slot.kind,
        grown(slot, f).index == slot.index,
        slot.text is Some && f.text is Some ==> grown(slot, f).text == Some(
            slot.text.unwrap() + f.text.unwrap(),
        ),
        slot.text is None ==> grown(slot, f).text == f.text,
        f.text is None ==> grown(slot, f).text == slot.text,
        slot.summary is Some && f.summary is Some ==> grown(slot, f).summary == Some(
            slot.summary.unwrap() + f.summary.unwrap(),
        ),
        slot.summary is None ==> grown(slot, f).summary == f.summary,
        f.summary is None ==> grown(slot, f).summary == slot.summary,
        slot.data is Some && f.data is Some ==> grown(slot, f).data == Some(
            slot.data.unwrap() + f.data.unwrap(),
        ),
        slot.data is None ==> grown(slot, f).data == f.data,
        f.data is None ==> grown(slot, f).data == slot.data,
        f.signature is Some ==> grown(slot, f).signature == f.signature,
        f.signature is None ==> grown(slot, f).signature == slot.signature,
        f.id is Some ==> grown(slot, f).id == f.id,
        f.id is None ==> grown(slot, f).id == slot.id,
{
}

proof fn lemma_with_text(
    v: Seq<(Seq<char>, JsonV)>,
    key: Seq<char>,
    text: Option<Seq<char>>,
    q: Seq<char>,
)
    ensures
        lookup(with_text(v, key, text), q) == if lookup(v, q) is Some {
            lookup(v, q)
        } else if key == q && text is Some {
            Some(JsonV::Str(text.unwrap()))
        } else {
            None
        },
{
    match text {
        Some(t) => {
            found_after_push(v, (key, JsonV::Str(t)), q);
        },
        None => {},
    }
}

proof fn lemma_part(d: DetailV, q: Seq<char>)
    ensures
        detail_wire(d).get(q) == if q == "type"@ {
            Some(JsonV::Str(d.kind))
        } else if q == "text"@ && d.text is Some {
            Some(JsonV::Str(d.text.unwrap()))
        } else if q == "summary"@ && d.summary is Some {
            Some(JsonV::Str(d.summary.unwrap()))
        } else if q == "data"@ && d.data is Some {
            Some(JsonV::Str(d.data.unwrap()))
        } else if q == "signature"@ && d.signature is Some {
            Some(JsonV::Str(d.signature.unwrap()))
        } else if q == "id"@ && d.id is Some {
            Some(JsonV::Str(d.id.unwrap()))
        } else if q == "index"@ && d.index is Some {
            Some(JsonV::Number(d.index.unwrap()))
        } else {
            None
        },
{
    let kind = Seq::empty().push(("type"@, JsonV::Str(d.kind)));
    found_after_push(Seq::empty(), ("type"@, JsonV::Str(d.kind)), q);
    let a = with_text(kind, "text"@, d.text);
    lemma_with_text(kind, "text"@, d.text, q);
    let b = with_text(a, "summary"@, d.summary);
    lemma_with_text(a, "summary"@, d.summary, q);
    let c = with_text(b, "data"@, d.data);
    lemma_with_text(b, "data"@, d.data, q);
    let e = with_text(c, "signature"@, d.signature);
    lemma_with_text(c, "signature"@, d.signature, q);
    let f = with_text(e, "id"@, d.id);
    lemma_with_text(e, "id"@, d.id, q);
    match d.index {
        Some(n) => {
            found_after_push(f, ("index"@, JsonV::Number(n)), q);
        },
        None => {},
    }
}

/// A block of thinking goes on the wire with each of its parts under its key.
pub proof fn a_block_keeps_its_parts(d: DetailV)
    ensures
        detail_wire(d).text_at("type"@) == Some(d.kind),
        detail_wire(d).text_at("text"@) == d.text,
        detail_wire(d).text_at("summary"@) == d.summary,
        detail_wire(d).text_at("data"@) == d.data,
        detail_wire(d).text_at("signature"@) == d.signature,
        detail_wire(d).text_at("id"@) == d.id,
        detail_wire(d).unsigned_at("index"@) == d.index,
{
    lemma_keys();
    lemma_part(d, "type"@);
    lemma_part(d, "text"@);
    lemma_part(d, "summary"@);
    lemma_part(d, "data"@);
    lemma_part(d, "signature"@);
    lemma_part(d, "id"@);
    lemma_part(d, "index"@);
}

/// The readable thinking of blocks is theirs, in order, without the blocks that
/// have none to read.
pub proof fn readable_thinking_is_in_order(v: Seq<DetailV>, n: nat)
    requires
        n <= v.len(),
        forall|i: int| 0 <= i < n ==> detail_shown(#[trigger] v[i]) is Some,
    ensures
        thoughts_of(v, n).len() == n,
        forall|i: int| 0 <= i < n ==> Some(#[trigger] thoughts_of(v, n)[i]) == detail_shown(v[i]),
    decreases n,
{
    if n > 0 {
        readable_thinking_is_in_order(v, (n - 1) as nat);
        let most = thoughts_of(v, (n - 1) as nat);
        let all = thoughts_of(v, n);
        assert(detail_shown(v[n - 1]) is Some);
        assert forall|i: int| 0 <= i < n implies Some(#[trigger] all[i]) == detail_shown(v[i]) by {
            if i < n - 1 {
                assert(all[i] == most[i]);
            }
        }
    }
}

/// What is read of a block is its text, or its summary where it has no text.
pub proof fn text_is_read_before_a_summary(d: DetailV)
    ensures
        d.text is Some && d.text.unwrap().len() > 0 ==> detail_shown(d) == d.text,
        d.text is None && d.summary is Some && d.summary.unwrap().len() > 0 ==> detail_shown(d)
            == d.summary,
        d.text is None && d.summary is None ==> detail_shown(d) is None,
{
}

/// A reply with calls keeps what came with it.
pub proof fn a_reply_keeps_what_came_with_it(
    m: WholeV,
    content: Option<Seq<char>>,
    own: Seq<CallV>,
)
    ensures
        reply_with(m, content, own).content == content,
        reply_with(m, content, own).tool_calls == own,
        reply_with(m, content, own).annotations == m.annotations,
        m.reasoning_details.len() > 0 ==> reply_with(m, content, own).reasoning_details.len()
            == m.reasoning_details.len(),
{
}

/// An answer is read exactly when its status says success. A login is refreshed
/// once, and only for a refused one.
pub proof fn only_success_is_read(status: int, codex: bool, refreshed: bool)
    ensures
        status_step(status, codex, refreshed) == StatusStep::Read <==> 200 <= status < 300,
        status_step(status, codex, refreshed) == StatusStep::Refresh <==> codex && status == 401
            && !refreshed,
        status_step(status, codex, refreshed) == StatusStep::Expired <==> codex && status == 401
            && refreshed,
{
}

/// Thinking is dropped from the history only where it is there and was refused;
/// the effort is relaxed only where it was refused and can be.
pub proof fn only_what_was_refused_is_given_up(
    history_refused: bool,
    carries_thinking: bool,
    effort_refused: bool,
    can_relax: bool,
)
    ensures
        ({
            let step = reasoned_step(history_refused, carries_thinking, effort_refused, can_relax);
            &&& step == ReasonedStep::DropHistory <==> history_refused && carries_thinking
            &&& step == ReasonedStep::Relax <==> !(history_refused && carries_thinking)
                && effort_refused && can_relax
        }),
{
}

/// True when the headers have `value` under `name`, and nothing else there.
pub open spec fn sends(
    v: Seq<(Seq<char>, Seq<char>)>,
    name: Seq<char>,
    value: Seq<char>,
) -> bool {
    (exists|i: int| 0 <= i < v.len() && #[trigger] v[i] == (name, value)) && forall|i: int|
        0 <= i < v.len() && (#[trigger] v[i]).0 == name ==> v[i].1 == value
}

/// True when no two headers share a name.
pub open spec fn names_once(v: Seq<(Seq<char>, Seq<char>)>) -> bool {
    forall|i: int, j: int| 0 <= i < j < v.len() ==> (#[trigger] v[i]).0 != (#[trigger] v[j]).0
}

proof fn lemma_header_index(v: Seq<(Seq<char>, Seq<char>)>, name: Seq<char>)
    ensures
        header_index(v, name) <= v.len(),
        header_index(v, name) < v.len() ==> v[header_index(v, name) as int].0 == name,
        forall|i: int| 0 <= i < header_index(v, name) ==> (#[trigger] v[i]).0 != name,
    decreases v.len(),
{
    if v.len() > 0 && v[0].0 != name {
        let t = v.drop_first();
        lemma_header_index(t, name);
        assert forall|i: int| 0 <= i < header_index(v, name) implies (#[trigger] v[i]).0 != name by {
            if i > 0 {
                assert(t[i - 1] == v[i]);
            }
        }
    }
}

/// A header that is set is the one that is sent under its name, and every other
/// name keeps what it had.
pub proof fn a_header_is_set_once(
    v: Seq<(Seq<char>, Seq<char>)>,
    name: Seq<char>,
    value: Seq<char>,
)
    requires
        names_once(v),
    ensures
        names_once(header_put(v, name, value)),
        sends(header_put(v, name, value), name, value),
        forall|other: Seq<char>, x: Seq<char>|
            other != name && #[trigger] sends(v, other, x) ==> sends(
                header_put(v, name, value),
                other,
                x,
            ),
{
    lemma_header_index(v, name);
    let i = header_index(v, name) as int;
    let w = header_put(v, name, value);
    assert(w[i] == (name, value));
    assert forall|other: Seq<char>, x: Seq<char>|
        other != name && #[trigger] sends(v, other, x) implies sends(w, other, x) by {
        let j = choose|j: int| 0 <= j < v.len() && #[trigger] v[j] == (other, x);
        assert(w[j] == v[j]);
        assert forall|k: int| 0 <= k < w.len() && (#[trigger] w[k]).0 == other implies w[k].1
            == x by {
            if k != i {
                assert(w[k] == v[k]);
            }
        }
    }
}

proof fn lemma_headers_over_once(
    v: Seq<(Seq<char>, Seq<char>)>,
    more: Seq<(Seq<char>, Seq<char>)>,
)
    requires
        names_once(v),
    ensures
        names_once(headers_over(v, more)),
    decreases more.len(),
{
    if more.len() > 0 {
        lemma_headers_over_once(v, more.drop_last());
        a_header_is_set_once(headers_over(v, more.drop_last()), more.last().0, more.last().1);
    }
}

/// Every attribution is sent as it is, and it overrides what was set before;
/// what it does not name stays.
pub proof fn attributions_are_sent(
    v: Seq<(Seq<char>, Seq<char>)>,
    more: Seq<(Seq<char>, Seq<char>)>,
    i: int,
)
    requires
        names_once(v),
        names_once(more),
        0 <= i < more.len(),
    ensures
        sends(headers_over(v, more), more[i].0, more[i].1),
    decreases more.len(),
{
    let head = more.drop_last();
    let before = headers_over(v, head);
    lemma_headers_over_once(v, head);
    a_header_is_set_once(before, more.last().0, more.last().1);
    if i < more.len() - 1 {
        assert(names_once(head)) by {
            assert forall|a: int, b: int| 0 <= a < b < head.len() implies (#[trigger] head[a]).0
                != (#[trigger] head[b]).0 by {
                assert(head[a] == more[a] && head[b] == more[b]);
            }
        }
        attributions_are_sent(v, head, i);
        assert(head[i] == more[i]);
        assert(more[i].0 != more[more.len() - 1].0);
    }
}

/// A login is sent with the account it is for.
pub proof fn a_login_names_its_account(account: Option<Seq<char>>)
    ensures
        sends(codex_headers(account), "openai-beta"@, "responses=experimental"@),
        account matches Some(id) ==> sends(codex_headers(account), "chatgpt-account-id"@, id),
        account is None ==> codex_headers(account).len() == 1,
{
    let beta = Seq::empty().push(("openai-beta"@, "responses=experimental"@));
    assert(names_once(beta));
    assert(beta[0] == ("openai-beta"@, "responses=experimental"@));
    assert(sends(beta, "openai-beta"@, "responses=experimental"@));
    reveal_strlit("openai-beta");
    reveal_strlit("chatgpt-account-id");
    assert("openai-beta"@.len() == 11 && "chatgpt-account-id"@.len() == 18);
    match account {
        Some(id) => {
            a_header_is_set_once(beta, "chatgpt-account-id"@, id);
        },
        None => {},
    }
}

/// Only well-formed attributions are sent, each name once.
pub proof fn bad_headers_are_left_out(v: Seq<(Seq<char>, Seq<char>)>)
    ensures
        names_once(valid_headers(v)),
        forall|i: int|
            0 <= i < valid_headers(v).len() ==> header_value((#[trigger] valid_headers(v)[i]).1),
    decreases v.len(),
{
    if v.len() > 0 {
        bad_headers_are_left_out(v.drop_last());
        let before = valid_headers(v.drop_last());
        let name = crate::text::pieces::lowered(v.last().0);
        a_header_is_set_once(before, name, v.last().1);
        lemma_header_index(before, name);
        assert forall|i: int| 0 <= i < valid_headers(v).len() implies header_value(
            (#[trigger] valid_headers(v)[i]).1,
        ) by {
            if i < before.len() {
                assert(header_value(before[i].1));
            }
        }
    }
}

/// The end of a text that is kept is its last characters.
pub proof fn the_end_is_kept(s: Seq<char>, n: nat)
    ensures
        closes(s, trailing(s, n as int)),
        trailing(s, n as int).len() == if s.len() <= n { s.len() } else { n },
{
    let t = trailing(s, n as int);
    assert(s.skip(s.len() - t.len()) =~= t);
}

/// What a request cost is added to what was spent before, the count of requests
/// goes up by one, and what one round spent is what was counted between its
/// start and its end.
pub proof fn usage_adds_up(c: UsageCounter, u: Usage, prompt_chars: int, completion_chars: int)
    requires
        c.prompt_tokens + u.prompt_tokens <= u64::MAX,
        c.completion_tokens + u.completion_tokens <= u64::MAX,
        c.requests < u64::MAX,
    ensures
        ({
            let d = usage_after(c, Some(u), prompt_chars, completion_chars);
            &&& d.prompt_tokens == c.prompt_tokens + u.prompt_tokens
            &&& d.completion_tokens == c.completion_tokens + u.completion_tokens
            &&& d.requests == c.requests + 1
            &&& forall|a: UsageSnapshot, b: UsageSnapshot|
                #![trigger spent_between(a, b)]
                a.prompt_tokens == c.prompt_tokens && a.completion_tokens == c.completion_tokens
                    && b.prompt_tokens == d.prompt_tokens && b.completion_tokens
                    == d.completion_tokens && (u.prompt_tokens > 0 || u.completion_tokens > 0)
                    ==> spent_between(a, b) == Some(
                    crate::message::EventUsage {
                        prompt_tokens: u.prompt_tokens,
                        completion_tokens: u.completion_tokens,
                    },
                )
        }),
{
}

/// Where a provider counts nothing, four characters count as a token, rounded
/// up, on either side.
pub proof fn uncounted_requests_are_estimated(
    c: UsageCounter,
    prompt_chars: nat,
    completion_chars: nat,
    p: nat,
    q: nat,
)
    requires
        4 * p >= prompt_chars,
        4 * p < prompt_chars + 4,
        4 * q >= completion_chars,
        4 * q < completion_chars + 4,
        c.prompt_tokens + p <= u64::MAX,
        c.completion_tokens + q <= u64::MAX,
    ensures
        ({
            let d = usage_after(c, None, prompt_chars as int, completion_chars as int);
            d.prompt_tokens == c.prompt_tokens + p && d.completion_tokens == c.completion_tokens
                + q && d.estimated
        }),
{
}

/// A wanted budget that fits the window behind the prompt and the slack is left
/// as it is; without a known window it always is; without a wish there is none.
pub proof fn a_fitting_budget_stays(want: u32, window: u32, prompt_chars: nat)
    requires
        prompt_chars / 4 < 0x1_0000_0000,
    ensures
        want >= MIN_OUTPUT_TOKENS && want + prompt_chars / 4 + WINDOW_SLACK <= window ==> budget_for(
            Some(want),
            true,
            Some(window),
            prompt_chars as int,
        ) == Some(want),
        budget_for(Some(want), false, Some(window), prompt_chars as int) == Some(want),
        budget_for(Some(want), true, None, prompt_chars as int) == Some(want),
        budget_for(None, true, Some(window), prompt_chars as int) is None,
        budget_for(Some(want), true, Some(window), prompt_chars as int).unwrap()
            > MIN_OUTPUT_TOKENS ==> budget_for(
            Some(want),
            true,
            Some(window),
            prompt_chars as int,
        ).unwrap() + prompt_chars / 4 + WINDOW_SLACK <= window,
{
}

/// The lines read off a stream and the part that is left, put back together, are
/// the bytes that came; no line has a line break in it, nor has the rest.
pub open spec fn rebuilt(lines: Seq<Seq<u8>>, rest: Seq<u8>) -> Seq<u8>
    decreases lines.len(),
{
    if lines.len() == 0 {
        rest
    } else {
        lines[0] + seq![10u8] + rebuilt(lines.drop_first(), rest)
    }
}

proof fn lemma_line_end(b: Seq<u8>)
    ensures
        line_end(b) <= b.len(),
        line_end(b) < b.len() ==> b[line_end(b) as int] == 10u8,
        forall|i: int| 0 <= i < line_end(b) ==> #[trigger] b[i] != 10u8,
    decreases b.len(),
{
    if b.len() > 0 && b[0] != 10u8 {
        let t = b.drop_first();
        lemma_line_end(t);
        assert forall|i: int| 0 <= i < line_end(b) implies #[trigger] b[i] != 10u8 by {
            if i > 0 {
                assert(t[i - 1] == b[i]);
            }
        }
    }
}

/// No byte of a stream is lost between its lines: put back together, with a line
/// break behind each, they and the unfinished line are what came.
pub proof fn lines_rebuild_the_stream(b: Seq<u8>)
    ensures
        rebuilt(complete_lines(b), partial_line(b)) == b,
        !partial_line(b).contains(10u8),
        forall|i: int|
            0 <= i < complete_lines(b).len() ==> !(#[trigger] complete_lines(b)[i]).contains(10u8),
    decreases b.len(),
{
    lemma_line_end(b);
    let n = line_end(b) as int;
    if n < b.len() {
        let rest = b.skip(n + 1);
        lines_rebuild_the_stream(rest);
        let lines = complete_lines(b);
        assert(lines.drop_first() =~= complete_lines(rest));
        assert(lines[0] == b.take(n));
        assert(b =~= b.take(n) + seq![10u8] + rest);
        assert forall|i: int| 0 <= i < lines.len() implies !(#[trigger] lines[i]).contains(
            10u8,
        ) by {
            if i > 0 {
                assert(lines[i] == complete_lines(rest)[i - 1]);
            } else {
                assert forall|k: int| 0 <= k < n implies b.take(n)[k] != 10u8 by {
                    assert(b.take(n)[k] == b[k]);
                }
            }
        }
    }
}

/// A line has a payload only behind `data:`; the payload is what stands there,
/// without the blanks around it, and the mark of the end is none.
pub proof fn payloads_stand_behind_the_mark(line: Seq<char>)
    ensures
        payload(line) matches Some(p) ==> p.len() > 0 && p != "[DONE]"@ && opens(
            trimmed(line),
            "data:"@,
        ) && p == trimmed(trimmed(line).skip("data:"@.len() as int)),
        opens(trimmed(line), "data:"@) && trimmed(
            trimmed(line).skip("data:"@.len() as int),
        ).len() > 0 && trimmed(trimmed(line).skip("data:"@.len() as int)) != "[DONE]"@ ==> payload(
            line,
        ) is Some,
{
}

/// An error says what its status means, gives the status in numbers, and closes
/// with what the provider said.
pub proof fn an_error_tells_status_and_detail(status: nat, detail: Option<Seq<char>>)
    ensures
        opens(
            error_text(status as int, detail),
            status_label(status as int) + " ("@ + dec(status) + ")"@,
        ),
        detail matches Some(d) ==> closes(error_text(status as int, detail), d),
        detail is None ==> error_text(status as int, detail) == status_label(status as int) + " ("@
            + dec(status) + ")"@,
{
    let text = error_text(status as int, detail);
    let front = status_label(status as int) + " ("@ + dec(status) + ")"@;
    match detail {
        Some(d) => {
            reveal_strlit("): ");
            reveal_strlit(")");
            assert(text.take(front.len() as int) =~= front);
            assert(text.skip(text.len() - d.len()) =~= d);
        },
        None => {
            assert(text.take(front.len() as int) =~= front);
        },
    }
}

/// What a provider says is read from where it puts it: what the model's own host
/// said comes before the message of the error, and that before the rest. Where
/// nothing is found, the body itself is told.
pub proof fn the_provider_is_quoted(v: JsonV, error: JsonV, body: Seq<char>, m: Seq<char>)
    requires
        v.get("error"@) == Some(error),
        trimmed(m).len() > 0,
    ensures
        error.get("metadata"@) is None && error.text_at("message"@) == Some(m) ==> detail_of(
            Some(v),
            body,
        ) == Some(trimmed(m)),
        error.text() == Some(m) ==> detail_of(Some(v), body) == Some(trimmed(m)),
        error.get("metadata"@) is Some && error.get("metadata"@).unwrap().text_at("raw"@) == Some(m)
            ==> detail_of(Some(v), body) == Some(trimmed(m)),
        detail_of(None, m) == Some(trimmed(m)),
        body_message(v) is None ==> detail_of(Some(v), m) == Some(trimmed(m)),
{
}

/// The kinds of failure are told apart by the status.
pub proof fn statuses_are_told_apart(status: int)
    ensures
        status == 429 ==> status_label(status) == "rate limited"@,
        status == 401 || status == 403 ==> status_label(status)
            == "authentication failed (check your API key)"@,
        status == 404 ==> status_label(status) == "model or endpoint not found"@,
        500 <= status < 600 ==> status_label(status) == "provider error"@,
{
}

/// A failure of the network names the host that was asked.
pub proof fn network_failures_name_the_host(kind: Transport, host: Seq<char>)
    ensures
        transport_text(kind, Some(host)) matches Some(text) ==> holds(text, host),
        transport_text(kind, Some(host)) is None <==> kind == Transport::Other,
{
    lemma_holds_between(
        "The request to "@,
        host,
        " timed out. Check your internet connection and try again."@,
    );
    lemma_holds_between(
        "Couldn't reach "@,
        host,
        ". Check your internet connection and try again."@,
    );
}

/// A client is built for the endpoint, the key and the model it is given; the
/// effort set in the environment comes before the default, and it starts with
/// nothing spent.
pub proof fn a_client_is_built_as_told(
    base_url: Seq<char>,
    api_key: Seq<char>,
    model: Seq<char>,
    timeout_secs: u64,
    max_retries: u32,
    deadline_secs: u64,
    env: ClientEnv,
    default_effort: Effort,
)
    ensures
        ({
            let c = built(
                base_url,
                api_key,
                model,
                timeout_secs,
                max_retries,
                deadline_secs,
                env,
                default_effort,
            );
            &&& c.api_key == api_key
            &&& c.model == model
            &&& base_url.len() > 0 && base_url.last() != '/' ==> c.base_url == base_url
            &&& opens(base_url, c.base_url)
            &&& c.base_url.len() > 0 ==> c.base_url.last() != '/'
            &&& env.effort matches Some(e) ==> c.effort == e
            &&& env.effort is None ==> c.effort == default_effort
            &&& c.timeout_secs == timeout_secs && c.max_retries == max_retries && c.deadline_secs
                == deadline_secs
            &&& c.usage.prompt_tokens == 0 && c.usage.completion_tokens == 0 && c.usage.requests
                == 0 && !c.usage.estimated
        }),
{
    reveal_strlit("/");
    assert("/"@ =~= seq!['/']);
    assert("/"@[0] == '/');
    lemma_drop_back_prefix(base_url, one_of("/"@));
}

/// Where no key is found, every variable it is looked for under is named.
pub proof fn a_missing_key_is_asked_for(key_vars: Seq<Seq<char>>, i: int)
    requires
        0 <= i < key_vars.len(),
    ensures
        holds(missing_key_text(false, key_vars), key_vars[i]),
{
    let body = joined(key_vars, " or "@);
    lemma_joined_holds(key_vars, " or "@, i);
    assert("set "@ + body =~= "set "@ + body + Seq::empty());
    lemma_holds_wider("set "@, body, Seq::empty(), key_vars[i]);
}

/// What is learnt of one model's effort leaves every other model's, and every
/// other effort of that model.
pub proof fn efforts_are_learnt_apart(
    v: Seq<(Seq<char>, Effort, Option<Effort>)>,
    model: Seq<char>,
    asked: Effort,
    other: (Seq<char>, Effort, Option<Effort>),
)
    ensures
        other.0 != model || other.1 != asked ==> effort_known(v.push(other), model, asked)
            == effort_known(v, model, asked),
        effort_known(Seq::empty(), model, asked) == Some(asked),
{
    assert(v.push(other).drop_last() =~= v);
}

/// A number in the environment is taken as it is written, and anything else as
/// the default.
pub proof fn numbers_are_taken_as_written(n: u64, default: u64)
    ensures
        trimmed(dec(n as nat)) == dec(n as nat) ==> number_or(Some(dec(n as nat)), default) == n,
        number_or(None, default) == default,
{
    dec_reads_back(n as nat, u64::MAX as nat);
}

/// The model that is found is the first with that id.
pub proof fn a_model_is_found_by_its_id(v: Seq<InfoV>, id: Seq<char>, i: int)
    requires
        0 <= i <= v.len(),
        forall|k: int| 0 <= k < i ==> (#[trigger] v[k]).id != id,
        i < v.len() ==> v[i].id == id,
    ensures
        i < v.len() ==> entry_for(v, id) == Some(v[i]),
        i == v.len() ==> entry_for(v, id) is None,
    decreases i,
{
    if i > 0 {
        assert(v[0].id != id);
        let t = v.drop_first();
        assert forall|k: int| 0 <= k < i - 1 implies (#[trigger] t[k]).id != id by {
            assert(t[k] == v[k + 1]);
        }
        a_model_is_found_by_its_id(t, id, i - 1);
    }
}

/// Whether a model takes pictures is known only where its kinds of input are,
/// and then by whether pictures are among them.
pub proof fn pictures_are_declared(kinds: Seq<Seq<char>>)
    ensures
        images_declared(None) is None,
        kinds.len() == 0 ==> images_declared(Some(kinds)) is None,
        kinds.len() > 0 ==> images_declared(Some(kinds)) == Some(
            exists|i: int| 0 <= i < kinds.len() && #[trigger] kinds[i] == "image"@,
        ),
{
    if kinds.contains("image"@) {
        let i = choose|i: int| 0 <= i < kinds.len() && kinds[i] == "image"@;
        assert(kinds[i] == "image"@);
    }
}

/// A well-formed attribution that comes last is sent, under its name in small
/// letters; one that is not well-formed changes nothing.
pub proof fn good_headers_are_sent(
    v: Seq<(Seq<char>, Seq<char>)>,
    name: Seq<char>,
    value: Seq<char>,
)
    ensures
        crate::client::request::header_name(name) && header_value(value) ==> sends(
            valid_headers(v.push((name, value))),
            crate::text::pieces::lowered(name),
            value,
        ),
        !crate::client::request::header_name(name) || !header_value(value) ==> valid_headers(
            v.push((name, value)),
        ) == valid_headers(v),
        crate::client::request::header_name(name) ==> name.len() > 0 && !name.contains(' ')
            && !name.contains(':'),
{
    assert(v.push((name, value)).drop_last() =~= v);
    bad_headers_are_left_out(v);
    a_header_is_set_once(valid_headers(v), crate::text::pieces::lowered(name), value);
    if crate::client::request::header_name(name) {
        reveal_strlit("!#$%&'*+-.^_`|~");
        assert forall|i: int| 0 <= i < name.len() implies name[i] != ' ' && name[i] != ':' by {
            assert(crate::client::request::token_char(name[i]));
        }
    }
}

proof fn lemma_chat_urls(all: Seq<MessageV>, n: nat)
    requires
        n <= all.len(),
        forall|m: int|
            0 <= m < all.len() && (#[trigger] all[m]).content.elements() is Some ==> all_addressed(
                all[m].content.elements().unwrap(),
            ),
    ensures
        chat_urls(all, n).len() == chat_images(all, n),
        forall|m: int, i: int|
            0 <= m < n && all[m].content.elements() is Some && 0 <= i
                < all[m].content.elements().unwrap().len() && is_image(
                #[trigger] all[m].content.elements().unwrap()[i],
            ) ==> {
                let parts = all[m].content.elements().unwrap();
                let k = chat_images(all, m as nat) + images_among(parts, i as nat);
                k < chat_images(all, n) && Some(chat_urls(all, n)[k as int]) == image_address(
                    parts[i],
                )
            },
    decreases n,
{
    if n > 0 {
        lemma_chat_urls(all, (n - 1) as nat);
        let before = chat_urls(all, (n - 1) as nat);
        let now = chat_urls(all, n);
        let last = all[n - 1];
        match last.content.elements() {
            Some(parts) => {
                lemma_part_urls(parts, parts.len());
            },
            None => {},
        }
        assert forall|m: int, i: int|
            0 <= m < n && all[m].content.elements() is Some && 0 <= i
                < all[m].content.elements().unwrap().len() && is_image(
                #[trigger] all[m].content.elements().unwrap()[i],
            ) implies {
            let parts = all[m].content.elements().unwrap();
            let k = chat_images(all, m as nat) + images_among(parts, i as nat);
            k < chat_images(all, n) && Some(now[k as int]) == image_address(parts[i])
        } by {
            let parts = all[m].content.elements().unwrap();
            let k = chat_images(all, m as nat) + images_among(parts, i as nat);
            if m < n - 1 {
                assert(now[k as int] == before[k as int]);
            } else {
                assert(parts[i] == last.content.elements().unwrap()[i]);
                assert(now[k as int] == part_urls(parts, parts.len())[images_among(
                    parts,
                    i as nat,
                ) as int]);
            }
        }
    }
}

/// In a chat too pictures and descriptions line up: every picture gets the
/// description of its own address. `k` is the place of both.
pub proof fn chat_pictures_get_their_own_description(
    all: Seq<MessageV>,
    list: Seq<Seq<char>>,
    m: int,
    i: int,
    parts: Seq<JsonV>,
) -> (k: int)
    requires
        forall|j: int|
            0 <= j < all.len() && (#[trigger] all[j]).content.elements() is Some ==> all_addressed(
                all[j].content.elements().unwrap(),
            ),
        list.len() == chat_urls(all, all.len()).len(),
        0 <= m < all.len(),
        all[m].content.elements() == Some(parts),
        0 <= i < parts.len(),
        is_image(parts[i]),
    ensures
        0 <= k < list.len(),
        Some(chat_urls(all, all.len())[k]) == image_address(parts[i]),
        parts_described(parts, list, chat_images(all, m as nat))[i].text_at("text"@) == Some(
            list[k],
        ),
{
    broadcast use {found_after_push, nothing_in_nothing};

    lemma_keys();
    lemma_chat_urls(all, all.len());
    assert(is_image(all[m].content.elements().unwrap()[i]));
    (chat_images(all, m as nat) + images_among(parts, i as nat)) as int
}

/// The size of a reply counts the arguments of every call.
pub proof fn every_argument_is_counted(v: Seq<CallV>, c: CallV)
    ensures
        argument_bytes(v.push(c)) == argument_bytes(v) + utf8_len(c.arguments),
        argument_bytes(Seq::empty()) == 0,
{
    assert(v.push(c).drop_last() =~= v);
}

} // verus!
