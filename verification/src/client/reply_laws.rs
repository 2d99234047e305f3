//! What holds of every reply as it is put together, shown and read.

use vstd::prelude::*;

use crate::client::config::{max_tokens_of, seed_of, truthy, DEFAULT_MAX_TOKENS};
use crate::client::errors::{body_message, blames_images};
use crate::client::images::{
    all_described, asked_for, chat_described, descriptions, parts_described, text_pieces,
};
use crate::client::models::{bare_id, info_of, sorted_ids, InfoV, ModelEntry};
use crate::client::passes::{prose_step, text_end, PassStep, TextEnd};
use crate::client::reasoning::{detail_shown, DetailV};
use crate::client::request::assembles;
use crate::client::stream::{
    choice_shown, details_shown, folded, tail_taken, with_inline, ChoiceV, StreamV,
};
use crate::json::JsonV;
use crate::message::{tokens_in, CallV, MessageV};
use crate::text::affix::{holds, trimmed};
use crate::text::number::{dec, dec_reads_back};
use crate::text::order::{before, sorted_by_key, sorting_orders_and_keeps};
use crate::text::pieces::joined;

verus! {

proof fn lemma_details_shown(v: Seq<DetailV>, n: nat)
    requires
        n <= v.len(),
    ensures
        forall|i: int|
            0 <= i < details_shown(v, n).len() ==> (#[trigger] details_shown(v, n)[i]).0
                && details_shown(v, n)[i].1.len() > 0,
        (forall|k: int| 0 <= k < n ==> detail_shown(#[trigger] v[k]) is Some) ==> details_shown(
            v,
            n,
        ).len() == n && forall|k: int|
            0 <= k < n ==> Some((#[trigger] details_shown(v, n)[k]).1) == detail_shown(v[k]),
    decreases n,
{
    if n > 0 {
        lemma_details_shown(v, (n - 1) as nat);
        let most = details_shown(v, (n - 1) as nat);
        let all = details_shown(v, n);
        if forall|k: int| 0 <= k < n ==> detail_shown(#[trigger] v[k]) is Some {
            assert(detail_shown(v[n - 1]) is Some);
            assert forall|k: int| 0 <= k < n implies Some((#[trigger] all[k]).1) == detail_shown(
                v[k],
            ) by {
                if k < n - 1 {
                    assert(all[k] == most[k]);
                }
            }
        }
    }
}

/// Of a piece that does not stop the stream its text is shown as text, once, and
/// all its thinking as thinking: what was tagged, what came bare, and every
/// fragment, in this order. Nothing empty is shown.
pub proof fn a_piece_is_shown_whole(c: ChoiceV)
    requires
        !(c.text.len() > 0 && c.repeats),
        forall|k: int|
            0 <= k < c.reasoning_details.len() ==> detail_shown(
                #[trigger] c.reasoning_details[k],
            ) is Some,
    ensures
        ({
            let all = choice_shown(c);
            let tagged: int = if c.tagged.len() > 0 { 1 } else { 0 };
            let text: int = if c.text.len() > 0 { 1 } else { 0 };
            let bare: int = if c.reasoning_content is Some && c.reasoning_content.unwrap().len()
                > 0 { 1 } else { 0 };
            &&& all.len() == tagged + text + bare + c.reasoning_details.len()
            &&& tagged == 1 ==> all[0] == (true, c.tagged)
            &&& text == 1 ==> all[tagged] == (false, c.text)
            &&& bare == 1 ==> all[tagged + text] == (true, c.reasoning_content.unwrap())
            &&& forall|k: int|
                0 <= k < c.reasoning_details.len() ==> (#[trigger] all[tagged + text + bare + k]).0
                    && Some(all[tagged + text + bare + k].1) == detail_shown(
                    c.reasoning_details[k],
                )
        }),
{
    let v = c.reasoning_details;
    lemma_details_shown(v, v.len());
    let all = choice_shown(c);
    let tagged: int = if c.tagged.len() > 0 { 1 } else { 0 };
    let text: int = if c.text.len() > 0 { 1 } else { 0 };
    let bare: int = if c.reasoning_content is Some && c.reasoning_content.unwrap().len() > 0 {
        1
    } else {
        0
    };
    assert forall|k: int| 0 <= k < v.len() implies (#[trigger] all[tagged + text + bare + k]).0
        && Some(all[tagged + text + bare + k].1) == detail_shown(v[k]) by {
        assert(all[tagged + text + bare + k] == details_shown(v, v.len())[k]);
    }
}

/// Of a piece that stops the stream only the tagged thinking is shown.
pub proof fn a_repetition_is_not_shown(c: ChoiceV)
    requires
        c.text.len() > 0,
        c.repeats,
    ensures
        forall|i: int|
            0 <= i < choice_shown(c).len() ==> (#[trigger] choice_shown(c)[i]) == (true, c.tagged),
{
}

/// What the tags held back goes behind what came, text to text and thinking to
/// thinking; calls and sources stay.
pub proof fn what_was_held_back_comes_through(s: StreamV, rest: Seq<char>, tagged: Seq<char>)
    ensures
        tail_taken(s, rest, tagged).content == s.content + rest,
        tail_taken(s, rest, tagged).plain_thinking == s.plain_thinking + tagged,
        tail_taken(s, rest, tagged).partials == s.partials,
        tail_taken(s, rest, tagged).annotations == s.annotations,
        tail_taken(s, rest, tagged).reasoning_details == s.reasoning_details,
        tail_taken(s, rest, tagged).usage == s.usage,
{
}

/// Bare thinking becomes a block only where there is none yet; nothing else of
/// the stream changes.
pub proof fn bare_thinking_becomes_a_block(s: StreamV)
    ensures
        s.reasoning_details.len() > 0 || trimmed(s.plain_thinking).len() == 0 ==> folded(s) == s,
        s.reasoning_details.len() == 0 && trimmed(s.plain_thinking).len() > 0 ==> folded(
            s,
        ).reasoning_details.len() == 1 && folded(s).reasoning_details[0].text == Some(
            s.plain_thinking,
        ),
        folded(s).content == s.content && folded(s).partials == s.partials,
{
}

/// Calls written into the text are taken only where the reply has no others.
pub proof fn own_calls_come_first(
    content: Seq<char>,
    own: Seq<CallV>,
    text: Seq<char>,
    inline: Seq<CallV>,
)
    ensures
        own.len() > 0 || inline.len() == 0 ==> with_inline(content, own, text, inline) == (
            content,
            own,
        ),
        own.len() == 0 && inline.len() > 0 ==> with_inline(content, own, text, inline) == (
            text,
            inline,
        ),
{
}

/// Prose that was cut short goes on while passes are left; a runaway reply never
/// does.
pub proof fn cut_prose_goes_on(degenerate: bool, pass: int, finish: Option<Seq<char>>)
    ensures
        degenerate ==> prose_step(degenerate, pass, finish) == PassStep::Degenerate,
        !degenerate ==> (prose_step(degenerate, pass, finish) == PassStep::Again <==> finish
            == Some("length"@) && pass < 3),
        !degenerate && finish != Some("length"@) ==> prose_step(degenerate, pass, finish)
            == PassStep::Done,
{
}

/// A plain stream is a reply as soon as it has text; one that broke off is asked
/// for again only while nothing of it was shown.
pub proof fn plain_streams_end_by_what_they_brought(content: Seq<char>, thought: bool, failed: bool)
    ensures
        !failed ==> (text_end(content, thought, failed) == TextEnd::Reply <==> content.len() > 0),
        text_end(content, thought, failed) == TextEnd::Retry <==> content.len() == 0 && !thought,
        failed && (content.len() > 0 || thought) ==> text_end(content, thought, failed)
            == TextEnd::Dropped,
        !failed && content.len() == 0 && thought ==> text_end(content, thought, failed)
            == TextEnd::ThinkingExhausted,
{
}

/// The texts of a message with pictures, once these are described, are those of
/// its parts in order.
pub proof fn texts_are_read_in_order(parts: Seq<JsonV>, n: nat)
    requires
        n <= parts.len(),
        forall|i: int|
            0 <= i < n ==> (#[trigger] parts[i]).text_at("type"@) == Some("text"@)
                && parts[i].text_at("text"@) is Some,
    ensures
        text_pieces(parts, n).len() == n,
        forall|i: int|
            0 <= i < n ==> Some(#[trigger] text_pieces(parts, n)[i]) == parts[i].text_at("text"@),
    decreases n,
{
    if n > 0 {
        texts_are_read_in_order(parts, (n - 1) as nat);
        let most = text_pieces(parts, (n - 1) as nat);
        let all = text_pieces(parts, n);
        assert(parts[n - 1].text_at("text"@) is Some);
        assert forall|i: int| 0 <= i < n implies Some(#[trigger] all[i]) == parts[i].text_at(
            "text"@,
        ) by {
            if i < n - 1 {
                assert(all[i] == most[i]);
            }
        }
    }
}

/// A chat message with parts becomes one text: the texts of its parts, with the
/// mark between them, and a description in every picture's place.
pub proof fn a_chat_message_becomes_one_text(
    m: MessageV,
    parts: Seq<JsonV>,
    list: Seq<Seq<char>>,
    used: nat,
    between: Seq<char>,
)
    requires
        m.content.elements() == Some(parts),
    ensures
        ({
            let now = parts_described(parts, list, used);
            &&& now.len() == parts.len()
            &&& chat_described(m, list, used, between).text == joined(
                text_pieces(now, now.len()),
                between,
            )
        }),
{
}

/// Pictures count as described only where every one that was asked for is; each
/// description is then that of its own picture.
pub proof fn one_failure_fails_the_descriptions(
    results: Seq<Result<String, String>>,
    total: nat,
    i: int,
)
    requires
        0 <= i < asked_for(total),
        i < results.len(),
    ensures
        results[i] is Err ==> !all_described(results, asked_for(total)),
        results[i] matches Ok(text) ==> descriptions(results, asked_for(total))[i] == text@,
        asked_for(total) <= total,
        asked_for(total) <= 4,
        total <= 4 ==> asked_for(total) == total,
{
}

/// A seed in the environment is taken as it is written, a word lifts it, and
/// without any it is zero.
pub proof fn seeds_are_settled(n: u64)
    ensures
        dec(n as nat) != "none"@ && dec(n as nat) != "off"@ ==> seed_of(Some(dec(n as nat)))
            == Some(n),
        seed_of(None) == Some(0u64),
        seed_of(Some("none"@)) is None,
        seed_of(Some("off"@)) is None,
{
    dec_reads_back(n as nat, u64::MAX as nat);
}

/// A cap in the environment is taken as it is written, zero and a word lift it,
/// and without any it is the default.
pub proof fn caps_are_settled(n: u32)
    ensures
        dec(n as nat) != "0"@ && dec(n as nat) != "none"@ && dec(n as nat) != "off"@
            ==> max_tokens_of(Some(dec(n as nat))) == Some(n),
        max_tokens_of(None) == Some(DEFAULT_MAX_TOKENS),
        max_tokens_of(Some("0"@)) is None,
        max_tokens_of(Some("none"@)) is None,
        max_tokens_of(Some("off"@)) is None,
{
    dec_reads_back(n as nat, u32::MAX as nat);
}

/// A switch is on only for one of the words that say so.
pub proof fn switches_are_words(s: Seq<char>)
    ensures
        truthy(Some(s)) <==> (trimmed(s) == "1"@ || trimmed(s) == "true"@ || trimmed(s) == "yes"@
            || trimmed(s) == "on"@),
        !truthy(None),
{
}

/// A reply is put together from a stream only for a login, and only where the
/// request did not stream already.
pub proof fn only_logins_are_put_together(codex: bool, body: JsonV)
    ensures
        assembles(codex, body) <==> codex && body.boolean_at("stream"@) != Some(true),
{
}

/// A refusal is about pictures where it names them.
pub proof fn refusals_of_pictures_name_them(low: Seq<char>)
    ensures
        blames_images(low) <==> holds(low, "image"@) || holds(low, "vision"@) || holds(
            low,
            "multimodal"@,
        ),
{
}

/// Where an error says nothing itself, what stands beside it is read: a message,
/// then a detail, then the first of several errors.
pub proof fn other_messages_are_read(v: JsonV, m: Seq<char>)
    requires
        v.get("error"@) is None,
    ensures
        v.text_at("message"@) == Some(m) ==> body_message(v) == Some(m),
        v.text_at("message"@) is None && v.text_at("detail"@) == Some(m) ==> body_message(v)
            == Some(m),
        v.text_at("message"@) is None && v.get("detail"@) is None && v.elements_at("errors"@)
            is Some && v.elements_at("errors"@).unwrap().len() > 0 && v.elements_at(
            "errors"@,
        ).unwrap()[0].text_at("message"@) == Some(m) ==> body_message(v) == Some(m),
{
}

/// A model goes by its id, without the folder that some endpoints put before it.
pub proof fn a_model_goes_by_its_id(id: Seq<char>)
    ensures
        bare_id(id, false) == id,
        bare_id("models/"@ + id, true) == id,
{
    let full = "models/"@ + id;
    assert(full.take("models/"@.len() as int) =~= "models/"@);
    assert(full.skip("models/"@.len() as int) =~= id);
}

/// A listed model keeps its id and its window, and takes pictures where it says
/// so.
pub proof fn a_listed_model_is_taken_as_listed(e: ModelEntry)
    ensures
        info_of(e).id == e.id@,
        info_of(e).context_window == e.context_length,
        e.input_modalities is None ==> info_of(e).takes_images is None,
{
}

/// The ids of all models are listed, in order.
pub proof fn ids_are_listed_in_order(v: Seq<InfoV>)
    ensures
        sorted_ids(v).len() == v.len(),
        forall|i: int, j: int|
            0 <= i < j < sorted_ids(v).len() ==> !before(
                #[trigger] sorted_ids(v)[j],
                #[trigger] sorted_ids(v)[i],
            ),
        forall|k: int| 0 <= k < v.len() ==> sorted_ids(v).contains((#[trigger] v[k]).id),
{
    broadcast use vstd::seq_lib::group_to_multiset_ensures;

    let list = crate::client::models::ids(v);
    let s = sorted_by_key(list);
    sorting_orders_and_keeps(list);
    let all = sorted_ids(v);
    assert forall|i: int, j: int| 0 <= i < j < all.len() implies !before(
        #[trigger] all[j],
        #[trigger] all[i],
    ) by {
        assert(all[i] == s[i].0 && all[j] == s[j].0);
    }
    assert forall|k: int| 0 <= k < v.len() implies all.contains((#[trigger] v[k]).id) by {
        assert(list[k].0 == v[k].id);
        assert(list.to_multiset().count(list[k]) > 0);
        assert(s.to_multiset().count(list[k]) > 0);
        assert(s.contains(list[k]));
        let j = choose|j: int| 0 <= j < s.len() && s[j] == list[k];
        assert(all[j] == v[k].id);
    }
}

/// Four characters of thinking count as a token, and a part of four as one more.
pub proof fn thinking_is_counted_by_fours(chars: nat, n: nat)
    requires
        4 * n >= chars,
        4 * n < chars + 4,
    ensures
        tokens_in(chars as int) == n,
{
}

} // verus!
