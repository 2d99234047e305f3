//! Images in a request to a model that takes none: each is described in words.

use vstd::prelude::*;

use crate::json::{items, Fields, Json, JsonV};
use crate::message::{copy_messages, messages, plain_message, ChatMessage, MessageV};
use crate::text::affix::{is_blank, trimmed};
use crate::text::pieces::{join, joined};
use crate::text::{cat3, opt, same, texts};

verus! {

/// Images described per turn.
pub const MAX_CAPTIONS: usize = 4;

/// What a vision model is asked about an image.
pub const CAPTION_PROMPT: &'static str =
    "Describe this image in detail: what it shows, any visible text, numbers, or interface elements, and anything that looks like an error or problem.";

/// The model that describes images where nothing names one.
pub const DEFAULT_VISION_MODEL: &'static str = "openai/gpt-4o-mini";

/// True when a part of a message is an image.
pub open spec fn is_image(part: JsonV) -> bool {
    part.text_at("type"@) == Some("image_url"@)
}

fn image_part(part: &Json) -> (r: bool)
    ensures
        r == is_image(part@),
{
    match part.str_at("type") {
        Some(t) => same(t, "image_url"),
        None => false,
    }
}

/// The address of an image part.
pub open spec fn image_address(part: JsonV) -> Option<Seq<char>> {
    match part.get("image_url"@) {
        Some(u) => u.text_at("url"@),
        None => None,
    }
}

/// The addresses of the images among the first `n` parts.
pub open spec fn part_urls(parts: Seq<JsonV>, n: nat) -> Seq<Seq<char>>
    decreases n,
{
    if n == 0 || n > parts.len() {
        Seq::empty()
    } else {
        let head = part_urls(parts, (n - 1) as nat);
        match image_address(parts[n - 1]) {
            Some(url) => if is_image(parts[n - 1]) {
                head.push(url)
            } else {
                head
            },
            None => head,
        }
    }
}

/// The parts of a message whose content is a list.
pub open spec fn parts_of(m: JsonV) -> Seq<JsonV> {
    match m.elements_at("content"@) {
        Some(parts) => parts,
        None => Seq::empty(),
    }
}

/// The addresses of the images in the first `n` messages.
pub open spec fn image_urls(messages: Seq<JsonV>, n: nat) -> Seq<Seq<char>>
    decreases n,
{
    if n == 0 || n > messages.len() {
        Seq::empty()
    } else {
        image_urls(messages, (n - 1) as nat) + part_urls(
            parts_of(messages[n - 1]),
            parts_of(messages[n - 1]).len(),
        )
    }
}

fn push_urls(out: &mut Vec<String>, parts: &Vec<Json>)
    ensures
        texts(final(out)@) == texts(old(out)@) + part_urls(items(parts@), parts@.len()),
{
    let ghost all = items(parts@);
    let ghost start = texts(out@);
    let mut i: usize = 0;
    assert(start + part_urls(all, 0) =~= start);
    while i < parts.len()
        invariant
            i <= parts@.len(),
            all == items(parts@),
            texts(out@) == start + part_urls(all, i as nat),
        decreases parts.len() - i,
    {
        let ghost had = texts(out@);
        assert(all[i as int] == parts@[i as int]@);
        if image_part(&parts[i]) {
            match parts[i].get("image_url") {
                Some(u) => match u.str_at("url") {
                    Some(url) => {
                        let url = url.to_owned();
                        out.push(url);
                        assert(texts(out@) =~= had.push(url@));
                        assert(had.push(url@) =~= start + part_urls(all, (i + 1) as nat));
                    },
                    None => {},
                },
                None => {},
            }
        }
        i += 1;
    }
}

/// The addresses of the images in the messages, in order.
pub fn urls_in(messages: &Vec<Json>) -> (r: Vec<String>)
    ensures
        texts(r@) == image_urls(items(messages@), messages@.len()),
{
    let ghost all = items(messages@);
    let mut out: Vec<String> = Vec::new();
    let mut i: usize = 0;
    assert(texts(out@) =~= image_urls(all, 0));
    while i < messages.len()
        invariant
            i <= messages@.len(),
            all == items(messages@),
            texts(out@) == image_urls(all, i as nat),
        decreases messages.len() - i,
    {
        assert(all[i as int] == messages@[i as int]@);
        match messages[i].array_at("content") {
            Some(parts) => push_urls(&mut out, parts),
            None => {
                assert(part_urls(parts_of(all[i as int]), 0) =~= Seq::empty());
                assert(texts(out@) + Seq::<Seq<char>>::empty() =~= texts(out@));
            },
        }
        i += 1;
    }
    out
}

/// The description at a position; empty when there are not that many.
pub open spec fn description(texts: Seq<Seq<char>>, i: nat) -> Seq<char> {
    if i < texts.len() {
        texts[i as int]
    } else {
        Seq::empty()
    }
}

/// A text part.
pub open spec fn text_part(text: Seq<char>) -> JsonV {
    JsonV::Obj(
        Seq::empty().push(("type"@, JsonV::Str("text"@))).push(("text"@, JsonV::Str(text))),
    )
}

/// How many of the first `n` parts are images.
pub open spec fn images_among(parts: Seq<JsonV>, n: nat) -> nat
    decreases n,
{
    if n == 0 || n > parts.len() {
        0
    } else {
        images_among(parts, (n - 1) as nat) + if is_image(parts[n - 1]) {
            1nat
        } else {
            0nat
        }
    }
}

/// The parts with each image replaced by its description; `used` descriptions
/// went to earlier messages.
pub open spec fn parts_described(
    parts: Seq<JsonV>,
    texts: Seq<Seq<char>>,
    used: nat,
) -> Seq<JsonV> {
    Seq::new(
        parts.len(),
        |i: int|
            if is_image(parts[i]) {
                text_part(description(texts, used + images_among(parts, i as nat)))
            } else {
                parts[i]
            },
    )
}

/// How many images are in the first `n` messages.
pub open spec fn images_in(messages: Seq<JsonV>, n: nat) -> nat
    decreases n,
{
    if n == 0 || n > messages.len() {
        0
    } else {
        images_in(messages, (n - 1) as nat) + images_among(
            parts_of(messages[n - 1]),
            parts_of(messages[n - 1]).len(),
        )
    }
}

/// A message with its images replaced by their descriptions.
pub open spec fn message_described(m: JsonV, texts: Seq<Seq<char>>, used: nat) -> JsonV {
    match m.elements_at("content"@) {
        Some(parts) => m.with("content"@, JsonV::Arr(parts_described(parts, texts, used))),
        None => m,
    }
}

/// The messages with every image replaced by its description, in order.
pub open spec fn described(messages: Seq<JsonV>, texts: Seq<Seq<char>>) -> Seq<JsonV> {
    Seq::new(
        messages.len(),
        |i: int| message_described(messages[i], texts, images_in(messages, i as nat)),
    )
}

fn describe_parts(parts: &Vec<Json>, list: &Vec<String>, used: &mut usize) -> (r: Vec<Json>)
    requires
        old(used) <= list@.len(),
    ensures
        items(r@) == parts_described(items(parts@), texts(list@), *old(used) as nat),
        *final(used) <= list@.len(),
        *old(used) + images_among(items(parts@), parts@.len()) <= list@.len() ==> *final(used)
            == *old(used) + images_among(items(parts@), parts@.len()),
        *old(used) + images_among(items(parts@), parts@.len()) > list@.len() ==> *final(used)
            == list@.len(),
{
    let ghost all = items(parts@);
    let ghost start = *used as nat;
    let mut out: Vec<Json> = Vec::new();
    let mut i: usize = 0;
    while i < parts.len()
        invariant
            i <= parts@.len(),
            all == items(parts@),
            out@.len() == i,
            *used <= list@.len(),
            start + images_among(all, i as nat) <= list@.len() ==> *used == start + images_among(
                all,
                i as nat,
            ),
            start + images_among(all, i as nat) > list@.len() ==> *used == list@.len(),
            forall|k: int|
                0 <= k < i ==> #[trigger] out@[k]@ == parts_described(all, texts(list@), start)[k],
        decreases parts.len() - i,
    {
        assert(all[i as int] == parts@[i as int]@);
        if image_part(&parts[i]) {
            let text = if *used < list.len() {
                list[*used].clone()
            } else {
                String::new()
            };
            assert(text@ =~= description(texts(list@), start + images_among(all, i as nat)));
            out.push(Fields::new().text("type", "text").text("text", text.as_str()).json());
            if *used < list.len() {
                *used += 1;
            }
        } else {
            out.push(parts[i].copy());
        }
        i += 1;
    }
    assert(items(out@) =~= parts_described(all, texts(list@), start));
    out
}

/// The messages with every image replaced by its description, in order.
pub fn caption_values(messages: &Vec<Json>, list: &Vec<String>) -> (r: Vec<Json>)
    ensures
        items(r@) == described(items(messages@), texts(list@)),
{
    let ghost all = items(messages@);
    let mut used: usize = 0;
    let mut out: Vec<Json> = Vec::new();
    let mut i: usize = 0;
    while i < messages.len()
        invariant
            i <= messages@.len(),
            all == items(messages@),
            out@.len() == i,
            used <= list@.len(),
            images_in(all, i as nat) <= list@.len() ==> used == images_in(all, i as nat),
            images_in(all, i as nat) > list@.len() ==> used == list@.len(),
            forall|k: int| 0 <= k < i ==> #[trigger] out@[k]@ == described(all, texts(list@))[k],
        decreases messages.len() - i,
    {
        assert(all[i as int] == messages@[i as int]@);
        match messages[i].array_at("content") {
            Some(parts) => {
                let ghost before = used;
                let fresh = describe_parts(parts, list, &mut used);
                proof {
                    lemma_same_tail(
                        items(parts@),
                        texts(list@),
                        before as nat,
                        images_in(all, i as nat),
                    );
                }
                out.push(messages[i].copy().set("content", Json::array(fresh)));
            },
            None => {
                out.push(messages[i].copy());
            },
        }
        i += 1;
    }
    assert(items(out@) =~= described(all, texts(list@)));
    out
}

proof fn lemma_same_tail(parts: Seq<JsonV>, list: Seq<Seq<char>>, a: nat, b: nat)
    requires
        a == b || (a == list.len() && b > list.len()),
    ensures
        parts_described(parts, list, a) == parts_described(parts, list, b),
{
    assert(parts_described(parts, list, a) =~= parts_described(parts, list, b));
}

/// The texts that stand for `total` images: the descriptions, each in brackets,
/// and a mark for every image past them.
pub open spec fn captions_of(done: Seq<Seq<char>>, total: int, omitted: Seq<char>) -> Seq<
    Seq<char>,
> {
    Seq::new(
        if total > done.len() {
            total as nat
        } else {
            done.len()
        },
        |i: int|
            if i < done.len() {
                "[image: "@ + done[i] + "]"@
            } else {
                omitted
            },
    )
}

/// How many of `total` images are asked about.
pub fn described_count(total: usize) -> (r: usize)
    ensures
        r == asked_for(total as nat),
{
    if total <= MAX_CAPTIONS {
        total
    } else {
        MAX_CAPTIONS
    }
}

/// The texts that stand for the images, given the descriptions of the first
/// ones.
pub fn captions(done: &Vec<String>, total: usize, omitted: &str) -> (r: Vec<String>)
    requires
        done@.len() <= total,
    ensures
        texts(r@) == captions_of(texts(done@), total as int, omitted@),
{
    let mut out: Vec<String> = Vec::new();
    let mut i: usize = 0;
    while i < total
        invariant
            i <= total,
            out@.len() == i,
            forall|k: int|
                0 <= k < i ==> #[trigger] out@[k]@ == if k < done@.len() {
                    "[image: "@ + done@[k]@ + "]"@
                } else {
                    omitted@
                },
        decreases total - i,
    {
        if i < done.len() {
            out.push(cat3("[image: ", done[i].as_str(), "]"));
        } else {
            out.push(omitted.to_owned());
        }
        i += 1;
    }
    assert(texts(out@) =~= captions_of(texts(done@), total as int, omitted@));
    out
}

/// How many of `total` images are described.
pub open spec fn asked_for(total: nat) -> nat {
    if total <= MAX_CAPTIONS {
        total
    } else {
        MAX_CAPTIONS as nat
    }
}

/// True when the first `n` descriptions came back.
pub open spec fn all_described(results: Seq<Result<String, String>>, n: nat) -> bool {
    n <= results.len() && forall|i: int| 0 <= i < n ==> (#[trigger] results[i]) is Ok
}

/// The descriptions among the results.
pub open spec fn descriptions(results: Seq<Result<String, String>>, n: nat) -> Seq<Seq<char>> {
    Seq::new(n, |i: int| results[i]->Ok_0@)
}

/// The texts that stand for the images, given how describing the first ones
/// went; none when one of them was not described.
pub fn describe_all(
    urls: &Vec<String>,
    results: &Vec<Result<String, String>>,
    omitted: &str,
) -> (r: Option<Vec<String>>)
    ensures
        r is Some <==> all_described(results@, asked_for(urls@.len())),
        r matches Some(v) ==> v@.len() == urls@.len() && texts(v@) == captions_of(
            descriptions(results@, asked_for(urls@.len())),
            urls@.len() as int,
            omitted@,
        ),
{
    let n: usize = described_count(urls.len());
    let mut done: Vec<String> = Vec::new();
    let mut i: usize = 0;
    while i < n
        invariant
            i <= n,
            n == asked_for(urls@.len()),
            done@.len() == i,
            i <= results@.len(),
            forall|k: int| 0 <= k < i ==> (#[trigger] results@[k]) is Ok,
            forall|k: int| 0 <= k < i ==> #[trigger] done@[k]@ == results@[k]->Ok_0@,
        decreases n - i,
    {
        if i >= results.len() {
            return None;
        }
        match &results[i] {
            Ok(text) => {
                done.push(text.clone());
            },
            Err(_) => {
                assert(!(results@[i as int] is Ok));
                return None;
            },
        }
        i += 1;
    }
    assert(texts(done@) =~= descriptions(results@, n as nat));
    let out = captions(&done, urls.len(), omitted);
    assert(texts(out@).len() == out@.len());
    Some(out)
}

/// The texts of the first `n` parts that are text.
pub open spec fn text_pieces(parts: Seq<JsonV>, n: nat) -> Seq<Seq<char>>
    decreases n,
{
    if n == 0 || n > parts.len() {
        Seq::empty()
    } else {
        let head = text_pieces(parts, (n - 1) as nat);
        match parts[n - 1].text_at("text"@) {
            Some(t) => if parts[n - 1].text_at("type"@) == Some("text"@) {
                head.push(t)
            } else {
                head
            },
            None => head,
        }
    }
}

/// How many images are in the first `n` messages of a conversation.
pub open spec fn chat_images(all: Seq<MessageV>, n: nat) -> nat
    decreases n,
{
    if n == 0 || n > all.len() {
        0
    } else {
        chat_images(all, (n - 1) as nat) + match all[n - 1].content.elements() {
            Some(parts) => images_among(parts, parts.len()),
            None => 0,
        }
    }
}

/// A message with its images replaced by their descriptions. No image is left,
/// so it is plain text again: its texts, `between` between them.
pub open spec fn chat_described(
    m: MessageV,
    list: Seq<Seq<char>>,
    used: nat,
    between: Seq<char>,
) -> MessageV {
    match m.content.elements() {
        Some(parts) => {
            let now = parts_described(parts, list, used);
            plain_message(m.role, joined(text_pieces(now, now.len()), between))
        },
        None => m,
    }
}

/// The addresses of the images in the first `n` messages of a conversation.
pub open spec fn chat_urls(all: Seq<MessageV>, n: nat) -> Seq<Seq<char>>
    decreases n,
{
    if n == 0 || n > all.len() {
        Seq::empty()
    } else {
        chat_urls(all, (n - 1) as nat) + match all[n - 1].content.elements() {
            Some(parts) => part_urls(parts, parts.len()),
            None => Seq::empty(),
        }
    }
}

/// The addresses of the images in a conversation, in order.
pub fn urls_in_chat(all: &Vec<ChatMessage>) -> (r: Vec<String>)
    ensures
        texts(r@) == chat_urls(messages(all@), all@.len()),
{
    let ghost whole = messages(all@);
    let mut out: Vec<String> = Vec::new();
    let mut i: usize = 0;
    assert(texts(out@) =~= chat_urls(whole, 0));
    while i < all.len()
        invariant
            i <= all@.len(),
            whole == messages(all@),
            texts(out@) == chat_urls(whole, i as nat),
        decreases all.len() - i,
    {
        assert(whole[i as int] == all@[i as int]@);
        match all[i].content.as_array() {
            Some(parts) => push_urls(&mut out, parts),
            None => {
                assert(texts(out@) + Seq::<Seq<char>>::empty() =~= texts(out@));
            },
        }
        i += 1;
    }
    out
}

fn pieces(parts: &Vec<Json>) -> (r: Vec<String>)
    ensures
        texts(r@) == text_pieces(items(parts@), parts@.len()),
{
    let ghost all = items(parts@);
    let mut out: Vec<String> = Vec::new();
    let mut i: usize = 0;
    assert(texts(out@) =~= text_pieces(all, 0));
    while i < parts.len()
        invariant
            i <= parts@.len(),
            all == items(parts@),
            texts(out@) == text_pieces(all, i as nat),
        decreases parts.len() - i,
    {
        assert(all[i as int] == parts@[i as int]@);
        let ghost had = texts(out@);
        let is_text = match parts[i].str_at("type") {
            Some(t) => same(t, "text"),
            None => false,
        };
        match parts[i].str_at("text") {
            Some(t) => if is_text {
                let t = t.to_owned();
                out.push(t);
                assert(texts(out@) =~= had.push(t@));
            },
            None => {},
        }
        i += 1;
    }
    out
}

/// A conversation with every image replaced by its description, in order, and
/// every message that had parts plain text again. Where there are no
/// descriptions nothing changes.
pub fn caption_chat_messages(
    all: &Vec<ChatMessage>,
    list: &Option<Vec<String>>,
    between: &str,
) -> (r: Vec<ChatMessage>)
    ensures
        match list {
            Some(list) => messages(r@) == Seq::new(
                all@.len(),
                |i: int|
                    chat_described(
                        all@[i]@,
                        texts(list@),
                        chat_images(messages(all@), i as nat),
                        between@,
                    ),
            ),
            None => messages(r@) == messages(all@),
        },
{
    let list = match list {
        Some(list) => list,
        None => {
            assert(messages(all@).skip(0) =~= messages(all@));
            return copy_messages(all, 0);
        },
    };
    let ghost whole = messages(all@);
    let ghost given = texts(list@);
    let mut used: usize = 0;
    let mut out: Vec<ChatMessage> = Vec::new();
    let mut i: usize = 0;
    while i < all.len()
        invariant
            i <= all@.len(),
            whole == messages(all@),
            given == texts(list@),
            out@.len() == i,
            used <= list@.len(),
            chat_images(whole, i as nat) <= list@.len() ==> used == chat_images(whole, i as nat),
            chat_images(whole, i as nat) > list@.len() ==> used == list@.len(),
            forall|k: int|
                0 <= k < i ==> #[trigger] out@[k]@ == chat_described(
                    all@[k]@,
                    given,
                    chat_images(whole, k as nat),
                    between@,
                ),
        decreases all.len() - i,
    {
        assert(whole[i as int] == all@[i as int]@);
        match all[i].content.as_array() {
            Some(parts) => {
                let ghost before = used;
                let fresh = describe_parts(parts, list, &mut used);
                proof {
                    lemma_same_tail(
                        items(parts@),
                        given,
                        before as nat,
                        chat_images(whole, i as nat),
                    );
                    assert(items(fresh@).len() == fresh@.len());
                }
                let text = join(&pieces(&fresh), between);
                out.push(ChatMessage::plain(all[i].role.as_str(), text.as_str()));
            },
            None => {
                out.push(all[i].copy());
            },
        }
        i += 1;
    }
    assert(messages(out@) =~= Seq::new(
        all@.len(),
        |i: int| chat_described(all@[i]@, given, chat_images(whole, i as nat), between@),
    ));
    out
}

/// The model that describes images.
pub fn vision_model_name(configured: &Option<String>) -> (r: String)
    ensures
        r@ == match opt(*configured) {
            Some(m) => if trimmed(m).len() > 0 {
                m
            } else {
                DEFAULT_VISION_MODEL@
            },
            None => DEFAULT_VISION_MODEL@,
        },
{
    match configured {
        Some(m) => if !is_blank(m.as_str()) {
            return m.clone();
        },
        None => {},
    }
    DEFAULT_VISION_MODEL.to_owned()
}

/// After describing, no image is left in a message, and what was none is as it
/// was.
pub proof fn describing_leaves_no_image(parts: Seq<JsonV>, list: Seq<Seq<char>>, used: nat)
    ensures
        parts_described(parts, list, used).len() == parts.len(),
        forall|i: int|
            0 <= i < parts.len() ==> !is_image(#[trigger] parts_described(parts, list, used)[i]),
        forall|i: int|
            0 <= i < parts.len() && !is_image(parts[i]) ==> #[trigger] parts_described(
                parts,
                list,
                used,
            )[i] == parts[i],
{
    assert forall|i: int| 0 <= i < parts.len() implies !is_image(
        #[trigger] parts_described(parts, list, used)[i],
    ) by {
        if is_image(parts[i]) {
            let p = text_part(description(list, used + images_among(parts, i as nat)));
            let v = p->Obj_0;
            assert(v[0].0 == "type"@);
            assert(p.get("type"@) == Some(v[0].1));
            reveal_strlit("text");
            reveal_strlit("image_url");
            assert("text"@.len() != "image_url"@.len());
        }
    }
}

/// What a vision model is sent to describe an image.
pub open spec fn caption_request(url: Seq<char>) -> JsonV {
    crate::json::message(
        "user"@,
        JsonV::Arr(
            Seq::empty().push(text_part(CAPTION_PROMPT@)).push(
                JsonV::Obj(
                    Seq::empty().push(("type"@, JsonV::Str("image_url"@))).push(
                        (
                            "image_url"@,
                            JsonV::Obj(Seq::empty().push(("url"@, JsonV::Str(url)))),
                        ),
                    ),
                ),
            ),
        ),
    )
}

/// The message that a vision model is sent to describe an image.
pub fn describe_image(url: &str) -> (r: Json)
    ensures
        r@ == caption_request(url@),
{
    let mut parts: Vec<Json> = Vec::new();
    parts.push(Fields::new().text("type", "text").text("text", CAPTION_PROMPT).json());
    parts.push(
        Fields::new().text("type", "image_url").with(
            "image_url",
            Fields::new().text("url", url).json(),
        ).json(),
    );
    assert(items(parts@) =~= Seq::empty().push(text_part(CAPTION_PROMPT@)).push(
        JsonV::Obj(
            Seq::empty().push(("type"@, JsonV::Str("image_url"@))).push(
                ("image_url"@, JsonV::Obj(Seq::empty().push(("url"@, JsonV::Str(url@))))),
            ),
        ),
    ));
    crate::json::message_json("user", Json::array(parts))
}

} // verus!
