//! The loop advisor: when it is asked, and what it is shown.

use vstd::prelude::*;

use crate::json::{items, Json, JsonV};
use crate::json_text::{canonical, canonical_json};
use crate::settings::Experimental;
use crate::text::affix::{opens, trim, trimmed};
use crate::text::pieces::{join, joined};
use crate::text::{cat3, opt, same, texts};
use crate::turn::Advice;

verus! {

/// The most messages the advisor is shown.
pub const MAX_ENTRIES: usize = 6;

/// The most columns of one message that it is shown.
pub const MAX_ENTRY_CHARS: usize = 512;

/// A text cut to a number of columns, with a tail where something is missing.
pub uninterp spec fn clipped(s: Seq<char>, width: usize, tail: Seq<char>) -> Seq<char>;

/// True for text of the visible ASCII characters and the space: each is one
/// column wide.
pub open spec fn is_plain(s: Seq<char>) -> bool {
    forall|i: int| 0 <= i < s.len() ==> ' ' <= #[trigger] s[i] <= '~'
}

/// Plain text cut to a number of columns, the last of them an ellipsis where
/// something is missing.
pub open spec fn plain_cut(s: Seq<char>, width: int) -> Seq<char> {
    if s.len() < width {
        s
    } else {
        s.take(width - 1) + "…"@
    }
}

/// `console::truncate_str`: the text where it fits, else as much of it as fits
/// in the columns together with the tail, which then follows it. The result
/// depends on the arguments alone. Plain text that leaves room for the tail comes
/// back as it is, and plain text that is cut is a part of its front, no wider than
/// the columns, before the tail. An ellipsis is one column wide, so plain text
/// narrower than the columns stands before it whole, and any other is cut to one
/// column less than there are. A tail wider than the columns is left out: no
/// character is wider than four columns.
#[verifier::external_body]
fn clip(s: &str, width: usize, tail: &str) -> (r: String)
    requires
        4 * tail@.len() <= width,
    ensures
        r@ == clipped(s@, width, tail@),
        is_plain(s@) && s@.len() + 4 * tail@.len() <= width ==> r@ == s@,
        is_plain(s@) ==> r@ == s@ || exists|n: int|
            0 <= n <= s@.len() && n <= width && r@ == #[trigger] s@.take(n) + tail@,
        is_plain(s@) && tail@ == "…"@ ==> r@ == plain_cut(s@, width as int),
{
    console::truncate_str(s, width, tail).to_string()
}

/// True when a variable is set to a word for yes, with nothing around it.
pub open spec fn is_on(v: Option<Seq<char>>) -> bool {
    match v {
        Some(s) => s == "1"@ || s == "true"@ || s == "yes"@ || s == "on"@,
        None => false,
    }
}

/// Whether a variable is set to a word for yes.
pub fn env_on(v: &Option<String>) -> (r: bool)
    ensures
        r == is_on(opt(*v)),
{
    match v {
        Some(s) => {
            let s = s.as_str();
            same(s, "1") || same(s, "true") || same(s, "yes") || same(s, "on")
        },
        None => false,
    }
}

/// The key of the advisor, where it is switched on and has one.
pub open spec fn advisor_key(
    switch: Option<Seq<char>>,
    configured: Option<bool>,
    key: Option<Seq<char>>,
) -> Option<Seq<char>> {
    if is_on(switch) || configured == Some(true) {
        match key {
            Some(k) => if trimmed(k).len() > 0 {
                Some(trimmed(k))
            } else {
                None
            },
            None => None,
        }
    } else {
        None
    }
}

/// The key of the advisor, where it is switched on and has one.
pub fn resolve(
    switch: &Option<String>,
    experimental: &Experimental,
    key: &Option<String>,
) -> (r: Option<String>)
    ensures
        opt(r) == advisor_key(opt(*switch), experimental.jev, opt(*key)),
{
    let configured = match experimental.jev {
        Some(b) => b,
        None => false,
    };
    if !(env_on(switch) || configured) {
        return None;
    }
    match key {
        Some(k) => {
            let t = trim(k.as_str());
            if t.as_str().is_empty() {
                None
            } else {
                Some(t)
            }
        },
        None => None,
    }
}

/// Whether the advisor is asked before a round: not before the first, where
/// there is nothing to judge but the prompt.
pub fn asks_before(has_client: bool, round: usize) -> (r: bool)
    ensures
        r == (has_client && round > 0),
{
    has_client && round > 0
}

/// The text of a message's content: a string as it is, anything else as JSON.
pub open spec fn content_text(m: JsonV) -> Seq<char> {
    match m.get("content"@) {
        Some(c) => match c.text() {
            Some(t) => t,
            None => canonical(c),
        },
        None => Seq::empty(),
    }
}

/// How a message is shown, if it has a role.
pub open spec fn entry_of(m: JsonV) -> Option<Seq<char>> {
    match m.text_at("role"@) {
        Some(role) => Some(
            role + ": "@ + clipped(trimmed(content_text(m)), MAX_ENTRY_CHARS, "…"@),
        ),
        None => None,
    }
}

/// How a list of messages is shown.
pub open spec fn entries_of(v: Seq<JsonV>) -> Seq<Seq<char>>
    decreases v.len(),
{
    if v.len() == 0 {
        Seq::empty()
    } else {
        match entry_of(v.last()) {
            Some(e) => entries_of(v.drop_last()).push(e),
            None => entries_of(v.drop_last()),
        }
    }
}

/// The last messages.
pub open spec fn recent(v: Seq<JsonV>) -> Seq<JsonV> {
    if v.len() <= MAX_ENTRIES {
        v
    } else {
        v.skip(v.len() - MAX_ENTRIES)
    }
}

/// True when the text of every message is plain.
pub open spec fn all_plain(v: Seq<JsonV>) -> bool {
    forall|i: int| 0 <= i < v.len() ==> is_plain(trimmed(content_text(#[trigger] v[i])))
}

/// How a message with a plain text is shown, if it has a role.
pub open spec fn plain_entry(m: JsonV) -> Option<Seq<char>> {
    match m.text_at("role"@) {
        Some(role) => Some(
            role + ": "@ + plain_cut(trimmed(content_text(m)), MAX_ENTRY_CHARS as int),
        ),
        None => None,
    }
}

/// How a list of messages with plain texts is shown.
pub open spec fn plain_entries(v: Seq<JsonV>) -> Seq<Seq<char>>
    decreases v.len(),
{
    if v.len() == 0 {
        Seq::empty()
    } else {
        match plain_entry(v.last()) {
            Some(e) => plain_entries(v.drop_last()).push(e),
            None => plain_entries(v.drop_last()),
        }
    }
}

/// The room that a list of messages takes at most: for each the role, what
/// follows it, the columns of its text and a line feed.
pub open spec fn room(v: Seq<JsonV>) -> int
    decreases v.len(),
{
    if v.len() == 0 {
        0
    } else {
        room(v.drop_last()) + match v.last().text_at("role"@) {
            Some(role) => role.len() + 2 + MAX_ENTRY_CHARS + 1,
            None => 0,
        }
    }
}

/// However long its messages are, a plain snapshot is no longer than their
/// roles and columns make it.
pub proof fn a_plain_snapshot_is_bounded(v: Seq<JsonV>)
    ensures
        joined(plain_entries(v), "\n"@).len() <= room(v),
    decreases v.len(),
{
    reveal_strlit("\n");
    reveal_strlit(": ");
    reveal_strlit("…");
    if v.len() > 0 {
        a_plain_snapshot_is_bounded(v.drop_last());
        let head = plain_entries(v.drop_last());
        match plain_entry(v.last()) {
            Some(e) => {
                assert(plain_entries(v).drop_last() =~= head);
            },
            None => {},
        }
    }
}

/// How a message is shown, if it has a role. A plain message that is short
/// enough is shown whole, and one that is not is cut.
pub fn entry(m: &Json) -> (r: Option<String>)
    ensures
        opt(r) == entry_of(m@),
        is_plain(trimmed(content_text(m@))) ==> opt(r) == plain_entry(m@),
{
    let role = match m.str_at("role") {
        Some(role) => role,
        None => return None,
    };
    let content = match m.get("content") {
        Some(c) => match c.as_str() {
            Some(t) => t.to_owned(),
            None => canonical_json(c),
        },
        None => {
            let none = String::new();
            assert(none@ =~= Seq::empty());
            none
        },
    };
    proof {
        reveal_strlit("…");
    }
    let cut = clip(trim(content.as_str()).as_str(), MAX_ENTRY_CHARS, "…");
    Some(cat3(role, ": ", cut.as_str()))
}

/// What the advisor is shown: the last messages that have a role, each cut to
/// size.
pub fn snapshot(wire: &Vec<Json>) -> (r: String)
    ensures
        r@ == joined(entries_of(recent(items(wire@))), "\n"@),
        all_plain(recent(items(wire@))) ==> r@ == joined(
            plain_entries(recent(items(wire@))),
            "\n"@,
        ) && r@.len() <= room(recent(items(wire@))),
{
    let ghost all = recent(items(wire@));
    let start: usize = if wire.len() <= MAX_ENTRIES { 0 } else { wire.len() - MAX_ENTRIES };
    let mut out: Vec<String> = Vec::new();
    let mut i: usize = start;
    assert(texts(out@) =~= entries_of(all.take(0)));
    assert(texts(out@) =~= plain_entries(all.take(0)));
    while i < wire.len()
        invariant
            start <= i <= wire@.len(),
            all == recent(items(wire@)),
            start == wire@.len() - all.len(),
            forall|k: int| 0 <= k < all.len() ==> #[trigger] all[k] == wire@[start + k]@,
            texts(out@) == entries_of(all.take(i - start)),
            all_plain(all) ==> texts(out@) == plain_entries(all.take(i - start)),
        decreases wire.len() - i,
    {
        let ghost n = i - start;
        proof {
            assert(all.take(n + 1).drop_last() =~= all.take(n));
            assert(all.take(n + 1).last() == all[n]);
        }
        let ghost had = texts(out@);
        match entry(&wire[i]) {
            Some(e) => {
                out.push(e);
                assert(texts(out@) =~= had.push(e@));
            },
            None => {},
        }
        i += 1;
    }
    assert(all.take(all.len() as int) =~= all);
    proof {
        a_plain_snapshot_is_bounded(all);
    }
    join(&out, "\n")
}

/// What the advisor answers.
#[derive(Clone, Copy, PartialEq, Eq, Structural, Debug)]
pub enum LoopAction {
    Retry,
    AskUser,
    Stop,
    Continue,
}

/// What a turn makes of the advisor's answer, where one came.
pub fn advise(action: Option<LoopAction>) -> (r: Advice)
    ensures
        r == (match action {
            Some(LoopAction::Retry) => Advice::Retry,
            Some(LoopAction::AskUser) => Advice::AskUser,
            Some(LoopAction::Stop) => Advice::Stop,
            Some(LoopAction::Continue) => Advice::Nothing,
            None => Advice::Nothing,
        }),
{
    match action {
        Some(LoopAction::Retry) => Advice::Retry,
        Some(LoopAction::AskUser) => Advice::AskUser,
        Some(LoopAction::Stop) => Advice::Stop,
        Some(LoopAction::Continue) => Advice::Nothing,
        None => Advice::Nothing,
    }
}

/// What the advisor sees is the end of the conversation: its last messages, and
/// all of it where it is short.
pub proof fn the_advisor_sees_the_end(v: Seq<JsonV>)
    ensures
        v.len() <= 6 ==> recent(v) == v,
        v.len() > 6 ==> recent(v).len() == 6 && recent(v) == v.skip(v.len() - 6),
{
}

/// Each message that has a role is an entry, in order, and opens with its role.
pub proof fn messages_become_entries(v: Seq<JsonV>) -> (from: Seq<int>)
    ensures
        from.len() == entries_of(v).len(),
        forall|i: int|
            0 <= i < from.len() ==> 0 <= #[trigger] from[i] < v.len() && (v[from[i]].text_at(
                "role"@,
            ) matches Some(role) && opens(entries_of(v)[i], role + ": "@)),
        forall|i: int, j: int| 0 <= i < j < from.len() ==> #[trigger] from[i] < #[trigger] from[j],
        forall|k: int|
            0 <= k < v.len() && (#[trigger] v[k]).text_at("role"@) is Some ==> from.contains(k),
    decreases v.len(),
{
    if v.len() == 0 {
        Seq::empty()
    } else {
        let head = v.drop_last();
        let most = messages_become_entries(head);
        let from = if v.last().text_at("role"@) is Some { most.push(v.len() - 1) } else { most };
        let all = entries_of(v);
        let before = entries_of(head);
        match v.last().text_at("role"@) {
            Some(role) => {
                let lead = role + ": "@;
                let text = all.last();
                assert(text.take(lead.len() as int) =~= lead);
            },
            None => {},
        }
        assert forall|i: int| 0 <= i < from.len() implies 0 <= #[trigger] from[i] < v.len() && (
        v[from[i]].text_at("role"@) matches Some(role) && opens(all[i], role + ": "@)) by {
            if i < most.len() {
                assert(most[i] == from[i]);
                assert(head[most[i]] == v[most[i]]);
                assert(all[i] == before[i]);
            }
        }
        assert forall|k: int| 0 <= k < v.len() && (#[trigger] v[k]).text_at(
            "role"@,
        ) is Some implies from.contains(k) by {
            if k < v.len() - 1 {
                assert(head[k] == v[k]);
                let j = choose|j: int| 0 <= j < most.len() && most[j] == k;
                assert(from[j] == k);
            } else {
                assert(from[from.len() - 1] == k);
            }
        }
        from
    }
}

/// The advisor is asked only where it is switched on and has a key; the key is
/// taken without the blanks around it.
pub proof fn the_advisor_needs_a_switch_and_a_key(
    switch: Option<Seq<char>>,
    configured: Option<bool>,
    key: Option<Seq<char>>,
)
    ensures
        advisor_key(switch, configured, key) matches Some(k) ==> key is Some && k == trimmed(
            key.unwrap(),
        ) && k.len() > 0,
        configured == Some(true) && key is Some && trimmed(key.unwrap()).len() > 0 ==> advisor_key(
            switch,
            configured,
            key,
        ) is Some,
        switch is None && configured != Some(true) ==> advisor_key(switch, configured, key) is None,
        switch == Some("on"@) && key is Some && trimmed(key.unwrap()).len() > 0 ==> advisor_key(
            switch,
            configured,
            key,
        ) is Some,
{
}

/// A switch is on for each of the words that say so.
pub proof fn the_switch_has_its_words(word: Seq<char>)
    ensures
        word == "1"@ || word == "true"@ || word == "yes"@ || word == "on"@ <==> is_on(Some(word)),
        !is_on(None),
{
}

} // verus!
