//! Blocks of thinking put together from the fragments of a stream.

use vstd::prelude::*;

use crate::json::{items, Fields, Json, JsonV};
use crate::text::{cat2, opt, same, texts};

verus! {

/// One block of thinking.
pub struct ReasoningDetail {
    pub kind: String,
    pub index: Option<u64>,
    pub text: Option<String>,
    pub summary: Option<String>,
    pub data: Option<String>,
    pub signature: Option<String>,
    pub id: Option<String>,
}

/// The model of a block of thinking.
#[verifier::ext_equal]
pub struct DetailV {
    pub kind: Seq<char>,
    pub index: Option<u64>,
    pub text: Option<Seq<char>>,
    pub summary: Option<Seq<char>>,
    pub data: Option<Seq<char>>,
    pub signature: Option<Seq<char>>,
    pub id: Option<Seq<char>>,
}

impl View for ReasoningDetail {
    type V = DetailV;

    open spec fn view(&self) -> DetailV {
        DetailV {
            kind: self.kind@,
            index: self.index,
            text: opt(self.text),
            summary: opt(self.summary),
            data: opt(self.data),
            signature: opt(self.signature),
            id: opt(self.id),
        }
    }
}

/// The models of a list of blocks.
pub open spec fn details(v: Seq<ReasoningDetail>) -> Seq<DetailV> {
    Seq::new(v.len(), |i: int| v[i]@)
}

/// The kind of a block that holds thinking as plain text.
pub const PLAIN_KIND: &'static str = "reasoning.text";

/// A block that holds nothing but a text.
pub open spec fn plain_block(text: Seq<char>) -> DetailV {
    DetailV {
        kind: PLAIN_KIND@,
        index: None,
        text: Some(text),
        summary: None,
        data: None,
        signature: None,
        id: None,
    }
}

/// The members of a block, one more where there is a text for it.
pub open spec fn with_text(
    v: Seq<(Seq<char>, JsonV)>,
    key: Seq<char>,
    text: Option<Seq<char>>,
) -> Seq<(Seq<char>, JsonV)> {
    match text {
        Some(t) => v.push((key, JsonV::Str(t))),
        None => v,
    }
}

/// A block as it goes on the wire: what it does not have is left out.
pub open spec fn detail_wire(d: DetailV) -> JsonV {
    let kind = Seq::empty().push(("type"@, JsonV::Str(d.kind)));
    let text = with_text(with_text(kind, "text"@, d.text), "summary"@, d.summary);
    let rest = with_text(with_text(text, "data"@, d.data), "signature"@, d.signature);
    let all = with_text(rest, "id"@, d.id);
    JsonV::Obj(
        match d.index {
            Some(n) => all.push(("index"@, JsonV::Number(n))),
            None => all,
        },
    )
}

/// The blocks as they go on the wire.
pub open spec fn details_wire(v: Seq<DetailV>) -> Seq<JsonV> {
    Seq::new(v.len(), |i: int| detail_wire(v[i]))
}

/// What a block reads as: its text, or else its summary.
pub open spec fn detail_shown(d: DetailV) -> Option<Seq<char>> {
    let t = match d.text {
        Some(text) => Some(text),
        None => d.summary,
    };
    match t {
        Some(text) => if text.len() > 0 {
            Some(text)
        } else {
            None
        },
        None => None,
    }
}

/// What the first `n` blocks read as.
pub open spec fn thoughts_of(v: Seq<DetailV>, n: nat) -> Seq<Seq<char>>
    decreases n,
{
    if n == 0 || n > v.len() {
        Seq::empty()
    } else {
        match detail_shown(v[n - 1]) {
            Some(text) => thoughts_of(v, (n - 1) as nat).push(text),
            None => thoughts_of(v, (n - 1) as nat),
        }
    }
}

fn add_text(f: Fields, key: &str, text: &Option<String>) -> (r: Fields)
    ensures
        r@ == with_text(f@, key@, opt(*text)),
{
    match text {
        Some(t) => f.text(key, t.as_str()),
        None => f,
    }
}

impl ReasoningDetail {
    /// A block that holds nothing but a text.
    pub fn from_text(text: String) -> (r: ReasoningDetail)
        ensures
            r@ == plain_block(text@),
    {
        ReasoningDetail {
            kind: PLAIN_KIND.to_owned(),
            index: None,
            text: Some(text),
            summary: None,
            data: None,
            signature: None,
            id: None,
        }
    }

    /// What the block reads as.
    pub fn plain(&self) -> (r: Option<String>)
        ensures
            opt(r) == detail_shown(self@),
    {
        let t = match &self.text {
            Some(text) => Some(text),
            None => match &self.summary {
                Some(s) => Some(s),
                None => None,
            },
        };
        match t {
            Some(text) => if text.as_str().is_empty() {
                None
            } else {
                Some(text.clone())
            },
            None => None,
        }
    }

    /// The block as it goes on the wire.
    pub fn wire(&self) -> (r: Json)
        ensures
            r@ == detail_wire(self@),
    {
        let kind = Fields::new().text("type", self.kind.as_str());
        let text = add_text(add_text(kind, "text", &self.text), "summary", &self.summary);
        let rest = add_text(add_text(text, "data", &self.data), "signature", &self.signature);
        let all = add_text(rest, "id", &self.id);
        match self.index {
            Some(n) => {
                let number = Json::Number(n);
                all.with("index", number).json()
            },
            None => all.json(),
        }
    }
}

/// The blocks as they go on the wire.
pub fn blocks_wire(v: &Vec<ReasoningDetail>) -> (r: Vec<Json>)
    ensures
        items(r@) == details_wire(details(v@)),
{
    let mut out: Vec<Json> = Vec::new();
    let mut i: usize = 0;
    while i < v.len()
        invariant
            i <= v@.len(),
            out@.len() == i,
            forall|k: int| 0 <= k < i ==> #[trigger] out@[k]@ == detail_wire(v@[k]@),
        decreases v.len() - i,
    {
        out.push(v[i].wire());
        i += 1;
    }
    assert(items(out@) =~= details_wire(details(v@)));
    out
}

/// What the blocks read as.
pub fn thoughts(v: &Vec<ReasoningDetail>) -> (r: Vec<String>)
    ensures
        texts(r@) == thoughts_of(details(v@), v@.len()),
{
    let ghost all = details(v@);
    let mut out: Vec<String> = Vec::new();
    let mut i: usize = 0;
    assert(texts(out@) =~= thoughts_of(all, 0));
    while i < v.len()
        invariant
            i <= v@.len(),
            all == details(v@),
            texts(out@) == thoughts_of(all, i as nat),
        decreases v.len() - i,
    {
        assert(all[i as int] == v@[i as int]@);
        let ghost had = texts(out@);
        match v[i].plain() {
            Some(text) => {
                out.push(text);
                assert(texts(out@) =~= had.push(text@));
            },
            None => {},
        }
        i += 1;
    }
    out
}

/// A text with more of it.
pub open spec fn extended(have: Option<Seq<char>>, more: Option<Seq<char>>) -> Option<Seq<char>> {
    match (have, more) {
        (Some(a), Some(b)) => Some(a + b),
        (None, Some(b)) => Some(b),
        (_, None) => have,
    }
}

/// The later of two values.
pub open spec fn latest(have: Option<Seq<char>>, more: Option<Seq<char>>) -> Option<Seq<char>> {
    match more {
        Some(b) => Some(b),
        None => have,
    }
}

/// A block with one more fragment.
pub open spec fn grown(slot: DetailV, fragment: DetailV) -> DetailV {
    DetailV {
        kind: slot.kind,
        index: slot.index,
        text: extended(slot.text, fragment.text),
        summary: extended(slot.summary, fragment.summary),
        data: extended(slot.data, fragment.data),
        signature: latest(slot.signature, fragment.signature),
        id: latest(slot.id, fragment.id),
    }
}

/// The blocks with one more fragment: it joins the last block of its kind and
/// index, or becomes a block of its own.
pub open spec fn reasoned(v: Seq<DetailV>, fragment: DetailV) -> Seq<DetailV>
    decreases v.len(),
{
    if v.len() == 0 {
        Seq::empty().push(fragment)
    } else if v.last().kind == fragment.kind && v.last().index == fragment.index {
        v.drop_last().push(grown(v.last(), fragment))
    } else if joins(v.drop_last(), fragment) {
        reasoned(v.drop_last(), fragment).push(v.last())
    } else {
        v.push(fragment)
    }
}

/// True when some block has the fragment's kind and index.
pub open spec fn joins(v: Seq<DetailV>, fragment: DetailV) -> bool {
    exists|i: int|
        0 <= i < v.len() && (#[trigger] v[i]).kind == fragment.kind && v[i].index == fragment.index
}

proof fn lemma_reasoned_at(v: Seq<DetailV>, fragment: DetailV, n: int)
    requires
        0 <= n < v.len(),
        v[n].kind == fragment.kind && v[n].index == fragment.index,
        forall|k: int|
            n < k < v.len() ==> (#[trigger] v[k]).kind != fragment.kind || v[k].index
                != fragment.index,
    ensures
        reasoned(v, fragment) == v.update(n, grown(v[n], fragment)),
    decreases v.len(),
{
    if n == v.len() - 1 {
        assert(reasoned(v, fragment) =~= v.update(n, grown(v[n], fragment)));
    } else {
        let t = v.drop_last();
        assert(t[n] == v[n]);
        assert(joins(t, fragment));
        assert forall|k: int| n < k < t.len() implies (#[trigger] t[k]).kind != fragment.kind
            || t[k].index != fragment.index by {
            assert(t[k] == v[k]);
        }
        assert(v[v.len() - 1].kind != fragment.kind || v[v.len() - 1].index != fragment.index);
        lemma_reasoned_at(t, fragment, n);
        assert(reasoned(v, fragment) =~= v.update(n, grown(v[n], fragment)));
    }
}

/// More of a text behind what is there.
pub fn extend(slot: &mut Option<String>, more: Option<String>)
    ensures
        opt(*final(slot)) == extended(opt(*old(slot)), opt(more)),
{
    match more {
        Some(text) => {
            let had = slot.clone();
            *slot = match had {
                Some(have) => Some(cat2(have.as_str(), text.as_str())),
                None => Some(text),
            };
        },
        None => {},
    }
}

/// Take one fragment of thinking in.
pub fn merge_reasoning(out: &mut Vec<ReasoningDetail>, fragment: ReasoningDetail)
    ensures
        details(final(out)@) == reasoned(details(old(out)@), fragment@),
{
    let ghost start = details(out@);
    let mut n: usize = out.len();
    while n > 0
        invariant
            n <= out@.len(),
            *out == *old(out),
            start == details(out@),
            forall|k: int|
                n <= k < start.len() ==> (#[trigger] start[k]).kind != fragment@.kind
                    || start[k].index != fragment@.index,
        decreases n,
    {
        let same_index = match (out[n - 1].index, fragment.index) {
            (Some(a), Some(b)) => a == b,
            (None, None) => true,
            _ => false,
        };
        assert(start[n - 1] == out@[n - 1]@);
        if same_index && same(out[n - 1].kind.as_str(), fragment.kind.as_str()) {
            let slot = &out[n - 1];
            let mut text = slot.text.clone();
            extend(&mut text, fragment.text);
            let mut summary = slot.summary.clone();
            extend(&mut summary, fragment.summary);
            let mut data = slot.data.clone();
            extend(&mut data, fragment.data);
            let signature = match fragment.signature {
                Some(s) => Some(s),
                None => slot.signature.clone(),
            };
            let id = match fragment.id {
                Some(s) => Some(s),
                None => slot.id.clone(),
            };
            let block = ReasoningDetail {
                kind: slot.kind.clone(),
                index: slot.index,
                text,
                summary,
                data,
                signature,
                id,
            };
            assert(block@ == grown(start[n - 1], fragment@));
            proof {
                lemma_reasoned_at(start, fragment@, n - 1);
            }
            out.set(n - 1, block);
            assert(details(out@) =~= start.update(n - 1, block@));
            return;
        }
        n -= 1;
    }
    out.push(fragment);
    proof {
        assert(!joins(start, fragment@));
        if start.len() > 0 {
            assert(!joins(start.drop_last(), fragment@)) by {
                if joins(start.drop_last(), fragment@) {
                    let i = choose|i: int|
                        0 <= i < start.drop_last().len() && (#[trigger] start.drop_last()[i]).kind
                            == fragment@.kind && start.drop_last()[i].index == fragment@.index;
                    assert(start[i].kind == fragment@.kind);
                }
            }
            assert(start[start.len() - 1] == start.last());
        } else {
            assert(start =~= Seq::empty());
        }
        assert(details(out@) =~= start.push(fragment@));
    }
}

} // verus!
