//! Reading JSON text, mending what models write, and a canonical form.

use vstd::prelude::*;

use crate::json::{items, members, Json, JsonV};
use crate::text::number::{dec, decimal, digit, digit_char};
use crate::text::order::{keyed_once, sort_by_key, sorted_by_key, sorting_forgets_the_order};
use crate::text::pieces::{join, joined};
use crate::text::{cat3, chars, pairs, texts};

verus! {

/// A parsed JSON value of the `serde_json` crate.
#[verifier::external_type_specification]
#[verifier::external_body]
pub struct ExValue(serde_json::Value);

/// The contents of a `serde_json::Value`.
pub uninterp spec fn value_of(v: serde_json::Value) -> JsonV;

/// What `serde_json::from_str` makes of a text: the value it holds, or the
/// message of the error.
pub uninterp spec fn json_text(s: Seq<char>) -> Result<JsonV, Seq<char>>;

/// What the first step of `serde_json`'s stream deserializer makes of a text:
/// the complete value that it opens with, whatever follows.
pub uninterp spec fn json_prefix(s: Seq<char>) -> Option<JsonV>;

/// A lower bound on how many characters it takes to write a value: one for a
/// scalar, the quotes and contents of every string, the brackets of every
/// container.
pub open spec fn weight(j: JsonV) -> nat
    decreases j, 0nat,
{
    match j {
        JsonV::Str(s) => s.len() + 2,
        JsonV::Arr(v) => 2 + weight_items(v, v.len()),
        JsonV::Obj(v) => 2 + weight_members(v, v.len()),
        _ => 1,
    }
}

/// The weight of the first `n` elements.
pub open spec fn weight_items(v: Seq<JsonV>, n: nat) -> nat
    decreases v, n,
{
    if n == 0 || n > v.len() {
        0
    } else {
        weight_items(v, (n - 1) as nat) + weight(v[n - 1])
    }
}

/// The weight of the first `n` members.
pub open spec fn weight_members(v: Seq<(Seq<char>, JsonV)>, n: nat) -> nat
    decreases v, n,
{
    if n == 0 || n > v.len() {
        0
    } else {
        weight_members(v, (n - 1) as nat) + v[n - 1].0.len() + 2 + weight(v[n - 1].1)
    }
}

/// `serde_json::from_str` into a `Value`. The error is handed on as its message.
/// A value that was read is no heavier than the text it was read from: every
/// string, key and bracket of it stands in the text.
#[verifier::external_body]
fn parse_value(s: &str) -> (r: Result<serde_json::Value, String>)
    ensures
        match r {
            Ok(v) => json_text(s@) == Ok::<JsonV, Seq<char>>(value_of(v)) && weight(value_of(v))
                <= s@.len(),
            Err(e) => json_text(s@) == Err::<JsonV, Seq<char>>(e@),
        },
{
    serde_json::from_str(s).map_err(|e| e.to_string())
}

/// One step of `serde_json::Deserializer::from_str(..).into_iter()`: the value
/// that the text opens with.
#[verifier::external_body]
fn parse_leading(s: &str) -> (r: Option<serde_json::Value>)
    ensures
        match r {
            Some(v) => json_prefix(s@) == Some(value_of(v)),
            None => json_prefix(s@) is None,
        },
{
    serde_json::Deserializer::from_str(s).into_iter().next().and_then(|v| v.ok())
}

/// The contents of a `serde_json::Value`, member by member, as a value of this
/// crate. A number that `Number::as_u64` takes is kept as that integer, another
/// one by its text.
#[verifier::external_body]
fn lift(v: &serde_json::Value) -> (r: Json)
    ensures
        r@ == value_of(*v),
{
    match v {
        serde_json::Value::Null => Json::Null,
        serde_json::Value::Bool(b) => Json::Bool(*b),
        serde_json::Value::Number(n) => {
            n.as_u64().map_or_else(|| Json::Other(n.to_string()), Json::Number)
        },
        serde_json::Value::String(s) => Json::Str(s.clone()),
        serde_json::Value::Array(a) => Json::Array(a.iter().map(lift).collect()),
        serde_json::Value::Object(o) => {
            Json::Object(o.iter().map(|(k, v)| (k.clone(), lift(v))).collect())
        },
    }
}

/// The contents of a `serde_json::Value`, as a value of this crate.
pub fn lift_value(v: &serde_json::Value) -> (r: Json)
    ensures
        r@ == value_of(*v),
{
    lift(v)
}

/// The value that a text holds, or the reader's error message.
pub fn read_json(s: &str) -> (r: Result<Json, String>)
    ensures
        match r {
            Ok(j) => json_text(s@) == Ok::<JsonV, Seq<char>>(j@) && weight(j@) <= s@.len(),
            Err(e) => json_text(s@) == Err::<JsonV, Seq<char>>(e@),
        },
{
    match parse_value(s) {
        Ok(v) => Ok(lift(&v)),
        Err(e) => Err(e),
    }
}

/// The value that a text opens with, whatever follows it.
pub fn read_leading(s: &str) -> (r: Option<Json>)
    ensures
        r is Some <==> json_prefix(s@) is Some,
        r is Some ==> json_prefix(s@) == Some(r.unwrap()@),
{
    match parse_leading(s) {
        Some(v) => Some(lift(&v)),
        None => None,
    }
}

/// The control characters: the `Cc` general category.
pub open spec fn is_control(c: char) -> bool {
    let u = c as u32;
    u < 0x20 || 0x7f <= u <= 0x9f
}

/// Whether `c` is a control character.
pub fn control(c: char) -> (r: bool)
    ensures
        r == is_control(c),
{
    let u = c as u32;
    u < 0x20 || (0x7f <= u && u <= 0x9f)
}

/// The escape `\u00xx` for a code below 256.
pub open spec fn unicode_escape(c: char) -> Seq<char> {
    let u = c as u32;
    seq!['\\', 'u', '0', '0', digit((u / 16) as int), digit((u % 16) as int)]
}

fn push_unicode_escape(out: &mut String, c: char)
    ensures
        final(out)@ == old(out)@ + unicode_escape(c),
{
    let u = c as u32;
    out.push('\\');
    out.push('u');
    out.push('0');
    out.push('0');
    out.push(digit_char((u / 16) as u64));
    out.push(digit_char((u % 16) as u64));
    assert(out@ =~= old(out)@ + unicode_escape(c));
}

/// The characters that may follow a backslash in a JSON string.
pub const JSON_ESCAPES: &'static str = "\"\\/bfnrtu";

/// What a control character inside a string is rewritten to.
pub open spec fn control_escape(c: char) -> Seq<char> {
    if c == '\n' {
        seq!['\\', 'n']
    } else if c == '\r' {
        seq!['\\', 'r']
    } else if c == '\t' {
        seq!['\\', 't']
    } else {
        unicode_escape(c)
    }
}

/// The text with control characters inside strings escaped and escapes that
/// JSON does not know made literal. `quoted` says whether a string is open.
pub open spec fn repaired(s: Seq<char>, quoted: bool) -> Seq<char>
    decreases s.len(),
{
    if s.len() == 0 {
        seq![]
    } else if s[0] == '"' {
        seq!['"'] + repaired(s.drop_first(), !quoted)
    } else if quoted && is_control(s[0]) {
        control_escape(s[0]) + repaired(s.drop_first(), quoted)
    } else if s[0] != '\\' || !quoted {
        seq![s[0]] + repaired(s.drop_first(), quoted)
    } else if s.len() == 1 {
        seq!['\\']
    } else if JSON_ESCAPES@.contains(s[1]) {
        seq!['\\', s[1]] + repaired(s.skip(2), quoted)
    } else if s[1] == '\'' {
        seq!['\''] + repaired(s.skip(2), quoted)
    } else {
        seq!['\\', '\\', s[1]] + repaired(s.skip(2), quoted)
    }
}

/// The text with control characters inside strings escaped and escapes that
/// JSON does not know made literal.
pub fn repair_escapes(raw: &str) -> (r: String)
    ensures
        r@ == repaired(raw@, false),
{
    let v = chars(raw);
    let mut out = String::new();
    let mut i: usize = 0;
    let mut in_string = false;
    proof {
        assert(v@.skip(0) =~= v@);
        assert(out@ + repaired(v@, false) =~= repaired(v@, false));
    }
    while i < v.len()
        invariant
            i <= v@.len(),
            out@ + repaired(v@.skip(i as int), in_string) == repaired(v@, false),
        decreases v.len() - i,
    {
        let c = v[i];
        let ghost rest = v@.skip(i as int);
        let ghost start = out@;
        let ghost was = in_string;
        proof {
            assert(rest.drop_first() =~= v@.skip(i + 1));
            if i + 1 < v@.len() {
                assert(rest.skip(2) =~= v@.skip(i + 2));
            }
        }
        if c == '"' {
            in_string = !in_string;
            out.push(c);
            assert(out@ =~= start + seq!['"']);
            i += 1;
        } else if in_string && control(c) {
            if c == '\n' {
                out.push('\\');
                out.push('n');
            } else if c == '\r' {
                out.push('\\');
                out.push('r');
            } else if c == '\t' {
                out.push('\\');
                out.push('t');
            } else {
                push_unicode_escape(&mut out, c);
            }
            assert(out@ =~= start + control_escape(c));
            i += 1;
        } else if c != '\\' || !in_string {
            out.push(c);
            assert(out@ =~= start + seq![c]);
            i += 1;
        } else if i + 1 == v.len() {
            out.push('\\');
            assert(out@ =~= start + seq!['\\']);
            i += 1;
            assert(repaired(v@.skip(i as int), in_string) =~= Seq::<char>::empty());
            assert(repaired(rest, was) =~= seq!['\\']);
        } else {
            let next = v[i + 1];
            if crate::text::pieces::contains_char(JSON_ESCAPES, next) {
                out.push('\\');
                out.push(next);
                assert(out@ =~= start + seq!['\\', next]);
            } else if next == '\'' {
                out.push('\'');
                assert(out@ =~= start + seq!['\'']);
            } else {
                out.push('\\');
                out.push('\\');
                out.push(next);
                assert(out@ =~= start + seq!['\\', '\\', next]);
            }
            i += 2;
        }
        proof {
            let added = out@.skip(start.len() as int);
            assert(out@ =~= start + added);
            assert(repaired(rest, was) =~= added + repaired(v@.skip(i as int), in_string));
            assert(out@ + repaired(v@.skip(i as int), in_string) =~= start + (added + repaired(
                v@.skip(i as int),
                in_string,
            )));
        }
    }
    proof {
        assert(v@.skip(i as int) =~= Seq::<char>::empty());
        assert(out@ + Seq::<char>::empty() =~= out@);
    }
    out
}

/// What tool arguments mean: the value they hold; failing that the value they
/// hold once mended; failing that the value the mended text opens with; failing
/// that the reader's complaint about what was sent.
pub open spec fn arguments_of(raw: Seq<char>) -> Result<JsonV, Seq<char>> {
    match json_text(raw) {
        Ok(v) => Ok(v),
        Err(e) => match json_text(repaired(raw, false)) {
            Ok(v) => Ok(v),
            Err(_) => match json_prefix(repaired(raw, false)) {
                Some(v) => Ok(v),
                None => Err(e),
            },
        },
    }
}

/// The decision behind [`parse_arguments`], over what the reader gave for the
/// text as sent, for the mended text, and for the mended text's opening.
pub fn settle_arguments(
    sent: Result<Json, String>,
    mended: Result<Json, String>,
    leading: Option<Json>,
) -> (r: Result<Json, String>)
    ensures
        sent is Ok ==> r == sent,
        sent is Err && mended is Ok ==> r == mended,
        sent is Err && mended is Err && leading is Some ==> r == Ok::<Json, String>(
            leading.unwrap(),
        ),
        sent is Err && mended is Err && leading is None ==> r == sent,
{
    match sent {
        Ok(v) => Ok(v),
        Err(e) => match mended {
            Ok(v) => Ok(v),
            Err(_) => match leading {
                Some(v) => Ok(v),
                None => Err(e),
            },
        },
    }
}

/// The value of a tool call's arguments, mended where models get JSON wrong.
pub fn parse_arguments(raw: &str) -> (r: Result<Json, String>)
    ensures
        match r {
            Ok(j) => arguments_of(raw@) == Ok::<JsonV, Seq<char>>(j@),
            Err(e) => arguments_of(raw@) == Err::<JsonV, Seq<char>>(e@),
        },
{
    let sent = read_json(raw);
    if sent.is_ok() {
        return sent;
    }
    let fixed = repair_escapes(raw);
    let mended = read_json(fixed.as_str());
    let leading = read_leading(fixed.as_str());
    settle_arguments(sent, mended, leading)
}

/// How one character stands inside a JSON string.
pub open spec fn escaped(c: char) -> Seq<char> {
    if c == '"' {
        seq!['\\', '"']
    } else if c == '\\' {
        seq!['\\', '\\']
    } else if c == '\n' {
        seq!['\\', 'n']
    } else if c == '\r' {
        seq!['\\', 'r']
    } else if c == '\t' {
        seq!['\\', 't']
    } else if c as u32 == 8 {
        seq!['\\', 'b']
    } else if c as u32 == 12 {
        seq!['\\', 'f']
    } else if (c as u32) < 0x20 {
        unicode_escape(c)
    } else {
        seq![c]
    }
}

/// The characters of `s` as they stand inside a JSON string.
pub open spec fn escaped_all(s: Seq<char>) -> Seq<char>
    decreases s.len(),
{
    if s.len() == 0 {
        seq![]
    } else {
        escaped_all(s.drop_last()) + escaped(s.last())
    }
}

/// `s` as a JSON string literal.
pub open spec fn quoted(s: Seq<char>) -> Seq<char> {
    seq!['"'] + escaped_all(s) + seq!['"']
}

/// `serde_json::to_string` of a string: a literal in double quotes, in which
/// quotes, backslashes and the control characters below the space are escaped
/// and everything else stands as it is.
#[verifier::external_body]
fn to_json_string(s: &str) -> (r: String)
    ensures
        r@ == quoted(s@),
{
    serde_json::to_string(s).unwrap_or_default()
}

/// `s` as a JSON string literal.
pub fn quote(s: &str) -> (r: String)
    ensures
        r@ == quoted(s@),
{
    to_json_string(s)
}

/// A JSON value as text without spaces, every object's members in the order in
/// which it holds them.
pub open spec fn compact_text(j: JsonV) -> Seq<char>
    decreases j, 0nat,
{
    match j {
        JsonV::Null => "null"@,
        JsonV::Bool(b) => if b { "true"@ } else { "false"@ },
        JsonV::Number(n) => dec(n as nat),
        JsonV::Other(s) => s,
        JsonV::Str(s) => quoted(s),
        JsonV::Arr(v) => "["@ + joined(compact_items(v, v.len()), ","@) + "]"@,
        JsonV::Obj(v) => "{"@ + joined(member_texts(compact_members(v, v.len())), ","@) + "}"@,
    }
}

/// The compact texts of the first `n` elements.
pub open spec fn compact_items(v: Seq<JsonV>, n: nat) -> Seq<Seq<char>>
    decreases v, n,
{
    if n == 0 || n > v.len() {
        seq![]
    } else {
        compact_items(v, (n - 1) as nat).push(compact_text(v[n - 1]))
    }
}

/// The keys and compact texts of the first `n` members.
pub open spec fn compact_members(v: Seq<(Seq<char>, JsonV)>, n: nat) -> Seq<
    (Seq<char>, Seq<char>),
>
    decreases v, n,
{
    if n == 0 || n > v.len() {
        seq![]
    } else {
        compact_members(v, (n - 1) as nat).push((v[n - 1].0, compact_text(v[n - 1].1)))
    }
}

/// A JSON value as text without spaces, every object's members in the order of
/// their keys.
pub open spec fn canonical(j: JsonV) -> Seq<char>
    decreases j, 0nat,
{
    match j {
        JsonV::Null => "null"@,
        JsonV::Bool(b) => if b { "true"@ } else { "false"@ },
        JsonV::Number(n) => dec(n as nat),
        JsonV::Other(s) => s,
        JsonV::Str(s) => quoted(s),
        JsonV::Arr(v) => "["@ + joined(canonical_items(v, v.len()), ","@) + "]"@,
        JsonV::Obj(v) => "{"@ + joined(
            member_texts(sorted_by_key(canonical_members(v, v.len()))),
            ","@,
        ) + "}"@,
    }
}

/// The canonical texts of the first `n` elements.
pub open spec fn canonical_items(v: Seq<JsonV>, n: nat) -> Seq<Seq<char>>
    decreases v, n,
{
    if n == 0 || n > v.len() {
        seq![]
    } else {
        canonical_items(v, (n - 1) as nat).push(canonical(v[n - 1]))
    }
}

/// The keys and canonical texts of the first `n` members.
pub open spec fn canonical_members(v: Seq<(Seq<char>, JsonV)>, n: nat) -> Seq<
    (Seq<char>, Seq<char>),
>
    decreases v, n,
{
    if n == 0 || n > v.len() {
        seq![]
    } else {
        canonical_members(v, (n - 1) as nat).push((v[n - 1].0, canonical(v[n - 1].1)))
    }
}

/// Each key as a string literal, a colon, and the text of its value.
pub open spec fn member_texts(v: Seq<(Seq<char>, Seq<char>)>) -> Seq<Seq<char>> {
    Seq::new(v.len(), |i: int| quoted(v[i].0) + ":"@ + v[i].1)
}

/// A JSON value as text without spaces, every object's members in the order of
/// their keys.
pub fn canonical_json(value: &Json) -> (r: String)
    ensures
        r@ == canonical(value@),
    decreases value,
{
    broadcast use {crate::json::array_view, crate::json::object_view};

    match value {
        Json::Null => "null".to_owned(),
        Json::Bool(b) => if *b {
            "true".to_owned()
        } else {
            "false".to_owned()
        },
        Json::Number(n) => decimal(*n),
        Json::Other(s) => s.clone(),
        Json::Str(s) => quote(s.as_str()),
        Json::Array(v) => {
            let mut out: Vec<String> = Vec::new();
            let mut i: usize = 0;
            let ghost all = items(v@);
            assert(texts(out@) =~= canonical_items(all, 0));
            while i < v.len()
                invariant
                    i <= v@.len(),
                    decreases_to!(value => v),
                    all == items(v@),
                    texts(out@) == canonical_items(all, i as nat),
                decreases v.len() - i,
            {
                let one = canonical_json(&v[i]);
                let ghost had = texts(out@);
                out.push(one);
                assert(texts(out@) =~= had.push(one@));
                i += 1;
            }
            cat3("[", join(&out, ",").as_str(), "]")
        },
        Json::Object(v) => {
            let mut out: Vec<(String, String)> = Vec::new();
            let mut i: usize = 0;
            let ghost all = members(v@);
            assert(pairs(out@) =~= canonical_members(all, 0));
            while i < v.len()
                invariant
                    i <= v@.len(),
                    decreases_to!(value => v),
                    all == members(v@),
                    pairs(out@) == canonical_members(all, i as nat),
                decreases v.len() - i,
            {
                let one = canonical_json(&v[i].1);
                let ghost had = pairs(out@);
                out.push((v[i].0.clone(), one));
                assert(pairs(out@) =~= had.push((v@[i as int].0@, one@)));
                i += 1;
            }
            let sorted = sort_by_key(&out);
            let fields = member_strings(&sorted);
            cat3("{", join(&fields, ",").as_str(), "}")
        },
    }
}

fn member_strings(v: &Vec<(String, String)>) -> (r: Vec<String>)
    ensures
        texts(r@) == member_texts(pairs(v@)),
{
    let mut out: Vec<String> = Vec::new();
    let mut i: usize = 0;
    while i < v.len()
        invariant
            i <= v@.len(),
            out@.len() == i,
            forall|k: int|
                0 <= k < i ==> #[trigger] out@[k]@ == quoted(v@[k].0@) + ":"@ + v@[k].1@,
        decreases v.len() - i,
    {
        out.push(cat3(quote(v[i].0.as_str()).as_str(), ":", v[i].1.as_str()));
        i += 1;
    }
    assert(texts(out@) =~= member_texts(pairs(v@)));
    out
}

proof fn lemma_mapped_alike<A, B>(v: Seq<A>, w: Seq<A>, f: spec_fn(A) -> B)
    requires
        v.to_multiset() == w.to_multiset(),
    ensures
        v.map_values(f).to_multiset() == w.map_values(f).to_multiset(),
    decreases v.len(),
{
    broadcast use vstd::seq_lib::group_to_multiset_ensures;

    assert(v.len() == v.to_multiset().len());
    assert(w.len() == w.to_multiset().len());
    if v.len() == 0 {
        assert(v =~= w);
    } else {
        let a = v.last();
        assert(v.to_multiset().count(a) > 0);
        assert(w.contains(a));
        let k = choose|k: int| 0 <= k < w.len() && w[k] == a;
        let v1 = v.drop_last();
        let w1 = w.remove(k);
        assert(v =~= v1.push(a));
        assert(v1.to_multiset() =~= v.to_multiset().remove(a));
        vstd::seq_lib::to_multiset_remove(w, k);
        lemma_mapped_alike(v1, w1, f);
        assert(v.map_values(f) =~= v1.map_values(f).push(f(a)));
        assert(w.map_values(f).remove(k) =~= w1.map_values(f));
        vstd::seq_lib::to_multiset_remove(w.map_values(f), k);
        assert(w.map_values(f)[k] == f(a));
        assert(w.map_values(f).to_multiset().count(f(a)) > 0);
        assert(w.map_values(f).to_multiset() =~= w1.map_values(f).to_multiset().insert(f(a)));
    }
}

proof fn lemma_members_mapped(v: Seq<(Seq<char>, JsonV)>, n: nat)
    requires
        n <= v.len(),
    ensures
        canonical_members(v, n) == v.take(n as int).map_values(
            |m: (Seq<char>, JsonV)| (m.0, canonical(m.1)),
        ),
    decreases n,
{
    let f = |m: (Seq<char>, JsonV)| (m.0, canonical(m.1));
    if n > 0 {
        lemma_members_mapped(v, (n - 1) as nat);
        assert(v.take(n as int) =~= v.take(n - 1).push(v[n - 1]));
        assert(v.take(n as int).map_values(f) =~= v.take(n - 1).map_values(f).push(f(v[n - 1])));
    } else {
        assert(canonical_members(v, n) =~= v.take(0).map_values(f));
    }
}

/// The canonical form does not depend on the order in which an object gives its
/// members, so the same arguments are recognised however they are written.
pub proof fn member_order_does_not_matter(
    v: Seq<(Seq<char>, JsonV)>,
    w: Seq<(Seq<char>, JsonV)>,
)
    requires
        keyed_once(v),
        v.to_multiset() == w.to_multiset(),
    ensures
        canonical(JsonV::Obj(v)) == canonical(JsonV::Obj(w)),
{
    broadcast use vstd::seq_lib::group_to_multiset_ensures;

    let f = |m: (Seq<char>, JsonV)| (m.0, canonical(m.1));
    lemma_members_mapped(v, v.len());
    lemma_members_mapped(w, w.len());
    assert(v.take(v.len() as int) =~= v);
    assert(w.take(w.len() as int) =~= w);
    lemma_mapped_alike(v, w, f);
    let a = canonical_members(v, v.len());
    let b = canonical_members(w, w.len());
    assert forall|i: int, j: int|
        0 <= i < a.len() && 0 <= j < a.len() && (#[trigger] a[i]).0 == (
        #[trigger] a[j]).0 implies a[i] == a[j] by {
        assert(a[i] == f(v[i]));
        assert(a[j] == f(v[j]));
        assert(v[i].0 == v[j].0);
    }
    sorting_forgets_the_order(a, b);
}

/// Arguments that are JSON are taken as they are sent; only others are mended,
/// and where mending does not help either, what they open with counts. The error
/// is that of the arguments as they were sent.
pub proof fn good_arguments_are_taken_as_sent(raw: Seq<char>)
    ensures
        json_text(raw) is Ok ==> arguments_of(raw) == json_text(raw),
        json_text(raw) is Err && json_text(repaired(raw, false)) is Ok ==> arguments_of(raw)
            == json_text(repaired(raw, false)),
        arguments_of(raw) is Err ==> arguments_of(raw) == json_text(raw),
        json_text(raw) is Err && json_text(repaired(raw, false)) is Err && json_prefix(
            repaired(raw, false),
        ) is Some ==> arguments_of(raw) is Ok && arguments_of(raw)->Ok_0 == json_prefix(
            repaired(raw, false),
        ).unwrap(),
{
}

/// A text without backslashes and control characters needs no mending.
pub proof fn clean_text_is_not_mended(s: Seq<char>, inside: bool)
    requires
        forall|i: int| 0 <= i < s.len() ==> #[trigger] s[i] != '\\' && !is_control(s[i]),
    ensures
        repaired(s, inside) == s,
    decreases s.len(),
{
    if s.len() > 0 {
        let t = s.drop_first();
        assert(s[0] != '\\' && !is_control(s[0]));
        assert forall|i: int| 0 <= i < t.len() implies #[trigger] t[i] != '\\' && !is_control(
            t[i],
        ) by {
            assert(t[i] == s[i + 1]);
        }
        clean_text_is_not_mended(t, if s[0] == '"' { !inside } else { inside });
        assert(s =~= seq![s[0]] + t);
    }
}

/// Outside a string nothing is mended; inside one an escape that JSON knows
/// stays, any other has its backslash escaped, and a control character is
/// escaped.
pub proof fn only_strings_are_mended(c: char, rest: Seq<char>)
    ensures
        c != '"' ==> repaired(seq![c] + rest, false) == seq![c] + repaired(rest, false),
        JSON_ESCAPES@.contains(c) ==> repaired(seq!['\\', c] + rest, true) == seq!['\\', c]
            + repaired(rest, true),
        !JSON_ESCAPES@.contains(c) && c != '\'' ==> repaired(seq!['\\', c] + rest, true) == seq![
            '\\',
            '\\',
            c,
        ] + repaired(rest, true),
        is_control(c) && c != '"' ==> repaired(seq![c] + rest, true) == control_escape(c)
            + repaired(rest, true),
        control_escape(c).len() > 0 && control_escape(c)[0] == '\\',
        control_escape('\n') == seq!['\\', 'n'],
{
    let one = seq![c] + rest;
    assert(one.drop_first() =~= rest);
    let two = seq!['\\', c] + rest;
    assert(two.skip(2) =~= rest);
    assert(two[0] == '\\' && two[1] == c);
    assert(!is_control('\\'));
}

} // verus!
