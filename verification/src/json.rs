//! JSON values as the harness reads and writes them.

use vstd::prelude::*;

use crate::text::same;

verus! {

/// A JSON value. Object members keep their order; a number that is not an
/// unsigned integer keeps only its text.
#[derive(Debug)]
pub enum Json {
    Null,
    Bool(bool),
    Number(u64),
    Other(String),
    Str(String),
    Array(Vec<Json>),
    Object(Vec<(String, Json)>),
}

/// The model of a JSON value.
#[verifier::ext_equal]
pub enum JsonV {
    Null,
    Bool(bool),
    Number(u64),
    Other(Seq<char>),
    Str(Seq<char>),
    Arr(Seq<JsonV>),
    Obj(Seq<(Seq<char>, JsonV)>),
}

/// The model of a JSON value.
pub open spec fn model(j: Json) -> JsonV
    decreases j, 0nat,
{
    match j {
        Json::Null => JsonV::Null,
        Json::Bool(b) => JsonV::Bool(b),
        Json::Number(n) => JsonV::Number(n),
        Json::Other(s) => JsonV::Other(s@),
        Json::Str(s) => JsonV::Str(s@),
        Json::Array(v) => JsonV::Arr(model_items(v, v@.len())),
        Json::Object(v) => JsonV::Obj(model_members(v, v@.len())),
    }
}

/// The models of the first `n` elements.
pub open spec fn model_items(v: Vec<Json>, n: nat) -> Seq<JsonV>
    decreases v, n,
{
    if n == 0 || n > v@.len() {
        seq![]
    } else {
        model_items(v, (n - 1) as nat).push(model(v@[n - 1]))
    }
}

/// The models of the first `n` members.
pub open spec fn model_members(v: Vec<(String, Json)>, n: nat) -> Seq<(Seq<char>, JsonV)>
    decreases v, n,
{
    if n == 0 || n > v@.len() {
        seq![]
    } else {
        model_members(v, (n - 1) as nat).push((v@[n - 1].0@, model(v@[n - 1].1)))
    }
}

impl View for Json {
    type V = JsonV;

    open spec fn view(&self) -> JsonV {
        model(*self)
    }
}

proof fn lemma_model_items(v: Vec<Json>, n: nat)
    requires
        n <= v@.len(),
    ensures
        model_items(v, n).len() == n,
        forall|i: int| 0 <= i < n ==> #[trigger] model_items(v, n)[i] == v@[i]@,
    decreases n,
{
    if n > 0 {
        lemma_model_items(v, (n - 1) as nat);
    }
}

proof fn lemma_model_members(v: Vec<(String, Json)>, n: nat)
    requires
        n <= v@.len(),
    ensures
        model_members(v, n).len() == n,
        forall|i: int|
            0 <= i < n ==> #[trigger] model_members(v, n)[i] == (v@[i].0@, v@[i].1@),
    decreases n,
{
    if n > 0 {
        lemma_model_members(v, (n - 1) as nat);
    }
}

/// The models of a list of values.
pub open spec fn items(v: Seq<Json>) -> Seq<JsonV> {
    Seq::new(v.len(), |i: int| v[i]@)
}

/// The models of a list of object members.
pub open spec fn members(v: Seq<(String, Json)>) -> Seq<(Seq<char>, JsonV)> {
    Seq::new(v.len(), |i: int| (v[i].0@, v[i].1@))
}

/// The model of an array is made of the models of its elements.
pub broadcast proof fn array_view(v: Vec<Json>)
    ensures
        #[trigger] model(Json::Array(v)) == JsonV::Arr(items(v@)),
{
    lemma_model_items(v, v@.len());
    assert(model_items(v, v@.len()) =~= items(v@));
}

/// The model of an object is made of the models of its members.
pub broadcast proof fn object_view(v: Vec<(String, Json)>)
    ensures
        #[trigger] model(Json::Object(v)) == JsonV::Obj(members(v@)),
{
    lemma_model_members(v, v@.len());
    assert(model_members(v, v@.len()) =~= members(v@));
}

/// The first member called `key`.
pub open spec fn lookup(v: Seq<(Seq<char>, JsonV)>, key: Seq<char>) -> Option<JsonV>
    decreases v.len(),
{
    if v.len() == 0 {
        None
    } else if v[0].0 == key {
        Some(v[0].1)
    } else {
        lookup(v.drop_first(), key)
    }
}

impl JsonV {
    /// The member called `key`, when this is an object that has one.
    pub open spec fn get(self, key: Seq<char>) -> Option<JsonV> {
        match self {
            JsonV::Obj(v) => lookup(v, key),
            _ => None,
        }
    }

    /// The text, when this is a string.
    pub open spec fn text(self) -> Option<Seq<char>> {
        match self {
            JsonV::Str(s) => Some(s),
            _ => None,
        }
    }

    /// The value, when this is an unsigned integer.
    pub open spec fn unsigned(self) -> Option<u64> {
        match self {
            JsonV::Number(n) => Some(n),
            _ => None,
        }
    }

    /// The value, when this is a boolean.
    pub open spec fn boolean(self) -> Option<bool> {
        match self {
            JsonV::Bool(b) => Some(b),
            _ => None,
        }
    }

    /// The elements, when this is an array.
    pub open spec fn elements(self) -> Option<Seq<JsonV>> {
        match self {
            JsonV::Arr(v) => Some(v),
            _ => None,
        }
    }

    /// The text of the member called `key`, when it is a string.
    pub open spec fn text_at(self, key: Seq<char>) -> Option<Seq<char>> {
        match self.get(key) {
            Some(v) => v.text(),
            None => None,
        }
    }

    /// The value of the member called `key`, when it is an unsigned integer.
    pub open spec fn unsigned_at(self, key: Seq<char>) -> Option<u64> {
        match self.get(key) {
            Some(v) => v.unsigned(),
            None => None,
        }
    }

    /// The value of the member called `key`, when it is a boolean.
    pub open spec fn boolean_at(self, key: Seq<char>) -> Option<bool> {
        match self.get(key) {
            Some(v) => v.boolean(),
            None => None,
        }
    }

    /// The elements of the member called `key`, when it is an array.
    pub open spec fn elements_at(self, key: Seq<char>) -> Option<Seq<JsonV>> {
        match self.get(key) {
            Some(v) => v.elements(),
            None => None,
        }
    }

    /// The object with its member `key` replaced, or added at the end.
    pub open spec fn with(self, key: Seq<char>, value: JsonV) -> JsonV {
        match self {
            JsonV::Obj(v) => JsonV::Obj(put(v, key, value)),
            other => other,
        }
    }
}

/// The members with the first one called `key` replaced, or one added at the end.
pub open spec fn put(v: Seq<(Seq<char>, JsonV)>, key: Seq<char>, value: JsonV) -> Seq<
    (Seq<char>, JsonV),
>
    decreases v.len(),
{
    if v.len() == 0 {
        seq![(key, value)]
    } else if v[0].0 == key {
        seq![(key, value)] + v.drop_first()
    } else {
        seq![v[0]] + put(v.drop_first(), key, value)
    }
}

/// A member that was put is the one that is found.
pub proof fn put_then_lookup(v: Seq<(Seq<char>, JsonV)>, key: Seq<char>, value: JsonV)
    ensures
        lookup(put(v, key, value), key) == Some(value),
    decreases v.len(),
{
    if v.len() > 0 && v[0].0 != key {
        put_then_lookup(v.drop_first(), key, value);
        assert(put(v, key, value).drop_first() =~= put(v.drop_first(), key, value));
    }
}

/// Putting one member leaves what every other key finds.
pub proof fn put_keeps_others(
    v: Seq<(Seq<char>, JsonV)>,
    key: Seq<char>,
    value: JsonV,
    other: Seq<char>,
)
    requires
        other != key,
    ensures
        lookup(put(v, key, value), other) == lookup(v, other),
    decreases v.len(),
{
    let w = put(v, key, value);
    if v.len() == 0 {
        assert(w.drop_first() =~= v);
    } else if v[0].0 == key {
        assert(w.drop_first() =~= v.drop_first());
    } else {
        put_keeps_others(v.drop_first(), key, value, other);
        assert(w.drop_first() =~= put(v.drop_first(), key, value));
    }
}

/// With one more member at the end a key finds what it found before, or else
/// the new member when it has that key.
pub broadcast proof fn found_after_push(
    v: Seq<(Seq<char>, JsonV)>,
    m: (Seq<char>, JsonV),
    key: Seq<char>,
)
    ensures
        #[trigger] lookup(v.push(m), key) == if lookup(v, key) is Some {
            lookup(v, key)
        } else if m.0 == key {
            Some(m.1)
        } else {
            None
        },
    decreases v.len(),
{
    let w = v.push(m);
    if v.len() == 0 {
        assert(w.drop_first() =~= v);
        assert(w[0] == m);
    } else {
        found_after_push(v.drop_first(), m, key);
        assert(w[0] == v[0]);
        assert(w.drop_first() =~= v.drop_first().push(m));
    }
}

/// Nothing is found among no members.
pub broadcast proof fn nothing_in_nothing(key: Seq<char>)
    ensures
        #[trigger] lookup(Seq::empty(), key) is None,
{
}

/// The members with the first one called `key` replaced, or one added at the end.
pub fn put_member(v: Vec<(String, Json)>, key: &str, value: Json) -> (r: Vec<(String, Json)>)
    ensures
        members(r@) == put(members(v@), key@, value@),
{
    let mut v = v;
    let ghost all = members(v@);
    let mut i: usize = 0;
    while i < v.len() && !same(v[i].0.as_str(), key)
        invariant
            i <= v@.len(),
            all == members(v@),
            forall|k: int| 0 <= k < i ==> (#[trigger] all[k]).0 != key@,
        decreases v.len() - i,
    {
        i += 1;
    }
    proof {
        lemma_put_at(all, key@, value@, i as int);
    }
    if i < v.len() {
        v.set(i, (key.to_owned(), value));
    } else {
        v.push((key.to_owned(), value));
    }
    assert(members(v@) =~= put(all, key@, value@));
    v
}

/// True when no two members share a key.
pub open spec fn unique_keys(v: Seq<(Seq<char>, JsonV)>) -> bool {
    forall|i: int, j: int|
        0 <= i < j < v.len() ==> (#[trigger] v[i]).0 != (#[trigger] v[j]).0
}

/// Putting a member leaves the keys unique.
pub proof fn put_keeps_keys_unique(v: Seq<(Seq<char>, JsonV)>, key: Seq<char>, value: JsonV)
    requires
        unique_keys(v),
    ensures
        unique_keys(put(v, key, value)),
{
    let n = lemma_place(v, key);
    lemma_put_at(v, key, value, n);
}

proof fn lemma_place(v: Seq<(Seq<char>, JsonV)>, key: Seq<char>) -> (n: int)
    ensures
        0 <= n <= v.len(),
        forall|k: int| 0 <= k < n ==> (#[trigger] v[k]).0 != key,
        n == v.len() || v[n].0 == key,
    decreases v.len(),
{
    if v.len() == 0 || v[0].0 == key {
        0
    } else {
        let rest = v.drop_first();
        let m = lemma_place(rest, key);
        assert forall|k: int| 0 <= k < m + 1 implies (#[trigger] v[k]).0 != key by {
            if k > 0 {
                assert(rest[k - 1] == v[k]);
            }
        }
        if m < rest.len() {
            assert(rest[m] == v[m + 1]);
        }
        m + 1
    }
}

proof fn lemma_lookup_at(v: Seq<(Seq<char>, JsonV)>, key: Seq<char>, n: int)
    requires
        0 <= n <= v.len(),
        forall|k: int| 0 <= k < n ==> (#[trigger] v[k]).0 != key,
        n == v.len() || v[n].0 == key,
    ensures
        n == v.len() ==> lookup(v, key) is None,
        n < v.len() ==> lookup(v, key) == Some(v[n].1),
    decreases n,
{
    if n > 0 {
        assert(v[0].0 != key);
        assert forall|k: int| 0 <= k < n - 1 implies (#[trigger] v.drop_first()[k]).0 != key by {
            assert(v.drop_first()[k] == v[k + 1]);
        }
        lemma_lookup_at(v.drop_first(), key, n - 1);
    }
}

proof fn lemma_put_at(v: Seq<(Seq<char>, JsonV)>, key: Seq<char>, value: JsonV, n: int)
    requires
        0 <= n <= v.len(),
        forall|k: int| 0 <= k < n ==> (#[trigger] v[k]).0 != key,
        n == v.len() || v[n].0 == key,
    ensures
        n < v.len() ==> put(v, key, value) == v.update(n, (key, value)),
        n == v.len() ==> put(v, key, value) == v.push((key, value)),
    decreases n,
{
    if n > 0 {
        assert(v[0].0 != key);
        assert forall|k: int| 0 <= k < n - 1 implies (#[trigger] v.drop_first()[k]).0 != key by {
            assert(v.drop_first()[k] == v[k + 1]);
        }
        lemma_put_at(v.drop_first(), key, value, n - 1);
    }
    if n < v.len() {
        assert(put(v, key, value) =~= v.update(n, (key, value)));
    } else {
        assert(put(v, key, value) =~= v.push((key, value)));
    }
}

impl Json {
    /// A JSON string.
    pub fn text(s: &str) -> (r: Json)
        ensures
            r@ == JsonV::Str(s@),
    {
        Json::Str(s.to_owned())
    }

    /// A JSON string, or null.
    pub fn opt_text(s: &Option<String>) -> (r: Json)
        ensures
            r@ == opt_value(crate::text::opt(*s)),
    {
        match s {
            Some(t) => Json::Str(t.clone()),
            None => Json::Null,
        }
    }

    /// A JSON array.
    pub fn array(v: Vec<Json>) -> (r: Json)
        ensures
            r@ == JsonV::Arr(items(v@)),
    {
        broadcast use {array_view, object_view};
        let r = Json::Array(v);
        assert(r@->Arr_0 =~= items(v@));
        r
    }

    /// A JSON array of strings.
    pub fn texts(v: &Vec<String>) -> (r: Json)
        ensures
            r@ == text_array(crate::text::texts(v@)),
    {
        let mut out: Vec<Json> = Vec::new();
        let mut i: usize = 0;
        while i < v.len()
            invariant
                i <= v@.len(),
                out@.len() == i,
                forall|k: int| 0 <= k < i ==> #[trigger] out@[k]@ == JsonV::Str(v@[k]@),
            decreases v.len() - i,
        {
            out.push(Json::Str(v[i].clone()));
            i += 1;
        }
        let r = Json::array(out);
        assert(r@->Arr_0 =~= text_array(crate::text::texts(v@))->Arr_0);
        r
    }

    /// The member called `key`, when this is an object that has one.
    pub fn get(&self, key: &str) -> (r: Option<&Json>)
        ensures
            r is Some <==> self@.get(key@) is Some,
            r is Some ==> self@.get(key@) == Some(r.unwrap()@),
    {
        broadcast use {array_view, object_view};
        match self {
            Json::Object(v) => {
                let ghost all = self@->Obj_0;
                let mut i: usize = 0;
                while i < v.len()
                    invariant
                        i <= v@.len(),
                        all =~= members(v@),
                        self@ == JsonV::Obj(all),
                        forall|k: int| 0 <= k < i ==> (#[trigger] all[k]).0 != key@,
                    decreases v.len() - i,
                {
                    if same(v[i].0.as_str(), key) {
                        proof {
                            lemma_lookup_at(all, key@, i as int);
                        }
                        return Some(&v[i].1);
                    }
                    i += 1;
                }
                proof {
                    lemma_lookup_at(all, key@, i as int);
                }
                None
            },
            _ => None,
        }
    }

    /// The text, when this is a string.
    pub fn as_str(&self) -> (r: Option<&str>)
        ensures
            crate::text::opt_str(r) == self@.text(),
    {
        match self {
            Json::Str(s) => Some(s.as_str()),
            _ => None,
        }
    }

    /// The value, when this is an unsigned integer.
    pub fn as_u64(&self) -> (r: Option<u64>)
        ensures
            r == self@.unsigned(),
    {
        match self {
            Json::Number(n) => Some(*n),
            _ => None,
        }
    }

    /// The value, when this is a boolean.
    pub fn as_bool(&self) -> (r: Option<bool>)
        ensures
            r == self@.boolean(),
    {
        match self {
            Json::Bool(b) => Some(*b),
            _ => None,
        }
    }

    /// The elements, when this is an array.
    pub fn as_array(&self) -> (r: Option<&Vec<Json>>)
        ensures
            r is Some <==> self@.elements() is Some,
            r is Some ==> self@.elements() == Some(items(r.unwrap()@)),
    {
        broadcast use {array_view, object_view};
        match self {
            Json::Array(v) => {
                assert(self@->Arr_0 =~= items(v@));
                Some(v)
            },
            _ => None,
        }
    }

    /// The members, when this is an object.
    pub fn as_object(&self) -> (r: Option<&Vec<(String, Json)>>)
        ensures
            r is Some <==> self@ is Obj,
            r is Some ==> self@ == JsonV::Obj(members(r.unwrap()@)),
    {
        broadcast use {array_view, object_view};
        match self {
            Json::Object(v) => {
                assert(self@->Obj_0 =~= members(v@));
                Some(v)
            },
            _ => None,
        }
    }

    /// The text of the member called `key`, when it is a string.
    pub fn str_at(&self, key: &str) -> (r: Option<&str>)
        ensures
            crate::text::opt_str(r) == self@.text_at(key@),
    {
        match self.get(key) {
            Some(v) => v.as_str(),
            None => None,
        }
    }

    /// The value of the member called `key`, when it is an unsigned integer.
    pub fn u64_at(&self, key: &str) -> (r: Option<u64>)
        ensures
            r == self@.unsigned_at(key@),
    {
        match self.get(key) {
            Some(v) => v.as_u64(),
            None => None,
        }
    }

    /// The value of the member called `key`, when it is a boolean.
    pub fn bool_at(&self, key: &str) -> (r: Option<bool>)
        ensures
            r == self@.boolean_at(key@),
    {
        match self.get(key) {
            Some(v) => v.as_bool(),
            None => None,
        }
    }

    /// The elements of the member called `key`, when it is an array.
    pub fn array_at(&self, key: &str) -> (r: Option<&Vec<Json>>)
        ensures
            r is Some <==> self@.elements_at(key@) is Some,
            r is Some ==> self@.elements_at(key@) == Some(items(r.unwrap()@)),
    {
        match self.get(key) {
            Some(v) => v.as_array(),
            None => None,
        }
    }

    /// A value with the same contents.
    pub fn copy(&self) -> (r: Json)
        ensures
            r@ == self@,
        decreases self,
    {
        broadcast use {array_view, object_view};
        match self {
            Json::Null => Json::Null,
            Json::Bool(b) => Json::Bool(*b),
            Json::Number(n) => Json::Number(*n),
            Json::Other(s) => Json::Other(s.clone()),
            Json::Str(s) => Json::Str(s.clone()),
            Json::Array(v) => {
                let mut out: Vec<Json> = Vec::new();
                let mut i: usize = 0;
                while i < v.len()
                    invariant
                        i <= v@.len(),
                        decreases_to!(self => v),
                        out@.len() == i,
                        forall|k: int| 0 <= k < i ==> #[trigger] out@[k]@ == v@[k]@,
                    decreases v.len() - i,
                {
                    out.push(v[i].copy());
                    i += 1;
                }
                let r = Json::Array(out);
                assert(r@->Arr_0 =~= self@->Arr_0);
                r
            },
            Json::Object(v) => {
                let mut out: Vec<(String, Json)> = Vec::new();
                let mut i: usize = 0;
                while i < v.len()
                    invariant
                        i <= v@.len(),
                        decreases_to!(self => v),
                        out@.len() == i,
                        forall|k: int|
                            0 <= k < i ==> (#[trigger] out@[k]).0@ == v@[k].0@ && out@[k].1@
                                == v@[k].1@,
                    decreases v.len() - i,
                {
                    out.push((v[i].0.clone(), v[i].1.copy()));
                    i += 1;
                }
                let r = Json::Object(out);
                assert(r@->Obj_0 =~= self@->Obj_0);
                r
            },
        }
    }

    /// The object with its member `key` replaced, or added at the end; any
    /// other value unchanged.
    pub fn set(self, key: &str, value: Json) -> (r: Json)
        ensures
            r@ == self@.with(key@, value@),
    {
        broadcast use {array_view, object_view};
        match self {
            Json::Object(v) => {
                let ghost all = members(v@);
                assert(self@->Obj_0 =~= all);
                let v = put_member(v, key, value);
                let r = Json::Object(v);
                assert(r@->Obj_0 =~= put(all, key@, value@));
                r
            },
            other => other,
        }
    }
}

/// A JSON string, or null.
pub open spec fn opt_value(s: Option<Seq<char>>) -> JsonV {
    match s {
        Some(t) => JsonV::Str(t),
        None => JsonV::Null,
    }
}

/// A JSON array of strings.
pub open spec fn text_array(v: Seq<Seq<char>>) -> JsonV {
    JsonV::Arr(Seq::new(v.len(), |i: int| JsonV::Str(v[i])))
}

/// An object under construction.
pub struct Fields {
    list: Vec<(String, Json)>,
}

impl View for Fields {
    type V = Seq<(Seq<char>, JsonV)>;

    closed spec fn view(&self) -> Seq<(Seq<char>, JsonV)> {
        members(self.list@)
    }
}

impl Fields {
    /// No members yet.
    pub fn new() -> (r: Fields)
        ensures
            r@ == Seq::<(Seq<char>, JsonV)>::empty(),
    {
        let r = Fields { list: Vec::new() };
        assert(r@ =~= Seq::<(Seq<char>, JsonV)>::empty());
        r
    }

    /// One more member at the end.
    pub fn with(self, key: &str, value: Json) -> (r: Fields)
        ensures
            r@ == self@.push((key@, value@)),
    {
        let mut list = self.list;
        list.push((key.to_owned(), value));
        let r = Fields { list };
        assert(r@ =~= self@.push((key@, value@)));
        r
    }

    /// One more member at the end, holding a string.
    pub fn text(self, key: &str, value: &str) -> (r: Fields)
        ensures
            r@ == self@.push((key@, JsonV::Str(value@))),
    {
        self.with(key, Json::text(value))
    }

    /// The finished object.
    pub fn json(self) -> (r: Json)
        ensures
            r@ == JsonV::Obj(self@),
    {
        broadcast use {array_view, object_view};
        let r = Json::Object(self.list);
        assert(r@->Obj_0 =~= self@);
        r
    }
}

/// A list of values with the same contents.
pub fn copy_items(v: &Vec<Json>) -> (r: Vec<Json>)
    ensures
        items(r@) == items(v@),
{
    let mut out: Vec<Json> = Vec::new();
    let mut i: usize = 0;
    while i < v.len()
        invariant
            i <= v@.len(),
            out@.len() == i,
            forall|k: int| 0 <= k < i ==> #[trigger] out@[k]@ == v@[k]@,
        decreases v.len() - i,
    {
        out.push(v[i].copy());
        i += 1;
    }
    assert(items(out@) =~= items(v@));
    out
}

/// A chat message on the wire.
pub open spec fn message(role: Seq<char>, content: JsonV) -> JsonV {
    JsonV::Obj(
        Seq::empty().push(("role"@, JsonV::Str(role))).push(("content"@, content)),
    )
}

/// A chat message on the wire.
pub fn message_json(role: &str, content: Json) -> (r: Json)
    ensures
        r@ == message(role@, content@),
{
    Fields::new().text("role", role).with("content", content).json()
}

} // verus!
