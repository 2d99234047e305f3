//! The pieces of a tool's JSON schema.

use vstd::prelude::*;

use crate::json::{Fields, Json, JsonV};

verus! {

/// A property of a given type.
pub open spec fn prop_v(kind: Seq<char>, description: Seq<char>) -> JsonV {
    JsonV::Obj(
        Seq::empty().push(("type"@, JsonV::Str(kind))).push(
            ("description"@, JsonV::Str(description)),
        ),
    )
}

/// A list of names.
pub open spec fn names_v(names: Seq<Seq<char>>) -> JsonV {
    JsonV::Arr(Seq::new(names.len(), |i: int| JsonV::Str(names[i])))
}

/// An object with these properties, none required.
pub open spec fn object_v(properties: Seq<(Seq<char>, JsonV)>) -> JsonV {
    JsonV::Obj(
        Seq::empty().push(("type"@, JsonV::Str("object"@))).push(
            ("properties"@, JsonV::Obj(properties)),
        ),
    )
}

/// An object with these properties, some required.
pub open spec fn object_with(
    properties: Seq<(Seq<char>, JsonV)>,
    required: Seq<Seq<char>>,
) -> JsonV {
    JsonV::Obj(
        Seq::empty().push(("type"@, JsonV::Str("object"@))).push(
            ("properties"@, JsonV::Obj(properties)),
        ).push(("required"@, names_v(required))),
    )
}

/// The definition of a tool.
pub open spec fn tool_v(name: Seq<char>, description: Seq<char>, parameters: JsonV) -> JsonV {
    JsonV::Obj(
        Seq::empty().push(("type"@, JsonV::Str("function"@))).push(
            (
                "function"@,
                JsonV::Obj(
                    Seq::empty().push(("name"@, JsonV::Str(name))).push(
                        ("description"@, JsonV::Str(description)),
                    ).push(("parameters"@, parameters)),
                ),
            ),
        ),
    )
}

/// A property of a given type.
pub fn prop(kind: &str, description: &str) -> (r: Json)
    ensures
        r@ == prop_v(kind@, description@),
{
    Fields::new().text("type", kind).text("description", description).json()
}

/// A list of names under construction.
pub struct Names {
    list: Vec<String>,
}

impl View for Names {
    type V = Seq<Seq<char>>;

    closed spec fn view(&self) -> Seq<Seq<char>> {
        crate::text::texts(self.list@)
    }
}

impl Names {
    /// No names yet.
    pub fn new() -> (r: Names)
        ensures
            r@ == Seq::<Seq<char>>::empty(),
    {
        let r = Names { list: Vec::new() };
        assert(r@ =~= Seq::<Seq<char>>::empty());
        r
    }

    /// One more name at the end.
    pub fn and(self, name: &str) -> (r: Names)
        ensures
            r@ == self@.push(name@),
    {
        let mut list = self.list;
        list.push(name.to_owned());
        let r = Names { list };
        assert(r@ =~= self@.push(name@));
        r
    }

    /// The finished list.
    pub fn json(self) -> (r: Json)
        ensures
            r@ == names_v(self@),
    {
        Json::texts(&self.list)
    }
}

/// An object with these properties, none required.
pub fn object(properties: Fields) -> (r: Json)
    ensures
        r@ == object_v(properties@),
{
    Fields::new().text("type", "object").with("properties", properties.json()).json()
}

/// An object with these properties, some required.
pub fn object_requiring(properties: Fields, required: Names) -> (r: Json)
    ensures
        r@ == object_with(properties@, required@),
{
    Fields::new().text("type", "object").with("properties", properties.json()).with(
        "required",
        required.json(),
    ).json()
}

/// The definition of a tool.
pub fn tool(name: &str, description: &str, parameters: Json) -> (r: Json)
    ensures
        r@ == tool_v(name@, description@, parameters@),
{
    let function = Fields::new().text("name", name).text("description", description).with(
        "parameters",
        parameters,
    ).json();
    Fields::new().text("type", "function").with("function", function).json()
}

/// The name a tool is defined under.
pub open spec fn name_in(def: JsonV) -> Option<Seq<char>> {
    match def.get("function"@) {
        Some(f) => f.text_at("name"@),
        None => None,
    }
}

/// A definition carries the name it was made with.
pub proof fn defined_name(name: Seq<char>, description: Seq<char>, parameters: JsonV)
    ensures
        name_in(tool_v(name, description, parameters)) == Some(name),
{
    let def = tool_v(name, description, parameters);
    let v = def->Obj_0;
    reveal_strlit("type");
    reveal_strlit("function");
    assert("type"@.len() != "function"@.len());
    assert(v.drop_first()[0] == v[1]);
    reveal_with_fuel(crate::json::lookup, 3);
    assert(def.get("function"@) == Some(v[1].1));
    let f = v[1].1->Obj_0;
    assert(f[0].0 == "name"@);
    assert(v[1].1.get("name"@) == Some(f[0].1));
}

/// The name a tool is defined under.
pub fn tool_name(def: &Json) -> (r: Option<&str>)
    ensures
        crate::text::opt_str(r) == name_in(def@),
{
    match def.get("function") {
        Some(f) => f.str_at("name"),
        None => None,
    }
}

} // verus!
