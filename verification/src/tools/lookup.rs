//! Lookups: several in one call, the same one twice, and the ones never shown.

use vstd::prelude::*;

use crate::json::{items, lookup, Json, JsonV};
use crate::json_text::{
    canonical, canonical_json, json_text, member_order_does_not_matter, read_json, weight,
    weight_items, weight_members,
};
use crate::message::{calls, CallV, ToolCall};
use crate::rounds::{is_read_tool, read_tool, READ_TOOL_LIST};
use crate::text::affix::{trim_end, trimmed_end};
use crate::text::number::{dec, decimal_usize};
use crate::text::order::keyed_once;
use crate::text::{cat3, cat5, contains_text, pairs, same, texts};

verus! {

/// The lookups whose repetition is answered with a pointer to the first answer.
pub open spec fn is_deduped(name: Seq<char>) -> bool {
    name == "list_files"@ || name == "search_files"@ || name == "find_files"@ || name == "explore"@
}

/// What two calls share when they ask the same thing: the tool, and its
/// arguments whatever the order of their members.
pub open spec fn lookup_key(name: Seq<char>, arguments: Seq<char>) -> Seq<char> {
    name + ":"@ + (match json_text(arguments) {
        Ok(v) => canonical(v),
        Err(_) => arguments,
    })
}

/// The same arguments in another order are the same lookup.
pub proof fn reordered_arguments_are_recognised(
    name: Seq<char>,
    a: Seq<char>,
    b: Seq<char>,
    v: Seq<(Seq<char>, JsonV)>,
    w: Seq<(Seq<char>, JsonV)>,
)
    requires
        json_text(a) == Ok::<JsonV, Seq<char>>(JsonV::Obj(v)),
        json_text(b) == Ok::<JsonV, Seq<char>>(JsonV::Obj(w)),
        keyed_once(v),
        v.to_multiset() == w.to_multiset(),
    ensures
        lookup_key(name, a) == lookup_key(name, b),
{
    member_order_does_not_matter(v, w);
}

/// The lookups of a turn since the last call that was none.
pub struct Lookups {
    keys: Vec<String>,
}

impl View for Lookups {
    type V = Set<Seq<char>>;

    closed spec fn view(&self) -> Set<Seq<char>> {
        texts(self.keys@).to_set()
    }
}

impl Lookups {
    /// No lookups yet.
    pub fn new() -> (r: Lookups)
        ensures
            r@ == Set::<Seq<char>>::empty(),
    {
        let r = Lookups { keys: Vec::new() };
        assert(r@ =~= Set::<Seq<char>>::empty());
        r
    }

    /// Note a lookup by its key. True when it was there already.
    pub fn insert(&mut self, key: String) -> (r: bool)
        ensures
            r == old(self)@.contains(key@),
            final(self)@ == old(self)@.insert(key@),
    {
        let ghost had = texts(self.keys@);
        if contains_text(&self.keys, key.as_str()) {
            assert(had.to_set().insert(key@) =~= had.to_set());
            return true;
        }
        self.keys.push(key);
        proof {
            let now = texts(self.keys@);
            assert(now =~= had.push(key@));
            assert forall|k: Seq<char>| now.to_set().contains(k) <==> #[trigger] had.to_set().insert(
                key@,
            ).contains(k) by {
                if had.contains(k) {
                    let i = choose|i: int| 0 <= i < had.len() && had[i] == k;
                    assert(now[i] == k);
                }
                assert(now[had.len() as int] == key@);
            }
            assert(now.to_set() =~= had.to_set().insert(key@));
        }
        false
    }
}

/// The lookups of a turn once a call is noted, and whether it repeats one.
pub open spec fn lookup_noted(
    seen: Set<Seq<char>>,
    name: Seq<char>,
    arguments: Seq<char>,
) -> (Set<Seq<char>>, bool) {
    if is_deduped(name) {
        let key = lookup_key(name, arguments);
        (seen.insert(key), seen.contains(key))
    } else {
        (Set::empty(), false)
    }
}

/// A lookup made again is a repeat as long as only lookups came between; any
/// other call makes every lookup new again, and is no repeat itself.
pub proof fn a_lookup_is_a_repeat_until_something_happens(
    seen: Set<Seq<char>>,
    name: Seq<char>,
    arguments: Seq<char>,
    between: Seq<char>,
    other: Seq<char>,
)
    requires
        name == "list_files"@ || name == "search_files"@ || name == "find_files"@ || name
            == "explore"@,
    ensures
        ({
            let first = lookup_noted(seen, name, arguments);
            let then = lookup_noted(first.0, between, other);
            let again = lookup_noted(then.0, name, arguments);
            &&& first.1 <==> seen.contains(lookup_key(name, arguments))
            &&& is_deduped(between) ==> again.1
            &&& !is_deduped(between) ==> !again.1 && !then.1
            &&& is_deduped(between) && lookup_key(between, other) != lookup_key(name, arguments)
                ==> (then.1 <==> seen.contains(lookup_key(between, other)))
        }),
{
}

/// Note a call, and say whether it repeats a lookup that is still above. Any
/// call that is no such lookup forgets them all.
pub fn is_repeat_lookup(seen: &mut Lookups, name: &str, arguments: &str) -> (r: bool)
    ensures
        is_deduped(name@) ==> r == old(seen)@.contains(lookup_key(name@, arguments@)),
        is_deduped(name@) ==> final(seen)@ == old(seen)@.insert(lookup_key(name@, arguments@)),
        !is_deduped(name@) ==> !r && final(seen)@ == Set::<Seq<char>>::empty(),
        (final(seen)@, r) == lookup_noted(old(seen)@, name@, arguments@),
{
    if !(same(name, "list_files") || same(name, "search_files") || same(name, "find_files")
        || same(name, "explore")) {
        *seen = Lookups::new();
        return false;
    }
    let shape = match read_json(arguments) {
        Ok(v) => canonical_json(&v),
        Err(_) => arguments.to_owned(),
    };
    seen.insert(cat3(name, ":", shape.as_str()))
}

/// What stands in for a repeated lookup's result.
pub open spec fn repeat_text(name: Seq<char>) -> Seq<char> {
    "[identical "@ + name + " call earlier in this turn — scroll up for the result]"@
}

/// What stands in for a repeated lookup's result.
pub fn repeat_pointer(name: &str) -> (r: String)
    ensures
        r@ == repeat_text(name@),
{
    cat3("[identical ", name, " call earlier in this turn — scroll up for the result]")
}

/// The positions of the calls that are lookups, among the first `n`.
pub open spec fn read_positions(v: Seq<CallV>, n: nat) -> Seq<usize>
    decreases n,
{
    if n == 0 || n > v.len() {
        Seq::empty()
    } else if is_read_tool(v[n - 1].name) {
        read_positions(v, (n - 1) as nat).push((n - 1) as usize)
    } else {
        read_positions(v, (n - 1) as nat)
    }
}

/// The calls that run side by side: the lookups, when there are at least two.
pub open spec fn side_by_side(v: Seq<CallV>) -> Seq<usize> {
    let reads = read_positions(v, v.len());
    if reads.len() > 1 {
        reads
    } else {
        Seq::empty()
    }
}

/// The calls that run side by side.
pub fn parallel_reads(v: &Vec<ToolCall>) -> (r: Vec<usize>)
    ensures
        r@ == side_by_side(calls(v@)),
{
    let ghost all = calls(v@);
    let mut out: Vec<usize> = Vec::new();
    let mut i: usize = 0;
    while i < v.len()
        invariant
            i <= v@.len(),
            all == calls(v@),
            out@ == read_positions(all, i as nat),
        decreases v.len() - i,
    {
        if read_tool(v[i].name.as_str()) {
            out.push(i);
        }
        i += 1;
    }
    if out.len() > 1 {
        out
    } else {
        Vec::new()
    }
}

/// The steps of an `explore` call: a list, or a string that holds one.
pub open spec fn steps_of(a: JsonV) -> Option<Seq<JsonV>> {
    match a.get("steps"@) {
        Some(JsonV::Arr(v)) => Some(v),
        Some(JsonV::Str(raw)) => match json_text(raw) {
            Ok(JsonV::Arr(v)) => Some(v),
            _ => None,
        },
        _ => None,
    }
}

/// The tool a step names, under either of two keys.
pub open spec fn tool_of(step: JsonV) -> Seq<char> {
    match step.text_at("tool"@) {
        Some(t) => t,
        None => match step.text_at("name"@) {
            Some(t) => t,
            None => Seq::empty(),
        },
    }
}

/// The arguments under one key: an object, or a string that holds JSON.
pub open spec fn args_under(step: JsonV, key: Seq<char>) -> Option<JsonV> {
    match step.get(key) {
        Some(JsonV::Obj(v)) => Some(JsonV::Obj(v)),
        Some(JsonV::Str(raw)) => match json_text(raw) {
            Ok(v) => Some(v),
            Err(_) => None,
        },
        _ => None,
    }
}

/// The arguments of a step, under the first of four keys that has any; an empty
/// object when none has.
pub open spec fn args_of(step: JsonV) -> JsonV {
    match args_under(step, "args"@) {
        Some(v) => v,
        None => match args_under(step, "arguments"@) {
            Some(v) => v,
            None => match args_under(step, "input"@) {
                Some(v) => v,
                None => match args_under(step, "parameters"@) {
                    Some(v) => v,
                    None => JsonV::Obj(Seq::empty()),
                },
            },
        },
    }
}

proof fn lemma_member_weight(v: Seq<(Seq<char>, JsonV)>, n: nat, i: int)
    requires
        0 <= i < n <= v.len(),
    ensures
        weight_members(v, n) >= v[i].0.len() + 2 + weight(v[i].1),
    decreases n,
{
    if i < n - 1 {
        lemma_member_weight(v, (n - 1) as nat, i);
    }
}

proof fn lemma_item_weight(v: Seq<JsonV>, n: nat, i: int)
    requires
        0 <= i < n <= v.len(),
    ensures
        weight_items(v, n) >= weight(v[i]),
    decreases n,
{
    if i < n - 1 {
        lemma_item_weight(v, (n - 1) as nat, i);
    }
}

proof fn lemma_lookup_index(v: Seq<(Seq<char>, JsonV)>, key: Seq<char>)
    requires
        lookup(v, key) is Some,
    ensures
        exists|i: int| 0 <= i < v.len() && #[trigger] v[i] == (key, lookup(v, key).unwrap()),
    decreases v.len(),
{
    if v[0].0 == key {
        assert(v[0] == (key, lookup(v, key).unwrap()));
    } else {
        lemma_lookup_index(v.drop_first(), key);
        let i = choose|i: int|
            0 <= i < v.drop_first().len() && #[trigger] v.drop_first()[i] == (
                key,
                lookup(v, key).unwrap(),
            );
        assert(v[i + 1] == (key, lookup(v, key).unwrap()));
    }
}

proof fn lemma_get_weight(a: JsonV, key: Seq<char>)
    requires
        a.get(key) is Some,
    ensures
        weight(a) >= 4 + weight(a.get(key).unwrap()),
{
    let v = a->Obj_0;
    lemma_lookup_index(v, key);
    let i = choose|i: int| 0 <= i < v.len() && #[trigger] v[i] == (key, lookup(v, key).unwrap());
    lemma_member_weight(v, v.len(), i);
}

/// The steps of an `explore` call.
pub fn steps_array(a: &Json) -> (r: Option<Vec<Json>>)
    ensures
        r is Some <==> steps_of(a@) is Some,
        r is Some ==> steps_of(a@) == Some(items(r.unwrap()@)),
        r is Some ==> 2 + weight_items(items(r.unwrap()@), r.unwrap()@.len()) + 4 <= weight(a@),
{
    broadcast use crate::json::array_view;

    match a.get("steps") {
        Some(found) => {
            proof {
                lemma_get_weight(a@, "steps"@);
            }
            match found {
                Json::Array(v) => Some(crate::json::copy_items(v)),
                Json::Str(raw) => match read_json(raw.as_str()) {
                    Ok(parsed) => match parsed {
                        Json::Array(v) => Some(v),
                        _ => None,
                    },
                    Err(_) => None,
                },
                _ => None,
            }
        },
        None => None,
    }
}

/// The tool a step names.
pub fn step_tool(step: &Json) -> (r: String)
    ensures
        r@ == tool_of(step@),
{
    match step.str_at("tool") {
        Some(t) => t.to_owned(),
        None => match step.str_at("name") {
            Some(t) => t.to_owned(),
            None => {
                let r = String::new();
                assert(r@ =~= Seq::empty());
                r
            },
        },
    }
}

fn args_at(step: &Json, key: &str) -> (r: Option<Json>)
    ensures
        r is Some <==> args_under(step@, key@) is Some,
        r is Some ==> args_under(step@, key@) == Some(r.unwrap()@),
        r is Some ==> weight(r.unwrap()@) < weight(step@),
{
    broadcast use {crate::json::array_view, crate::json::object_view};

    match step.get(key) {
        Some(found) => {
            proof {
                lemma_get_weight(step@, key@);
            }
            match found {
                Json::Object(_) => Some(found.copy()),
                Json::Str(raw) => match read_json(raw.as_str()) {
                    Ok(parsed) => Some(parsed),
                    Err(_) => None,
                },
                _ => None,
            }
        },
        None => None,
    }
}

/// The arguments of a step.
pub fn step_args(step: &Json) -> (r: Json)
    ensures
        r@ == args_of(step@),
        weight(r@) <= 2 || weight(r@) < weight(step@),
{
    match args_at(step, "args") {
        Some(v) => return v,
        None => {},
    }
    match args_at(step, "arguments") {
        Some(v) => return v,
        None => {},
    }
    match args_at(step, "input") {
        Some(v) => return v,
        None => {},
    }
    match args_at(step, "parameters") {
        Some(v) => return v,
        None => {},
    }
    let none = crate::json::Fields::new().json();
    assert(weight(none@) == 2);
    none
}

/// What is said about a step that did not run.
pub open spec fn refused_text(tool: Seq<char>) -> Seq<char> {
    if tool.len() == 0 {
        "no tool named; every step is {\"tool\": one of "@ + READ_TOOL_LIST@
            + ", \"args\": {...}}"@
    } else if !is_read_tool(tool) {
        "`"@ + tool + "` is not a lookup; call it on its own"@
    } else {
        "`"@ + tool + "` did not run in the batch (its `args` were missing or malformed); \
         call it on its own"@
    }
}

/// What is said about a step that did not run.
pub fn step_refused(tool: &str) -> (r: String)
    ensures
        r@ == refused_text(tool@),
{
    if tool.is_empty() {
        return cat3(
            "no tool named; every step is {\"tool\": one of ",
            READ_TOOL_LIST,
            ", \"args\": {...}}",
        );
    }
    if !read_tool(tool) {
        return cat3("`", tool, "` is not a lookup; call it on its own");
    }
    cat3(
        "`",
        tool,
        "` did not run in the batch (its `args` were missing or malformed); \
         call it on its own",
    )
}

/// The first of five keys that has a text.
pub open spec fn detail_of(a: JsonV) -> Option<Seq<char>> {
    if a.text_at("path"@) is Some {
        a.text_at("path"@)
    } else if a.text_at("query"@) is Some {
        a.text_at("query"@)
    } else if a.text_at("pattern"@) is Some {
        a.text_at("pattern"@)
    } else if a.text_at("dir"@) is Some {
        a.text_at("dir"@)
    } else {
        a.text_at("name"@)
    }
}

/// How a step is labelled: its tool and what it looks at.
pub open spec fn label_of(tool: Seq<char>, a: JsonV) -> Seq<char> {
    match detail_of(a) {
        Some(d) => tool + " "@ + d,
        None => tool,
    }
}

/// How a step is labelled.
pub fn step_label(tool: &str, a: &Json) -> (r: String)
    ensures
        r@ == label_of(tool@, a@),
{
    let detail = match a.str_at("path") {
        Some(d) => Some(d),
        None => match a.str_at("query") {
            Some(d) => Some(d),
            None => match a.str_at("pattern") {
                Some(d) => Some(d),
                None => match a.str_at("dir") {
                    Some(d) => Some(d),
                    None => a.str_at("name"),
                },
            },
        },
    };
    match detail {
        Some(d) => cat3(tool, " ", d),
        None => tool.to_owned(),
    }
}

/// One step of an `explore` call.
pub struct Step {
    pub label: String,
    pub tool: String,
    pub args: Json,
}

/// The models of the steps: label, tool, arguments.
pub open spec fn steps_view(v: Seq<Step>) -> Seq<(Seq<char>, Seq<char>, JsonV)> {
    Seq::new(v.len(), |i: int| (v[i].label@, v[i].tool@, v[i].args@))
}

/// The steps to run: label, tool and arguments of each.
pub open spec fn planned(steps: Seq<JsonV>) -> Seq<(Seq<char>, Seq<char>, JsonV)> {
    Seq::new(
        steps.len(),
        |i: int| (label_of(tool_of(steps[i]), args_of(steps[i])), tool_of(steps[i]), args_of(steps[i])),
    )
}

/// What is answered to an `explore` call without steps.
pub open spec fn no_steps_text() -> Seq<char> {
    "no `steps` array given; send the lookups you need as an array of \
             {\"tool\": one of "@ + READ_TOOL_LIST@ + ", \"args\": {…}} objects, in the order you \
             want them reported"@
}

/// What is answered to an `explore` call with an empty list of steps.
pub const EMPTY_STEPS: &'static str = "`steps` was empty; add at least one lookup, or call the single \
             lookup tool directly instead";

/// The steps of an `explore` call, or what is answered when there are none.
pub fn explore(a: &Json) -> (r: Result<Vec<Step>, String>)
    ensures
        match steps_of(a@) {
            None => r is Err && r->Err_0@ == no_steps_text(),
            Some(steps) => if steps.len() == 0 {
                r is Err && r->Err_0@ == EMPTY_STEPS@
            } else {
                r is Ok && steps_view(r->Ok_0@) == planned(steps)
            },
        },
{
    let steps = match steps_array(a) {
        Some(steps) => steps,
        None => {
            return Err(
                cat3(
                    "no `steps` array given; send the lookups you need as an array of \
             {\"tool\": one of ",
                    READ_TOOL_LIST,
                    ", \"args\": {…}} objects, in the order you \
             want them reported",
                ),
            );
        },
    };
    if steps.len() == 0 {
        return Err(EMPTY_STEPS.to_owned());
    }
    let ghost all = items(steps@);
    let mut out: Vec<Step> = Vec::new();
    let mut i: usize = 0;
    while i < steps.len()
        invariant
            i <= steps@.len(),
            all == items(steps@),
            out@.len() == i,
            forall|k: int|
                0 <= k < i ==> (#[trigger] out@[k]).tool@ == tool_of(all[k]) && out@[k].args@
                    == args_of(all[k]) && out@[k].label@ == label_of(
                    tool_of(all[k]),
                    args_of(all[k]),
                ),
        decreases steps.len() - i,
    {
        let tool = step_tool(&steps[i]);
        let args = step_args(&steps[i]);
        let label = step_label(tool.as_str(), &args);
        out.push(Step { label, tool, args });
        i += 1;
    }
    assert(steps_view(out@) =~= planned(all));
    Ok(out)
}

/// The first `n` results of an `explore` call, each under its number and label.
pub open spec fn results_text(v: Seq<(Seq<char>, Seq<char>)>, n: nat) -> Seq<char>
    decreases n,
{
    if n == 0 || n > v.len() {
        Seq::empty()
    } else {
        results_text(v, (n - 1) as nat) + (if n > 1 {
            "\n"@
        } else {
            Seq::empty()
        }) + ("["@ + dec(n) + "] "@ + v[n - 1].0 + "\n"@) + v[n - 1].1 + "\n"@
    }
}

/// What an `explore` call answers, given the label and text of each result.
pub fn explore_report(results: &Vec<(String, String)>) -> (r: String)
    ensures
        r@ == trimmed_end(results_text(pairs(results@), results@.len())),
{
    let ghost all = pairs(results@);
    let mut out = String::new();
    let mut i: usize = 0;
    assert(out@ =~= results_text(all, 0));
    while i < results.len()
        invariant
            i <= results@.len(),
            all == pairs(results@),
            out@ == results_text(all, i as nat),
        decreases results.len() - i,
    {
        if i > 0 {
            out.push_str("\n");
        } else {
            assert(out@ + Seq::<char>::empty() =~= out@);
        }
        out.push_str(
            cat5("[", decimal_usize(i + 1).as_str(), "] ", results[i].0.as_str(), "\n").as_str(),
        );
        out.push_str(results[i].1.as_str());
        out.push_str("\n");
        i += 1;
    }
    trim_end(out.as_str())
}

/// True when a call is never shown: it reads an internal skill, or explores and
/// one of its steps does. A step's arguments are always lighter than the call's.
pub open spec fn is_internal(internal: Seq<Seq<char>>, name: Seq<char>, a: JsonV) -> bool
    decreases weight(a),
{
    if name == "read_skill"@ {
        match a.text_at("name"@) {
            Some(skill) => internal.contains(skill),
            None => false,
        }
    } else if name == "explore"@ {
        match steps_of(a) {
            Some(steps) => exists|i: int|
                0 <= i < steps.len() && weight(args_of(#[trigger] steps[i])) < weight(a)
                    && is_internal(internal, tool_of(steps[i]), args_of(steps[i])),
            None => false,
        }
    } else {
        false
    }
}

/// Whether a call with parsed arguments is never shown. `internal` lists the
/// internal skills.
pub fn internal_args(internal: &Vec<String>, name: &str, a: &Json) -> (r: bool)
    ensures
        r == is_internal(texts(internal@), name@, a@),
    decreases weight(a@),
{
    if same(name, "read_skill") {
        return match a.str_at("name") {
            Some(skill) => contains_text(internal, skill),
            None => false,
        };
    }
    if !same(name, "explore") {
        return false;
    }
    let steps = match steps_array(a) {
        Some(steps) => steps,
        None => return false,
    };
    let ghost all = items(steps@);
    let mut i: usize = 0;
    while i < steps.len()
        invariant
            i <= steps@.len(),
            all == items(steps@),
            steps_of(a@) == Some(all),
            name@ == "explore"@,
            name@ != "read_skill"@,
            2 + weight_items(all, all.len()) + 4 <= weight(a@),
            forall|k: int|
                0 <= k < i ==> !is_internal(
                    texts(internal@),
                    tool_of(#[trigger] all[k]),
                    args_of(all[k]),
                ),
        decreases steps.len() - i,
    {
        let tool = step_tool(&steps[i]);
        let args = step_args(&steps[i]);
        proof {
            lemma_item_weight(all, all.len(), i as int);
            assert(all[i as int] == steps@[i as int]@);
        }
        if internal_args(internal, tool.as_str(), &args) {
            return true;
        }
        i += 1;
    }
    false
}

/// Whether a call with raw arguments is never shown.
pub fn internal_call(internal: &Vec<String>, name: &str, arguments: &str) -> (r: bool)
    ensures
        r == match json_text(arguments@) {
            Ok(a) => is_internal(texts(internal@), name@, a),
            Err(_) => false,
        },
{
    match read_json(arguments) {
        Ok(a) => internal_args(internal, name, &a),
        Err(_) => false,
    }
}

} // verus!
