//! What holds of the tools that a round offers.

use vstd::prelude::*;

use crate::json::{found_after_push, lookup, nothing_in_nothing, JsonV};
use crate::tools::defs::{
    agent_tool, edit_file_tool, find_files_tool, offered, read_file_tool, run_command_tool,
    search_files_tool,
};
use crate::tools::offer::{restricted, round_offer, web_search_tool};
use crate::tools::schema::{name_in, names_v, object_with, tool_v};

verus! {

/// A sub-agent is offered every tool that is there and allowed to it, in order,
/// and no other.
pub proof fn allowed_tools_are_offered(defs: Seq<JsonV>, allowed: Seq<Seq<char>>) -> (from: Seq<
    int,
>)
    ensures
        from.len() == restricted(defs, allowed).len(),
        forall|i: int|
            0 <= i < from.len() ==> 0 <= #[trigger] from[i] < defs.len() && restricted(
                defs,
                allowed,
            )[i] == defs[from[i]],
        forall|i: int, j: int| 0 <= i < j < from.len() ==> #[trigger] from[i] < #[trigger] from[j],
        forall|k: int|
            0 <= k < defs.len() ==> (from.contains(k) <==> name_in(#[trigger] defs[k]) is Some
                && allowed.contains(name_in(defs[k]).unwrap())),
    decreases defs.len(),
{
    if defs.len() == 0 {
        Seq::empty()
    } else {
        let head = defs.drop_last();
        let n = defs.len() - 1;
        let most = allowed_tools_are_offered(head, allowed);
        let takes = name_in(defs.last()) is Some && allowed.contains(name_in(defs.last()).unwrap());
        let from = if takes { most.push(n) } else { most };
        assert forall|i: int| 0 <= i < most.len() implies head[#[trigger] most[i]]
            == defs[most[i]] by {}
        assert forall|k: int| 0 <= k < defs.len() implies (from.contains(k) <==> name_in(
            #[trigger] defs[k],
        ) is Some && allowed.contains(name_in(defs[k]).unwrap())) by {
            if k < n {
                assert(head[k] == defs[k]);
                if most.contains(k) {
                    let j = choose|j: int| 0 <= j < most.len() && most[j] == k;
                    assert(from[j] == k);
                }
                if from.contains(k) {
                    let j = choose|j: int| 0 <= j < from.len() && from[j] == k;
                    assert(j < most.len());
                    assert(most[j] == k);
                }
            } else if takes {
                assert(from[from.len() - 1] == k);
            } else if from.contains(k) {
                let j = choose|j: int| 0 <= j < from.len() && from[j] == k;
                assert(most[j] < n);
            }
        }
        from
    }
}

/// What a round offers: the tools at hand, or those allowed; sub-agents only
/// where there are some and the round is not a sub-agent's own; then the bridge
/// and the search where they are on.
pub proof fn a_round_offers_what_is_on(
    allow_edits: bool,
    has_approver: bool,
    allowed: Option<Seq<Seq<char>>>,
    has_agents: bool,
    bridge: Option<JsonV>,
    web_search: bool,
)
    ensures
        ({
            let all = round_offer(
                allow_edits,
                has_approver,
                allowed,
                has_agents,
                bridge,
                web_search,
            );
            let base = if allowed is Some {
                restricted(offered(allow_edits, has_approver), allowed.unwrap())
            } else {
                offered(allow_edits, has_approver)
            };
            let agents: int = if allowed is None && has_agents { 1 } else { 0 };
            let bridged: int = if bridge is Some { 1 } else { 0 };
            &&& all.len() == base.len() + agents + bridged + if web_search { 1int } else { 0 }
            &&& all.take(base.len() as int) == base
            &&& agents == 1 ==> all[base.len() as int] == agent_tool()
            &&& bridge is Some ==> all[base.len() + agents] == bridge.unwrap()
            &&& web_search ==> all.last() == web_search_tool()
        }),
{
    let all = round_offer(allow_edits, has_approver, allowed, has_agents, bridge, web_search);
    let base = if allowed is Some {
        restricted(offered(allow_edits, has_approver), allowed.unwrap())
    } else {
        offered(allow_edits, has_approver)
    };
    assert(all.take(base.len() as int) =~= base);
}

/// The value that a tool's schema gives for a parameter, if it has that one.
pub open spec fn parameter(def: JsonV, key: Seq<char>) -> Option<JsonV> {
    match def.get("function"@) {
        Some(f) => match f.get("parameters"@) {
            Some(p) => match p.get("properties"@) {
                Some(v) => v.get(key),
                None => None,
            },
            None => None,
        },
        None => None,
    }
}

/// The parameters that a tool's schema requires.
pub open spec fn requirements(def: JsonV) -> Option<Seq<JsonV>> {
    match def.get("function"@) {
        Some(f) => match f.get("parameters"@) {
            Some(p) => p.elements_at("required"@),
            None => None,
        },
        None => None,
    }
}

proof fn lemma_keys()
    ensures
        "type"@.len() == 4 && "type"@[0] == 't',
        "function"@.len() == 8 && "function"@[0] == 'f',
        "name"@.len() == 4 && "name"@[0] == 'n',
        "description"@.len() == 11,
        "parameters"@.len() == 10 && "parameters"@[1] == 'a',
        "properties"@.len() == 10 && "properties"@[1] == 'r',
        "required"@.len() == 8 && "required"@[0] == 'r',
{
    reveal_strlit("type");
    reveal_strlit("function");
    reveal_strlit("name");
    reveal_strlit("description");
    reveal_strlit("parameters");
    reveal_strlit("properties");
    reveal_strlit("required");
}

proof fn lemma_tool(
    name: Seq<char>,
    description: Seq<char>,
    props: Seq<(Seq<char>, JsonV)>,
    required: Seq<Seq<char>>,
)
    ensures
        ({
            let def = tool_v(name, description, object_with(props, required));
            &&& forall|key: Seq<char>| #[trigger] parameter(def, key) == lookup(props, key)
            &&& requirements(def) == Some(names_v(required)->Arr_0)
        }),
{
    broadcast use {found_after_push, nothing_in_nothing};

    lemma_keys();
}

/// A read asks in its schema for what its call is read for: the path, which it
/// requires, and the lines.
pub proof fn a_read_asks_for_a_path()
    ensures
        parameter(read_file_tool(), "path"@) is Some,
        parameter(read_file_tool(), "start_line"@) is Some,
        parameter(read_file_tool(), "end_line"@) is Some,
        requirements(read_file_tool()).unwrap() == seq![JsonV::Str("path"@)],
{
    broadcast use {found_after_push, nothing_in_nothing};

    let p = read_file_tool()->Obj_0[1].1->Obj_0[2].1->Obj_0;
    let props = p[1].1->Obj_0;
    let required = Seq::empty().push("path"@);
    assert(read_file_tool() == tool_v(
        "read_file"@,
        crate::tools::defs::READ_FILE_TEXT@,
        object_with(props, required),
    ));
    lemma_tool("read_file"@, crate::tools::defs::READ_FILE_TEXT@, props, required);
    assert(requirements(read_file_tool()).unwrap() =~= seq![JsonV::Str("path"@)]);
}

/// A search asks for a query, and a search by name for a pattern; each requires
/// that.
pub proof fn a_search_asks_for_what_to_find()
    ensures
        parameter(search_files_tool(), "query"@) is Some,
        parameter(search_files_tool(), "dir"@) is Some,
        requirements(search_files_tool()).unwrap() == seq![JsonV::Str("query"@)],
        parameter(find_files_tool(), "pattern"@) is Some,
        parameter(find_files_tool(), "dir"@) is Some,
        requirements(find_files_tool()).unwrap() == seq![JsonV::Str("pattern"@)],
{
    broadcast use {found_after_push, nothing_in_nothing};

    let a = search_files_tool()->Obj_0[1].1->Obj_0[2].1->Obj_0[1].1->Obj_0;
    let want = Seq::empty().push("query"@);
    assert(search_files_tool() == tool_v(
        "search_files"@,
        crate::tools::defs::SEARCH_FILES_TEXT@,
        object_with(a, want),
    ));
    lemma_tool("search_files"@, crate::tools::defs::SEARCH_FILES_TEXT@, a, want);
    assert(requirements(search_files_tool()).unwrap() =~= seq![JsonV::Str("query"@)]);
    let b = find_files_tool()->Obj_0[1].1->Obj_0[2].1->Obj_0[1].1->Obj_0;
    let name = Seq::empty().push("pattern"@);
    assert(find_files_tool() == tool_v(
        "find_files"@,
        crate::tools::defs::FIND_FILES_TEXT@,
        object_with(b, name),
    ));
    lemma_tool("find_files"@, crate::tools::defs::FIND_FILES_TEXT@, b, name);
    assert(requirements(find_files_tool()).unwrap() =~= seq![JsonV::Str("pattern"@)]);
}

/// An edit asks for the path, the text to replace and the new text; the first
/// and the last it requires.
pub proof fn an_edit_asks_for_its_text()
    ensures
        parameter(edit_file_tool(), "path"@) is Some,
        parameter(edit_file_tool(), "search"@) is Some,
        parameter(edit_file_tool(), "replace"@) is Some,
        requirements(edit_file_tool()).unwrap() == seq![
            JsonV::Str("path"@),
            JsonV::Str("replace"@),
        ],
{
    broadcast use {found_after_push, nothing_in_nothing};

    let a = edit_file_tool()->Obj_0[1].1->Obj_0[2].1->Obj_0[1].1->Obj_0;
    let want = Seq::empty().push("path"@).push("replace"@);
    assert(edit_file_tool() == tool_v(
        "edit_file"@,
        crate::tools::defs::EDIT_FILE_TEXT@,
        object_with(a, want),
    ));
    lemma_tool("edit_file"@, crate::tools::defs::EDIT_FILE_TEXT@, a, want);
    assert(requirements(edit_file_tool()).unwrap() =~= seq![
        JsonV::Str("path"@),
        JsonV::Str("replace"@),
    ]);
}

/// A command asks for the binary, which it requires, for its arguments, and for
/// how to run it.
pub proof fn a_command_asks_for_its_arguments()
    ensures
        parameter(run_command_tool(), "command"@) is Some,
        parameter(run_command_tool(), "args"@) is Some,
        parameter(run_command_tool(), "turbo"@) is Some,
        parameter(run_command_tool(), "yolo"@) is Some,
        requirements(run_command_tool()).unwrap()[0] == JsonV::Str("command"@),
{
    broadcast use {found_after_push, nothing_in_nothing};

    let a = run_command_tool()->Obj_0[1].1->Obj_0[2].1->Obj_0[1].1->Obj_0;
    let want = Seq::empty().push("command"@).push("description"@);
    assert(run_command_tool() == tool_v(
        "run_command"@,
        crate::tools::defs::RUN_COMMAND_TEXT@,
        object_with(a, want),
    ));
    lemma_tool("run_command"@, crate::tools::defs::RUN_COMMAND_TEXT@, a, want);
}

/// A call for sub-agents asks for its tasks, which it requires, and whether to
/// wait for them or to look after them.
pub proof fn sub_agents_are_asked_for_tasks()
    ensures
        parameter(agent_tool(), "tasks"@) is Some,
        parameter(agent_tool(), "background"@) is Some,
        parameter(agent_tool(), "check"@) is Some,
        requirements(agent_tool()).unwrap() == seq![JsonV::Str("tasks"@)],
{
    broadcast use {found_after_push, nothing_in_nothing};

    let a = agent_tool()->Obj_0[1].1->Obj_0[2].1->Obj_0[1].1->Obj_0;
    let want = Seq::empty().push("tasks"@);
    assert(agent_tool() == tool_v(
        "agent"@,
        crate::tools::defs::AGENT_TEXT@,
        object_with(a, want),
    ));
    lemma_tool("agent"@, crate::tools::defs::AGENT_TEXT@, a, want);
    assert(requirements(agent_tool()).unwrap() =~= seq![JsonV::Str("tasks"@)]);
}

} // verus!
