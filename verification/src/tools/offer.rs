//! Which tools a round offers.

use vstd::prelude::*;

use crate::json::{items, Fields, Json, JsonV};
use crate::text::{contains_text, texts};
use crate::tools::defs::{
    agent_tool, agent_tool_schema, ask_user_tool, ast_edit_tool, ast_grep_tool, chat_history_tool,
    edit_file_tool, exit_plan_mode_tool, explore_tool, find_files_tool, forget_tool,
    list_files_tool, lsp_definitions_tool, lsp_diagnostics_tool, lsp_references_tool, offered,
    open_preview_tool, read_file_tool, read_skill_tool, recall_tool, remember_tool,
    run_command_tool, run_tests_tool, search_files_tool, security_scan_tool, tool_defs,
    update_plan_tool, write_plan_tool, ASK_USER_TEXT, AST_EDIT_TEXT, AST_GREP_TEXT,
    CHAT_HISTORY_TEXT, EDIT_FILE_TEXT, EXIT_PLAN_MODE_TEXT, EXPLORE_TEXT, FIND_FILES_TEXT,
    FORGET_TEXT, LIST_FILES_TEXT, LSP_DEFINITIONS_TEXT, LSP_DIAGNOSTICS_TEXT, LSP_REFERENCES_TEXT,
    OPEN_PREVIEW_TEXT, READ_FILE_TEXT, READ_SKILL_TEXT, RECALL_TEXT, REMEMBER_TEXT,
    RUN_COMMAND_TEXT, RUN_TESTS_TEXT, SEARCH_FILES_TEXT, SECURITY_SCAN_TEXT, UPDATE_PLAN_TEXT,
    WRITE_PLAN_TEXT,
};
use crate::tools::schema::{defined_name, name_in, tool_name, tool_v};

verus! {

/// The names that a list of definitions carries.
pub open spec fn names_in(defs: Seq<JsonV>) -> Seq<Seq<char>>
    decreases defs.len(),
{
    if defs.len() == 0 {
        Seq::empty()
    } else {
        match name_in(defs.last()) {
            Some(name) => names_in(defs.drop_last()).push(name),
            None => names_in(defs.drop_last()),
        }
    }
}

/// The names of the tools on offer, in order.
pub open spec fn offered_names(allow_edits: bool, has_approver: bool) -> Seq<Seq<char>> {
    let a = Seq::<Seq<char>>::empty().push("read_file"@).push("list_files"@).push("explore"@).push(
        "search_files"@,
    ).push("find_files"@).push("remember"@).push("recall"@).push("chat_history"@).push(
        "forget"@,
    ).push("read_skill"@);
    let b = if has_approver {
        a.push("update_plan"@).push("ask_user"@)
    } else {
        a
    };
    let c = if allow_edits {
        b.push("edit_file"@).push("ast_edit"@)
    } else {
        b
    };
    let d = c.push("ast_grep"@).push("security_scan"@).push("lsp_diagnostics"@).push(
        "lsp_references"@,
    ).push("lsp_definitions"@);
    let e = if has_approver {
        d.push("write_plan"@).push("exit_plan_mode"@)
    } else {
        d
    };
    let f = e.push("run_command"@).push("open_preview"@).push("run_tests"@);
    f
}

proof fn lemma_named(
    defs: Seq<JsonV>,
    names: Seq<Seq<char>>,
    name: Seq<char>,
    text: Seq<char>,
    def: JsonV,
)
    requires
        names_in(defs) == names,
        exists|p: JsonV| def == #[trigger] tool_v(name, text, p),
    ensures
        names_in(defs.push(def)) == names.push(name),
{
    let p = choose|p: JsonV| def == #[trigger] tool_v(name, text, p);
    defined_name(name, text, p);
    assert(defs.push(def).drop_last() =~= defs);
}

/// Every definition on offer carries a name, and these are the names.
pub proof fn offered_tools_are_named(allow_edits: bool, has_approver: bool)
    ensures
        names_in(offered(allow_edits, has_approver)) == offered_names(allow_edits, has_approver),
{
    let mut defs = Seq::<JsonV>::empty();
    let mut names = Seq::<Seq<char>>::empty();
    lemma_named(defs, names, "read_file"@, READ_FILE_TEXT@, read_file_tool());
    defs = defs.push(read_file_tool());
    names = names.push("read_file"@);
    lemma_named(defs, names, "list_files"@, LIST_FILES_TEXT@, list_files_tool());
    defs = defs.push(list_files_tool());
    names = names.push("list_files"@);
    lemma_named(defs, names, "explore"@, EXPLORE_TEXT@, explore_tool());
    defs = defs.push(explore_tool());
    names = names.push("explore"@);
    lemma_named(defs, names, "search_files"@, SEARCH_FILES_TEXT@, search_files_tool());
    defs = defs.push(search_files_tool());
    names = names.push("search_files"@);
    lemma_named(defs, names, "find_files"@, FIND_FILES_TEXT@, find_files_tool());
    defs = defs.push(find_files_tool());
    names = names.push("find_files"@);
    lemma_named(defs, names, "remember"@, REMEMBER_TEXT@, remember_tool());
    defs = defs.push(remember_tool());
    names = names.push("remember"@);
    lemma_named(defs, names, "recall"@, RECALL_TEXT@, recall_tool());
    defs = defs.push(recall_tool());
    names = names.push("recall"@);
    lemma_named(defs, names, "chat_history"@, CHAT_HISTORY_TEXT@, chat_history_tool());
    defs = defs.push(chat_history_tool());
    names = names.push("chat_history"@);
    lemma_named(defs, names, "forget"@, FORGET_TEXT@, forget_tool());
    defs = defs.push(forget_tool());
    names = names.push("forget"@);
    lemma_named(defs, names, "read_skill"@, READ_SKILL_TEXT@, read_skill_tool());
    defs = defs.push(read_skill_tool());
    names = names.push("read_skill"@);
    if has_approver {
        lemma_named(defs, names, "update_plan"@, UPDATE_PLAN_TEXT@, update_plan_tool());
        defs = defs.push(update_plan_tool());
        names = names.push("update_plan"@);
        lemma_named(defs, names, "ask_user"@, ASK_USER_TEXT@, ask_user_tool());
        defs = defs.push(ask_user_tool());
        names = names.push("ask_user"@);
    }
    if allow_edits {
        lemma_named(defs, names, "edit_file"@, EDIT_FILE_TEXT@, edit_file_tool());
        defs = defs.push(edit_file_tool());
        names = names.push("edit_file"@);
        lemma_named(defs, names, "ast_edit"@, AST_EDIT_TEXT@, ast_edit_tool());
        defs = defs.push(ast_edit_tool());
        names = names.push("ast_edit"@);
    }
    lemma_named(defs, names, "ast_grep"@, AST_GREP_TEXT@, ast_grep_tool());
    defs = defs.push(ast_grep_tool());
    names = names.push("ast_grep"@);
    lemma_named(defs, names, "security_scan"@, SECURITY_SCAN_TEXT@, security_scan_tool());
    defs = defs.push(security_scan_tool());
    names = names.push("security_scan"@);
    lemma_named(defs, names, "lsp_diagnostics"@, LSP_DIAGNOSTICS_TEXT@, lsp_diagnostics_tool());
    defs = defs.push(lsp_diagnostics_tool());
    names = names.push("lsp_diagnostics"@);
    lemma_named(defs, names, "lsp_references"@, LSP_REFERENCES_TEXT@, lsp_references_tool());
    defs = defs.push(lsp_references_tool());
    names = names.push("lsp_references"@);
    lemma_named(defs, names, "lsp_definitions"@, LSP_DEFINITIONS_TEXT@, lsp_definitions_tool());
    defs = defs.push(lsp_definitions_tool());
    names = names.push("lsp_definitions"@);
    if has_approver {
        lemma_named(defs, names, "write_plan"@, WRITE_PLAN_TEXT@, write_plan_tool());
        defs = defs.push(write_plan_tool());
        names = names.push("write_plan"@);
        lemma_named(defs, names, "exit_plan_mode"@, EXIT_PLAN_MODE_TEXT@, exit_plan_mode_tool());
        defs = defs.push(exit_plan_mode_tool());
        names = names.push("exit_plan_mode"@);
    }
    lemma_named(defs, names, "run_command"@, RUN_COMMAND_TEXT@, run_command_tool());
    defs = defs.push(run_command_tool());
    names = names.push("run_command"@);
    lemma_named(defs, names, "open_preview"@, OPEN_PREVIEW_TEXT@, open_preview_tool());
    defs = defs.push(open_preview_tool());
    names = names.push("open_preview"@);
    lemma_named(defs, names, "run_tests"@, RUN_TESTS_TEXT@, run_tests_tool());
    defs = defs.push(run_tests_tool());
    names = names.push("run_tests"@);
}

/// The tools that edit are offered exactly where edits are allowed, and the
/// ones that turn to the user exactly where someone can answer.
pub proof fn tools_need_their_permission(allow_edits: bool, has_approver: bool)
    ensures
        offered_names(allow_edits, has_approver).contains("edit_file"@) <==> allow_edits,
        offered_names(allow_edits, has_approver).contains("ast_edit"@) <==> allow_edits,
        offered_names(allow_edits, has_approver).contains("update_plan"@) <==> has_approver,
        offered_names(allow_edits, has_approver).contains("ask_user"@) <==> has_approver,
        offered_names(allow_edits, has_approver).contains("write_plan"@) <==> has_approver,
        offered_names(allow_edits, has_approver).contains("exit_plan_mode"@) <==> has_approver,
{
    reveal_strlit("read_file");
    reveal_strlit("list_files");
    reveal_strlit("explore");
    reveal_strlit("search_files");
    reveal_strlit("find_files");
    reveal_strlit("remember");
    reveal_strlit("recall");
    reveal_strlit("chat_history");
    reveal_strlit("forget");
    reveal_strlit("read_skill");
    reveal_strlit("update_plan");
    reveal_strlit("ask_user");
    reveal_strlit("edit_file");
    reveal_strlit("ast_edit");
    reveal_strlit("ast_grep");
    reveal_strlit("security_scan");
    reveal_strlit("lsp_diagnostics");
    reveal_strlit("lsp_references");
    reveal_strlit("lsp_definitions");
    reveal_strlit("write_plan");
    reveal_strlit("exit_plan_mode");
    reveal_strlit("run_command");
    reveal_strlit("open_preview");
    reveal_strlit("run_tests");
    assert("edit_file"@[0] != "read_file"@[0]);
    assert("edit_file"@[0] != "run_tests"@[0]);
    assert("ast_edit"@[0] != "remember"@[0]);
    assert("ast_edit"@[2] != "ask_user"@[2]);
    assert("ast_edit"@[4] != "ast_grep"@[4]);
    assert("update_plan"@[0] != "run_command"@[0]);
    assert("ask_user"@[0] != "remember"@[0]);
    assert("ask_user"@[2] != "ast_grep"@[2]);
    assert("write_plan"@[0] != "list_files"@[0]);
    assert("write_plan"@[0] != "find_files"@[0]);
    assert("write_plan"@[0] != "read_skill"@[0]);
    assert("exit_plan_mode"@[0] != "lsp_references"@[0]);
    assert("edit_file"@.len() != "explore"@.len());
    assert("edit_file"@.len() != "exit_plan_mode"@.len());
    assert("exit_plan_mode"@.len() != "explore"@.len());
    assert("exit_plan_mode"@.len() != "edit_file"@.len());
    let mut names = Seq::<Seq<char>>::empty();
    lemma_push_holds(names, "read_file"@);
    names = names.push("read_file"@);
    lemma_push_holds(names, "list_files"@);
    names = names.push("list_files"@);
    lemma_push_holds(names, "explore"@);
    names = names.push("explore"@);
    lemma_push_holds(names, "search_files"@);
    names = names.push("search_files"@);
    lemma_push_holds(names, "find_files"@);
    names = names.push("find_files"@);
    lemma_push_holds(names, "remember"@);
    names = names.push("remember"@);
    lemma_push_holds(names, "recall"@);
    names = names.push("recall"@);
    lemma_push_holds(names, "chat_history"@);
    names = names.push("chat_history"@);
    lemma_push_holds(names, "forget"@);
    names = names.push("forget"@);
    lemma_push_holds(names, "read_skill"@);
    names = names.push("read_skill"@);
    if has_approver {
        lemma_push_holds(names, "update_plan"@);
        names = names.push("update_plan"@);
        lemma_push_holds(names, "ask_user"@);
        names = names.push("ask_user"@);
    }
    if allow_edits {
        lemma_push_holds(names, "edit_file"@);
        names = names.push("edit_file"@);
        lemma_push_holds(names, "ast_edit"@);
        names = names.push("ast_edit"@);
    }
    lemma_push_holds(names, "ast_grep"@);
    names = names.push("ast_grep"@);
    lemma_push_holds(names, "security_scan"@);
    names = names.push("security_scan"@);
    lemma_push_holds(names, "lsp_diagnostics"@);
    names = names.push("lsp_diagnostics"@);
    lemma_push_holds(names, "lsp_references"@);
    names = names.push("lsp_references"@);
    lemma_push_holds(names, "lsp_definitions"@);
    names = names.push("lsp_definitions"@);
    if has_approver {
        lemma_push_holds(names, "write_plan"@);
        names = names.push("write_plan"@);
        lemma_push_holds(names, "exit_plan_mode"@);
        names = names.push("exit_plan_mode"@);
    }
    lemma_push_holds(names, "run_command"@);
    names = names.push("run_command"@);
    lemma_push_holds(names, "open_preview"@);
    names = names.push("open_preview"@);
    lemma_push_holds(names, "run_tests"@);
    names = names.push("run_tests"@);
}

proof fn lemma_push_holds(s: Seq<Seq<char>>, x: Seq<char>)
    ensures
        forall|y: Seq<char>| #[trigger] s.push(x).contains(y) <==> s.contains(y) || y == x,
{
    assert forall|y: Seq<char>| #[trigger] s.push(x).contains(y) <==> s.contains(y) || y == x by {
        if s.contains(y) {
            let i = choose|i: int| 0 <= i < s.len() && s[i] == y;
            assert(s.push(x)[i] == y);
        }
        if y == x {
            assert(s.push(x)[s.len() as int] == y);
        }
    }
}

/// The names of the tools on offer.
pub fn tool_names(allow_edits: bool, has_approver: bool) -> (r: Vec<String>)
    ensures
        texts(r@) == offered_names(allow_edits, has_approver),
{
    let defs = tool_defs(allow_edits, has_approver);
    let ghost all = items(defs@);
    let mut out: Vec<String> = Vec::new();
    let mut i: usize = 0;
    assert(texts(out@) =~= names_in(all.take(0)));
    while i < defs.len()
        invariant
            i <= defs@.len(),
            all == items(defs@),
            texts(out@) == names_in(all.take(i as int)),
        decreases defs.len() - i,
    {
        proof {
            assert(all.take(i + 1).drop_last() =~= all.take(i as int));
            assert(all.take(i + 1).last() == defs@[i as int]@);
        }
        let ghost had = texts(out@);
        match tool_name(&defs[i]) {
            Some(name) => {
                let name = name.to_owned();
                out.push(name);
                assert(texts(out@) =~= had.push(name@));
            },
            None => {},
        }
        i += 1;
    }
    proof {
        assert(all.take(all.len() as int) =~= all);
        offered_tools_are_named(allow_edits, has_approver);
    }
    out
}

/// The definitions whose names are on a list.
pub open spec fn restricted(defs: Seq<JsonV>, allowed: Seq<Seq<char>>) -> Seq<JsonV>
    decreases defs.len(),
{
    if defs.len() == 0 {
        Seq::empty()
    } else {
        let head = restricted(defs.drop_last(), allowed);
        match name_in(defs.last()) {
            Some(name) => if allowed.contains(name) {
                head.push(defs.last())
            } else {
                head
            },
            None => head,
        }
    }
}

/// A sub-agent is offered nothing that is not on its list.
pub proof fn sub_agents_see_only_their_tools(defs: Seq<JsonV>, allowed: Seq<Seq<char>>)
    ensures
        forall|i: int|
            0 <= i < restricted(defs, allowed).len() ==> name_in(
                #[trigger] restricted(defs, allowed)[i],
            ) is Some && allowed.contains(name_in(restricted(defs, allowed)[i]).unwrap()),
    decreases defs.len(),
{
    if defs.len() > 0 {
        sub_agents_see_only_their_tools(defs.drop_last(), allowed);
    }
}

/// The definitions of a round: what is on offer, cut to a sub-agent's list; the
/// agent tool where there are agents to call and this is none of them; the MCP
/// bridge; web search.
pub open spec fn round_offer(
    allow_edits: bool,
    has_approver: bool,
    allowed: Option<Seq<Seq<char>>>,
    has_agents: bool,
    bridge: Option<JsonV>,
    web_search: bool,
) -> Seq<JsonV> {
    let base = match allowed {
        Some(list) => restricted(offered(allow_edits, has_approver), list),
        None => offered(allow_edits, has_approver),
    };
    let a = if allowed is None && has_agents {
        base.push(agent_tool())
    } else {
        base
    };
    let b = match bridge {
        Some(tool) => a.push(tool),
        None => a,
    };
    if web_search {
        b.push(web_search_tool())
    } else {
        b
    }
}

/// The provider's own web search.
pub open spec fn web_search_tool() -> JsonV {
    JsonV::Obj(Seq::empty().push(("type"@, JsonV::Str("openrouter:web_search"@))))
}

/// The model of an optional list of names.
pub open spec fn opt_texts(v: Option<Vec<String>>) -> Option<Seq<Seq<char>>> {
    match v {
        Some(list) => Some(texts(list@)),
        None => None,
    }
}

/// The definitions of a round.
pub fn round_tools(
    allow_edits: bool,
    has_approver: bool,
    allowed: &Option<Vec<String>>,
    has_agents: bool,
    bridge: &Option<Json>,
    web_search: bool,
) -> (r: Vec<Json>)
    ensures
        items(r@) == round_offer(
            allow_edits,
            has_approver,
            opt_texts(*allowed),
            has_agents,
            crate::message::opt_json(*bridge),
            web_search,
        ),
{
    let defs = tool_defs(allow_edits, has_approver);
    let mut out = match allowed {
        Some(list) => restrict(defs, list),
        None => defs,
    };
    if allowed.is_none() && has_agents {
        let ghost had = items(out@);
        let def = agent_tool_schema();
        out.push(def);
        assert(items(out@) =~= had.push(def@));
    }
    match bridge {
        Some(tool) => {
            let ghost had = items(out@);
            let def = tool.copy();
            out.push(def);
            assert(items(out@) =~= had.push(def@));
        },
        None => {},
    }
    if web_search {
        let ghost had = items(out@);
        let def = Fields::new().text("type", "openrouter:web_search").json();
        out.push(def);
        assert(items(out@) =~= had.push(def@));
    }
    out
}

fn restrict(defs: Vec<Json>, allowed: &Vec<String>) -> (r: Vec<Json>)
    ensures
        items(r@) == restricted(items(defs@), texts(allowed@)),
{
    let ghost all = items(defs@);
    let mut out: Vec<Json> = Vec::new();
    let mut i: usize = 0;
    assert(items(out@) =~= restricted(all.take(0), texts(allowed@)));
    while i < defs.len()
        invariant
            i <= defs@.len(),
            all == items(defs@),
            items(out@) == restricted(all.take(i as int), texts(allowed@)),
        decreases defs.len() - i,
    {
        proof {
            assert(all.take(i + 1).drop_last() =~= all.take(i as int));
            assert(all.take(i + 1).last() == defs@[i as int]@);
        }
        let ghost had = items(out@);
        match tool_name(&defs[i]) {
            Some(name) => {
                if contains_text(allowed, name) {
                    let def = defs[i].copy();
                    out.push(def);
                    assert(items(out@) =~= had.push(def@));
                }
            },
            None => {},
        }
        i += 1;
    }
    assert(all.take(all.len() as int) =~= all);
    out
}

} // verus!
