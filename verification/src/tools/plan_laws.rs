//! What holds of every tool call that is planned.

use vstd::prelude::*;

use crate::json::JsonV;
use crate::plan::asked_steps;
use crate::text::affix::{holds, lemma_holds_between, lemma_holds_wider, trimmed};
use crate::text::opt;
use crate::text::pieces::{joined, lemma_joined_holds};
use crate::tools::command::{argv_of, argv_view, run_opts_of, Machine, RunOpts};
use crate::tools::offer::offered_names;
use crate::tools::plan::{
    lookup_plan, needs, options_of, plan_for, steps_asked, strings_in, unknown_tool, ToolPlan,
};

verus! {

/// True when `p` does nothing but what a call of `name` with the arguments `a`
/// asks for: every part of it stands in the arguments, under its own key.
pub open spec fn asked_for(p: ToolPlan, name: Seq<char>, a: JsonV) -> bool {
    match p {
        ToolPlan::Say(_) => true,
        ToolPlan::Bridge => false,
        ToolPlan::Remember { title, note } => name == "remember"@ && a.text_at("note"@) == Some(
            note@,
        ) && a.text_at("title"@) == opt(title),
        ToolPlan::Recall(n) => name == "recall"@ && a.text_at("name"@) == Some(n@),
        ToolPlan::RecallList(q) => name == "recall"@ && a.text_at("name"@) is None && a.text_at(
            "query"@,
        ) == opt(q),
        ToolPlan::Forget(n) => name == "forget"@ && a.text_at("name"@) == Some(n@),
        ToolPlan::ReadSkill(n) => name == "read_skill"@ && a.text_at("name"@) == Some(n@),
        ToolPlan::ChatHistory { id, about, limit, all } => name == "chat_history"@ && a.text_at(
            "id"@,
        ) == opt(id) && a.text_at("query"@) == opt(about) && (all <==> a.boolean_at("all"@) == Some(
            true,
        )) && (limit is None <==> a.unsigned_at("limit"@) is None) && (limit is Some ==> limit
            == Some(a.unsigned_at("limit"@).unwrap() as usize)),
        ToolPlan::UpdatePlan(steps) => name == "update_plan"@ && match a.elements_at("steps"@) {
            Some(v) => steps@.len() == v.len() && forall|i: int|
                0 <= i < v.len() ==> v[i].text_at("status"@) == opt((#[trigger] steps@[i]).1) && (
                v[i].text_at("label"@) is Some ==> v[i].text_at("label"@) == Some(steps@[i].0@)) && (
                v[i].text_at("label"@) is None ==> steps@[i].0@.len() == 0),
            None => steps@.len() == 0,
        },
        ToolPlan::AskUser { header, question, options } => name == "ask_user"@ && a.text_at(
            "question"@,
        ) == Some(question@) && (a.text_at("header"@) is Some ==> a.text_at("header"@) == Some(
            header@,
        )) && (a.text_at("header"@) is None ==> header@.len() == 0),
        ToolPlan::WritePlan { content, old_str, new_str } => name == "write_plan"@ && a.text_at(
            "content"@,
        ) == opt(content) && a.text_at("old_str"@) == opt(old_str) && a.text_at("new_str"@) == opt(
            new_str,
        ),
        ToolPlan::ExitPlanMode(doc) => name == "exit_plan_mode"@ && a.text_at("plan"@) == opt(doc),
        ToolPlan::ReadFile { path, start, end } => name == "read_file"@ && a.text_at("path"@)
            == Some(path@) && (start is None <==> a.unsigned_at("start_line"@) is None) && (
        start is Some ==> start == Some(a.unsigned_at("start_line"@).unwrap() as usize)) && (
        end is None <==> a.unsigned_at("end_line"@) is None) && (end is Some ==> end == Some(
            a.unsigned_at("end_line"@).unwrap() as usize,
        )),
        ToolPlan::ListFiles(dir) => name == "list_files"@ && within(opt(dir), a.text_at("dir"@)),
        ToolPlan::Explore(j) => name == "explore"@ && j@ == a,
        ToolPlan::SearchFiles { query, dir } => name == "search_files"@ && a.text_at("query"@)
            == Some(query@) && within(opt(dir), a.text_at("dir"@)),
        ToolPlan::FindFiles { pattern, dir } => name == "find_files"@ && a.text_at("pattern"@)
            == Some(pattern@) && within(opt(dir), a.text_at("dir"@)),
        ToolPlan::AstGrep { pattern, language } => name == "ast_grep"@ && a.text_at("pattern"@)
            == Some(pattern@) && a.text_at("language"@) == opt(language),
        ToolPlan::AstEdit { pattern, rewrite, language } => name == "ast_edit"@ && a.text_at(
            "pattern"@,
        ) == Some(pattern@) && a.text_at("rewrite"@) == Some(rewrite@) && a.text_at("language"@)
            == opt(language),
        ToolPlan::SecurityScan(path) => name == "security_scan"@ && a.text_at("path"@) == opt(path),
        ToolPlan::LspDiagnostics(path) => name == "lsp_diagnostics"@ && a.text_at("path"@) == Some(
            path@,
        ),
        ToolPlan::LspReferences(j) => name == "lsp_references"@ && j@ == a,
        ToolPlan::LspDefinitions(j) => name == "lsp_definitions"@ && j@ == a,
        ToolPlan::EditFile { path, search, replace } => name == "edit_file"@ && a.text_at("path"@)
            == Some(path@) && a.text_at("replace"@) == Some(replace@) && (a.text_at(
            "search"@,
        ) is Some ==> a.text_at("search"@) == Some(search@)) && (a.text_at("search"@) is None
            ==> search@.len() == 0),
        ToolPlan::RunCommand { binary, args, opts } => name == "run_command"@,
        ToolPlan::OpenPreview { target, description } => name == "open_preview"@ && a.text_at(
            "target"@,
        ) == Some(target@) && a.text_at("description"@) == opt(description),
        ToolPlan::RunTests { runner, filter, opts } => name == "run_tests"@ && a.text_at("runner"@)
            == opt(runner) && a.text_at("filter"@) == opt(filter),
    }
}

/// True when a directory is the one asked for, but for the blanks around it; a
/// blank one counts as none.
pub open spec fn within(dir: Option<Seq<char>>, asked: Option<Seq<char>>) -> bool {
    match asked {
        Some(d) => if trimmed(d).len() > 0 {
            dir == Some(trimmed(d))
        } else {
            dir is None
        },
        None => dir is None,
    }
}

/// A call is planned from its own arguments alone: whatever it comes to, each
/// part of the plan is what the arguments have under that part's key.
pub proof fn a_plan_carries_its_own_arguments(
    p: ToolPlan,
    name: Seq<char>,
    a: JsonV,
    allow_edits: bool,
    has_approver: bool,
    m: Machine,
    opts: RunOpts,
)
    requires
        plan_for(p, name, a, allow_edits, has_approver, m, opts),
    ensures
        asked_for(p, name, a),
        p matches ToolPlan::RunCommand { binary, args, opts: o } ==> argv_of(a, m) == Some(
            argv_view((binary, args)),
        ) && o == run_opts_of(a, opts),
        p matches ToolPlan::RunTests { runner, filter, opts: o } ==> o == run_opts_of(a, opts),
{
    match p {
        ToolPlan::UpdatePlan(steps) => {
            let asked = steps_asked(a);
            assert(asked_steps(steps@) == asked);
            match a.elements_at("steps"@) {
                Some(v) => {
                    assert(asked_steps(steps@).len() == steps@.len());
                    assert forall|i: int| 0 <= i < v.len() implies v[i].text_at("status"@) == opt(
                        (#[trigger] steps@[i]).1,
                    ) && (v[i].text_at("label"@) is Some ==> v[i].text_at("label"@) == Some(
                        steps@[i].0@,
                    )) && (v[i].text_at("label"@) is None ==> steps@[i].0@.len() == 0) by {
                        assert(asked_steps(steps@)[i] == asked[i]);
                    }
                },
                None => {
                    assert(asked_steps(steps@).len() == steps@.len());
                },
            }
        },
        _ => {},
    }
}

/// A call that has what its tool needs is not turned down.
pub proof fn a_complete_call_is_planned(
    p: ToolPlan,
    name: Seq<char>,
    a: JsonV,
    has_approver: bool,
    m: Machine,
    opts: RunOpts,
)
    requires
        plan_for(p, name, a, true, has_approver, m, opts),
    ensures
        name == "remember"@ && a.text_at("note"@) is Some ==> p is Remember,
        name == "recall"@ ==> p is Recall || p is RecallList,
        name == "forget"@ && a.text_at("name"@) is Some ==> p is Forget,
        name == "read_skill"@ && a.text_at("name"@) is Some ==> p is ReadSkill,
        name == "chat_history"@ ==> p is ChatHistory,
        name == "update_plan"@ ==> p is UpdatePlan,
        name == "ask_user"@ && a.text_at("question"@) is Some ==> p is AskUser,
        name == "write_plan"@ ==> p is WritePlan,
        name == "exit_plan_mode"@ ==> p is ExitPlanMode,
        name == "read_file"@ && a.text_at("path"@) is Some ==> p is ReadFile,
        name == "list_files"@ ==> p is ListFiles,
        name == "explore"@ ==> p is Explore,
        name == "search_files"@ && a.text_at("query"@) is Some ==> p is SearchFiles,
        name == "find_files"@ && a.text_at("pattern"@) is Some ==> p is FindFiles,
        name == "ast_grep"@ && a.text_at("pattern"@) is Some ==> p is AstGrep,
        name == "ast_edit"@ && a.text_at("pattern"@) is Some && a.text_at("rewrite"@) is Some
            ==> p is AstEdit,
        name == "security_scan"@ ==> p is SecurityScan,
        name == "lsp_diagnostics"@ && a.text_at("path"@) is Some ==> p is LspDiagnostics,
        name == "lsp_references"@ ==> p is LspReferences,
        name == "lsp_definitions"@ ==> p is LspDefinitions,
        name == "edit_file"@ && a.text_at("path"@) is Some && a.text_at("replace"@) is Some
            ==> p is EditFile,
        name == "run_command"@ && argv_of(a, m) is Some ==> p is RunCommand,
        name == "open_preview"@ && a.text_at("target"@) is Some ==> p is OpenPreview,
        name == "run_tests"@ ==> p is RunTests,
{
    lemma_names();
}

proof fn lemma_names()
    ensures
        "recall"@.len() == 6 && "recall"@[0] == 'r',
        "forget"@.len() == 6 && "forget"@[0] == 'f',
        "remember"@.len() == 8 && "remember"@[4] == 'm',
        "ask_user"@.len() == 8 && "ask_user"@[4] == 'u',
        "ast_grep"@.len() == 8 && "ast_grep"@[4] == 'g',
        "ast_edit"@.len() == 8 && "ast_edit"@[4] == 'e',
        "read_skill"@.len() == 10 && "read_skill"@[0] == 'r',
        "write_plan"@.len() == 10 && "write_plan"@[0] == 'w',
        "list_files"@.len() == 10 && "list_files"@[0] == 'l',
        "find_files"@.len() == 10 && "find_files"@[0] == 'f',
        "chat_history"@.len() == 12 && "chat_history"@[0] == 'c',
        "search_files"@.len() == 12 && "search_files"@[0] == 's',
        "open_preview"@.len() == 12 && "open_preview"@[0] == 'o',
        "update_plan"@.len() == 11 && "update_plan"@[0] == 'u',
        "run_command"@.len() == 11 && "run_command"@[0] == 'r',
        "exit_plan_mode"@.len() == 14 && "exit_plan_mode"@[0] == 'e',
        "lsp_references"@.len() == 14 && "lsp_references"@[0] == 'l',
        "lsp_diagnostics"@.len() == 15 && "lsp_diagnostics"@[5] == 'i',
        "lsp_definitions"@.len() == 15 && "lsp_definitions"@[5] == 'e',
        "read_file"@.len() == 9 && "read_file"@[1] == 'e',
        "edit_file"@.len() == 9 && "edit_file"@[1] == 'd',
        "run_tests"@.len() == 9 && "run_tests"@[1] == 'u',
        "explore"@.len() == 7 && "explore"@[0] == 'e',
        "security_scan"@.len() == 13 && "security_scan"@[0] == 's',
{
    reveal_strlit("recall");
    reveal_strlit("forget");
    reveal_strlit("remember");
    reveal_strlit("ask_user");
    reveal_strlit("ast_grep");
    reveal_strlit("ast_edit");
    reveal_strlit("read_skill");
    reveal_strlit("write_plan");
    reveal_strlit("list_files");
    reveal_strlit("find_files");
    reveal_strlit("chat_history");
    reveal_strlit("search_files");
    reveal_strlit("open_preview");
    reveal_strlit("update_plan");
    reveal_strlit("run_command");
    reveal_strlit("exit_plan_mode");
    reveal_strlit("lsp_references");
    reveal_strlit("lsp_diagnostics");
    reveal_strlit("lsp_definitions");
    reveal_strlit("read_file");
    reveal_strlit("edit_file");
    reveal_strlit("run_tests");
    reveal_strlit("explore");
    reveal_strlit("security_scan");
}

/// A batched lookup too carries its own arguments alone.
pub proof fn a_lookup_carries_its_own_arguments(p: ToolPlan, name: Seq<char>, a: JsonV)
    requires
        lookup_plan(Some(p), name, a),
    ensures
        asked_for(p, name, a),
{
}

/// The options offered with a question are the texts of the list, all of them
/// and in order.
pub proof fn options_are_the_texts_listed(a: JsonV, v: Seq<JsonV>)
    requires
        a.elements_at("options"@) == Some(v),
        forall|i: int| 0 <= i < v.len() ==> (#[trigger] v[i]).text() is Some,
    ensures
        options_of(a).len() == v.len(),
        forall|i: int| 0 <= i < v.len() ==> Some(#[trigger] options_of(a)[i]) == v[i].text(),
{
    lemma_strings_all(v);
}

proof fn lemma_strings_all(v: Seq<JsonV>)
    requires
        forall|i: int| 0 <= i < v.len() ==> (#[trigger] v[i]).text() is Some,
    ensures
        strings_in(v).len() == v.len(),
        forall|i: int| 0 <= i < v.len() ==> Some(#[trigger] strings_in(v)[i]) == v[i].text(),
    decreases v.len(),
{
    if v.len() > 0 {
        let head = v.drop_last();
        assert forall|i: int| 0 <= i < head.len() implies (#[trigger] head[i]).text() is Some by {
            assert(head[i] == v[i]);
        }
        lemma_strings_all(head);
        assert(v.last() == v[v.len() - 1]);
    }
}

/// A call that is turned down is told what it lacks: the tool and the argument,
/// or every tool there is.
pub proof fn a_call_turned_down_is_told_why(
    tool: Seq<char>,
    key: Seq<char>,
    allow_edits: bool,
    has_approver: bool,
    i: int,
)
    requires
        0 <= i < offered_names(allow_edits, has_approver).len(),
    ensures
        holds(needs(tool, key), tool),
        holds(needs(tool, key), "`"@ + key + "`"@),
        holds(unknown_tool(tool, allow_edits, has_approver), tool),
        holds(
            unknown_tool(tool, allow_edits, has_approver),
            offered_names(allow_edits, has_approver)[i],
        ),
{
    let text = needs(tool, key);
    reveal_strlit(" needs a `");
    reveal_strlit(" needs a ");
    reveal_strlit("`");
    assert(" needs a `"@ =~= " needs a "@ + "`"@);
    let rest = text.skip(("error: "@ + tool).len() as int);
    assert(text =~= "error: "@ + tool + rest);
    lemma_holds_between("error: "@, tool, rest);
    let front = "error: "@ + tool + " needs a "@;
    let mid = "`"@ + key + "`"@;
    assert(text =~= front + mid + Seq::empty());
    lemma_holds_between(front, mid, Seq::empty());
    let names = offered_names(allow_edits, has_approver);
    let all = joined(names, ", "@);
    let told = unknown_tool(tool, allow_edits, has_approver);
    let lead = "error: unknown tool: "@ + tool + ". Available tools: "@;
    lemma_joined_holds(names, ", "@, i);
    assert(told =~= lead + all + Seq::empty());
    lemma_holds_wider(lead, all, Seq::empty(), names[i]);
    let tail = ". Available tools: "@ + all;
    assert(told =~= "error: unknown tool: "@ + tool + tail);
    lemma_holds_between("error: unknown tool: "@, tool, tail);
}

} // verus!
