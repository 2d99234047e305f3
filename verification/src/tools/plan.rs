//! From a tool call to what is to be done about it.

use vstd::prelude::*;

use crate::json::{items, Json, JsonV};
use crate::json_text::{arguments_of, json_text, parse_arguments, read_json};
use crate::plan::asked_steps;
use crate::rounds::is_read_tool;
use crate::text::affix::{trim, trimmed};
use crate::text::pieces::{join, joined};
use crate::text::{cat2, cat4, cat5, opt, owned, same, texts};
use crate::tools::command::{argv, argv_of, argv_view, run_opts, run_opts_of, Machine, RunOpts};
use crate::tools::offer::{offered_names, tool_names};

verus! {

/// What is to be done about a tool call.
pub enum ToolPlan {
    /// Answer with a text, without running anything.
    Say(String),
    /// Hand the raw arguments to the MCP bridge.
    Bridge,
    Remember { title: Option<String>, note: String },
    Recall(String),
    RecallList(Option<String>),
    Forget(String),
    ReadSkill(String),
    ChatHistory { id: Option<String>, about: Option<String>, limit: Option<usize>, all: bool },
    UpdatePlan(Vec<(String, Option<String>)>),
    AskUser { header: String, question: String, options: Vec<String> },
    WritePlan { content: Option<String>, old_str: Option<String>, new_str: Option<String> },
    ExitPlanMode(Option<String>),
    ReadFile { path: String, start: Option<usize>, end: Option<usize> },
    ListFiles(Option<String>),
    Explore(Json),
    SearchFiles { query: String, dir: Option<String> },
    FindFiles { pattern: String, dir: Option<String> },
    AstGrep { pattern: String, language: Option<String> },
    AstEdit { pattern: String, rewrite: String, language: Option<String> },
    SecurityScan(Option<String>),
    LspDiagnostics(String),
    LspReferences(Json),
    LspDefinitions(Json),
    EditFile { path: String, search: String, replace: String },
    RunCommand { binary: String, args: Vec<String>, opts: RunOpts },
    OpenPreview { target: String, description: Option<String> },
    RunTests { runner: Option<String>, filter: Option<String>, opts: RunOpts },
}

/// What is answered when `run_command` names nothing to run.
pub const MISSING_COMMAND: &'static str = "run_command needs a `command`: the binary to \
    run, with its arguments in `args`. To run a shell line, pass \
    command:`bash` with args [\"-lc\", \"<the line>\"]. Send the call again \
    with `command` set";

/// What is answered when an edit is asked for where edits are off.
pub const EDITS_OFF: &'static str =
    "error: editing is disabled for this chat; tell the user to enable Allow edits";

/// The directory a call names: trimmed, and none when nothing is left.
pub open spec fn named_dir(dir: Option<Seq<char>>) -> Option<Seq<char>> {
    match dir {
        Some(d) => if trimmed(d).len() > 0 {
            Some(trimmed(d))
        } else {
            None
        },
        None => None,
    }
}

/// The directory a call names: trimmed, and none when nothing is left.
pub fn dir_named(dir: Option<&str>) -> (r: Option<String>)
    ensures
        opt(r) == named_dir(crate::text::opt_str(dir)),
{
    match dir {
        Some(d) => {
            let t = trim(d);
            if t.as_str().is_empty() {
                None
            } else {
                Some(t)
            }
        },
        None => None,
    }
}

/// An optional integer as an index.
pub open spec fn index_of(n: Option<u64>) -> Option<usize> {
    match n {
        Some(v) => Some(v as usize),
        None => None,
    }
}

fn as_index(n: Option<u64>) -> (r: Option<usize>)
    ensures
        r == index_of(n),
{
    match n {
        Some(v) => Some(v as usize),
        None => None,
    }
}

/// The strings among the elements of a list.
pub open spec fn strings_in(v: Seq<JsonV>) -> Seq<Seq<char>>
    decreases v.len(),
{
    if v.len() == 0 {
        Seq::empty()
    } else {
        match v.last().text() {
            Some(s) => strings_in(v.drop_last()).push(s),
            None => strings_in(v.drop_last()),
        }
    }
}

fn strings_of(v: &Vec<Json>) -> (r: Vec<String>)
    ensures
        texts(r@) == strings_in(items(v@)),
{
    let ghost all = items(v@);
    let mut out: Vec<String> = Vec::new();
    let mut i: usize = 0;
    assert(texts(out@) =~= strings_in(all.take(0)));
    while i < v.len()
        invariant
            i <= v@.len(),
            all == items(v@),
            texts(out@) == strings_in(all.take(i as int)),
        decreases v.len() - i,
    {
        proof {
            assert(all.take(i + 1).drop_last() =~= all.take(i as int));
            assert(all.take(i + 1).last() == v@[i as int]@);
        }
        let ghost had = texts(out@);
        match v[i].as_str() {
            Some(s) => {
                let s = s.to_owned();
                out.push(s);
                assert(texts(out@) =~= had.push(s@));
            },
            None => {},
        }
        i += 1;
    }
    assert(all.take(all.len() as int) =~= all);
    out
}

/// The options of a question: the strings of the list, if there is one.
pub open spec fn options_of(a: JsonV) -> Seq<Seq<char>> {
    match a.elements_at("options"@) {
        Some(v) => strings_in(v),
        None => Seq::empty(),
    }
}

/// The steps of an `update_plan` call: label and status of each element.
pub open spec fn steps_asked(a: JsonV) -> Seq<(Seq<char>, Option<Seq<char>>)> {
    match a.elements_at("steps"@) {
        Some(v) => Seq::new(
            v.len(),
            |i: int|
                (
                    match v[i].text_at("label"@) {
                        Some(s) => s,
                        None => Seq::empty(),
                    },
                    v[i].text_at("status"@),
                ),
        ),
        None => Seq::empty(),
    }
}

fn plan_steps(a: &Json) -> (r: Vec<(String, Option<String>)>)
    ensures
        asked_steps(r@) == steps_asked(a@),
{
    let mut out: Vec<(String, Option<String>)> = Vec::new();
    match a.array_at("steps") {
        Some(v) => {
            let mut i: usize = 0;
            while i < v.len()
                invariant
                    i <= v@.len(),
                    out@.len() == i,
                    forall|k: int|
                        0 <= k < i ==> (#[trigger] out@[k]).0@ == (match v@[k]@.text_at("label"@) {
                            Some(s) => s,
                            None => Seq::empty(),
                        }) && opt(out@[k].1) == v@[k]@.text_at("status"@),
                decreases v.len() - i,
            {
                let label = match v[i].str_at("label") {
                    Some(s) => s.to_owned(),
                    None => String::new(),
                };
                assert(v@[i as int]@.text_at("label"@) is None ==> label@ =~= Seq::empty());
                out.push((label, owned(v[i].str_at("status"))));
                i += 1;
            }
            assert(asked_steps(out@) =~= steps_asked(a@));
        },
        None => {
            assert(asked_steps(out@) =~= steps_asked(a@));
        },
    }
    out
}

/// True when `p` answers with exactly this text.
pub open spec fn says(p: ToolPlan, text: Seq<char>) -> bool {
    match p {
        ToolPlan::Say(s) => s@ == text,
        _ => false,
    }
}

/// The complaint about an argument that is missing.
pub open spec fn needs(tool: Seq<char>, key: Seq<char>) -> Seq<char> {
    "error: "@ + tool + " needs a `"@ + key + "`"@
}

/// What is said about a tool that does not exist.
pub open spec fn unknown_tool(name: Seq<char>, allow_edits: bool, has_approver: bool) -> Seq<char> {
    "error: unknown tool: "@ + name + ". Available tools: "@ + joined(
        offered_names(allow_edits, has_approver),
        ", "@,
    )
}

/// What a call of `name` with the arguments `a` comes to.
pub open spec fn plan_for(
    p: ToolPlan,
    name: Seq<char>,
    a: JsonV,
    allow_edits: bool,
    has_approver: bool,
    m: Machine,
    opts: RunOpts,
) -> bool {
    if name == "remember"@ {
        match a.text_at("note"@) {
            Some(want) => p matches ToolPlan::Remember { title, note } && note@ == want && opt(
                title,
            ) == a.text_at("title"@),
            None => says(p, needs(name, "note"@)),
        }
    } else if name == "recall"@ {
        match a.text_at("name"@) {
            Some(want) => p matches ToolPlan::Recall(n) && n@ == want,
            None => p matches ToolPlan::RecallList(q) && opt(q) == a.text_at("query"@),
        }
    } else if name == "forget"@ {
        match a.text_at("name"@) {
            Some(want) => p matches ToolPlan::Forget(n) && n@ == want,
            None => says(p, needs(name, "name"@)),
        }
    } else if name == "read_skill"@ {
        match a.text_at("name"@) {
            Some(want) => p matches ToolPlan::ReadSkill(n) && n@ == want,
            None => says(p, needs(name, "name"@)),
        }
    } else if name == "chat_history"@ {
        history_plan(p, a)
    } else if name == "update_plan"@ {
        p matches ToolPlan::UpdatePlan(steps) && asked_steps(steps@) == steps_asked(a)
    } else if name == "ask_user"@ {
        match a.text_at("question"@) {
            Some(want) => p matches ToolPlan::AskUser { header, question, options } && question@
                == want && header@ == (match a.text_at("header"@) {
                Some(h) => h,
                None => Seq::empty(),
            }) && texts(options@) == options_of(a),
            None => says(p, needs(name, "question"@)),
        }
    } else if name == "write_plan"@ {
        p matches ToolPlan::WritePlan { content, old_str, new_str } && opt(content) == a.text_at(
            "content"@,
        ) && opt(old_str) == a.text_at("old_str"@) && opt(new_str) == a.text_at("new_str"@)
    } else if name == "exit_plan_mode"@ {
        p matches ToolPlan::ExitPlanMode(doc) && opt(doc) == a.text_at("plan"@)
    } else if name == "read_file"@ {
        match a.text_at("path"@) {
            Some(want) => read_plan(p, want, a),
            None => says(p, needs(name, "path"@)),
        }
    } else if name == "list_files"@ {
        p matches ToolPlan::ListFiles(dir) && opt(dir) == named_dir(a.text_at("dir"@))
    } else if name == "explore"@ {
        p matches ToolPlan::Explore(j) && j@ == a
    } else if name == "search_files"@ {
        match a.text_at("query"@) {
            Some(want) => p matches ToolPlan::SearchFiles { query, dir } && query@ == want && opt(
                dir,
            ) == named_dir(a.text_at("dir"@)),
            None => says(p, needs(name, "query"@)),
        }
    } else if name == "find_files"@ {
        match a.text_at("pattern"@) {
            Some(want) => p matches ToolPlan::FindFiles { pattern, dir } && pattern@ == want && opt(
                dir,
            ) == named_dir(a.text_at("dir"@)),
            None => says(p, needs(name, "pattern"@)),
        }
    } else {
        acting_plan(p, name, a, allow_edits, has_approver, m, opts)
    }
}

/// What a call of `chat_history` comes to.
pub open spec fn history_plan(p: ToolPlan, a: JsonV) -> bool {
    p matches ToolPlan::ChatHistory { id, about, limit, all } && opt(id) == a.text_at("id"@)
        && opt(about) == a.text_at("query"@) && limit == index_of(a.unsigned_at("limit"@)) && all
        == (a.boolean_at("all"@) == Some(true))
}

/// What a call of `read_file` for `path` comes to.
pub open spec fn read_plan(p: ToolPlan, want: Seq<char>, a: JsonV) -> bool {
    p matches ToolPlan::ReadFile { path, start, end } && path@ == want && start == index_of(
        a.unsigned_at("start_line"@),
    ) && end == index_of(a.unsigned_at("end_line"@))
}

/// What a call of one of the tools that analyse, edit or run comes to.
pub open spec fn acting_plan(
    p: ToolPlan,
    name: Seq<char>,
    a: JsonV,
    allow_edits: bool,
    has_approver: bool,
    m: Machine,
    opts: RunOpts,
) -> bool {
    if name == "ast_grep"@ {
        match a.text_at("pattern"@) {
            Some(want) => p matches ToolPlan::AstGrep { pattern, language } && pattern@ == want
                && opt(language) == a.text_at("language"@),
            None => says(p, needs(name, "pattern"@)),
        }
    } else if name == "ast_edit"@ {
        if !allow_edits {
            says(p, EDITS_OFF@)
        } else {
            match (a.text_at("pattern"@), a.text_at("rewrite"@)) {
                (Some(x), Some(y)) => p matches ToolPlan::AstEdit { pattern, rewrite, language }
                    && pattern@ == x && rewrite@ == y && opt(language) == a.text_at("language"@),
                (None, _) => says(p, needs(name, "pattern"@)),
                (Some(_), None) => says(p, needs(name, "rewrite"@)),
            }
        }
    } else if name == "security_scan"@ {
        p matches ToolPlan::SecurityScan(path) && opt(path) == a.text_at("path"@)
    } else if name == "lsp_diagnostics"@ {
        match a.text_at("path"@) {
            Some(want) => p matches ToolPlan::LspDiagnostics(path) && path@ == want,
            None => says(p, needs(name, "path"@)),
        }
    } else if name == "lsp_references"@ {
        p matches ToolPlan::LspReferences(j) && j@ == a
    } else if name == "lsp_definitions"@ {
        p matches ToolPlan::LspDefinitions(j) && j@ == a
    } else if name == "edit_file"@ {
        if !allow_edits {
            says(p, EDITS_OFF@)
        } else {
            match (a.text_at("path"@), a.text_at("replace"@)) {
                (Some(x), Some(y)) => p matches ToolPlan::EditFile { path, search, replace } && path@
                    == x && replace@ == y && search@ == (match a.text_at("search"@) {
                    Some(s) => s,
                    None => Seq::empty(),
                }),
                (None, _) => says(p, needs(name, "path"@)),
                (Some(_), None) => says(p, "error: edit_file needs `replace`"@),
            }
        }
    } else if name == "run_command"@ {
        match argv_of(a, m) {
            Some(want) => p matches ToolPlan::RunCommand { binary, args, opts: o } && argv_view(
                (binary, args),
            ) == want && o == run_opts_of(a, opts),
            None => says(p, "error: "@ + MISSING_COMMAND@),
        }
    } else if name == "open_preview"@ {
        match a.text_at("target"@) {
            Some(want) => p matches ToolPlan::OpenPreview { target, description } && target@ == want
                && opt(description) == a.text_at("description"@),
            None => says(p, needs(name, "target"@)),
        }
    } else if name == "run_tests"@ {
        p matches ToolPlan::RunTests { runner, filter, opts: o } && opt(runner) == a.text_at(
            "runner"@,
        ) && opt(filter) == a.text_at("filter"@) && o == run_opts_of(a, opts)
    } else {
        says(p, unknown_tool(name, allow_edits, has_approver))
    }
}

/// What a call of `name` with the raw arguments comes to: the MCP bridge takes
/// them as they are, any other tool needs them to be JSON.
pub open spec fn call_plan(
    p: ToolPlan,
    name: Seq<char>,
    arguments: Seq<char>,
    allow_edits: bool,
    has_approver: bool,
    m: Machine,
    opts: RunOpts,
) -> bool {
    if name == "aster_mcp"@ {
        p == ToolPlan::Bridge
    } else {
        match arguments_of(arguments) {
            Ok(a) => plan_for(p, name, a, allow_edits, has_approver, m, opts),
            Err(e) => says(p, "error: tool arguments were not valid JSON: "@ + e),
        }
    }
}

fn need(tool: &str, key: &str) -> (r: ToolPlan)
    ensures
        says(r, needs(tool@, key@)),
{
    ToolPlan::Say(cat5("error: ", tool, " needs a `", key, "`"))
}

fn plan_history(a: &Json) -> (r: ToolPlan)
    ensures
        history_plan(r, a@),
{
    ToolPlan::ChatHistory {
        id: owned(a.str_at("id")),
        about: owned(a.str_at("query")),
        limit: as_index(a.u64_at("limit")),
        all: match a.bool_at("all") {
            Some(b) => b,
            None => false,
        },
    }
}

fn plan_read(path: &str, a: &Json) -> (r: ToolPlan)
    ensures
        read_plan(r, path@, a@),
{
    ToolPlan::ReadFile {
        path: path.to_owned(),
        start: as_index(a.u64_at("start_line")),
        end: as_index(a.u64_at("end_line")),
    }
}

/// What a call of `name` with parsed arguments comes to.
pub fn plan_tool(
    name: &str,
    a: &Json,
    allow_edits: bool,
    has_approver: bool,
    m: &Machine,
    opts: RunOpts,
) -> (r: ToolPlan)
    ensures
        plan_for(r, name@, a@, allow_edits, has_approver, *m, opts),
{
    if same(name, "remember") {
        match a.str_at("note") {
            Some(note) => ToolPlan::Remember {
                title: owned(a.str_at("title")),
                note: note.to_owned(),
            },
            None => need(name, "note"),
        }
    } else if same(name, "recall") {
        match a.str_at("name") {
            Some(n) => ToolPlan::Recall(n.to_owned()),
            None => ToolPlan::RecallList(owned(a.str_at("query"))),
        }
    } else if same(name, "forget") {
        match a.str_at("name") {
            Some(n) => ToolPlan::Forget(n.to_owned()),
            None => need(name, "name"),
        }
    } else if same(name, "read_skill") {
        match a.str_at("name") {
            Some(n) => ToolPlan::ReadSkill(n.to_owned()),
            None => need(name, "name"),
        }
    } else if same(name, "chat_history") {
        plan_history(a)
    } else if same(name, "update_plan") {
        ToolPlan::UpdatePlan(plan_steps(a))
    } else if same(name, "ask_user") {
        match a.str_at("question") {
            Some(question) => {
                let options = match a.array_at("options") {
                    Some(v) => strings_of(v),
                    None => {
                        let none: Vec<String> = Vec::new();
                        assert(texts(none@) =~= Seq::empty());
                        none
                    },
                };
                let header = match a.str_at("header") {
                    Some(h) => h.to_owned(),
                    None => String::new(),
                };
                assert(a@.text_at("header"@) is None ==> header@ =~= Seq::empty());
                ToolPlan::AskUser { header, question: question.to_owned(), options }
            },
            None => need(name, "question"),
        }
    } else if same(name, "write_plan") {
        ToolPlan::WritePlan {
            content: owned(a.str_at("content")),
            old_str: owned(a.str_at("old_str")),
            new_str: owned(a.str_at("new_str")),
        }
    } else if same(name, "exit_plan_mode") {
        ToolPlan::ExitPlanMode(owned(a.str_at("plan")))
    } else if same(name, "read_file") {
        match a.str_at("path") {
            Some(path) => plan_read(path, a),
            None => need(name, "path"),
        }
    } else if same(name, "list_files") {
        ToolPlan::ListFiles(dir_named(a.str_at("dir")))
    } else if same(name, "explore") {
        ToolPlan::Explore(a.copy())
    } else if same(name, "search_files") {
        match a.str_at("query") {
            Some(query) => ToolPlan::SearchFiles {
                query: query.to_owned(),
                dir: dir_named(a.str_at("dir")),
            },
            None => need(name, "query"),
        }
    } else if same(name, "find_files") {
        match a.str_at("pattern") {
            Some(pattern) => ToolPlan::FindFiles {
                pattern: pattern.to_owned(),
                dir: dir_named(a.str_at("dir")),
            },
            None => need(name, "pattern"),
        }
    } else {
        plan_acting(name, a, allow_edits, has_approver, m, opts)
    }
}

fn plan_acting(
    name: &str,
    a: &Json,
    allow_edits: bool,
    has_approver: bool,
    m: &Machine,
    opts: RunOpts,
) -> (r: ToolPlan)
    ensures
        acting_plan(r, name@, a@, allow_edits, has_approver, *m, opts),
{
    if same(name, "ast_grep") {
        match a.str_at("pattern") {
            Some(pattern) => ToolPlan::AstGrep {
                pattern: pattern.to_owned(),
                language: owned(a.str_at("language")),
            },
            None => need(name, "pattern"),
        }
    } else if same(name, "ast_edit") {
        if !allow_edits {
            return ToolPlan::Say(EDITS_OFF.to_owned());
        }
        match (a.str_at("pattern"), a.str_at("rewrite")) {
            (Some(pattern), Some(rewrite)) => ToolPlan::AstEdit {
                pattern: pattern.to_owned(),
                rewrite: rewrite.to_owned(),
                language: owned(a.str_at("language")),
            },
            (None, _) => need(name, "pattern"),
            (Some(_), None) => need(name, "rewrite"),
        }
    } else if same(name, "security_scan") {
        ToolPlan::SecurityScan(owned(a.str_at("path")))
    } else if same(name, "lsp_diagnostics") {
        match a.str_at("path") {
            Some(path) => ToolPlan::LspDiagnostics(path.to_owned()),
            None => need(name, "path"),
        }
    } else if same(name, "lsp_references") {
        ToolPlan::LspReferences(a.copy())
    } else if same(name, "lsp_definitions") {
        ToolPlan::LspDefinitions(a.copy())
    } else if same(name, "edit_file") {
        if !allow_edits {
            return ToolPlan::Say(EDITS_OFF.to_owned());
        }
        match (a.str_at("path"), a.str_at("replace")) {
            (Some(path), Some(replace)) => {
                let search = match a.str_at("search") {
                    Some(s) => s.to_owned(),
                    None => String::new(),
                };
                assert(a@.text_at("search"@) is None ==> search@ =~= Seq::empty());
                ToolPlan::EditFile { path: path.to_owned(), search, replace: replace.to_owned() }
            },
            (None, _) => need(name, "path"),
            (Some(_), None) => ToolPlan::Say("error: edit_file needs `replace`".to_owned()),
        }
    } else if same(name, "run_command") {
        match argv(a, m) {
            Some((binary, args)) => ToolPlan::RunCommand {
                binary,
                args,
                opts: run_opts(a, opts),
            },
            None => ToolPlan::Say(cat2("error: ", MISSING_COMMAND)),
        }
    } else if same(name, "open_preview") {
        match a.str_at("target") {
            Some(target) => ToolPlan::OpenPreview {
                target: target.to_owned(),
                description: owned(a.str_at("description")),
            },
            None => need(name, "target"),
        }
    } else if same(name, "run_tests") {
        ToolPlan::RunTests {
            runner: owned(a.str_at("runner")),
            filter: owned(a.str_at("filter")),
            opts: run_opts(a, opts),
        }
    } else {
        let names = tool_names(allow_edits, has_approver);
        ToolPlan::Say(
            cat4("error: unknown tool: ", name, ". Available tools: ", join(&names, ", ").as_str()),
        )
    }
}

/// What a call of `name` with raw arguments comes to.
pub fn plan_call(
    name: &str,
    arguments: &str,
    allow_edits: bool,
    has_approver: bool,
    m: &Machine,
    opts: RunOpts,
) -> (r: ToolPlan)
    ensures
        call_plan(r, name@, arguments@, allow_edits, has_approver, *m, opts),
{
    if same(name, "aster_mcp") {
        return ToolPlan::Bridge;
    }
    match parse_arguments(arguments) {
        Ok(a) => plan_tool(name, &a, allow_edits, has_approver, m, opts),
        Err(e) => ToolPlan::Say(
            cat2("error: tool arguments were not valid JSON: ", e.as_str()),
        ),
    }
}

/// The complaint about an argument that a batched lookup lacks.
pub open spec fn lookup_needs(name: Seq<char>, key: Seq<char>) -> Seq<char> {
    "`"@ + name + "` needs a `"@ + key + "` argument in `args`; call it on its own"@
}

/// What a batched lookup comes to; none when `name` is no lookup.
pub open spec fn lookup_plan(p: Option<ToolPlan>, name: Seq<char>, a: JsonV) -> bool {
    if !is_read_tool(name) {
        p is None
    } else if p is None {
        false
    } else {
        let plan = p.unwrap();
        if name == "read_file"@ {
            match a.text_at("path"@) {
                Some(want) => read_plan(plan, want, a),
                None => says(plan, lookup_needs(name, "path"@)),
            }
        } else if name == "list_files"@ {
            plan matches ToolPlan::ListFiles(dir) && opt(dir) == named_dir(a.text_at("dir"@))
        } else if name == "search_files"@ {
            match a.text_at("query"@) {
                Some(want) => plan matches ToolPlan::SearchFiles { query, dir } && query@ == want
                    && opt(dir) == named_dir(a.text_at("dir"@)),
                None => says(plan, lookup_needs(name, "query"@)),
            }
        } else if name == "find_files"@ {
            match a.text_at("pattern"@) {
                Some(want) => plan matches ToolPlan::FindFiles { pattern, dir } && pattern@ == want
                    && opt(dir) == named_dir(a.text_at("dir"@)),
                None => says(plan, lookup_needs(name, "pattern"@)),
            }
        } else if name == "recall"@ {
            match a.text_at("name"@) {
                Some(want) => plan matches ToolPlan::Recall(n) && n@ == want,
                None => plan matches ToolPlan::RecallList(q) && opt(q) == a.text_at("query"@),
            }
        } else if name == "read_skill"@ {
            match a.text_at("name"@) {
                Some(want) => plan matches ToolPlan::ReadSkill(n) && n@ == want,
                None => says(plan, lookup_needs(name, "name"@)),
            }
        } else {
            history_plan(plan, a)
        }
    }
}

fn lookup_need(name: &str, key: &str) -> (r: Option<ToolPlan>)
    ensures
        r is Some,
        says(r.unwrap(), lookup_needs(name@, key@)),
{
    Some(
        ToolPlan::Say(
            cat5("`", name, "` needs a `", key, "` argument in `args`; call it on its own"),
        ),
    )
}

/// What a batched lookup with parsed arguments comes to; none when `name` is no
/// lookup.
pub fn plan_lookup(name: &str, a: &Json) -> (r: Option<ToolPlan>)
    ensures
        lookup_plan(r, name@, a@),
{
    if same(name, "read_file") {
        match a.str_at("path") {
            Some(path) => Some(plan_read(path, a)),
            None => lookup_need(name, "path"),
        }
    } else if same(name, "list_files") {
        Some(ToolPlan::ListFiles(dir_named(a.str_at("dir"))))
    } else if same(name, "search_files") {
        match a.str_at("query") {
            Some(query) => Some(
                ToolPlan::SearchFiles {
                    query: query.to_owned(),
                    dir: dir_named(a.str_at("dir")),
                },
            ),
            None => lookup_need(name, "query"),
        }
    } else if same(name, "find_files") {
        match a.str_at("pattern") {
            Some(pattern) => Some(
                ToolPlan::FindFiles {
                    pattern: pattern.to_owned(),
                    dir: dir_named(a.str_at("dir")),
                },
            ),
            None => lookup_need(name, "pattern"),
        }
    } else if same(name, "recall") {
        match a.str_at("name") {
            Some(n) => Some(ToolPlan::Recall(n.to_owned())),
            None => Some(ToolPlan::RecallList(owned(a.str_at("query")))),
        }
    } else if same(name, "read_skill") {
        match a.str_at("name") {
            Some(n) => Some(ToolPlan::ReadSkill(n.to_owned())),
            None => lookup_need(name, "name"),
        }
    } else if same(name, "chat_history") {
        Some(plan_history(a))
    } else {
        None
    }
}

/// What a batched lookup with raw arguments comes to; none when they are no
/// JSON or `name` is no lookup.
pub fn read_only_call(name: &str, arguments: &str) -> (r: Option<ToolPlan>)
    ensures
        match json_text(arguments@) {
            Ok(a) => lookup_plan(r, name@, a),
            Err(_) => r is None,
        },
{
    match read_json(arguments) {
        Ok(a) => plan_lookup(name, &a),
        Err(_) => None,
    }
}

/// No call edits where edits are off.
pub proof fn no_edit_without_permission(
    p: ToolPlan,
    name: Seq<char>,
    arguments: Seq<char>,
    has_approver: bool,
    m: Machine,
    opts: RunOpts,
)
    requires
        call_plan(p, name, arguments, false, has_approver, m, opts),
    ensures
        !(p is EditFile),
        !(p is AstEdit),
{
}

/// A batched lookup never edits, runs or asks anything.
pub proof fn lookups_only_look(p: ToolPlan, name: Seq<char>, a: JsonV)
    requires
        lookup_plan(Some(p), name, a),
    ensures
        p is Say || p is ReadFile || p is ListFiles || p is SearchFiles || p is FindFiles
            || p is Recall || p is RecallList || p is ReadSkill || p is ChatHistory,
{
}

} // verus!
