//! The tools a turn offers the model.

use vstd::prelude::*;

use crate::json::{items, Fields, Json, JsonV};
use crate::tools::schema::{
    names_v, object, object_requiring, object_v, object_with, prop, prop_v, tool, tool_v, Names,
};

verus! {

/// What `read_file` is said to do.
pub const READ_FILE_TEXT: &'static str =
    "Read a file, with line numbers. Optionally a line range. Document formats (PDF, Word, PowerPoint, Excel, OpenDocument, EPUB, RTF) are converted to Markdown, so their line numbers do not map to bytes on disk. Image files (PNG, JPEG, GIF, WebP) are not readable here: an image the user mentioned with @path is already attached to the conversation as an image part, so look at it instead of calling this tool. Paths outside the repository (absolute, or starting with ~) are allowed but the user is asked to approve each one, so prefer repo-relative paths.";

/// What `list_files` is said to do.
pub const LIST_FILES_TEXT: &'static str =
    "List the entries of a directory. Directories end with '/'. Paths outside the repository are allowed but the user is asked to approve each one.";

/// What `explore` is said to do.
pub const EXPLORE_TEXT: &'static str =
    "Run several lookups in ONE round instead of one per round. Every step runs in parallel and all results come back together, labelled. Each model round-trip costs seconds while these lookups take microseconds, so reaching for this instead of a lone read or search is the single biggest thing you can do to answer faster. Use it whenever you need more than one thing before you can act: the file plus the two it references, a search plus the file it will point at, several searches for the same concept. Steps may mix tools freely. Only lookups inside the repository run here; anything else comes back marked, and you call that tool on its own.";

/// What `search_files` is said to do.
pub const SEARCH_FILES_TEXT: &'static str =
    "Content search across repository files. The query is a regex, falling back to a literal match when it is not valid regex. Matching is smart-case: an all-lowercase query ignores case, a query with an uppercase letter is matched exactly. Results are grouped by file, with surrounding lines and a '>' on each matching line, so you usually do not need to read the file afterwards. At most 3 matches per file, so hits spread across the repository. A directory that does not exist is not an error: the whole repository is searched instead.";

/// What `find_files` is said to do.
pub const FIND_FILES_TEXT: &'static str =
    "Find files by name or glob, e.g. `chat.rs`, `*.rs`, `crates/*/src/**/*.rs`. A bare name matches at any depth. Use this before guessing a path, and whenever a read or list reports that a path does not exist.";

/// What `remember` is said to do.
pub const REMEMBER_TEXT: &'static str =
    "Save a durable fact to memory so it survives across sessions. Use for lasting project facts, conventions, or user preferences the model should recall later. `title` creates a named memory block; without it the note is appended to project memory (ASTER.md).";

/// What `recall` is said to do.
pub const RECALL_TEXT: &'static str =
    "Read a memory block's full contents by name. The system prompt lists recallable memory as name and description only; call this to load the full body of a block before relying on it. With no `name` it lists every block as it stands now, which the system prompt's list does not: that was taken when the session started and misses anything written since, by you or by another session. Pass `query` to list only the blocks mentioning something. List before writing a memory that might already exist.";

/// What `chat_history` is said to do.
pub const CHAT_HISTORY_TEXT: &'static str =
    "Read this project's saved chats, this one included. With no arguments it lists them newest first, each with its id, title, turn count and start time. Pass `id` to read one back, and `id: \"current\"` for the chat you are in, which is how you answer what was said earlier in it or before a compaction folded it away. Pass `query` to list only the chats that mention something. You get the messages, not the tool output they produced.";

/// What `forget` is said to do.
pub const FORGET_TEXT: &'static str =
    "Delete a memory block by name when the user says a remembered fact is wrong or no longer wanted. This removes the block outright; never overwrite a block with a placeholder to retire it.";

/// What `read_skill` is said to do.
pub const READ_SKILL_TEXT: &'static str =
    "Load a skill's full instructions by name. The system prompt lists skills as name and description only; call this to read a skill's body before following it, once a request matches its description.";

/// What `update_plan` is said to do.
pub const UPDATE_PLAN_TEXT: &'static str =
    "Update the execution plan state. Accepts a list of step objects with `label` and `status` fields. Status must be one of: pending, in_progress, done, skipped, blocked. The plan is rendered as a progress strip in the UI. Use it for work with several distinct steps: lay the steps out before starting, mark each in_progress as you begin it and done as it lands, and keep the list current through the end of the work.";

/// What `ask_user` is said to do.
pub const ASK_USER_TEXT: &'static str =
    "Ask the user a structured question with a set of options. Only for decisions that are genuinely the user's to make and that you cannot resolve from the request, the code, or sensible defaults. If the user's message already implies the answer, act on it; never ask how to do the thing they just asked for. Not for yes/no approval. The user can pick an option or write their own.";

/// What `edit_file` is said to do.
pub const EDIT_FILE_TEXT: &'static str =
    "Replace text in a file, or create a new one. `search` must be copied verbatim from the file and match exactly once; include surrounding lines to disambiguate. Omit `search` to create a new file at `path` with `replace` as its whole contents; missing parent directories are created. Paths outside the repository (absolute, or starting with ~) are allowed but the user is asked to approve each directory, so prefer repo-relative paths.";

/// What `ast_edit` is said to do.
pub const AST_EDIT_TEXT: &'static str =
    "Apply a structural rewrite across many files at once: every match of an ast-grep `pattern` is replaced by `rewrite` (use `$$$VAR` metavariables to capture and reuse). Prefer this over repeated edit_file calls when the same change applies in many places. Returns the changed files and a diff. Requires Allow edits.";

/// What `ast_grep` is said to do.
pub const AST_GREP_TEXT: &'static str =
    "Search code structurally with an ast-grep pattern (e.g. dbg!($X), fn $NAME($$$ARGS)) instead of plain text, so matches respect syntax. Returns file:line: matched text lines. Use `language` to restrict to one language; without it the language is detected per file.";

/// What `security_scan` is said to do.
pub const SECURITY_SCAN_TEXT: &'static str =
    "Run the available security analyzers (semgrep, ast-grep rules) over the repository, or a subdirectory with `path`, and return findings as severity file:line lines. Backends that are not installed are skipped and named at the end.";

/// What `lsp_diagnostics` is said to do.
pub const LSP_DIAGNOSTICS_TEXT: &'static str =
    "Get the language server's errors and warnings for one file. Much faster than a full build for checking whether an edit compiles. Requires rust-analyzer (Rust) or typescript-language-server (TS/JS) to be installed.";

/// What `lsp_references` is said to do.
pub const LSP_REFERENCES_TEXT: &'static str =
    "Find where the symbol at a position is referenced, semantically (not a text search). Positions are 0-based line and character. Requires rust-analyzer or typescript-language-server.";

/// What `lsp_definitions` is said to do.
pub const LSP_DEFINITIONS_TEXT: &'static str =
    "Find where the symbol at a position is defined, semantically. Positions are 0-based line and character. Requires rust-analyzer or typescript-language-server.";

/// What `write_plan` is said to do.
pub const WRITE_PLAN_TEXT: &'static str =
    "Write or revise the plan document before presenting it with `exit_plan_mode`. The plan is a file kept with the session: write a skeleton of headings as soon as you know the shape of the work, fill each section in as you read the code, and edit sections with `old_str`/`new_str` as findings change your mind rather than rewriting from memory. Research first and write from what you read, never from a guess about the code. Sections, in this order: `## Context` (what is true today and why the change is needed, citing `path:line` for every claim about the code), `## Decisions` (each choice with the evidence behind it and the alternative you rejected, with a real reason), `## Changes` (per file: the functions that change, what changes in them, and the existing code you will reuse), `## Risks` (anything irreversible, outward-facing, or uncertain; say so first if it applies), `## Verification` (the exact commands to run and the result each should give). Settle real forks with the user through `ask_user` before writing them into the plan. A plan is judged on whether the user can point at the sentence they disagree with; a list of stage names is not a plan.";

/// What `exit_plan_mode` is said to do.
pub const EXIT_PLAN_MODE_TEXT: &'static str =
    "Present the plan written with `write_plan` for the user's approval and wait for their answer. Call it only once the draft is complete: every section filled from code you have read. Do not edit files or run state-changing commands until the user approves. If they reject, revise the sections they objected to with `write_plan` and present again.";

/// What `run_command` is said to do.
pub const RUN_COMMAND_TEXT: &'static str =
    "Run a CLI command. There is no shell: `&&`, `|`, `>`, `*`, and `cd` are not interpreted, so to chain or pipe pass command:`bash` with args `[\"-lc\", \"one && two | head\"]`. Filesystem writes are restricted to the repository and temp directories (`.git` and CI workflow files are not writable), and secrets are dropped from the environment. Pass turbo:true for offline mode (no network). Pass yolo:true only when the user explicitly asks for unrestricted execution. In yolo mode (session mode or yolo:true) there is no sandbox at all: the full environment, including secrets, is inherited. Returns stdout, stderr, and exit code.";

/// What `open_preview` is said to do.
pub const OPEN_PREVIEW_TEXT: &'static str =
    "Open a page in the user's browser so they can see what you built, instead of only describing it. Call it once, at the end of a turn that produced something visual: a page, a component, a report, a diagram, a rendered document. `target` is either the URL of a server that is already running (`http://localhost:5173/pricing`) or a path to a file in the repo (`dist/index.html`, `docs/report.pdf`); a directory opens its index.html. A loopback URL nothing is listening on is refused, so start the dev server before you call this. Anything that is not loopback or a repo file asks the user first. Do not call it for a code-only change, and do not call it twice for the same page.";

/// What `run_tests` is said to do.
pub const RUN_TESTS_TEXT: &'static str =
    "Run the repository's test suite and get structured results: pass/fail counts, failing test names, and the output tail. Detects cargo, npm/bun/pnpm/yarn, pytest, or go from the repo's manifests. Prefer this over run_command for running tests.";

/// What `agent` is said to do.
pub const AGENT_TEXT: &'static str =
    "Fan out self-contained tasks to named sub-agents in parallel. Each agent starts with a fresh context and cannot see this conversation. Split divisible work into distinct, non-overlapping tasks, one per entry, so the batch covers the whole; do not hand the entire job to a single agent when it splits cleanly, and do not give two agents the same task. For broad investigation, fan several cheap scout agents out in one call, then pass their raw reports to `prism` in a second call. Limit batch size to avoid overwhelming the system.";

/// The definition of `read_file`.
pub open spec fn read_file_tool() -> JsonV {
    tool_v(
        "read_file"@,
        READ_FILE_TEXT@,
        object_with(
            Seq::empty().push(
                ("path"@, prop_v(
                    "string"@,
                    "Repo-relative path, or an absolute/~ path outside the repo (needs approval)"@,
                )),
            ).push(
                ("start_line"@, prop_v(
                    "integer"@,
                    "First line, 1-based (optional)"@,
                )),
            ).push(
                ("end_line"@, prop_v(
                    "integer"@,
                    "Last line, inclusive (optional)"@,
                )),
            ),
            Seq::empty().push("path"@),
        ),
    )
}

fn read_file_def() -> (r: Json)
    ensures
        r@ == read_file_tool(),
{
    tool(
        "read_file",
        READ_FILE_TEXT,
        object_requiring(
            Fields::new().with(
                "path",
                prop(
                    "string",
                    "Repo-relative path, or an absolute/~ path outside the repo (needs approval)",
                ),
            ).with(
                "start_line",
                prop(
                    "integer",
                    "First line, 1-based (optional)",
                ),
            ).with(
                "end_line",
                prop(
                    "integer",
                    "Last line, inclusive (optional)",
                ),
            ),
            Names::new().and("path"),
        ),
    )
}

/// The definition of `list_files`.
pub open spec fn list_files_tool() -> JsonV {
    tool_v(
        "list_files"@,
        LIST_FILES_TEXT@,
        object_v(
            Seq::empty().push(
                ("dir"@, prop_v(
                    "string"@,
                    "Repo-relative directory, or an absolute/~ path outside the repo (needs approval); omit for the root"@,
                )),
            ),
        ),
    )
}

fn list_files_def() -> (r: Json)
    ensures
        r@ == list_files_tool(),
{
    tool(
        "list_files",
        LIST_FILES_TEXT,
        object(
            Fields::new().with(
                "dir",
                prop(
                    "string",
                    "Repo-relative directory, or an absolute/~ path outside the repo (needs approval); omit for the root",
                ),
            ),
        ),
    )
}

/// The definition of `explore`.
pub open spec fn explore_tool() -> JsonV {
    tool_v(
        "explore"@,
        EXPLORE_TEXT@,
        object_with(
            Seq::empty().push(
                ("steps"@, JsonV::Obj(
                    Seq::empty().push(
                        ("type"@, JsonV::Str("array"@)),
                    ).push(
                        ("description"@, JsonV::Str("Lookups to run together, in the order you want them reported"@)),
                    ).push(
                        ("items"@, object_with(
                            Seq::empty().push(
                                ("tool"@, JsonV::Obj(
                                    Seq::empty().push(
                                        ("type"@, JsonV::Str("string"@)),
                                    ).push(
                                        ("enum"@, names_v(Seq::empty().push("read_file"@).push("search_files"@).push("find_files"@).push("list_files"@).push("recall"@).push("read_skill"@))),
                                    ).push(
                                        ("description"@, JsonV::Str("Which lookup to run"@)),
                                    ),
                                )),
                            ).push(
                                ("args"@, prop_v(
                                    "object"@,
                                    "That tool's own arguments, exactly as you would send them on their own"@,
                                )),
                            ),
                            Seq::empty().push("tool"@).push("args"@),
                        )),
                    ),
                )),
            ),
            Seq::empty().push("steps"@),
        ),
    )
}

fn explore_def() -> (r: Json)
    ensures
        r@ == explore_tool(),
{
    tool(
        "explore",
        EXPLORE_TEXT,
        object_requiring(
            Fields::new().with(
                "steps",
                Fields::new().with(
                    "type",
                    Json::text("array"),
                ).with(
                    "description",
                    Json::text("Lookups to run together, in the order you want them reported"),
                ).with(
                    "items",
                    object_requiring(
                        Fields::new().with(
                            "tool",
                            Fields::new().with(
                                "type",
                                Json::text("string"),
                            ).with(
                                "enum",
                                Names::new().and("read_file").and("search_files").and("find_files").and("list_files").and("recall").and("read_skill").json(),
                            ).with(
                                "description",
                                Json::text("Which lookup to run"),
                            ).json(),
                        ).with(
                            "args",
                            prop(
                                "object",
                                "That tool's own arguments, exactly as you would send them on their own",
                            ),
                        ),
                        Names::new().and("tool").and("args"),
                    ),
                ).json(),
            ),
            Names::new().and("steps"),
        ),
    )
}

/// The definition of `search_files`.
pub open spec fn search_files_tool() -> JsonV {
    tool_v(
        "search_files"@,
        SEARCH_FILES_TEXT@,
        object_with(
            Seq::empty().push(
                ("query"@, prop_v(
                    "string"@,
                    "Text or regex to search for"@,
                )),
            ).push(
                ("dir"@, prop_v(
                    "string"@,
                    "Repo-relative directory to search under, or a single file to search within (optional)"@,
                )),
            ),
            Seq::empty().push("query"@),
        ),
    )
}

fn search_files_def() -> (r: Json)
    ensures
        r@ == search_files_tool(),
{
    tool(
        "search_files",
        SEARCH_FILES_TEXT,
        object_requiring(
            Fields::new().with(
                "query",
                prop(
                    "string",
                    "Text or regex to search for",
                ),
            ).with(
                "dir",
                prop(
                    "string",
                    "Repo-relative directory to search under, or a single file to search within (optional)",
                ),
            ),
            Names::new().and("query"),
        ),
    )
}

/// The definition of `find_files`.
pub open spec fn find_files_tool() -> JsonV {
    tool_v(
        "find_files"@,
        FIND_FILES_TEXT@,
        object_with(
            Seq::empty().push(
                ("pattern"@, prop_v(
                    "string"@,
                    "File name or glob pattern"@,
                )),
            ).push(
                ("dir"@, prop_v(
                    "string"@,
                    "Repo-relative directory to search under (optional)"@,
                )),
            ),
            Seq::empty().push("pattern"@),
        ),
    )
}

fn find_files_def() -> (r: Json)
    ensures
        r@ == find_files_tool(),
{
    tool(
        "find_files",
        FIND_FILES_TEXT,
        object_requiring(
            Fields::new().with(
                "pattern",
                prop(
                    "string",
                    "File name or glob pattern",
                ),
            ).with(
                "dir",
                prop(
                    "string",
                    "Repo-relative directory to search under (optional)",
                ),
            ),
            Names::new().and("pattern"),
        ),
    )
}

/// The definition of `remember`.
pub open spec fn remember_tool() -> JsonV {
    tool_v(
        "remember"@,
        REMEMBER_TEXT@,
        object_with(
            Seq::empty().push(
                ("note"@, prop_v(
                    "string"@,
                    "The fact to remember, stated plainly"@,
                )),
            ).push(
                ("title"@, prop_v(
                    "string"@,
                    "Optional short name for a dedicated memory block"@,
                )),
            ),
            Seq::empty().push("note"@),
        ),
    )
}

fn remember_def() -> (r: Json)
    ensures
        r@ == remember_tool(),
{
    tool(
        "remember",
        REMEMBER_TEXT,
        object_requiring(
            Fields::new().with(
                "note",
                prop(
                    "string",
                    "The fact to remember, stated plainly",
                ),
            ).with(
                "title",
                prop(
                    "string",
                    "Optional short name for a dedicated memory block",
                ),
            ),
            Names::new().and("note"),
        ),
    )
}

/// The definition of `recall`.
pub open spec fn recall_tool() -> JsonV {
    tool_v(
        "recall"@,
        RECALL_TEXT@,
        object_v(
            Seq::empty().push(
                ("name"@, prop_v(
                    "string"@,
                    "The memory block name, as listed under Recallable memory"@,
                )),
            ).push(
                ("query"@, prop_v(
                    "string"@,
                    "List only blocks whose name or description mentions this (ignored when `name` is given)"@,
                )),
            ),
        ),
    )
}

fn recall_def() -> (r: Json)
    ensures
        r@ == recall_tool(),
{
    tool(
        "recall",
        RECALL_TEXT,
        object(
            Fields::new().with(
                "name",
                prop(
                    "string",
                    "The memory block name, as listed under Recallable memory",
                ),
            ).with(
                "query",
                prop(
                    "string",
                    "List only blocks whose name or description mentions this (ignored when `name` is given)",
                ),
            ),
        ),
    )
}

/// The definition of `chat_history`.
pub open spec fn chat_history_tool() -> JsonV {
    tool_v(
        "chat_history"@,
        CHAT_HISTORY_TEXT@,
        object_v(
            Seq::empty().push(
                ("id"@, prop_v(
                    "string"@,
                    "A chat id from the list, or \"current\" for this chat"@,
                )),
            ).push(
                ("query"@, prop_v(
                    "string"@,
                    "List only chats mentioning this (ignored when `id` is given)"@,
                )),
            ).push(
                ("limit"@, prop_v(
                    "integer"@,
                    "How many chats to list (default 20)"@,
                )),
            ).push(
                ("all"@, prop_v(
                    "boolean"@,
                    "List chats from every project, not just this repo"@,
                )),
            ),
        ),
    )
}

fn chat_history_def() -> (r: Json)
    ensures
        r@ == chat_history_tool(),
{
    tool(
        "chat_history",
        CHAT_HISTORY_TEXT,
        object(
            Fields::new().with(
                "id",
                prop(
                    "string",
                    "A chat id from the list, or \"current\" for this chat",
                ),
            ).with(
                "query",
                prop(
                    "string",
                    "List only chats mentioning this (ignored when `id` is given)",
                ),
            ).with(
                "limit",
                prop(
                    "integer",
                    "How many chats to list (default 20)",
                ),
            ).with(
                "all",
                prop(
                    "boolean",
                    "List chats from every project, not just this repo",
                ),
            ),
        ),
    )
}

/// The definition of `forget`.
pub open spec fn forget_tool() -> JsonV {
    tool_v(
        "forget"@,
        FORGET_TEXT@,
        object_with(
            Seq::empty().push(
                ("name"@, prop_v(
                    "string"@,
                    "The memory block name, as listed under Recallable memory"@,
                )),
            ),
            Seq::empty().push("name"@),
        ),
    )
}

fn forget_def() -> (r: Json)
    ensures
        r@ == forget_tool(),
{
    tool(
        "forget",
        FORGET_TEXT,
        object_requiring(
            Fields::new().with(
                "name",
                prop(
                    "string",
                    "The memory block name, as listed under Recallable memory",
                ),
            ),
            Names::new().and("name"),
        ),
    )
}

/// The definition of `read_skill`.
pub open spec fn read_skill_tool() -> JsonV {
    tool_v(
        "read_skill"@,
        READ_SKILL_TEXT@,
        object_with(
            Seq::empty().push(
                ("name"@, prop_v(
                    "string"@,
                    "The skill name, as listed under Skills"@,
                )),
            ),
            Seq::empty().push("name"@),
        ),
    )
}

fn read_skill_def() -> (r: Json)
    ensures
        r@ == read_skill_tool(),
{
    tool(
        "read_skill",
        READ_SKILL_TEXT,
        object_requiring(
            Fields::new().with(
                "name",
                prop(
                    "string",
                    "The skill name, as listed under Skills",
                ),
            ),
            Names::new().and("name"),
        ),
    )
}

/// The definition of `update_plan`.
pub open spec fn update_plan_tool() -> JsonV {
    tool_v(
        "update_plan"@,
        UPDATE_PLAN_TEXT@,
        object_with(
            Seq::empty().push(
                ("steps"@, JsonV::Obj(
                    Seq::empty().push(
                        ("type"@, JsonV::Str("array"@)),
                    ).push(
                        ("items"@, object_with(
                            Seq::empty().push(
                                ("label"@, prop_v(
                                    "string"@,
                                    "Short label for this step"@,
                                )),
                            ).push(
                                ("status"@, prop_v(
                                    "string"@,
                                    "One of: pending, in_progress, done, skipped, blocked"@,
                                )),
                            ),
                            Seq::empty().push("label"@).push("status"@),
                        )),
                    ).push(
                        ("description"@, JsonV::Str("All plan steps with their current statuses"@)),
                    ),
                )),
            ),
            Seq::empty().push("steps"@),
        ),
    )
}

fn update_plan_def() -> (r: Json)
    ensures
        r@ == update_plan_tool(),
{
    tool(
        "update_plan",
        UPDATE_PLAN_TEXT,
        object_requiring(
            Fields::new().with(
                "steps",
                Fields::new().with(
                    "type",
                    Json::text("array"),
                ).with(
                    "items",
                    object_requiring(
                        Fields::new().with(
                            "label",
                            prop(
                                "string",
                                "Short label for this step",
                            ),
                        ).with(
                            "status",
                            prop(
                                "string",
                                "One of: pending, in_progress, done, skipped, blocked",
                            ),
                        ),
                        Names::new().and("label").and("status"),
                    ),
                ).with(
                    "description",
                    Json::text("All plan steps with their current statuses"),
                ).json(),
            ),
            Names::new().and("steps"),
        ),
    )
}

/// The definition of `ask_user`.
pub open spec fn ask_user_tool() -> JsonV {
    tool_v(
        "ask_user"@,
        ASK_USER_TEXT@,
        object_with(
            Seq::empty().push(
                ("header"@, prop_v(
                    "string"@,
                    "One-line title for the question (optional)"@,
                )),
            ).push(
                ("question"@, prop_v(
                    "string"@,
                    "The question to ask"@,
                )),
            ).push(
                ("options"@, JsonV::Obj(
                    Seq::empty().push(
                        ("type"@, JsonV::Str("array"@)),
                    ).push(
                        ("items"@, JsonV::Obj(
                            Seq::empty().push(
                                ("type"@, JsonV::Str("string"@)),
                            ),
                        )),
                    ).push(
                        ("description"@, JsonV::Str("2-4 short answer choices for the user (optional)"@)),
                    ),
                )),
            ),
            Seq::empty().push("question"@),
        ),
    )
}

fn ask_user_def() -> (r: Json)
    ensures
        r@ == ask_user_tool(),
{
    tool(
        "ask_user",
        ASK_USER_TEXT,
        object_requiring(
            Fields::new().with(
                "header",
                prop(
                    "string",
                    "One-line title for the question (optional)",
                ),
            ).with(
                "question",
                prop(
                    "string",
                    "The question to ask",
                ),
            ).with(
                "options",
                Fields::new().with(
                    "type",
                    Json::text("array"),
                ).with(
                    "items",
                    Fields::new().with(
                        "type",
                        Json::text("string"),
                    ).json(),
                ).with(
                    "description",
                    Json::text("2-4 short answer choices for the user (optional)"),
                ).json(),
            ),
            Names::new().and("question"),
        ),
    )
}

/// The definition of `edit_file`.
pub open spec fn edit_file_tool() -> JsonV {
    tool_v(
        "edit_file"@,
        EDIT_FILE_TEXT@,
        object_with(
            Seq::empty().push(
                ("path"@, prop_v(
                    "string"@,
                    "File path, repo-relative or absolute"@,
                )),
            ).push(
                ("search"@, prop_v(
                    "string"@,
                    "Exact existing text to replace; omit or leave empty to create a new file"@,
                )),
            ).push(
                ("replace"@, prop_v(
                    "string"@,
                    "Replacement text, or the new file's contents"@,
                )),
            ),
            Seq::empty().push("path"@).push("replace"@),
        ),
    )
}

fn edit_file_def() -> (r: Json)
    ensures
        r@ == edit_file_tool(),
{
    tool(
        "edit_file",
        EDIT_FILE_TEXT,
        object_requiring(
            Fields::new().with(
                "path",
                prop(
                    "string",
                    "File path, repo-relative or absolute",
                ),
            ).with(
                "search",
                prop(
                    "string",
                    "Exact existing text to replace; omit or leave empty to create a new file",
                ),
            ).with(
                "replace",
                prop(
                    "string",
                    "Replacement text, or the new file's contents",
                ),
            ),
            Names::new().and("path").and("replace"),
        ),
    )
}

/// The definition of `ast_edit`.
pub open spec fn ast_edit_tool() -> JsonV {
    tool_v(
        "ast_edit"@,
        AST_EDIT_TEXT@,
        object_with(
            Seq::empty().push(
                ("pattern"@, prop_v(
                    "string"@,
                    "ast-grep pattern to match, e.g. dbg!($X)"@,
                )),
            ).push(
                ("rewrite"@, prop_v(
                    "string"@,
                    "Replacement text; metavariables like $X carry matched text over"@,
                )),
            ).push(
                ("language"@, prop_v(
                    "string"@,
                    "Restrict to one language: rust, python, javascript, typescript, tsx, go, java, c, cpp (optional)"@,
                )),
            ),
            Seq::empty().push("pattern"@).push("rewrite"@),
        ),
    )
}

fn ast_edit_def() -> (r: Json)
    ensures
        r@ == ast_edit_tool(),
{
    tool(
        "ast_edit",
        AST_EDIT_TEXT,
        object_requiring(
            Fields::new().with(
                "pattern",
                prop(
                    "string",
                    "ast-grep pattern to match, e.g. dbg!($X)",
                ),
            ).with(
                "rewrite",
                prop(
                    "string",
                    "Replacement text; metavariables like $X carry matched text over",
                ),
            ).with(
                "language",
                prop(
                    "string",
                    "Restrict to one language: rust, python, javascript, typescript, tsx, go, java, c, cpp (optional)",
                ),
            ),
            Names::new().and("pattern").and("rewrite"),
        ),
    )
}

/// The definition of `ast_grep`.
pub open spec fn ast_grep_tool() -> JsonV {
    tool_v(
        "ast_grep"@,
        AST_GREP_TEXT@,
        object_with(
            Seq::empty().push(
                ("pattern"@, prop_v(
                    "string"@,
                    "ast-grep pattern to search for"@,
                )),
            ).push(
                ("language"@, prop_v(
                    "string"@,
                    "Restrict to one language: rust, python, javascript, typescript, tsx, go, java, c, cpp (optional)"@,
                )),
            ),
            Seq::empty().push("pattern"@),
        ),
    )
}

fn ast_grep_def() -> (r: Json)
    ensures
        r@ == ast_grep_tool(),
{
    tool(
        "ast_grep",
        AST_GREP_TEXT,
        object_requiring(
            Fields::new().with(
                "pattern",
                prop(
                    "string",
                    "ast-grep pattern to search for",
                ),
            ).with(
                "language",
                prop(
                    "string",
                    "Restrict to one language: rust, python, javascript, typescript, tsx, go, java, c, cpp (optional)",
                ),
            ),
            Names::new().and("pattern"),
        ),
    )
}

/// The definition of `security_scan`.
pub open spec fn security_scan_tool() -> JsonV {
    tool_v(
        "security_scan"@,
        SECURITY_SCAN_TEXT@,
        object_v(
            Seq::empty().push(
                ("path"@, prop_v(
                    "string"@,
                    "Subdirectory to scan instead of the whole repository (optional)"@,
                )),
            ),
        ),
    )
}

fn security_scan_def() -> (r: Json)
    ensures
        r@ == security_scan_tool(),
{
    tool(
        "security_scan",
        SECURITY_SCAN_TEXT,
        object(
            Fields::new().with(
                "path",
                prop(
                    "string",
                    "Subdirectory to scan instead of the whole repository (optional)",
                ),
            ),
        ),
    )
}

/// The definition of `lsp_diagnostics`.
pub open spec fn lsp_diagnostics_tool() -> JsonV {
    tool_v(
        "lsp_diagnostics"@,
        LSP_DIAGNOSTICS_TEXT@,
        object_with(
            Seq::empty().push(
                ("path"@, prop_v(
                    "string"@,
                    "File path, repo-relative"@,
                )),
            ),
            Seq::empty().push("path"@),
        ),
    )
}

fn lsp_diagnostics_def() -> (r: Json)
    ensures
        r@ == lsp_diagnostics_tool(),
{
    tool(
        "lsp_diagnostics",
        LSP_DIAGNOSTICS_TEXT,
        object_requiring(
            Fields::new().with(
                "path",
                prop(
                    "string",
                    "File path, repo-relative",
                ),
            ),
            Names::new().and("path"),
        ),
    )
}

/// The definition of `lsp_references`.
pub open spec fn lsp_references_tool() -> JsonV {
    tool_v(
        "lsp_references"@,
        LSP_REFERENCES_TEXT@,
        object_with(
            Seq::empty().push(
                ("path"@, prop_v(
                    "string"@,
                    "File path, repo-relative"@,
                )),
            ).push(
                ("line"@, prop_v(
                    "integer"@,
                    "0-based line number"@,
                )),
            ).push(
                ("character"@, prop_v(
                    "integer"@,
                    "0-based character offset in the line"@,
                )),
            ),
            Seq::empty().push("path"@).push("line"@).push("character"@),
        ),
    )
}

fn lsp_references_def() -> (r: Json)
    ensures
        r@ == lsp_references_tool(),
{
    tool(
        "lsp_references",
        LSP_REFERENCES_TEXT,
        object_requiring(
            Fields::new().with(
                "path",
                prop(
                    "string",
                    "File path, repo-relative",
                ),
            ).with(
                "line",
                prop(
                    "integer",
                    "0-based line number",
                ),
            ).with(
                "character",
                prop(
                    "integer",
                    "0-based character offset in the line",
                ),
            ),
            Names::new().and("path").and("line").and("character"),
        ),
    )
}

/// The definition of `lsp_definitions`.
pub open spec fn lsp_definitions_tool() -> JsonV {
    tool_v(
        "lsp_definitions"@,
        LSP_DEFINITIONS_TEXT@,
        object_with(
            Seq::empty().push(
                ("path"@, prop_v(
                    "string"@,
                    "File path, repo-relative"@,
                )),
            ).push(
                ("line"@, prop_v(
                    "integer"@,
                    "0-based line number"@,
                )),
            ).push(
                ("character"@, prop_v(
                    "integer"@,
                    "0-based character offset in the line"@,
                )),
            ),
            Seq::empty().push("path"@).push("line"@).push("character"@),
        ),
    )
}

fn lsp_definitions_def() -> (r: Json)
    ensures
        r@ == lsp_definitions_tool(),
{
    tool(
        "lsp_definitions",
        LSP_DEFINITIONS_TEXT,
        object_requiring(
            Fields::new().with(
                "path",
                prop(
                    "string",
                    "File path, repo-relative",
                ),
            ).with(
                "line",
                prop(
                    "integer",
                    "0-based line number",
                ),
            ).with(
                "character",
                prop(
                    "integer",
                    "0-based character offset in the line",
                ),
            ),
            Names::new().and("path").and("line").and("character"),
        ),
    )
}

/// The definition of `write_plan`.
pub open spec fn write_plan_tool() -> JsonV {
    tool_v(
        "write_plan"@,
        WRITE_PLAN_TEXT@,
        object_v(
            Seq::empty().push(
                ("content"@, prop_v(
                    "string"@,
                    "The whole plan as markdown. Replaces the current draft"@,
                )),
            ).push(
                ("old_str"@, prop_v(
                    "string"@,
                    "Text in the current draft to replace; must appear exactly once"@,
                )),
            ).push(
                ("new_str"@, prop_v(
                    "string"@,
                    "Replacement for `old_str`; empty to delete it"@,
                )),
            ),
        ),
    )
}

fn write_plan_def() -> (r: Json)
    ensures
        r@ == write_plan_tool(),
{
    tool(
        "write_plan",
        WRITE_PLAN_TEXT,
        object(
            Fields::new().with(
                "content",
                prop(
                    "string",
                    "The whole plan as markdown. Replaces the current draft",
                ),
            ).with(
                "old_str",
                prop(
                    "string",
                    "Text in the current draft to replace; must appear exactly once",
                ),
            ).with(
                "new_str",
                prop(
                    "string",
                    "Replacement for `old_str`; empty to delete it",
                ),
            ),
        ),
    )
}

/// The definition of `exit_plan_mode`.
pub open spec fn exit_plan_mode_tool() -> JsonV {
    tool_v(
        "exit_plan_mode"@,
        EXIT_PLAN_MODE_TEXT@,
        object_v(
            Seq::empty(),
        ),
    )
}

fn exit_plan_mode_def() -> (r: Json)
    ensures
        r@ == exit_plan_mode_tool(),
{
    tool(
        "exit_plan_mode",
        EXIT_PLAN_MODE_TEXT,
        object(
            Fields::new(),
        ),
    )
}

/// The definition of `run_command`.
pub open spec fn run_command_tool() -> JsonV {
    tool_v(
        "run_command"@,
        RUN_COMMAND_TEXT@,
        object_with(
            Seq::empty().push(
                ("command"@, prop_v(
                    "string"@,
                    "The binary to run, e.g. `rg`, `cargo`, `npm`"@,
                )),
            ).push(
                ("description"@, prop_v(
                    "string"@,
                    "What this command does, in five to ten words, active voice, no trailing period, e.g. `Rebuild the webview bundle`. Shown to the user in place of the command line, so do not open with `Run`/`Ran`."@,
                )),
            ).push(
                ("args"@, JsonV::Obj(
                    Seq::empty().push(
                        ("type"@, JsonV::Str("array"@)),
                    ).push(
                        ("items"@, JsonV::Obj(
                            Seq::empty().push(
                                ("type"@, JsonV::Str("string"@)),
                            ),
                        )),
                    ).push(
                        ("description"@, JsonV::Str("Arguments to pass to the command"@)),
                    ),
                )),
            ).push(
                ("turbo"@, prop_v(
                    "boolean"@,
                    "Run without network access. Use when the user asks for turbo mode or wants to work offline."@,
                )),
            ).push(
                ("yolo"@, prop_v(
                    "boolean"@,
                    "Run without any filesystem restrictions. Only use when the user explicitly asks for yolo mode."@,
                )),
            ),
            Seq::empty().push("command"@).push("description"@),
        ),
    )
}

fn run_command_def() -> (r: Json)
    ensures
        r@ == run_command_tool(),
{
    tool(
        "run_command",
        RUN_COMMAND_TEXT,
        object_requiring(
            Fields::new().with(
                "command",
                prop(
                    "string",
                    "The binary to run, e.g. `rg`, `cargo`, `npm`",
                ),
            ).with(
                "description",
                prop(
                    "string",
                    "What this command does, in five to ten words, active voice, no trailing period, e.g. `Rebuild the webview bundle`. Shown to the user in place of the command line, so do not open with `Run`/`Ran`.",
                ),
            ).with(
                "args",
                Fields::new().with(
                    "type",
                    Json::text("array"),
                ).with(
                    "items",
                    Fields::new().with(
                        "type",
                        Json::text("string"),
                    ).json(),
                ).with(
                    "description",
                    Json::text("Arguments to pass to the command"),
                ).json(),
            ).with(
                "turbo",
                prop(
                    "boolean",
                    "Run without network access. Use when the user asks for turbo mode or wants to work offline.",
                ),
            ).with(
                "yolo",
                prop(
                    "boolean",
                    "Run without any filesystem restrictions. Only use when the user explicitly asks for yolo mode.",
                ),
            ),
            Names::new().and("command").and("description"),
        ),
    )
}

/// The definition of `open_preview`.
pub open spec fn open_preview_tool() -> JsonV {
    tool_v(
        "open_preview"@,
        OPEN_PREVIEW_TEXT@,
        object_with(
            Seq::empty().push(
                ("target"@, prop_v(
                    "string"@,
                    "URL of a running server, or a repo-relative path to the file to open"@,
                )),
            ).push(
                ("description"@, prop_v(
                    "string"@,
                    "What the user is about to look at, in five to ten words, e.g. `The rebuilt pricing page` "@,
                )),
            ),
            Seq::empty().push("target"@),
        ),
    )
}

fn open_preview_def() -> (r: Json)
    ensures
        r@ == open_preview_tool(),
{
    tool(
        "open_preview",
        OPEN_PREVIEW_TEXT,
        object_requiring(
            Fields::new().with(
                "target",
                prop(
                    "string",
                    "URL of a running server, or a repo-relative path to the file to open",
                ),
            ).with(
                "description",
                prop(
                    "string",
                    "What the user is about to look at, in five to ten words, e.g. `The rebuilt pricing page` ",
                ),
            ),
            Names::new().and("target"),
        ),
    )
}

/// The definition of `run_tests`.
pub open spec fn run_tests_tool() -> JsonV {
    tool_v(
        "run_tests"@,
        RUN_TESTS_TEXT@,
        object_v(
            Seq::empty().push(
                ("runner"@, JsonV::Obj(
                    Seq::empty().push(
                        ("type"@, JsonV::Str("string"@)),
                    ).push(
                        ("enum"@, names_v(Seq::empty().push("cargo"@).push("npm"@).push("bun"@).push("pnpm"@).push("yarn"@).push("pytest"@).push("go"@))),
                    ).push(
                        ("description"@, JsonV::Str("Force a specific runner instead of detecting one"@)),
                    ),
                )),
            ).push(
                ("filter"@, prop_v(
                    "string"@,
                    "Only run tests matching this name or pattern"@,
                )),
            ).push(
                ("turbo"@, prop_v(
                    "boolean"@,
                    "Run without network access."@,
                )),
            ).push(
                ("yolo"@, prop_v(
                    "boolean"@,
                    "Run without any filesystem restrictions. Only use when the user explicitly asks for yolo mode."@,
                )),
            ),
        ),
    )
}

fn run_tests_def() -> (r: Json)
    ensures
        r@ == run_tests_tool(),
{
    tool(
        "run_tests",
        RUN_TESTS_TEXT,
        object(
            Fields::new().with(
                "runner",
                Fields::new().with(
                    "type",
                    Json::text("string"),
                ).with(
                    "enum",
                    Names::new().and("cargo").and("npm").and("bun").and("pnpm").and("yarn").and("pytest").and("go").json(),
                ).with(
                    "description",
                    Json::text("Force a specific runner instead of detecting one"),
                ).json(),
            ).with(
                "filter",
                prop(
                    "string",
                    "Only run tests matching this name or pattern",
                ),
            ).with(
                "turbo",
                prop(
                    "boolean",
                    "Run without network access.",
                ),
            ).with(
                "yolo",
                prop(
                    "boolean",
                    "Run without any filesystem restrictions. Only use when the user explicitly asks for yolo mode.",
                ),
            ),
        ),
    )
}

/// The definition of `agent`.
pub open spec fn agent_tool() -> JsonV {
    tool_v(
        "agent"@,
        AGENT_TEXT@,
        object_with(
            Seq::empty().push(
                ("tasks"@, JsonV::Obj(
                    Seq::empty().push(
                        ("type"@, JsonV::Str("array"@)),
                    ).push(
                        ("description"@, JsonV::Str("One or more agent tasks to run in parallel"@)),
                    ).push(
                        ("items"@, object_with(
                            Seq::empty().push(
                                ("agent"@, prop_v(
                                    "string"@,
                                    "Name of the agent to invoke"@,
                                )),
                            ).push(
                                ("task"@, prop_v(
                                    "string"@,
                                    "Self-contained task for the agent"@,
                                )),
                            ),
                            Seq::empty().push("agent"@).push("task"@),
                        )),
                    ).push(
                        ("minItems"@, JsonV::Number(1)),
                    ),
                )),
            ).push(
                ("background"@, prop_v(
                    "boolean"@,
                    "Queue the tasks and return immediately instead of waiting. Reports arrive between rounds as each agent finishes; use `check: true` to see progress."@,
                )),
            ).push(
                ("check"@, prop_v(
                    "boolean"@,
                    "Return the status of background agent work instead of running tasks."@,
                )),
            ),
            Seq::empty().push("tasks"@),
        ),
    )
}

/// The definition of `agent`.
pub fn agent_tool_schema() -> (r: Json)
    ensures
        r@ == agent_tool(),
{
    tool(
        "agent",
        AGENT_TEXT,
        object_requiring(
            Fields::new().with(
                "tasks",
                Fields::new().with(
                    "type",
                    Json::text("array"),
                ).with(
                    "description",
                    Json::text("One or more agent tasks to run in parallel"),
                ).with(
                    "items",
                    object_requiring(
                        Fields::new().with(
                            "agent",
                            prop(
                                "string",
                                "Name of the agent to invoke",
                            ),
                        ).with(
                            "task",
                            prop(
                                "string",
                                "Self-contained task for the agent",
                            ),
                        ),
                        Names::new().and("agent").and("task"),
                    ),
                ).with(
                    "minItems",
                    Json::Number(1),
                ).json(),
            ).with(
                "background",
                prop(
                    "boolean",
                    "Queue the tasks and return immediately instead of waiting. Reports arrive between rounds as each agent finishes; use `check: true` to see progress.",
                ),
            ).with(
                "check",
                prop(
                    "boolean",
                    "Return the status of background agent work instead of running tasks.",
                ),
            ),
            Names::new().and("tasks"),
        ),
    )
}

fn offer(list: &mut Vec<Json>, def: Json)
    ensures
        items(final(list)@) == items(old(list)@).push(def@),
{
    list.push(def);
    assert(items(list@) =~= items(old(list)@).push(def@));
}

/// The definitions of the tools on offer: the ones that ask the user only with
/// someone to answer, the ones that edit only where edits are allowed.
pub open spec fn offered(allow_edits: bool, has_approver: bool) -> Seq<JsonV> {
    let a = Seq::<JsonV>::empty().push(read_file_tool()).push(list_files_tool()).push(explore_tool()).push(search_files_tool()).push(find_files_tool()).push(remember_tool()).push(recall_tool()).push(chat_history_tool()).push(forget_tool()).push(read_skill_tool());
    let b = if has_approver {
        a.push(update_plan_tool()).push(ask_user_tool())
    } else {
        a
    };
    let c = if allow_edits {
        b.push(edit_file_tool()).push(ast_edit_tool())
    } else {
        b
    };
    let d = c.push(ast_grep_tool()).push(security_scan_tool()).push(lsp_diagnostics_tool()).push(lsp_references_tool()).push(lsp_definitions_tool());
    let e = if has_approver {
        d.push(write_plan_tool()).push(exit_plan_mode_tool())
    } else {
        d
    };
    let f = e.push(run_command_tool()).push(open_preview_tool()).push(run_tests_tool());
    f
}

/// The definitions of the tools on offer.
pub fn tool_defs(allow_edits: bool, has_approver: bool) -> (r: Vec<Json>)
    ensures
        items(r@) == offered(allow_edits, has_approver),
{
    let mut out: Vec<Json> = Vec::new();
    assert(items(out@) =~= Seq::empty());
    offer(&mut out, read_file_def());
    offer(&mut out, list_files_def());
    offer(&mut out, explore_def());
    offer(&mut out, search_files_def());
    offer(&mut out, find_files_def());
    offer(&mut out, remember_def());
    offer(&mut out, recall_def());
    offer(&mut out, chat_history_def());
    offer(&mut out, forget_def());
    offer(&mut out, read_skill_def());
    if has_approver {
        offer(&mut out, update_plan_def());
        offer(&mut out, ask_user_def());
    }
    if allow_edits {
        offer(&mut out, edit_file_def());
        offer(&mut out, ast_edit_def());
    }
    offer(&mut out, ast_grep_def());
    offer(&mut out, security_scan_def());
    offer(&mut out, lsp_diagnostics_def());
    offer(&mut out, lsp_references_def());
    offer(&mut out, lsp_definitions_def());
    if has_approver {
        offer(&mut out, write_plan_def());
        offer(&mut out, exit_plan_mode_def());
    }
    offer(&mut out, run_command_def());
    offer(&mut out, open_preview_def());
    offer(&mut out, run_tests_def());
    out
}

} // verus!
