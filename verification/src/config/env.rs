//! `aster env`: the environment variables that are read and are neither keys
//! nor aliases of settings.

use vstd::prelude::*;

use crate::config::key::{
    check_value, checked, masked, masked_opt, normalize, normalized, source_label, source_word,
    store, stored_as, Source, Stored,
};
use crate::json::{items, opt_value, Fields, Json, JsonV};
use crate::text::affix::{opens, starts_with};
use crate::text::number::{pad_right, padded_right};
use crate::text::utf8::{byte_len, utf8_len};
use crate::text::{cat2, cat3, opt, opt_str, pairs, same, texts};

verus! {

/// The flags of `aster env`.
pub struct EnvArgs {
    pub command: Option<EnvCmd>,
}

/// What `aster env` is asked to do.
pub enum EnvCmd {
    List,
    Store { var: String, value: Option<String>, stdin: bool, local: bool },
    Get { var: String },
    Clear { var: String, global: bool, local: bool },
}

/// One variable that is read.
#[derive(Clone, Copy)]
pub struct Var {
    pub var: &'static str,
    pub group: &'static str,
    /// How it is edited: `number`, `text`, `bool` or `json`.
    pub kind: &'static str,
    pub secret: bool,
    pub help: &'static str,
}

/// The model of one variable that is read.
#[verifier::ext_equal]
pub struct VarV {
    pub var: Seq<char>,
    pub group: Seq<char>,
    pub kind: Seq<char>,
    pub secret: bool,
    pub help: Seq<char>,
}

impl View for Var {
    type V = VarV;

    open spec fn view(&self) -> VarV {
        VarV {
            var: self.var@,
            group: self.group@,
            kind: self.kind@,
            secret: self.secret,
            help: self.help@,
        }
    }
}

/// The models of a list of variables.
pub open spec fn vars_view(v: Seq<Var>) -> Seq<VarV> {
    Seq::new(v.len(), |i: int| v[i]@)
}

/// One entry of the table.
pub open spec fn entry(
    var: Seq<char>,
    group: Seq<char>,
    kind: Seq<char>,
    secret: bool,
    help: Seq<char>,
) -> VarV {
    VarV { var, group, kind, secret, help }
}

/// The variables of the group "Turns and limits".
pub open spec fn turns_and_limits_table() -> Seq<VarV> {
    Seq::empty()
        .push(entry("ASTER_MAX_TOOL_ROUNDS"@, "Turns and limits"@, "number"@, false, "Tool rounds the agent may spend on one try"@))
        .push(entry("ASTER_COMMAND_TIMEOUT"@, "Turns and limits"@, "number"@, false, "Seconds before a running command is stopped"@))
        .push(entry("ASTER_COMPACT_BUDGET"@, "Turns and limits"@, "number"@, false, "Transcript size in characters before it is folded into a summary"@))
        .push(entry("ASTER_LANGUAGE"@, "Turns and limits"@, "text"@, false, "Language every reply is written in; unset follows the user"@))
        .push(entry("ASTER_GOAL_MAX_TURNS"@, "Turns and limits"@, "number"@, false, "Tries a goal check may run"@))
        .push(entry("ASTER_AGENT_MAX_CONCURRENT"@, "Turns and limits"@, "number"@, false, "Sub-agents running at the same time"@))
        .push(entry("ASTER_AGENT_MAX_PER_TURN"@, "Turns and limits"@, "number"@, false, "Sub-agent fan-out allowed per turn"@))
        .push(entry("ASTER_AGENT_TIMEOUT"@, "Turns and limits"@, "number"@, false, "Seconds before a sub-agent is stopped"@))
        .push(entry("ASTER_TIMEOUT_SECS"@, "Turns and limits"@, "number"@, false, "Seconds before a model request is abandoned"@))
        .push(entry("ASTER_MAX_RETRIES"@, "Turns and limits"@, "number"@, false, "Retries on a failed model request"@))
        .push(entry("ASTER_DEADLINE_SECS"@, "Turns and limits"@, "number"@, false, "Seconds a whole turn may take"@))
}

fn turns_and_limits_vars(out: &mut Vec<Var>)
    ensures
        vars_view(final(out)@) == vars_view(old(out)@) + turns_and_limits_table(),
{
    let ghost start = vars_view(out@);
    out.push(
        Var {
            var: "ASTER_MAX_TOOL_ROUNDS",
            group: "Turns and limits",
            kind: "number",
            secret: false,
            help: "Tool rounds the agent may spend on one try",
        },
    );
    out.push(
        Var {
            var: "ASTER_COMMAND_TIMEOUT",
            group: "Turns and limits",
            kind: "number",
            secret: false,
            help: "Seconds before a running command is stopped",
        },
    );
    out.push(
        Var {
            var: "ASTER_COMPACT_BUDGET",
            group: "Turns and limits",
            kind: "number",
            secret: false,
            help: "Transcript size in characters before it is folded into a summary",
        },
    );
    out.push(
        Var {
            var: "ASTER_LANGUAGE",
            group: "Turns and limits",
            kind: "text",
            secret: false,
            help: "Language every reply is written in; unset follows the user",
        },
    );
    out.push(
        Var {
            var: "ASTER_GOAL_MAX_TURNS",
            group: "Turns and limits",
            kind: "number",
            secret: false,
            help: "Tries a goal check may run",
        },
    );
    out.push(
        Var {
            var: "ASTER_AGENT_MAX_CONCURRENT",
            group: "Turns and limits",
            kind: "number",
            secret: false,
            help: "Sub-agents running at the same time",
        },
    );
    out.push(
        Var {
            var: "ASTER_AGENT_MAX_PER_TURN",
            group: "Turns and limits",
            kind: "number",
            secret: false,
            help: "Sub-agent fan-out allowed per turn",
        },
    );
    out.push(
        Var {
            var: "ASTER_AGENT_TIMEOUT",
            group: "Turns and limits",
            kind: "number",
            secret: false,
            help: "Seconds before a sub-agent is stopped",
        },
    );
    out.push(
        Var {
            var: "ASTER_TIMEOUT_SECS",
            group: "Turns and limits",
            kind: "number",
            secret: false,
            help: "Seconds before a model request is abandoned",
        },
    );
    out.push(
        Var {
            var: "ASTER_MAX_RETRIES",
            group: "Turns and limits",
            kind: "number",
            secret: false,
            help: "Retries on a failed model request",
        },
    );
    out.push(
        Var {
            var: "ASTER_DEADLINE_SECS",
            group: "Turns and limits",
            kind: "number",
            secret: false,
            help: "Seconds a whole turn may take",
        },
    );
    assert(vars_view(out@) =~= start + turns_and_limits_table());
}

/// The variables of the group "Models".
pub open spec fn models_table() -> Seq<VarV> {
    Seq::empty()
        .push(entry("ASTER_ROUTER_TIER"@, "Models"@, "text"@, false, "Automatic model tier when the model is auto"@))
        .push(entry("ASTER_HYPOTHESIS_MODEL"@, "Models"@, "text"@, false, "Model that drafts review findings"@))
        .push(entry("ASTER_VERIFY_MODEL"@, "Models"@, "text"@, false, "Model that double-checks review findings"@))
        .push(entry("ASTER_COLLECTOR_MODEL"@, "Models"@, "text"@, false, "Model that collects sub-agent reports"@))
}

fn models_vars(out: &mut Vec<Var>)
    ensures
        vars_view(final(out)@) == vars_view(old(out)@) + models_table(),
{
    let ghost start = vars_view(out@);
    out.push(
        Var {
            var: "ASTER_ROUTER_TIER",
            group: "Models",
            kind: "text",
            secret: false,
            help: "Automatic model tier when the model is auto",
        },
    );
    out.push(
        Var {
            var: "ASTER_HYPOTHESIS_MODEL",
            group: "Models",
            kind: "text",
            secret: false,
            help: "Model that drafts review findings",
        },
    );
    out.push(
        Var {
            var: "ASTER_VERIFY_MODEL",
            group: "Models",
            kind: "text",
            secret: false,
            help: "Model that double-checks review findings",
        },
    );
    out.push(
        Var {
            var: "ASTER_COLLECTOR_MODEL",
            group: "Models",
            kind: "text",
            secret: false,
            help: "Model that collects sub-agent reports",
        },
    );
    assert(vars_view(out@) =~= start + models_table());
}

/// The variables of the group "Code review".
pub open spec fn code_review_table() -> Seq<VarV> {
    Seq::empty()
        .push(entry("ASTER_ANALYZERS"@, "Code review"@, "text"@, false, "Runtime analyzers for review, comma separated: semgrep, ast-grep. Empty means the model alone"@))
        .push(entry("ASTER_ASTGREP_RULES"@, "Code review"@, "text"@, false, "Path to extra ast-grep rules"@))
        .push(entry("ASTER_REPO"@, "Code review"@, "text"@, false, "Repo name shown in review reports when none is detected"@))
}

fn code_review_vars(out: &mut Vec<Var>)
    ensures
        vars_view(final(out)@) == vars_view(old(out)@) + code_review_table(),
{
    let ghost start = vars_view(out@);
    out.push(
        Var {
            var: "ASTER_ANALYZERS",
            group: "Code review",
            kind: "text",
            secret: false,
            help: "Runtime analyzers for review, comma separated: semgrep, ast-grep. Empty means the model alone",
        },
    );
    out.push(
        Var {
            var: "ASTER_ASTGREP_RULES",
            group: "Code review",
            kind: "text",
            secret: false,
            help: "Path to extra ast-grep rules",
        },
    );
    out.push(
        Var {
            var: "ASTER_REPO",
            group: "Code review",
            kind: "text",
            secret: false,
            help: "Repo name shown in review reports when none is detected",
        },
    );
    assert(vars_view(out@) =~= start + code_review_table());
}

/// The variables of the group "MCP".
pub open spec fn mcp_table() -> Seq<VarV> {
    Seq::empty()
        .push(entry("ASTER_MCP_EXTRA"@, "MCP"@, "json"@, false, "Extra MCP servers as JSON, merged over aster.yaml"@))
}

fn mcp_vars(out: &mut Vec<Var>)
    ensures
        vars_view(final(out)@) == vars_view(old(out)@) + mcp_table(),
{
    let ghost start = vars_view(out@);
    out.push(
        Var {
            var: "ASTER_MCP_EXTRA",
            group: "MCP",
            kind: "json",
            secret: false,
            help: "Extra MCP servers as JSON, merged over aster.yaml",
        },
    );
    assert(vars_view(out@) =~= start + mcp_table());
}

/// The variables of the group "Toggles".
pub open spec fn toggles_table() -> Seq<VarV> {
    Seq::empty()
        .push(entry("ASTER_PROMPT_CACHE"@, "Toggles"@, "text"@, false, "Set to off, 0, or false to disable prompt caching headers"@))
        .push(entry("ASTER_NO_BROWSER"@, "Toggles"@, "bool"@, false, "Set to anything to stop previews from opening a browser"@))
        .push(entry("ASTER_NO_UPDATE_CHECK"@, "Toggles"@, "bool"@, false, "Set to anything to skip the update and announcement checks"@))
        .push(entry("ASTER_WEBMCP_CDP_URL"@, "Toggles"@, "text"@, false, "Chrome DevTools endpoint the web MCP tools connect to"@))
        .push(entry("ASTER_JEV"@, "Toggles"@, "bool"@, false, "Let the Jev classifier advise the agent loop each round; needs ASTER_JEV_API_KEY"@))
        .push(entry("ASTER_JEV_API_KEY"@, "Toggles"@, "text"@, true, "API key for the Jev loop check"@))
}

fn toggles_vars(out: &mut Vec<Var>)
    ensures
        vars_view(final(out)@) == vars_view(old(out)@) + toggles_table(),
{
    let ghost start = vars_view(out@);
    out.push(
        Var {
            var: "ASTER_PROMPT_CACHE",
            group: "Toggles",
            kind: "text",
            secret: false,
            help: "Set to off, 0, or false to disable prompt caching headers",
        },
    );
    out.push(
        Var {
            var: "ASTER_NO_BROWSER",
            group: "Toggles",
            kind: "bool",
            secret: false,
            help: "Set to anything to stop previews from opening a browser",
        },
    );
    out.push(
        Var {
            var: "ASTER_NO_UPDATE_CHECK",
            group: "Toggles",
            kind: "bool",
            secret: false,
            help: "Set to anything to skip the update and announcement checks",
        },
    );
    out.push(
        Var {
            var: "ASTER_WEBMCP_CDP_URL",
            group: "Toggles",
            kind: "text",
            secret: false,
            help: "Chrome DevTools endpoint the web MCP tools connect to",
        },
    );
    out.push(
        Var {
            var: "ASTER_JEV",
            group: "Toggles",
            kind: "bool",
            secret: false,
            help: "Let the Jev classifier advise the agent loop each round; needs ASTER_JEV_API_KEY",
        },
    );
    out.push(
        Var {
            var: "ASTER_JEV_API_KEY",
            group: "Toggles",
            kind: "text",
            secret: true,
            help: "API key for the Jev loop check",
        },
    );
    assert(vars_view(out@) =~= start + toggles_table());
}

/// The variables of the group "Remote".
pub open spec fn remote_table() -> Seq<VarV> {
    Seq::empty()
        .push(entry("ASTER_TELEGRAM_TOKEN"@, "Remote"@, "text"@, true, "Bot token for the Telegram remote"@))
        .push(entry("ASTER_PHOTON_SECRET"@, "Remote"@, "text"@, true, "Webhook signing secret for the iMessage (Photon) remote"@))
        .push(entry("ASTER_REMOTE_USERS"@, "Remote"@, "text"@, false, "User ids or senders allowed to talk to Aster, comma separated"@))
}

fn remote_vars(out: &mut Vec<Var>)
    ensures
        vars_view(final(out)@) == vars_view(old(out)@) + remote_table(),
{
    let ghost start = vars_view(out@);
    out.push(
        Var {
            var: "ASTER_TELEGRAM_TOKEN",
            group: "Remote",
            kind: "text",
            secret: true,
            help: "Bot token for the Telegram remote",
        },
    );
    out.push(
        Var {
            var: "ASTER_PHOTON_SECRET",
            group: "Remote",
            kind: "text",
            secret: true,
            help: "Webhook signing secret for the iMessage (Photon) remote",
        },
    );
    out.push(
        Var {
            var: "ASTER_REMOTE_USERS",
            group: "Remote",
            kind: "text",
            secret: false,
            help: "User ids or senders allowed to talk to Aster, comma separated",
        },
    );
    assert(vars_view(out@) =~= start + remote_table());
}

/// The variables that are read, in the order they are listed.
pub open spec fn vars_table() -> Seq<VarV> {
    turns_and_limits_table() + models_table() + code_review_table() + mcp_table() + toggles_table() + remote_table()
}

/// The variables that are read, in the order they are listed.
pub fn vars() -> (r: Vec<Var>)
    ensures
        vars_view(r@) == vars_table(),
{
    let mut out: Vec<Var> = Vec::new();
    assert(vars_view(out@) =~= Seq::empty());
    turns_and_limits_vars(&mut out);
    models_vars(&mut out);
    code_review_vars(&mut out);
    mcp_vars(&mut out);
    toggles_vars(&mut out);
    remote_vars(&mut out);
    assert(vars_view(out@) =~= vars_table());
    out
}

/// What a variable is set to, and where.
pub struct Row {
    pub entry: Var,
    pub source: Source,
    /// The live value, of what is no secret.
    pub value: Option<String>,
    /// What is shown of a secret.
    pub masked: Option<String>,
}

/// The model of a row.
#[verifier::ext_equal]
pub struct RowV {
    pub entry: VarV,
    pub source: Source,
    pub value: Option<Seq<char>>,
    pub masked: Option<Seq<char>>,
}

impl View for Row {
    type V = RowV;

    open spec fn view(&self) -> RowV {
        RowV {
            entry: self.entry@,
            source: self.source,
            value: opt(self.value),
            masked: opt(self.masked),
        }
    }
}

impl Row {
    /// Whether the variable is set.
    pub fn set(&self) -> (r: bool)
        ensures
            r == (self.source != Source::Unset),
    {
        self.source != Source::Unset
    }
}

/// The models of a list of rows.
pub open spec fn rows_view(v: Seq<Row>) -> Seq<RowV> {
    Seq::new(v.len(), |i: int| v[i]@)
}

/// The row of a variable: a secret carries what may be shown of it, anything
/// else its value.
pub open spec fn row_of(entry: VarV, source: Source, live: Option<Seq<char>>) -> RowV {
    RowV {
        entry,
        source,
        value: if entry.secret {
            None
        } else {
            live
        },
        masked: if entry.secret {
            masked_opt(live)
        } else {
            None
        },
    }
}

/// The rows of the variables; `sources` and `live` say of each where it comes
/// from and what it is set to.
pub open spec fn rows_of(
    v: Seq<VarV>,
    sources: Seq<Source>,
    live: Seq<Option<Seq<char>>>,
) -> Seq<RowV> {
    Seq::new(v.len(), |i: int| row_of(v[i], sources[i], live[i]))
}

/// The models of the live values.
pub open spec fn live_view(v: Seq<Option<String>>) -> Seq<Option<Seq<char>>> {
    Seq::new(v.len(), |i: int| opt(v[i]))
}

/// The rows of the variables that are read; `sources` and `live` say of each
/// where it comes from and what it is set to.
pub fn rows(sources: &Vec<Source>, live: &Vec<Option<String>>) -> (r: Vec<Row>)
    requires
        sources@.len() == vars_table().len(),
        live@.len() == vars_table().len(),
    ensures
        rows_view(r@) == rows_of(vars_table(), sources@, live_view(live@)),
{
    let table = vars();
    assert(table@.len() == vars_view(table@).len());
    let mut out: Vec<Row> = Vec::new();
    let mut i: usize = 0;
    while i < table.len()
        invariant
            i <= table@.len(),
            table@.len() == sources@.len(),
            table@.len() == live@.len(),
            vars_view(table@) == vars_table(),
            out@.len() == i,
            forall|k: int|
                0 <= k < i ==> #[trigger] out@[k]@ == row_of(
                    vars_table()[k],
                    sources@[k],
                    opt(live@[k]),
                ),
        decreases table.len() - i,
    {
        let entry = table[i];
        assert(entry@ == vars_table()[i as int]);
        let value = if entry.secret {
            None
        } else {
            match &live[i] {
                Some(v) => Some(v.clone()),
                None => None,
            }
        };
        let masked = if entry.secret {
            masked(&live[i])
        } else {
            None
        };
        out.push(Row { entry, source: sources[i], value, masked });
        i += 1;
    }
    assert(rows_view(out@) =~= rows_of(vars_table(), sources@, live_view(live@)));
    out
}

/// A row never holds the value of a secret, and what it shows of one is masked.
pub proof fn secrets_stay_hidden(
    sources: Seq<Source>,
    live: Seq<Option<Seq<char>>>,
    i: int,
)
    requires
        0 <= i < vars_table().len(),
        vars_table()[i].secret,
    ensures
        rows_of(vars_table(), sources, live)[i].value is None,
        rows_of(vars_table(), sources, live)[i].masked == masked_opt(live[i]),
{
}

/// One row as JSON.
pub open spec fn row_value(r: RowV) -> JsonV {
    JsonV::Obj(
        Seq::empty().push(("var"@, JsonV::Str(r.entry.var))).push(
            ("group"@, JsonV::Str(r.entry.group)),
        ).push(("help"@, JsonV::Str(r.entry.help))).push(
            ("kind"@, JsonV::Str(r.entry.kind)),
        ).push(("secret"@, JsonV::Bool(r.entry.secret))).push(
            ("set"@, JsonV::Bool(r.source != Source::Unset)),
        ).push(("source"@, JsonV::Str(source_word(r.source)))).push(
            ("masked"@, opt_value(r.masked)),
        ).push(("value"@, opt_value(r.value))),
    )
}

/// The list of variables as JSON.
pub fn list_json(v: &Vec<Row>) -> (r: Json)
    ensures
        r@ == JsonV::Obj(
            Seq::empty().push(("ok"@, JsonV::Bool(true))).push(
                ("vars"@, JsonV::Arr(Seq::new(v@.len(), |i: int| row_value(v@[i]@)))),
            ),
        ),
{
    let mut out: Vec<Json> = Vec::new();
    let mut i: usize = 0;
    while i < v.len()
        invariant
            i <= v@.len(),
            out@.len() == i,
            forall|k: int| 0 <= k < i ==> #[trigger] out@[k]@ == row_value(v@[k]@),
        decreases v.len() - i,
    {
        let row = &v[i];
        out.push(
            Fields::new().text("var", row.entry.var).text("group", row.entry.group).text(
                "help",
                row.entry.help,
            ).text("kind", row.entry.kind).with("secret", Json::Bool(row.entry.secret)).with(
                "set",
                Json::Bool(row.set()),
            ).text("source", row.source.as_str()).with("masked", Json::opt_text(&row.masked)).with(
                "value",
                Json::opt_text(&row.value),
            ).json(),
        );
        i += 1;
    }
    assert(items(out@) =~= Seq::new(v@.len(), |i: int| row_value(v@[i]@)));
    Fields::new().with("ok", Json::Bool(true)).with("vars", Json::array(out)).json()
}

/// The groups in order, neighbouring ones of one name once.
pub open spec fn groups_of(v: Seq<RowV>) -> Seq<Seq<char>>
    decreases v.len(),
{
    if v.len() == 0 {
        Seq::empty()
    } else {
        let head = groups_of(v.drop_last());
        if head.len() > 0 && head.last() == v.last().entry.group {
            head
        } else {
            head.push(v.last().entry.group)
        }
    }
}

/// The groups in order, neighbouring ones of one name once.
pub fn groups(v: &Vec<Row>) -> (r: Vec<String>)
    ensures
        texts(r@) == groups_of(rows_view(v@)),
{
    let ghost all = rows_view(v@);
    let mut out: Vec<String> = Vec::new();
    let mut i: usize = 0;
    assert(texts(out@) =~= groups_of(all.take(0)));
    while i < v.len()
        invariant
            i <= v@.len(),
            all == rows_view(v@),
            texts(out@) == groups_of(all.take(i as int)),
        decreases v.len() - i,
    {
        proof {
            assert(all.take(i + 1).drop_last() =~= all.take(i as int));
            assert(all.take(i + 1).last() == all[i as int]);
        }
        let ghost had = texts(out@);
        let group = v[i].entry.group;
        let known = out.len() > 0 && same(out[out.len() - 1].as_str(), group);
        proof {
            if out@.len() > 0 {
                assert(had.last() == out@.last()@);
            }
        }
        if !known {
            out.push(group.to_owned());
            assert(texts(out@) =~= had.push(group@));
        }
        i += 1;
    }
    assert(all.take(all.len() as int) =~= all);
    out
}

/// What is noted beside a variable.
pub open spec fn row_note(r: RowV) -> Seq<char> {
    if r.source == Source::Unset {
        "not set"@
    } else {
        match (r.value, r.masked) {
            (Some(value), _) => value + " · "@ + source_label(r.source),
            (None, Some(tail)) => tail + " · "@ + source_label(r.source),
            (None, None) => "set · "@ + source_label(r.source),
        }
    }
}

/// What is noted beside a variable.
pub fn note_for(row: &Row) -> (r: String)
    ensures
        r@ == row_note(row@),
{
    if !row.set() {
        return "not set".to_owned();
    }
    match &row.value {
        Some(value) => cat3(value.as_str(), " · ", row.source.label()),
        None => match &row.masked {
            Some(tail) => cat3(tail.as_str(), " · ", row.source.label()),
            None => cat2("set · ", row.source.label()),
        },
    }
}

/// The widest variable name of a group, in bytes, among the first `n` rows.
pub open spec fn widest(v: Seq<RowV>, group: Seq<char>, n: nat) -> nat
    decreases n,
{
    if n == 0 || n > v.len() {
        0
    } else {
        let w = widest(v, group, (n - 1) as nat);
        if v[n - 1].entry.group == group && utf8_len(v[n - 1].entry.var) > w {
            utf8_len(v[n - 1].entry.var)
        } else {
            w
        }
    }
}

/// The lines of a group: each variable in its column, and the note beside it.
pub open spec fn group_lines(v: Seq<RowV>, group: Seq<char>, width: nat, n: nat) -> Seq<
    (Seq<char>, Seq<char>),
>
    decreases n,
{
    if n == 0 || n > v.len() {
        Seq::empty()
    } else {
        let head = group_lines(v, group, width, (n - 1) as nat);
        if v[n - 1].entry.group == group {
            head.push(
                (
                    "  "@ + padded_right(v[n - 1].entry.var, width as int) + "  "@,
                    row_note(v[n - 1]),
                ),
            )
        } else {
            head
        }
    }
}

/// The lines of a group: each variable in its column, and the note that is
/// shown dimmed beside it.
pub fn list(v: &Vec<Row>, group: &str) -> (r: Vec<(String, String)>)
    ensures
        pairs(r@) == group_lines(
            rows_view(v@),
            group@,
            widest(rows_view(v@), group@, v@.len()),
            v@.len(),
        ),
{
    let ghost all = rows_view(v@);
    let mut width: usize = 0;
    let mut i: usize = 0;
    while i < v.len()
        invariant
            i <= v@.len(),
            all == rows_view(v@),
            width == widest(all, group@, i as nat),
        decreases v.len() - i,
    {
        if same(v[i].entry.group, group) {
            let w = byte_len(v[i].entry.var);
            if w > width {
                width = w;
            }
        }
        i += 1;
    }
    let mut out: Vec<(String, String)> = Vec::new();
    let mut j: usize = 0;
    assert(pairs(out@) =~= group_lines(all, group@, width as nat, 0));
    while j < v.len()
        invariant
            j <= v@.len(),
            all == rows_view(v@),
            pairs(out@) == group_lines(all, group@, width as nat, j as nat),
        decreases v.len() - j,
    {
        let ghost had = pairs(out@);
        if same(v[j].entry.group, group) {
            let left = cat3("  ", pad_right(v[j].entry.var, width).as_str(), "  ");
            let note = note_for(&v[j]);
            out.push((left, note));
            assert(pairs(out@) =~= had.push((left@, note@)));
        }
        j += 1;
    }
    out
}

/// The first entry for a variable.
pub open spec fn entry_of(v: Seq<VarV>, var: Seq<char>) -> Option<VarV>
    decreases v.len(),
{
    if v.len() == 0 {
        None
    } else {
        match entry_of(v.drop_last(), var) {
            Some(e) => Some(e),
            None => if v.last().var == var {
                Some(v.last())
            } else {
                None
            },
        }
    }
}

/// The first entry for a variable among those that are read.
pub fn find(var: &str) -> (r: Option<Var>)
    ensures
        match entry_of(vars_table(), var@) {
            Some(e) => r is Some && r->Some_0@ == e,
            None => r is None,
        },
{
    let table = vars();
    let ghost all = vars_view(table@);
    let mut i: usize = 0;
    let mut found: Option<Var> = None;
    while i < table.len()
        invariant
            i <= table@.len(),
            all == vars_view(table@),
            match entry_of(all.take(i as int), var@) {
                Some(e) => found is Some && found->Some_0@ == e,
                None => found is None,
            },
        decreases table.len() - i,
    {
        proof {
            assert(all.take(i + 1).drop_last() =~= all.take(i as int));
            assert(all.take(i + 1).last() == all[i as int]);
        }
        if found.is_none() && same(table[i].var, var) {
            found = Some(table[i]);
        }
        i += 1;
    }
    assert(all.take(all.len() as int) =~= all);
    found
}

/// Whether a variable is one of those that are read.
pub fn known(var: &str) -> (r: bool)
    ensures
        r == (entry_of(vars_table(), var@) is Some),
{
    find(var).is_some()
}

/// Whether a variable is a secret, and so is asked for without echoing.
pub fn is_secret(var: &str) -> (r: bool)
    ensures
        r == (match entry_of(vars_table(), var@) {
            Some(e) => e.secret,
            None => false,
        }),
{
    match find(var) {
        Some(e) => e.secret,
        None => false,
    }
}

/// Why a variable that is not one of Aster's own is not written, where it is
/// not: `aster key set` is the door for those.
pub open spec fn foreign(var: Seq<char>) -> Option<Seq<char>> {
    if opens(var, "ASTER_"@) {
        None
    } else {
        Some(
            var
                + " is not an Aster variable. `aster env` manages ASTER_* names; use `aster key set` for API keys"@,
        )
    }
}

/// Why a variable that is not one of Aster's own is not written.
pub fn ensure_aster(var: &str) -> (r: Result<(), String>)
    ensures
        match foreign(var@) {
            Some(e) => r is Err && r->Err_0@ == e,
            None => r is Ok,
        },
{
    if starts_with(var, "ASTER_") {
        return Ok(());
    }
    Err(
        cat2(
            var,
            " is not an Aster variable. `aster env` manages ASTER_* names; use `aster key set` for API keys",
        ),
    )
}

/// `aster env set`: store one of Aster's own variables in a file, or say why it
/// cannot be.
pub fn set(var: &str, given: Option<&str>, text: &Option<String>) -> (r: Result<Stored, String>)
    ensures
        match normalized(var@) {
            Err(e) => r is Err && r->Err_0@ == e,
            Ok(name) => match foreign(name) {
                Some(e) => r is Err && r->Err_0@ == e,
                None => stored_as(
                    r,
                    opt(*text),
                    name,
                    checked(opt_str(given), name, "aster env"@, "value"@),
                ),
            },
        },
{
    let name = match normalize(var) {
        Ok(n) => n,
        Err(e) => return Err(e),
    };
    match ensure_aster(name.as_str()) {
        Ok(()) => {},
        Err(e) => return Err(e),
    }
    match check_value(given, name.as_str(), "aster env", "value") {
        Ok(v) => Ok(store(text, name.as_str(), v.as_str())),
        Err(e) => Err(e),
    }
}

/// What is asked for a value that was left off.
pub fn ask(var: &str, secret: bool) -> (r: String)
    ensures
        r@ == (if secret {
            var@ + " (nothing is echoed)"@
        } else {
            var@
        }),
{
    if secret {
        crate::config::key::ask(var)
    } else {
        var.to_owned()
    }
}

} // verus!
