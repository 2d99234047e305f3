//! First-run setup: what is in place, what is asked, and the files it writes.

pub mod laws;
pub mod menus;

use vstd::prelude::*;

use crate::catalog::{bare, label_of, provider_label, Provider};
use crate::config::dotenv::{
    ensure_gitignored, env_has_key, lists, set_env_key, sets, with_line, with_var,
};
use crate::json::{Fields, Json, JsonV};
use crate::provider::{endpoint_of, model_of, resolve_endpoint, ProviderEnv};
use crate::settings::yaml::{all_keyed, scalar, scalars, write_review, yaml_scalar};
use crate::settings::Review;
use crate::text::affix::{is_blank, trim_end_of, trimmed};
use crate::text::{cat2, cat3, cat4, cat5, opt, pairs, same, texts};

verus! {

/// The flags of `aster init`.
pub struct InitArgs {
    pub local: bool,
    pub force: bool,
    pub yes: bool,
}

/// The endpoint and model in use right now.
pub struct Current {
    pub base_url: String,
    pub model: String,
    pub configured: bool,
}

/// The first variable that is set, among those a key is looked for in.
pub open spec fn first_set_var(vars: Seq<(String, bool)>) -> Option<Seq<char>>
    decreases vars.len(),
{
    if vars.len() == 0 {
        None
    } else {
        match first_set_var(vars.drop_last()) {
            Some(v) => Some(v),
            None => if vars.last().1 {
                Some(vars.last().0@)
            } else {
                None
            },
        }
    }
}

/// The first variable that is set, among those a key is looked for in.
pub fn key_status(vars: &Vec<(String, bool)>) -> (r: Option<String>)
    ensures
        opt(r) == first_set_var(vars@),
{
    let mut found: Option<String> = None;
    let mut i: usize = 0;
    while i < vars.len()
        invariant
            i <= vars@.len(),
            opt(found) == first_set_var(vars@.take(i as int)),
        decreases vars.len() - i,
    {
        proof {
            assert(vars@.take(i + 1).drop_last() =~= vars@.take(i as int));
            assert(vars@.take(i + 1).last() == vars@[i as int]);
        }
        if found.is_none() && vars[i].1 {
            found = Some(vars[i].0.clone());
        }
        i += 1;
    }
    assert(vars@.take(vars@.len() as int) =~= vars@);
    found
}

/// Whether a variable counts as set: there, and not blank.
pub fn env_set(value: &Option<String>) -> (r: bool)
    ensures
        r == (match opt(*value) {
            Some(v) => trimmed(v).len() > 0,
            None => false,
        }),
{
    match value {
        Some(v) => !is_blank(v.as_str()),
        None => false,
    }
}

/// The variable that an endpoint's key is stored under: its provider's own, else
/// the shared one.
pub open spec fn key_var(vars: Seq<Seq<char>>, shared: Seq<char>) -> Seq<char> {
    if vars.len() > 0 {
        vars[0]
    } else {
        shared
    }
}

/// The variable that an endpoint's key is stored under: its provider's own, else
/// the shared one.
pub fn key_var_for(vars: &Vec<String>, shared: &str) -> (r: String)
    ensures
        r@ == key_var(texts(vars@), shared@),
{
    if vars.len() > 0 {
        assert(texts(vars@)[0] == vars@[0]@);
        vars[0].clone()
    } else {
        shared.to_owned()
    }
}

/// True when an endpoint is the one in use.
pub open spec fn in_use(c: Current, base_url: Seq<char>) -> bool {
    c.configured && bare(c.base_url@) == bare(base_url)
}

impl Current {
    /// What is in use, going by the settings and the shell.
    pub fn read(review: &Review, env: &ProviderEnv) -> (r: Current)
        ensures
            r.base_url@ == endpoint_of(*env, *review),
            r.model@ == model_of(*env, *review, None),
            r.configured == (opt(review.base_url) is Some || opt(review.model) is Some),
    {
        let configured = review.base_url.is_some() || review.model.is_some();
        let (base_url, model) = resolve_endpoint(review, None, env);
        Current { base_url, model, configured }
    }

    /// What is in use, in a line; `key` is the variable that its key comes from.
    pub fn summary(&self, providers: &Vec<Provider>, key: &Option<String>) -> (r: String)
        ensures
            r@ == (if !self.configured {
                "Nothing set up yet"@
            } else {
                "Now: "@ + label_of(providers@, self.base_url@) + " · "@ + self.model@ + (" · "@
                    + (match opt(*key) {
                    Some(var) => "key from "@ + var,
                    None => "no key yet"@,
                }))
            }),
    {
        if !self.configured {
            return "Nothing set up yet".to_owned();
        }
        let tail = match key {
            Some(var) => cat2("key from ", var.as_str()),
            None => "no key yet".to_owned(),
        };
        let label = provider_label(providers, self.base_url.as_str());
        cat5(
            "Now: ",
            label.as_str(),
            " · ",
            self.model.as_str(),
            cat2(" · ", tail.as_str()).as_str(),
        )
    }

    /// What is shown beside the model provider when it is offered for a change.
    pub fn provider_hint(&self, providers: &Vec<Provider>) -> (r: String)
        ensures
            r@ == (if self.configured {
                label_of(providers@, self.base_url@) + " · "@ + self.model@
            } else {
                "the model Aster runs on"@
            }),
    {
        if self.configured {
            cat3(
                provider_label(providers, self.base_url.as_str()).as_str(),
                " · ",
                self.model.as_str(),
            )
        } else {
            "the model Aster runs on".to_owned()
        }
    }

    /// Whether an endpoint is the one in use.
    pub fn serves(&self, base_url: &str) -> (r: bool)
        ensures
            r == in_use(*self, base_url@),
    {
        self.configured && same(
            trim_end_of(self.base_url.as_str(), "/").as_str(),
            trim_end_of(base_url, "/").as_str(),
        )
    }
}

/// What a step has to say.
pub enum Note {
    Success(String),
    Info(String),
}

impl Note {
    /// What it says.
    pub open spec fn text(self) -> Seq<char> {
        match self {
            Note::Success(m) => m@,
            Note::Info(m) => m@,
        }
    }

    /// What it says.
    pub fn message(&self) -> (r: &str)
        ensures
            r@ == self.text(),
    {
        match self {
            Note::Success(m) => m.as_str(),
            Note::Info(m) => m.as_str(),
        }
    }
}

/// What is said when a setup ends without a key.
pub fn no_key_hint(var: &str) -> (r: String)
    ensures
        r@ == "No API key yet. Set "@ + var@
            + " in your shell, or run `aster init` again to store one."@,
{
    cat3(
        "No API key yet. Set ",
        var,
        " in your shell, or run `aster init` again to store one.",
    )
}

/// How a setup without questions ends: what is shown dimmed, and the command
/// behind it.
pub open spec fn plain_ending(global: bool, has_key: bool, var: Seq<char>) -> (
    Seq<char>,
    Seq<char>,
) {
    if !has_key {
        (
            "No API key yet. Set "@ + var
                + " in your shell, or run `aster init` again to store one."@,
            Seq::empty(),
        )
    } else if global {
        ("You're set. cd into any repo and run:"@, " aster"@)
    } else {
        ("Next:"@, " aster"@)
    }
}

/// How a setup without questions ends: what is shown dimmed, and the command
/// behind it.
pub fn finish_plain(global: bool, has_key: bool, var: &str) -> (r: (String, String))
    ensures
        (r.0@, r.1@) == plain_ending(global, has_key, var@),
{
    if !has_key {
        let none = String::new();
        assert(none@ =~= Seq::empty());
        return (no_key_hint(var), none);
    }
    if global {
        ("You're set. cd into any repo and run:".to_owned(), " aster".to_owned())
    } else {
        ("Next:".to_owned(), " aster".to_owned())
    }
}

/// How the wizard ends.
pub open spec fn ending(
    provider: bool,
    stored_key: bool,
    has_key: bool,
    global: bool,
    var: Seq<char>,
) -> Seq<char> {
    if !provider {
        "Nothing to set up · run `aster init` again anytime"@
    } else if !stored_key && !has_key {
        "No API key yet. Set "@ + var + " in your shell, or run `aster init` again to store one."@
    } else if global {
        "You're set. cd into any repo and run: aster"@
    } else {
        "You're set. Next: aster"@
    }
}

/// How the wizard ends. `provider` says whether one was set up, `has_key`
/// whether its key is found, under whatever variable.
pub fn next_step(provider: bool, stored_key: bool, has_key: bool, global: bool, var: &str) -> (r:
    String)
    ensures
        r@ == ending(provider, stored_key, has_key, global, var@),
{
    if !provider {
        "Nothing to set up · run `aster init` again anytime".to_owned()
    } else if !stored_key && !has_key {
        no_key_hint(var)
    } else if global {
        "You're set. cd into any repo and run: aster".to_owned()
    } else {
        "You're set. Next: aster".to_owned()
    }
}

/// What a run of `aster init` does.
#[derive(Clone, Copy, PartialEq, Eq, Structural, Debug)]
pub enum Start {
    /// Write the default configuration and ask nothing.
    Scaffold,
    /// Everything is set up already: open the configuration form.
    Configure,
    /// Ask.
    Wizard,
}

/// What a run of `aster init` does. `json` is the output format, `terminal`
/// says whether both ends are one.
pub fn start(args: &InitArgs, json: bool, terminal: bool, configured: bool) -> (r: Start)
    ensures
        r == (if args.yes || json || !terminal {
            Start::Scaffold
        } else if configured && !args.force && !args.local {
            Start::Configure
        } else {
            Start::Wizard
        }),
{
    if args.yes || json || !terminal {
        Start::Scaffold
    } else if configured && !args.force && !args.local {
        Start::Configure
    } else {
        Start::Wizard
    }
}

/// What a setup without questions did, as JSON.
pub fn scaffold_json(path: &str, global: bool, base_url: &str, model: &str, note: &Note) -> (r:
    Json)
    ensures
        r@ == JsonV::Obj(
            Seq::empty().push(("ok"@, JsonV::Bool(true))).push(("path"@, JsonV::Str(path@))).push(
                (
                    "scope"@,
                    JsonV::Str(
                        if global {
                            "global"@
                        } else {
                            "project"@
                        },
                    ),
                ),
            ).push(("base_url"@, JsonV::Str(base_url@))).push(("model"@, JsonV::Str(model@))).push(
                ("wrote"@, JsonV::Bool(note is Success)),
            ).push(("message"@, JsonV::Str(note.text()))),
        ),
{
    let scope = if global { "global" } else { "project" };
    let wrote = match note {
        Note::Success(_) => true,
        Note::Info(_) => false,
    };
    Fields::new().with("ok", Json::Bool(true)).text("path", path).text("scope", scope).text(
        "base_url",
        base_url,
    ).text("model", model).with("wrote", Json::Bool(wrote)).text("message", note.message()).json()
}

/// What storing a key comes to: the new text of its file, that of the ignore
/// file where it changes, and what is said.
pub struct StoredKey {
    pub env: String,
    pub ignore: Option<String>,
    pub note: Note,
}

/// Store a key. `env` and `ignore` are the files' texts, empty where they are
/// missing, and `shown` the path as it is shown.
pub fn store_key(
    env: &str,
    ignore: &str,
    var: &str,
    key: &str,
    gitignore: bool,
    shown: &str,
) -> (r: StoredKey)
    ensures
        r.env@ == with_var(env@, var@, key@),
        opt(r.ignore) == (if gitignore && !lists(ignore@, ".env"@) {
            Some(with_line(ignore@, ".env"@))
        } else {
            None
        }),
        r.note is Success,
        r.note.text() == (if sets(env@, var@) {
            "Replaced "@
        } else {
            "Stored "@
        }) + var@ + " in "@ + shown@,
{
    let replaced = env_has_key(env, var);
    let text = set_env_key(env, var, key);
    let listed = if gitignore {
        ensure_gitignored(ignore, ".env")
    } else {
        None
    };
    let verb = if replaced { "Replaced " } else { "Stored " };
    StoredKey {
        env: text,
        ignore: listed,
        note: Note::Success(cat4(verb, var, " in ", shown)),
    }
}

/// A new configuration up to the model.
pub const SCAFFOLD_HEAD: &'static str = "# Aster review config. Precedence: CLI flags > shell env > this file > defaults.\n\
# API keys are NEVER read from here. Use ASTER_API_KEY or `aster login`.\n\
review:\n\
\x20 model: ";

/// A new configuration between the model and the endpoint.
pub const SCAFFOLD_MIDDLE: &'static str = "\n\
\x20 base_url: ";

/// A new configuration behind the endpoint.
pub const SCAFFOLD_TAIL: &'static str = "\n\
\n\
\x20 # Drop findings below this confidence (0.0-1.0).\n\
\x20 min_confidence: 0.6\n\
\n\
\x20 # Bias the hypothesis pass toward these defect classes.\n\
\x20 focus_areas:\n\
\x20   - correctness\n\
\x20   - security\n\
\n\
\x20 # Which files to review. `include` empty = everything except `exclude`.\n\
\x20 include: []\n\
\x20 exclude:\n\
\x20   - \"target/**\"\n\
\x20   - \"node_modules/**\"\n\
\n\
# MCP servers that give the agent extra tools. Disabled servers are\n\
# kept in the config but never started.\n\
#\n\
# Web search and page reading need no server and no key: they ship in\n\
# the binary as `web/search` and `web/extract`.\n\
mcp:\n\
\x20 servers:\n\
\x20   # Drive a real browser: navigate, click, type, and screenshot.\n\
\x20   # Needs uv (https://docs.astral.sh/uv) and Python 3.11+, then\n\
\x20   # `uvx browser-use install` once to fetch Chromium.\n\
\x20   # It browses in its own profile under ~/.config/browseruse, not\n\
\x20   # the Chrome you are signed into. Set `disabled: false` to enable.\n\
\x20   browser:\n\
\x20     command: uvx\n\
\x20     args:\n\
\x20       - \"--from\"\n\
\x20       - \"browser-use\"\n\
\x20       - \"browser-use\"\n\
\x20       - \"--mcp\"\n\
\x20     env:\n\
\x20       # browser-use reports usage to its vendor unless this is set.\n\
\x20       ANONYMIZED_TELEMETRY: \"False\"\n\
\x20       # Without this the browser opens a window on your screen.\n\
\x20       BROWSER_USE_HEADLESS: \"true\"\n\
\x20       # Uncomment to confine the agent to named hosts.\n\
\x20       # BROWSER_USE_ALLOWED_DOMAINS: \"example.com,docs.rs\"\n\
\x20     disabled: true\n\
\n\
\x20 # Turn individual tools off by their `server/tool` id. Globs work.\n\
\x20 # Also settable with `aster mcp disable web/crawl`.\n\
\x20 tools:\n\
\x20   deny:\n\
\x20     # These two need a second LLM API key, and the retry tool runs\n\
\x20     # a whole agent loop inside one tool call.\n\
\x20     - \"browser/browser_extract_content\"\n\
\x20     - \"browser/retry_with_browser_use_agent\"\n\
";

/// A new configuration for an endpoint and a model.
pub open spec fn scaffolded(base_url: Seq<char>, model: Seq<char>) -> Seq<char> {
    SCAFFOLD_HEAD@ + scalar(model) + SCAFFOLD_MIDDLE@ + scalar(base_url) + SCAFFOLD_TAIL@
}

/// A new configuration for an endpoint and a model.
pub fn yaml_contents(base_url: &str, model: &str) -> (r: String)
    ensures
        r@ == scaffolded(base_url@, model@),
{
    cat5(
        SCAFFOLD_HEAD,
        yaml_scalar(model).as_str(),
        SCAFFOLD_MIDDLE,
        yaml_scalar(base_url).as_str(),
        SCAFFOLD_TAIL,
    )
}

/// What writing a new configuration says.
pub open spec fn wrote_text(rewrite: bool, shown: Seq<char>) -> Seq<char> {
    (if rewrite {
        "Rewrote "@
    } else {
        "Wrote "@
    }) + shown
}

/// A new configuration, and what is said of it.
pub fn write_scaffold(there: bool, base_url: &str, model: &str, shown: &str) -> (r: (
    String,
    Note,
))
    ensures
        r.0@ == scaffolded(base_url@, model@),
        r.1 is Success,
        r.1.text() == wrote_text(there, shown@),
{
    let verb = if there { "Rewrote " } else { "Wrote " };
    (yaml_contents(base_url, model), Note::Success(cat2(verb, shown)))
}

/// Save an endpoint and a model: in a new file where there is none or it is to
/// be overwritten, else in place, with nothing else touched. `text` is the file
/// as it is.
pub fn save_provider(
    text: &Option<String>,
    base_url: &str,
    model: &str,
    force: bool,
    shown: &str,
) -> (r: (String, Note))
    ensures
        r.1 is Success,
        match opt(*text) {
            Some(t) => if force {
                r.0@ == scaffolded(base_url@, model@) && r.1.text() == wrote_text(true, shown@)
            } else {
                r.0@ == all_keyed(
                    t,
                    "review"@,
                    scalars(
                        Seq::empty().push(("base_url"@, base_url@)).push(("model"@, model@)),
                    ),
                ) && r.1.text() == "Updated "@ + shown@
                    + " · provider and model, nothing else touched"@
            },
            None => r.0@ == scaffolded(base_url@, model@) && r.1.text() == wrote_text(
                false,
                shown@,
            ),
        },
{
    match text {
        Some(t) => {
            if force {
                return write_scaffold(true, base_url, model, shown);
            }
            let mut choices: Vec<(String, String)> = Vec::new();
            choices.push(("base_url".to_owned(), base_url.to_owned()));
            choices.push(("model".to_owned(), model.to_owned()));
            assert(pairs(choices@) =~= Seq::empty().push(("base_url"@, base_url@)).push(
                ("model"@, model@),
            ));
            (
                write_review(t.as_str(), &choices),
                Note::Success(
                    cat3("Updated ", shown, " · provider and model, nothing else touched"),
                ),
            )
        },
        None => write_scaffold(false, base_url, model, shown),
    }
}

/// Write the default configuration; one that is there is kept unless it is to be
/// overwritten.
pub fn scaffold(there: bool, base_url: &str, model: &str, force: bool, shown: &str) -> (r: (
    Option<String>,
    Note,
))
    ensures
        there && !force ==> r.0 is None && r.1 is Info && r.1.text() == shown@
            + " already exists · keeping it (--force rewrites it; `aster init` without -y switches provider in place)"@,
        !there || force ==> opt(r.0) == Some(scaffolded(base_url@, model@)) && r.1 is Success
            && r.1.text() == wrote_text(there, shown@),
{
    if there && !force {
        return (
            None,
            Note::Info(
                cat2(
                    shown,
                    " already exists · keeping it (--force rewrites it; `aster init` without -y switches provider in place)",
                ),
            ),
        );
    }
    let (text, note) = write_scaffold(there, base_url, model, shown);
    (Some(text), note)
}

/// How the setup of a first run ends: `Ok` where the chat can open.
pub fn first_run(has_key: bool, resolves: bool, var: &str) -> (r: Result<&'static str, String>)
    ensures
        has_key || resolves ==> r is Ok && r->Ok_0@ == "Set. Opening the chat…"@,
        !has_key && !resolves ==> r is Err && r->Err_0@ == "No API key yet. Set "@ + var@
            + " in your shell, or run `aster init` again to store one."@,
{
    if !has_key && !resolves {
        return Err(no_key_hint(var));
    }
    Ok("Set. Opening the chat…")
}

} // verus!
