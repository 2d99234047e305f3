//! Which endpoint, key and model a run uses. The shell comes first, then the
//! configuration, then the defaults.

use vstd::prelude::*;

use crate::catalog::{label_of, provider_label, Provider};
use crate::client::config::{
    built, effort_of, truthy, AiClient, ClientEnv, ClientV, DEFAULT_BASE_URL,
    DEFAULT_DEADLINE_SECS, DEFAULT_MAX_RETRIES, DEFAULT_MAX_TOKENS, DEFAULT_MODEL,
    DEFAULT_TIMEOUT_SECS, Effort,
};
use crate::json::{opt_value, text_array, Fields, Json, JsonV};
use crate::login::codex::CodexAuth;
use crate::login::logins::{found, is_codex_login, Login};
use crate::settings::{Agent, Review};
use crate::text::affix::{contains, drop_back, holds, one_of, trim, trim_end_of, trimmed};
use crate::text::number::{dec, decimal_usize, pad_right, padded_right, parse_unsigned, parsed};
use crate::text::pieces::{cut_at, join, joined, lines, lines_of, split_once_str};
use crate::text::{
    cat2, cat3, cat4, cat5, clone_texts, contains_text, opt, opt_str, owned, pairs, same, texts,
};
use crate::tools::memory::{debug_quote, debug_text};

verus! {

/// The page that usage is attributed to.
pub const ASTER_HTTP_REFERER: &'static str = "https://withaster.dev";

/// The name that usage is attributed to.
pub const ASTER_TITLE: &'static str = "Aster";

/// The model that stands for whatever the router picks.
pub const AUTO_MODEL: &'static str = "auto";

/// The value of a shell variable that is set and not empty, else the one of the
/// configuration.
pub open spec fn shell_or(shell: Option<Seq<char>>, file: Option<Seq<char>>) -> Option<Seq<char>> {
    match shell {
        Some(s) => if s.len() > 0 {
            Some(s)
        } else {
            file
        },
        None => file,
    }
}

/// The value of a shell variable that is set and not empty, else the one of the
/// configuration.
pub fn env_or(shell: &Option<String>, file: Option<&str>) -> (r: Option<String>)
    ensures
        opt(r) == shell_or(opt(*shell), opt_str(file)),
{
    match shell {
        Some(s) => if !s.as_str().is_empty() {
            return Some(s.clone());
        },
        None => {},
    }
    owned(file)
}

/// The part of an address after its scheme.
pub open spec fn host_part(base_url: Seq<char>) -> Seq<char> {
    match cut_at(drop_back(base_url, one_of("/"@)), "//"@) {
        Some(parts) => parts.1,
        None => base_url,
    }
}

/// True when an endpoint is OpenRouter's.
pub open spec fn openrouter(base_url: Seq<char>) -> bool {
    holds(host_part(base_url), "openrouter"@)
}

/// Whether an endpoint is OpenRouter's.
pub fn is_openrouter(base_url: &str) -> (r: bool)
    ensures
        r == openrouter(base_url@),
{
    match split_once_str(trim_end_of(base_url, "/").as_str(), "//") {
        Some((_, host)) => contains(host.as_str(), "openrouter"),
        None => contains(base_url, "openrouter"),
    }
}

/// What is needed to sign in to an endpoint.
pub struct Setup {
    pub provider: String,
    pub base_url: String,
    pub login: Option<String>,
    pub key_vars: Vec<String>,
}

/// The browser login an endpoint has.
pub open spec fn login_for(base_url: Seq<char>, codex: bool) -> Option<Seq<char>> {
    if codex {
        Some("codex"@)
    } else if openrouter(base_url) {
        Some("openrouter"@)
    } else if holds(base_url, "z.ai"@) {
        Some("zai"@)
    } else {
        None
    }
}

/// True when `s` is what signing in to the endpoint takes.
pub open spec fn setup_of(
    s: Setup,
    base_url: Seq<char>,
    rows: Seq<Provider>,
    codex: bool,
    key_vars: Seq<Seq<char>>,
) -> bool {
    &&& s.provider@ == label_of(rows, base_url)
    &&& s.base_url@ == base_url
    &&& opt(s.login) == login_for(base_url, codex)
    &&& texts(s.key_vars@) == if codex {
        Seq::empty()
    } else {
        key_vars
    }
}

impl Setup {
    /// What signing in to an endpoint takes. `rows` is the catalog, which names
    /// its provider, `codex` says whether it is the Codex backend, and `key_vars` are the
    /// variables its key is looked for in.
    pub fn for_endpoint(
        base_url: &str,
        rows: &Vec<Provider>,
        codex: bool,
        key_vars: &Vec<String>,
    ) -> (r: Setup)
        ensures
            r.provider@ == label_of(rows@, base_url@),
            setup_of(r, base_url@, rows@, codex, texts(key_vars@)),
    {
        let login = if codex {
            Some("codex".to_owned())
        } else if is_openrouter(base_url) {
            Some("openrouter".to_owned())
        } else if contains(base_url, "z.ai") {
            Some("zai".to_owned())
        } else {
            None
        };
        let vars = if codex {
            let none: Vec<String> = Vec::new();
            assert(texts(none@) =~= Seq::empty());
            none
        } else {
            clone_texts(key_vars)
        };
        Setup {
            provider: provider_label(rows, base_url),
            base_url: base_url.to_owned(),
            login,
            key_vars: vars,
        }
    }

    /// What signing in takes, where there is no key yet.
    pub fn needed(
        base_url: &str,
        has_key: bool,
        rows: &Vec<Provider>,
        codex: bool,
        key_vars: &Vec<String>,
    ) -> (r: Option<Setup>)
        ensures
            r is Some <==> !has_key,
            r is Some ==> setup_of(r.unwrap(), base_url@, rows@, codex, texts(key_vars@)),
    {
        if has_key {
            None
        } else {
            Some(Setup::for_endpoint(base_url, rows, codex, key_vars))
        }
    }
}

/// There is neither a key nor a login for an endpoint.
pub struct MissingCredentials {
    pub setup: Setup,
}

/// How one login is listed.
pub open spec fn login_line(target: Seq<char>, what: Seq<char>) -> Seq<char> {
    "  aster login "@ + padded_right(target, 14) + " "@ + what
}

/// The ways in that are listed: the logins, with the endpoint's own first, and
/// the variables its key is read from.
pub open spec fn ways_in(s: Setup) -> Seq<Seq<char>> {
    let first = if opt(s.login) == Some("codex"@) {
        "not signed in to ChatGPT yet. Ways in:"@
    } else {
        "no key for "@ + s.provider@ + " yet. Ways in:"@
    };
    let router = login_line("openrouter"@, "one account, most models"@);
    let codex = login_line("codex"@, "use a ChatGPT Plus or Pro subscription"@);
    let head = Seq::empty().push(first).push(
        "  aster init                 pick a provider, or a model on this machine"@,
    );
    let logins = if opt(s.login) == Some("codex"@) {
        head.push(codex).push(router)
    } else {
        head.push(router).push(codex)
    };
    let vars = texts(s.key_vars@);
    if vars.len() == 0 {
        logins
    } else {
        logins.push(
            "  export "@ + vars[0] + "=…"@ + (if vars.len() == 1 {
                Seq::empty()
            } else {
                "   (or "@ + joined(vars.skip(1), ", "@) + ")"@
            }),
        )
    }
}

fn line(list: &mut Vec<String>, text: String)
    ensures
        texts(final(list)@) == texts(old(list)@).push(text@),
{
    list.push(text);
    assert(texts(list@) =~= texts(old(list)@).push(text@));
}

fn login_row(target: &str, what: &str) -> (r: String)
    ensures
        r@ == login_line(target@, what@),
{
    cat4("  aster login ", pad_right(target, 14).as_str(), " ", what)
}

fn tail_of(v: &Vec<String>) -> (r: Vec<String>)
    requires
        v@.len() > 0,
    ensures
        texts(r@) == texts(v@).skip(1),
{
    let mut out: Vec<String> = Vec::new();
    let mut i: usize = 1;
    while i < v.len()
        invariant
            1 <= i <= v@.len(),
            out@.len() == i - 1,
            forall|k: int| 0 <= k < i - 1 ==> #[trigger] out@[k]@ == v@[k + 1]@,
        decreases v.len() - i,
    {
        out.push(v[i].clone());
        i += 1;
    }
    assert(texts(out@) =~= texts(v@).skip(1));
    out
}

impl MissingCredentials {
    /// What is said about it.
    pub fn text(&self) -> (r: String)
        ensures
            r@ == joined(ways_in(self.setup), "\n"@),
    {
        let codex = match &self.setup.login {
            Some(l) => same(l.as_str(), "codex"),
            None => false,
        };
        let mut out: Vec<String> = Vec::new();
        assert(texts(out@) =~= Seq::empty());
        if codex {
            line(&mut out, "not signed in to ChatGPT yet. Ways in:".to_owned());
        } else {
            line(
                &mut out,
                cat3("no key for ", self.setup.provider.as_str(), " yet. Ways in:"),
            );
        }
        line(
            &mut out,
            "  aster init                 pick a provider, or a model on this machine".to_owned(),
        );
        let a = login_row("openrouter", "one account, most models");
        let b = login_row("codex", "use a ChatGPT Plus or Pro subscription");
        if codex {
            line(&mut out, b);
            line(&mut out, a);
        } else {
            line(&mut out, a);
            line(&mut out, b);
        }
        let vars = &self.setup.key_vars;
        assert(texts(vars@).len() == vars@.len());
        if vars.len() > 0 {
            let others = if vars.len() == 1 {
                let none = String::new();
                assert(none@ =~= Seq::empty());
                none
            } else {
                cat3("   (or ", join(&tail_of(vars), ", ").as_str(), ")")
            };
            line(&mut out, cat4("  export ", vars[0].as_str(), "=…", others.as_str()));
        }
        join(&out, "\n")
    }
}

/// The shell variables that resolving reads, each as it is set.
pub struct ProviderEnv {
    pub base_url: Option<String>,
    pub model: Option<String>,
    pub effort: Option<String>,
    pub reasoning_effort: Option<String>,
    pub max_tokens: Option<String>,
    pub web_search: Option<String>,
}

/// The endpoint that is used.
pub open spec fn endpoint_of(env: ProviderEnv, review: Review) -> Seq<char> {
    match shell_or(opt(env.base_url), opt(review.base_url)) {
        Some(u) => u,
        None => DEFAULT_BASE_URL@,
    }
}

/// The model that is used.
pub open spec fn model_of(env: ProviderEnv, review: Review, flag: Option<Seq<char>>) -> Seq<char> {
    match flag {
        Some(m) => m,
        None => match shell_or(opt(env.model), opt(review.model)) {
            Some(m) => m,
            None => DEFAULT_MODEL@,
        },
    }
}

fn borrowed(s: &Option<String>) -> (r: Option<&str>)
    ensures
        opt_str(r) == opt(*s),
{
    match s {
        Some(t) => Some(t.as_str()),
        None => None,
    }
}

/// The endpoint and the model that are used; no key is needed for that.
pub fn resolve_endpoint(review: &Review, model_flag: Option<&str>, env: &ProviderEnv) -> (r: (
    String,
    String,
))
    ensures
        r.0@ == endpoint_of(*env, *review),
        r.1@ == model_of(*env, *review, opt_str(model_flag)),
{
    let base_url = match env_or(&env.base_url, borrowed(&review.base_url)) {
        Some(u) => u,
        None => DEFAULT_BASE_URL.to_owned(),
    };
    let model = match model_flag {
        Some(m) => m.to_owned(),
        None => match env_or(&env.model, borrowed(&review.model)) {
            Some(m) => m,
            None => DEFAULT_MODEL.to_owned(),
        },
    };
    (base_url, model)
}

/// Whether the router picks the model: it is asked for, on an endpoint that has
/// one.
pub fn is_routed(model: &str, base_url: &str) -> (r: bool)
    ensures
        r == (model@ == AUTO_MODEL@ && openrouter(base_url@)),
{
    same(model, AUTO_MODEL) && is_openrouter(base_url)
}

/// The effort the shell asks for, in the words it is set to.
pub open spec fn effort_asked(env: ProviderEnv) -> Option<Seq<char>> {
    match shell_or(opt(env.effort), None) {
        Some(w) => Some(w),
        None => shell_or(opt(env.reasoning_effort), None),
    }
}

/// The effort that is used: the flag, then the shell where it makes sense, then
/// the configuration, then the default.
pub open spec fn effort_used(
    flag: Option<Effort>,
    env: ProviderEnv,
    configured: Option<Effort>,
    default: Effort,
) -> Effort {
    let shell = match effort_asked(env) {
        Some(w) => effort_of(w),
        None => None,
    };
    match flag {
        Some(e) => e,
        None => match shell {
            Some(e) => e,
            None => match configured {
                Some(e) => e,
                None => default,
            },
        },
    }
}

/// What is said about an effort in the shell that makes no sense.
pub open spec fn effort_note(flag: Option<Effort>, env: ProviderEnv) -> Option<Seq<char>> {
    match effort_asked(env) {
        Some(w) => if flag is None && effort_of(w) is None {
            Some(
                "note: ignoring effort "@ + debug_text(w)
                    + " from the environment; expected off, low, medium, high, xhigh, max, ultra"@,
            )
        } else {
            None
        },
        None => None,
    }
}

/// The effort that is used, and what is said about one that makes no sense.
pub fn resolve_effort(
    flag: Option<Effort>,
    env: &ProviderEnv,
    configured: Option<Effort>,
    default: Effort,
) -> (r: (Effort, Option<String>))
    ensures
        r.0 == effort_used(flag, *env, configured, default),
        opt(r.1) == effort_note(flag, *env),
{
    match flag {
        Some(e) => return (e, None),
        None => {},
    }
    let asked = match env_or(&env.effort, None) {
        Some(w) => Some(w),
        None => env_or(&env.reasoning_effort, None),
    };
    let fallback = match configured {
        Some(e) => e,
        None => default,
    };
    match asked {
        Some(w) => match Effort::parse(w.as_str()) {
            Some(e) => (e, None),
            None => (
                fallback,
                Some(
                    cat3(
                        "note: ignoring effort ",
                        debug_quote(w.as_str()).as_str(),
                        " from the environment; expected off, low, medium, high, xhigh, max, ultra",
                    ),
                ),
            ),
        },
        None => (fallback, None),
    }
}

/// The output cap of a request: the shell's, then the configured one, then the
/// default. Zero, `none` and `off` lift it.
pub open spec fn cap_from(configured: Option<u32>, env: Option<Seq<char>>) -> Option<u32> {
    let settled = |c: Option<u32>|
        match c {
            Some(n) => if n == 0 {
                None
            } else {
                Some(n)
            },
            None => Some(DEFAULT_MAX_TOKENS),
        };
    match env {
        Some(raw) => {
            let t = trimmed(raw);
            if t == "0"@ || t == "none"@ || t == "off"@ {
                None
            } else {
                match parsed(t, u32::MAX as nat) {
                    Some(n) => settled(Some(n as u32)),
                    None => settled(configured),
                }
            }
        },
        None => settled(configured),
    }
}

/// What is said about an output cap in the shell that makes no sense.
pub open spec fn cap_note(env: Option<Seq<char>>) -> Option<Seq<char>> {
    match env {
        Some(raw) => {
            let t = trimmed(raw);
            if t == "0"@ || t == "none"@ || t == "off"@ || parsed(t, u32::MAX as nat) is Some {
                None
            } else {
                Some("note: ignoring max tokens "@ + debug_text(t) + " from the environment"@)
            }
        },
        None => None,
    }
}

fn settle_cap(c: Option<u32>) -> (r: Option<u32>)
    ensures
        r == match c {
            Some(n) => if n == 0 {
                None
            } else {
                Some(n)
            },
            None => Some(DEFAULT_MAX_TOKENS),
        },
{
    match c {
        Some(n) => if n == 0 {
            None
        } else {
            Some(n)
        },
        None => Some(DEFAULT_MAX_TOKENS),
    }
}

/// The output cap of a request, and what is said about one that makes no sense.
pub fn max_tokens_from(agent: &Agent, env: Option<String>) -> (r: (Option<u32>, Option<String>))
    ensures
        r.0 == cap_from(agent.max_output_tokens, opt(env)),
        opt(r.1) == cap_note(opt(env)),
{
    match env {
        Some(raw) => {
            let t = trim(raw.as_str());
            let t = t.as_str();
            if same(t, "0") || same(t, "none") || same(t, "off") {
                return (None, None);
            }
            match parse_unsigned(t, u32::MAX as u64) {
                Some(n) => (settle_cap(Some(n as u32)), None),
                None => (
                    settle_cap(agent.max_output_tokens),
                    Some(
                        cat3(
                            "note: ignoring max tokens ",
                            debug_quote(t).as_str(),
                            " from the environment",
                        ),
                    ),
                ),
            }
        },
        None => (settle_cap(agent.max_output_tokens), None),
    }
}

/// The output cap of a request.
pub fn resolve_max_tokens(agent: &Agent, env: &ProviderEnv) -> (r: (Option<u32>, Option<String>))
    ensures
        r.0 == cap_from(agent.max_output_tokens, shell_or(opt(env.max_tokens), None)),
        opt(r.1) == cap_note(shell_or(opt(env.max_tokens), None)),
{
    max_tokens_from(agent, env_or(&env.max_tokens, None))
}

/// Whether requests search the web: the shell's word, else the configuration.
pub open spec fn searches(env: ProviderEnv, configured: Option<bool>) -> bool {
    match shell_or(opt(env.web_search), None) {
        Some(v) => truthy(Some(v)),
        None => configured == Some(true),
    }
}

/// Whether requests search the web.
pub fn resolve_web_search(review: &Review, env: &ProviderEnv) -> (r: bool)
    ensures
        r == searches(*env, review.web_search),
{
    let asked = env_or(&env.web_search, None);
    if asked.is_some() {
        crate::client::config::env_truthy(&asked)
    } else {
        match review.web_search {
            Some(b) => b,
            None => false,
        }
    }
}

/// What a client is made with.
pub struct LlmConfig {
    pub api_key: String,
    pub base_url: String,
    pub model: String,
    pub effort: Effort,
    pub web_search: bool,
}

/// True when `r` is the client that is settled on, or what is missing for one.
pub open spec fn settled_on(
    r: Result<LlmConfig, MissingCredentials>,
    base_url: Seq<char>,
    model: Seq<char>,
    key: Option<Seq<char>>,
    effort: Effort,
    web_search: bool,
    rows: Seq<Provider>,
    codex: bool,
    key_vars: Seq<Seq<char>>,
) -> bool {
    match key {
        None => r is Err && setup_of(r->Err_0.setup, base_url, rows, codex, key_vars),
        Some(k) => {
            &&& r is Ok
            &&& r->Ok_0.api_key@ == k
            &&& r->Ok_0.base_url@ == base_url
            &&& r->Ok_0.model@ == model
            &&& r->Ok_0.effort == effort
            &&& r->Ok_0.web_search == web_search
        },
    }
}

/// A client is settled on exactly where there is a key, with that key and the
/// endpoint and the model at hand; else what is missing is told of that
/// endpoint.
pub proof fn a_client_needs_a_key(
    r: Result<LlmConfig, MissingCredentials>,
    base_url: Seq<char>,
    model: Seq<char>,
    key: Option<Seq<char>>,
    effort: Effort,
    web_search: bool,
    rows: Seq<Provider>,
    codex: bool,
    key_vars: Seq<Seq<char>>,
)
    requires
        settled_on(r, base_url, model, key, effort, web_search, rows, codex, key_vars),
    ensures
        r is Ok <==> key is Some,
        r matches Ok(c) ==> Some(c.api_key@) == key && c.base_url@ == base_url && c.model@ == model
            && c.effort == effort && c.web_search == web_search,
        r matches Err(m) ==> m.setup.base_url@ == base_url && (!codex ==> texts(m.setup.key_vars@)
            == key_vars) && (codex ==> m.setup.key_vars@.len() == 0),
{
    match r {
        Err(m) => {
            assert(texts(m.setup.key_vars@).len() == m.setup.key_vars@.len());
        },
        _ => {},
    }
}

/// The client that these settings make.
pub open spec fn client_of(
    llm: LlmConfig,
    max_tokens: Option<u32>,
    env: ClientEnv,
    default_effort: Effort,
) -> ClientV {
    let base = built(
        llm.base_url@,
        llm.api_key@,
        llm.model@,
        DEFAULT_TIMEOUT_SECS,
        DEFAULT_MAX_RETRIES,
        DEFAULT_DEADLINE_SECS,
        env,
        default_effort,
    );
    ClientV {
        effort: llm.effort,
        web_search: llm.web_search,
        max_tokens,
        attribution_headers: attribution_of(base.base_url),
        ..base
    }
}

/// A client works with the key, the model, the effort and the cap it was settled
/// with.
pub proof fn a_client_works_as_settled(
    llm: LlmConfig,
    max_tokens: Option<u32>,
    env: ClientEnv,
    default_effort: Effort,
)
    ensures
        ({
            let c = client_of(llm, max_tokens, env, default_effort);
            &&& c.api_key == llm.api_key@
            &&& c.model == llm.model@
            &&& c.effort == llm.effort
            &&& c.web_search == llm.web_search
            &&& c.max_tokens == max_tokens
            &&& !openrouter(c.base_url) ==> c.attribution_headers.len() == 0
        }),
{
}

/// What a client is made with, or what is missing. `key` is the one that was
/// found for the endpoint, `routed` what the router picked, where it picks.
pub fn resolve(
    review: &Review,
    model_flag: Option<&str>,
    env: &ProviderEnv,
    key: Option<String>,
    routed: Option<String>,
    effort: Effort,
    rows: &Vec<Provider>,
    codex: bool,
    key_vars: &Vec<String>,
) -> (r: Result<LlmConfig, MissingCredentials>)
    ensures
        match key {
            None => r is Err && setup_of(
                r->Err_0.setup,
                endpoint_of(*env, *review),
                rows@,
                codex,
                texts(key_vars@),
            ),
            Some(k) => {
                let base_url = endpoint_of(*env, *review);
                let model = model_of(*env, *review, opt_str(model_flag));
                &&& r is Ok
                &&& r->Ok_0.api_key@ == k@
                &&& r->Ok_0.base_url@ == base_url
                &&& r->Ok_0.model@ == (if model == AUTO_MODEL@ && openrouter(base_url) && routed
                    is Some {
                    routed.unwrap()@
                } else {
                    model
                })
                &&& r->Ok_0.effort == effort
                &&& r->Ok_0.web_search == searches(*env, review.web_search)
            },
        },
        settled_on(
            r,
            endpoint_of(*env, *review),
            if model_of(*env, *review, opt_str(model_flag)) == AUTO_MODEL@ && openrouter(
                endpoint_of(*env, *review),
            ) && routed is Some {
                routed.unwrap()@
            } else {
                model_of(*env, *review, opt_str(model_flag))
            },
            opt(key),
            effort,
            searches(*env, review.web_search),
            rows@,
            codex,
            texts(key_vars@),
        ),
{
    let (base_url, model) = resolve_endpoint(review, model_flag, env);
    match key {
        None => Err(
            MissingCredentials {
                setup: Setup::for_endpoint(base_url.as_str(), rows, codex, key_vars),
            },
        ),
        Some(api_key) => {
            let picked = if is_routed(model.as_str(), base_url.as_str()) {
                match routed {
                    Some(m) => m,
                    None => model,
                }
            } else {
                model
            };
            Ok(
                LlmConfig {
                    api_key,
                    base_url,
                    model: picked,
                    effort,
                    web_search: resolve_web_search(review, env),
                },
            )
        },
    }
}

/// The headers that attribute usage, on the endpoint that ranks by it.
pub open spec fn attribution_of(base_url: Seq<char>) -> Seq<(Seq<char>, Seq<char>)> {
    if openrouter(base_url) {
        Seq::empty().push(("HTTP-Referer"@, ASTER_HTTP_REFERER@)).push(
            ("X-OpenRouter-Title"@, ASTER_TITLE@),
        )
    } else {
        Seq::empty()
    }
}

/// The client of a configuration.
pub fn build_client(
    llm: &LlmConfig,
    max_tokens: Option<u32>,
    env: &ClientEnv,
    default_effort: Effort,
) -> (r: AiClient)
    ensures
        r@ == ({
            let base = built(
                llm.base_url@,
                llm.api_key@,
                llm.model@,
                DEFAULT_TIMEOUT_SECS,
                DEFAULT_MAX_RETRIES,
                DEFAULT_DEADLINE_SECS,
                *env,
                default_effort,
            );
            ClientV {
                effort: llm.effort,
                web_search: llm.web_search,
                max_tokens,
                attribution_headers: attribution_of(base.base_url),
                ..base
            }
        }),
        r@ == client_of(*llm, max_tokens, *env, default_effort),
{
    let client = AiClient::new(
        llm.base_url.as_str(),
        llm.api_key.as_str(),
        llm.model.as_str(),
        env,
        default_effort,
    ).with_effort(llm.effort).with_web_search(llm.web_search).with_max_tokens(max_tokens);
    if is_openrouter(client.base_url()) {
        let mut headers: Vec<(String, String)> = Vec::new();
        headers.push(("HTTP-Referer".to_owned(), ASTER_HTTP_REFERER.to_owned()));
        headers.push(("X-OpenRouter-Title".to_owned(), ASTER_TITLE.to_owned()));
        assert(pairs(headers@) =~= Seq::empty().push(("HTTP-Referer"@, ASTER_HTTP_REFERER@)).push(
            ("X-OpenRouter-Title"@, ASTER_TITLE@),
        ));
        return client.with_attribution_headers(headers);
    }
    client
}

/// Usage is attributed on OpenRouter and nowhere else.
pub proof fn only_openrouter_is_told(base_url: Seq<char>)
    ensures
        attribution_of(base_url).len() > 0 <==> openrouter(base_url),
{
}

/// The flags of `aster provider probe`.
pub struct ProbeArgs {
    pub out: Option<String>,
}

/// The flags of `aster provider use`.
pub struct UseProviderArgs {
    pub target: String,
    pub model: Option<String>,
}

/// What `aster provider` is asked to do.
pub enum ProviderCmd {
    List,
    Use(UseProviderArgs),
    Refresh,
    Probe(ProbeArgs),
}

/// The flags of `aster provider`.
pub struct ProviderArgs {
    pub command: ProviderCmd,
}

/// Said in the file of model ids.
pub const CATALOG_NOTE: &'static str = "Model ids only, by provider id. Endpoints and key vars live in \
     providers.json and are never read from here. Regenerate with `aster provider probe --out \
     model-catalog.json`; publish it where `providers.catalog_url` points.";

/// The ids of a shortlist that are served, in order.
pub open spec fn still_served(shortlist: Seq<Seq<char>>, served: Seq<Seq<char>>) -> Seq<Seq<char>>
    decreases shortlist.len(),
{
    if shortlist.len() == 0 {
        Seq::empty()
    } else if served.contains(shortlist.last()) {
        still_served(shortlist.drop_last(), served).push(shortlist.last())
    } else {
        still_served(shortlist.drop_last(), served)
    }
}

/// The ids of a shortlist that are served, in order.
pub fn kept_ids(shortlist: &Vec<String>, served: &Vec<String>) -> (r: Vec<String>)
    ensures
        texts(r@) == still_served(texts(shortlist@), texts(served@)),
{
    let ghost all = texts(shortlist@);
    let mut out: Vec<String> = Vec::new();
    let mut i: usize = 0;
    assert(texts(out@) =~= still_served(all.take(0), texts(served@)));
    while i < shortlist.len()
        invariant
            i <= shortlist@.len(),
            all == texts(shortlist@),
            texts(out@) == still_served(all.take(i as int), texts(served@)),
        decreases shortlist.len() - i,
    {
        proof {
            assert(all.take(i + 1).drop_last() =~= all.take(i as int));
            assert(all.take(i + 1).last() == shortlist@[i as int]@);
        }
        let ghost had = texts(out@);
        if contains_text(served, shortlist[i].as_str()) {
            let id = shortlist[i].clone();
            out.push(id);
            assert(texts(out@) =~= had.push(id@));
        }
        i += 1;
    }
    assert(all.take(all.len() as int) =~= all);
    out
}

/// A shortlist only ever loses ids: what is kept was on it, and is served.
pub proof fn probing_only_drops(shortlist: Seq<Seq<char>>, served: Seq<Seq<char>>)
    ensures
        still_served(shortlist, served).len() <= shortlist.len(),
        forall|x: Seq<char>|
            #[trigger] still_served(shortlist, served).contains(x) <==> shortlist.contains(x)
                && served.contains(x),
    decreases shortlist.len(),
{
    let kept = still_served(shortlist, served);
    if shortlist.len() > 0 {
        let rest = shortlist.drop_last();
        let last = shortlist.last();
        probing_only_drops(rest, served);
        let head = still_served(rest, served);
        assert forall|x: Seq<char>| #[trigger] kept.contains(x) <==> shortlist.contains(x)
            && served.contains(x) by {
            assert(head.contains(x) <==> rest.contains(x) && served.contains(x));
            if rest.contains(x) {
                let k = choose|k: int| 0 <= k < rest.len() && rest[k] == x;
                assert(shortlist[k] == x);
            }
            if shortlist.contains(x) && x != last {
                let k = choose|k: int| 0 <= k < shortlist.len() && shortlist[k] == x;
                assert(rest[k] == x);
            }
            assert(shortlist[shortlist.len() - 1] == last);
            if head.contains(x) {
                let k = choose|k: int| 0 <= k < head.len() && head[k] == x;
                assert(kept[k] == x);
            }
            if served.contains(last) {
                assert(kept[head.len() as int] == last);
            }
        }
    }
}

/// What probing one endpoint comes to.
pub enum Probed {
    /// It was left alone, for this reason.
    Skipped(String),
    /// It serves models.
    Served { note: String, example: String, kept: Vec<String> },
}

/// What probing an endpoint that answered is reported as.
pub open spec fn probe_note(id: Seq<char>, served: int, kept: int, listed: int) -> Seq<char> {
    padded_right(id, 16) + " "@ + dec(served as nat) + " served · "@ + (dec(kept as nat)
        + " kept"@) + (if listed - kept == 0 {
        Seq::empty()
    } else {
        " · "@ + dec((listed - kept) as nat) + " gone"@
    })
}

/// The first line of a text.
pub open spec fn first_line_of(text: Seq<char>) -> Seq<char> {
    let v = lines_of(text);
    if v.len() == 0 {
        Seq::empty()
    } else {
        v[0]
    }
}

/// The first line of a text.
pub fn first_line(text: &str) -> (r: String)
    ensures
        r@ == first_line_of(text@),
{
    let v = lines(text);
    assert(texts(v@).len() == v@.len());
    if v.len() == 0 {
        let none = String::new();
        assert(none@ =~= Seq::empty());
        none
    } else {
        assert(texts(v@)[0] == v@[0]@);
        v[0].clone()
    }
}

/// Whether an endpoint is probed: one that is not on this machine and has a key
/// of its own. The shared key would go to every company on the list.
pub fn probes(loopback: bool, source: Option<KeySource>) -> (r: bool)
    ensures
        r == (!loopback && source == Some(KeySource::Provider)),
{
    match source {
        Some(KeySource::Provider) => !loopback,
        _ => false,
    }
}

/// What probing an endpoint comes to, given what it serves or how it failed.
/// Ids that are gone are dropped; none is added.
pub fn probe(
    id: &str,
    shortlist: &Vec<String>,
    example: &str,
    served: &Result<Vec<String>, String>,
) -> (r: Probed)
    ensures
        match *served {
            Err(e) => r matches Probed::Skipped(s) && s@ == padded_right(id@, 16) + " "@
                + first_line_of(e@),
            Ok(models) => if models@.len() == 0 {
                r matches Probed::Skipped(s) && s@ == padded_right(id@, 16)
                    + " lists nothing; left alone"@
            } else {
                let keep = still_served(texts(shortlist@), texts(models@));
                r matches Probed::Served { note, example: ex, kept } && texts(kept@) == keep
                    && note@ == probe_note(
                    id@,
                    models@.len() as int,
                    keep.len() as int,
                    shortlist@.len() as int,
                ) && ex@ == (if texts(models@).contains(example@) {
                    example@
                } else {
                    models@[0]@
                })
            },
        },
{
    match served {
        Err(e) => Probed::Skipped(
            cat3(pad_right(id, 16).as_str(), " ", first_line(e.as_str()).as_str()),
        ),
        Ok(models) => {
            if models.len() == 0 {
                return Probed::Skipped(
                    cat2(pad_right(id, 16).as_str(), " lists nothing; left alone"),
                );
            }
            let kept = kept_ids(shortlist, models);
            proof {
                probing_only_drops(texts(shortlist@), texts(models@));
                assert(texts(kept@).len() == kept@.len());
                assert(texts(shortlist@).len() == shortlist@.len());
            }
            let gone: usize = shortlist.len() - kept.len();
            let tail = if gone == 0 {
                let none = String::new();
                assert(none@ =~= Seq::empty());
                none
            } else {
                cat3(" · ", decimal_usize(gone).as_str(), " gone")
            };
            let head = cat4(
                pad_right(id, 16).as_str(),
                " ",
                decimal_usize(models.len()).as_str(),
                " served · ",
            );
            let mid = cat2(decimal_usize(kept.len()).as_str(), " kept");
            let note = cat3(head.as_str(), mid.as_str(), tail.as_str());
            let pick = if contains_text(models, example) {
                example.to_owned()
            } else {
                models[0].clone()
            };
            Probed::Served { note, example: pick, kept }
        },
    }
}

/// What a fetched list of model ids comes to.
pub fn refresh(url: &str, rows: usize) -> (r: Result<(), String>)
    ensures
        rows == 0 ==> r is Err && r->Err_0@ == url@
            + " lists no providers; leaving the current list in place"@,
        rows > 0 ==> r is Ok,
{
    if rows == 0 {
        return Err(cat2(url, " lists no providers; leaving the current list in place"));
    }
    Ok(())
}

/// What a refresh is reported as.
pub fn refreshed_line(ids: usize, rows: usize, path: &str) -> (r: String)
    ensures
        r@ == dec(ids as nat) + " model ids across "@ + dec(rows as nat)
            + " provider(s) · cached in "@ + path@,
{
    cat5(
        decimal_usize(ids).as_str(),
        " model ids across ",
        decimal_usize(rows).as_str(),
        " provider(s) · cached in ",
        path,
    )
}

/// The model a provider is used with, or why none can be.
pub fn use_provider(name: &str, model: &Option<String>, example: &str) -> (r: Result<
    String,
    String,
>)
    ensures
        ({
            let pick = match opt(*model) {
                Some(m) => m,
                None => example@,
            };
            if pick.len() == 0 {
                r is Err && r->Err_0@ == name@
                    + " has no example model in the catalog; pass --model <ID>"@
            } else {
                r is Ok && r->Ok_0@ == pick
            }
        }),
{
    let pick = match model {
        Some(m) => m.clone(),
        None => example.to_owned(),
    };
    if pick.as_str().is_empty() {
        return Err(cat2(name, " has no example model in the catalog; pass --model <ID>"));
    }
    Ok(pick)
}

/// Where the key of an endpoint comes from.
#[derive(Clone, Copy, PartialEq, Eq, Structural, Debug)]
pub enum KeySource {
    /// A variable of the provider's own.
    Provider,
    /// The variable that all providers share.
    Shared,
    /// The endpoint is on this machine and takes none.
    Local,
}

/// The word for where a key comes from.
pub open spec fn source_word(s: Option<KeySource>) -> Seq<char> {
    match s {
        Some(KeySource::Provider) => "provider"@,
        Some(KeySource::Shared) => "shared"@,
        Some(KeySource::Local) => "local"@,
        None => "none"@,
    }
}

/// What a report on the next run shows.
pub struct Report {
    pub base_url: String,
    pub model: String,
    pub label: String,
    pub config: String,
    pub also: Option<String>,
    /// The variables of the provider's own key.
    pub key_env: Vec<String>,
    /// All the variables the key is looked for in.
    pub key_vars: Vec<String>,
    pub source: Option<KeySource>,
    /// The variables that are set in this shell and outrank the saved values.
    pub shadowed: Vec<String>,
    pub codex: bool,
    /// The variable that all providers share.
    pub shared_var: String,
}

/// A report as JSON.
pub open spec fn report_value(p: Report) -> JsonV {
    JsonV::Obj(
        Seq::empty().push(("ok"@, JsonV::Bool(true))).push(("model"@, JsonV::Str(p.model@))).push(
            ("provider"@, JsonV::Str(p.label@)),
        ).push(("base_url"@, JsonV::Str(p.base_url@))).push(
            ("config"@, JsonV::Str(p.config@)),
        ).push(("also"@, opt_value(opt(p.also)))).push(
            ("key_env"@, text_array(texts(p.key_env@))),
        ).push(("has_key"@, JsonV::Bool(p.source is Some))).push(
            ("key_source"@, JsonV::Str(source_word(p.source))),
        ).push(("shadowed_by_env"@, text_array(texts(p.shadowed@)))),
    )
}

/// A report as JSON.
pub fn report_json(p: &Report) -> (r: Json)
    ensures
        r@ == report_value(*p),
{
    let word = match p.source {
        Some(KeySource::Provider) => "provider",
        Some(KeySource::Shared) => "shared",
        Some(KeySource::Local) => "local",
        None => "none",
    };
    Fields::new().with("ok", Json::Bool(true)).text("model", p.model.as_str()).text(
        "provider",
        p.label.as_str(),
    ).text("base_url", p.base_url.as_str()).text("config", p.config.as_str()).with(
        "also",
        Json::opt_text(&p.also),
    ).with("key_env", Json::texts(&p.key_env)).with("has_key", Json::Bool(p.source.is_some())).text(
        "key_source",
        word,
    ).with("shadowed_by_env", Json::texts(&p.shadowed)).json()
}

/// The lines of a report.
pub open spec fn report_text(p: Report) -> Seq<Seq<char>> {
    let head = Seq::empty().push("provider "@ + p.label@).push("model    "@ + p.model@).push(
        "saved to "@ + p.config@,
    );
    match opt(p.also) {
        Some(a) => head.push("         "@ + a + " (this repo pinned it too)"@),
        None => head,
    }
}

/// What is noted about the key of an endpoint.
pub open spec fn key_note(p: Report) -> Option<Seq<char>> {
    match p.source {
        None => if p.codex {
            Some("note: not signed in to ChatGPT; run `aster login codex`"@)
        } else {
            Some(
                "note: no key for this endpoint; set "@ + joined(texts(p.key_vars@), " or "@)
                    + ", or run `aster init`"@,
            )
        },
        Some(KeySource::Shared) => if p.key_env@.len() > 0 {
            Some(
                "note: no "@ + joined(texts(p.key_env@), " or "@) + " set; using "@ + p.shared_var@
                    + " for this endpoint"@,
            )
        } else {
            None
        },
        Some(_) => None,
    }
}

/// What is noted about the shell variables that outrank the saved values.
pub open spec fn shadow_notes(v: Seq<Seq<char>>) -> Seq<Seq<char>> {
    Seq::new(
        v.len(),
        |i: int| "note: "@ + v[i] + " is set in this shell and outranks the saved value"@,
    )
}

/// The lines of a report, and its notes.
pub fn report(p: &Report) -> (r: (Vec<String>, Vec<String>))
    ensures
        texts(r.0@) == report_text(*p),
        texts(r.1@) == (match key_note(*p) {
            Some(n) => Seq::empty().push(n),
            None => Seq::empty(),
        }) + shadow_notes(texts(p.shadowed@)),
{
    let mut out: Vec<String> = Vec::new();
    assert(texts(out@) =~= Seq::empty());
    line(&mut out, cat2("provider ", p.label.as_str()));
    line(&mut out, cat2("model    ", p.model.as_str()));
    line(&mut out, cat2("saved to ", p.config.as_str()));
    match &p.also {
        Some(a) => line(
            &mut out,
            cat3("         ", a.as_str(), " (this repo pinned it too)"),
        ),
        None => {},
    }
    let mut notes: Vec<String> = Vec::new();
    assert(texts(notes@) =~= Seq::empty());
    match p.source {
        None => if p.codex {
            line(
                &mut notes,
                "note: not signed in to ChatGPT; run `aster login codex`".to_owned(),
            );
        } else {
            line(
                &mut notes,
                cat3(
                    "note: no key for this endpoint; set ",
                    join(&p.key_vars, " or ").as_str(),
                    ", or run `aster init`",
                ),
            );
        },
        Some(KeySource::Shared) => if p.key_env.len() > 0 {
            line(
                &mut notes,
                cat5(
                    "note: no ",
                    join(&p.key_env, " or ").as_str(),
                    " set; using ",
                    p.shared_var.as_str(),
                    " for this endpoint",
                ),
            );
        },
        Some(_) => {},
    }
    let ghost head = texts(notes@);
    let ghost all = texts(p.shadowed@);
    let mut i: usize = 0;
    assert(head + shadow_notes(all).take(0) =~= head);
    while i < p.shadowed.len()
        invariant
            i <= p.shadowed@.len(),
            all == texts(p.shadowed@),
            texts(notes@) == head + shadow_notes(all).take(i as int),
        decreases p.shadowed.len() - i,
    {
        line(
            &mut notes,
            cat3(
                "note: ",
                p.shadowed[i].as_str(),
                " is set in this shell and outranks the saved value",
            ),
        );
        i += 1;
        assert(texts(notes@) =~= head + shadow_notes(all).take(i as int));
    }
    assert(shadow_notes(all).take(all.len() as int) =~= shadow_notes(all));
    (out, notes)
}

/// The sign-ins on this machine, for setup to offer. `auth` is the login that
/// was loaded, where the home directory is known and holds one.
pub fn found_logins(auth: &Option<CodexAuth>) -> (r: Vec<Login>)
    ensures
        match *auth {
            Some(a) => r@.len() == 1 && is_codex_login(r@[0], a),
            None => r@.len() == 0,
        },
{
    found(auth)
}

/// What a client for a named endpoint and model is made with, or what is
/// missing.
pub fn client_for(
    review: &Review,
    env: &ProviderEnv,
    base_url: &str,
    model: &str,
    key: Option<String>,
    effort: Effort,
    rows: &Vec<Provider>,
    codex: bool,
    key_vars: &Vec<String>,
) -> (r: Result<LlmConfig, MissingCredentials>)
    ensures
        match key {
            None => r is Err && setup_of(
                r->Err_0.setup,
                base_url@,
                rows@,
                codex,
                texts(key_vars@),
            ),
            Some(k) => {
                &&& r is Ok
                &&& r->Ok_0.api_key@ == k@
                &&& r->Ok_0.base_url@ == base_url@
                &&& r->Ok_0.model@ == model@
                &&& r->Ok_0.effort == effort
                &&& r->Ok_0.web_search == searches(*env, review.web_search)
            },
        },
        settled_on(
            r,
            base_url@,
            model@,
            opt(key),
            effort,
            searches(*env, review.web_search),
            rows@,
            codex,
            texts(key_vars@),
        ),
{
    match key {
        None => Err(
            MissingCredentials { setup: Setup::for_endpoint(base_url, rows, codex, key_vars) },
        ),
        Some(api_key) => Ok(
            LlmConfig {
                api_key,
                base_url: base_url.to_owned(),
                model: model.to_owned(),
                effort,
                web_search: resolve_web_search(review, env),
            },
        ),
    }
}

/// What the router came to.
pub enum Routed {
    /// It picked a model, from its cache or not; `figures` is what is shown of
    /// the pick.
    Pick { model: String, from_cache: bool, figures: String },
    Failed(String),
}

/// The model that is used, given what the router came to, and what is said.
pub open spec fn routed_model(routed: Routed) -> (Seq<char>, Seq<char>) {
    match routed {
        Routed::Pick { model, from_cache, figures } => if model@ != DEFAULT_MODEL@ || from_cache {
            (
                model@,
                "note: router picked "@ + model@ + " ("@ + figures@ + (if from_cache {
                    ", cached)"@
                } else {
                    ")"@
                }),
            )
        } else {
            (
                model@,
                "note: model router unavailable, using the default "@ + model@
                    + "; set a pinned model to avoid this"@,
            )
        },
        Routed::Failed(e) => (
            DEFAULT_MODEL@,
            "note: model router failed ("@ + e@ + "); using "@ + DEFAULT_MODEL@,
        ),
    }
}

/// The model that is used, given what the router came to, and what is said.
pub fn resolve_auto_model(routed: &Routed) -> (r: (String, String))
    ensures
        (r.0@, r.1@) == routed_model(*routed),
{
    match routed {
        Routed::Pick { model, from_cache, figures } => {
            if *from_cache || !same(model.as_str(), DEFAULT_MODEL) {
                let tail = if *from_cache { ", cached)" } else { ")" };
                return (
                    model.clone(),
                    cat5("note: router picked ", model.as_str(), " (", figures.as_str(), tail),
                );
            }
            (
                model.clone(),
                cat3(
                    "note: model router unavailable, using the default ",
                    model.as_str(),
                    "; set a pinned model to avoid this",
                ),
            )
        },
        Routed::Failed(e) => (
            DEFAULT_MODEL.to_owned(),
            cat4("note: model router failed (", e.as_str(), "); using ", DEFAULT_MODEL),
        ),
    }
}

/// What is said of a router tier that is not one.
pub fn ignored_tier(raw: &str) -> (r: String)
    ensures
        r@ == "note: ignoring ASTER_ROUTER_TIER="@ + raw@
            + "; expected cheap, balanced, or strong"@,
{
    cat3("note: ignoring ASTER_ROUTER_TIER=", raw, "; expected cheap, balanced, or strong")
}

} // verus!
