//! What the setup asks, and what the answers come to.

use vstd::prelude::*;

use crate::catalog::{by_id, first_row, Provider};
use crate::config::key::WebProvider;
use crate::login::logins::Login;
use crate::setup::{in_use, Current};
use crate::text::affix::{is_blank, trim, trimmed};
use crate::text::number::{dec, decimal_usize};
use crate::text::{cat2, cat3, cat5, contains_text, opt, pairs, same, texts};

verus! {

/// A menu: the row the cursor starts on, and each row's label and hint.
pub struct Menu {
    pub at: usize,
    pub rows: Vec<(String, String)>,
}

/// The first number below `n` for which something holds.
pub open spec fn first_index(n: nat, p: spec_fn(int) -> bool) -> Option<int>
    decreases n,
{
    if n == 0 {
        None
    } else {
        match first_index((n - 1) as nat, p) {
            Some(i) => Some(i),
            None => if p(n - 1) {
                Some(n - 1)
            } else {
                None
            },
        }
    }
}

/// A number, or zero.
pub open spec fn or_zero(i: Option<int>) -> int {
    match i {
        Some(n) => n,
        None => 0,
    }
}

/// The parts of the setup that can be asked for.
#[derive(Clone, Copy, PartialEq, Eq, Structural, Debug)]
pub enum Part {
    Provider,
    WebTools,
}

/// What the wizard sets up.
#[derive(Clone, Copy, PartialEq, Eq, Structural, Debug)]
pub struct Asked {
    pub provider: bool,
    pub web: bool,
}

/// What the wizard sets up. A first run has only the provider to set up, so
/// nothing is asked; later `picked` says what was ticked, none where the
/// question was dismissed.
pub fn wizard(configured: bool, picked: &Option<Vec<Part>>) -> (r: Option<Asked>)
    ensures
        !configured ==> r == Some(Asked { provider: true, web: false }),
        configured ==> match *picked {
            Some(v) => r is Some && r->Some_0.provider == v@.contains(Part::Provider)
                && r->Some_0.web == v@.contains(Part::WebTools),
            None => r is None,
        },
{
    if !configured {
        return Some(Asked { provider: true, web: false });
    }
    let v = match picked {
        Some(v) => v,
        None => return None,
    };
    let mut asked = Asked { provider: false, web: false };
    let mut i: usize = 0;
    while i < v.len()
        invariant
            i <= v@.len(),
            asked.provider == (exists|k: int| 0 <= k < i && #[trigger] v@[k] == Part::Provider),
            asked.web == (exists|k: int| 0 <= k < i && #[trigger] v@[k] == Part::WebTools),
        decreases v.len() - i,
    {
        assert(v@[i as int] == Part::Provider || v@[i as int] == Part::WebTools);
        match v[i] {
            Part::Provider => {
                asked = Asked { provider: true, web: asked.web };
            },
            Part::WebTools => {
                asked = Asked { provider: asked.provider, web: true };
            },
        }
        i += 1;
    }
    Some(asked)
}

/// An endpoint that was set up.
pub struct Chosen {
    pub base_url: String,
    pub model: String,
    pub api_key: Option<String>,
    pub key_var: String,
}

/// An endpoint that was set up, with the model's padding gone.
pub fn chosen(base_url: &str, model: &str, api_key: Option<String>, key_var: &str) -> (r: Chosen)
    ensures
        r.base_url@ == base_url@,
        r.model@ == trimmed(model@),
        r.api_key == api_key,
        r.key_var@ == key_var@,
{
    Chosen {
        base_url: base_url.to_owned(),
        model: trim(model),
        api_key,
        key_var: key_var.to_owned(),
    }
}

/// Everything that the wizard leaves to be written.
pub struct Configured {
    pub base_url: String,
    pub model: String,
    pub api_key: Option<String>,
    pub key_var: Option<String>,
    pub web_keys: Vec<(String, String)>,
}

/// Everything that the wizard leaves to be written. Leaving the provider
/// unticked must not rewrite the endpoint already saved.
pub fn settle(provider: Option<Chosen>, web_keys: Vec<(String, String)>) -> (r: Configured)
    ensures
        r.web_keys == web_keys,
        match provider {
            Some(c) => r.base_url == c.base_url && r.model == c.model && r.api_key == c.api_key
                && opt(r.key_var) == Some(c.key_var@),
            None => r.base_url@.len() == 0 && r.model@.len() == 0 && r.api_key is None
                && r.key_var is None,
        },
{
    match provider {
        Some(c) => Configured {
            base_url: c.base_url,
            model: c.model,
            api_key: c.api_key,
            key_var: Some(c.key_var),
            web_keys,
        },
        None => Configured {
            base_url: String::new(),
            model: String::new(),
            api_key: None,
            key_var: None,
            web_keys,
        },
    }
}

/// The web keys that are stored: those that are not blank, without padding.
pub open spec fn kept_keys(v: Seq<(Seq<char>, Seq<char>)>) -> Seq<(Seq<char>, Seq<char>)>
    decreases v.len(),
{
    if v.len() == 0 {
        Seq::empty()
    } else {
        let head = kept_keys(v.drop_last());
        if trimmed(v.last().1).len() > 0 {
            head.push((v.last().0, trimmed(v.last().1)))
        } else {
            head
        }
    }
}

/// The keys that are stored: the endpoint's first, then the web tools'.
pub open spec fn stored_keys(c: Configured) -> Seq<(Seq<char>, Seq<char>)> {
    let first = match (opt(c.api_key), opt(c.key_var)) {
        (Some(key), Some(var)) => Seq::empty().push((var, trimmed(key))),
        _ => Seq::empty(),
    };
    first + kept_keys(pairs(c.web_keys@))
}

/// The keys that are stored: the endpoint's first, then the web tools'.
pub fn keys_to_store(c: &Configured) -> (r: Vec<(String, String)>)
    ensures
        pairs(r@) == stored_keys(*c),
{
    let mut out: Vec<(String, String)> = Vec::new();
    assert(pairs(out@) =~= Seq::empty());
    match (&c.api_key, &c.key_var) {
        (Some(key), Some(var)) => {
            let pair = (var.clone(), trim(key.as_str()));
            let ghost m = (pair.0@, pair.1@);
            out.push(pair);
            assert(pairs(out@) =~= Seq::empty().push(m));
        },
        _ => {},
    }
    let ghost first = pairs(out@);
    let ghost all = pairs(c.web_keys@);
    let mut i: usize = 0;
    assert(first + kept_keys(all.take(0)) =~= first);
    while i < c.web_keys.len()
        invariant
            i <= c.web_keys@.len(),
            all == pairs(c.web_keys@),
            pairs(out@) == first + kept_keys(all.take(i as int)),
        decreases c.web_keys.len() - i,
    {
        proof {
            assert(all.take(i + 1).drop_last() =~= all.take(i as int));
            assert(all.take(i + 1).last() == all[i as int]);
        }
        let ghost had = pairs(out@);
        let key = trim(c.web_keys[i].1.as_str());
        if !key.as_str().is_empty() {
            let ghost m = (all[i as int].0, key@);
            out.push((c.web_keys[i].0.clone(), key));
            assert(pairs(out@) =~= had.push(m));
            assert(had.push(m) =~= first + kept_keys(all.take(i as int)).push(m));
        }
        i += 1;
    }
    assert(all.take(all.len() as int) =~= all);
    out
}

/// What is shown beside something that takes a key.
pub open spec fn hint_of(set: bool, what: Seq<char>) -> Seq<char> {
    if set {
        what + " · key set"@
    } else {
        what
    }
}

/// What is shown beside something that takes a key.
pub fn key_hint(set: bool, what: &str) -> (r: String)
    ensures
        r@ == hint_of(set, what@),
{
    if set {
        cat2(what, " · key set")
    } else {
        what.to_owned()
    }
}

/// How a key is asked for.
pub open spec fn prompt_of(what: Seq<char>, set: bool) -> Seq<char> {
    if set {
        what + " (set · enter to keep, or type a new one)"@
    } else {
        what + " (enter to skip)"@
    }
}

/// How a key is asked for.
pub fn key_prompt(what: &str, set: bool) -> (r: String)
    ensures
        r@ == prompt_of(what@, set),
{
    if set {
        cat2(what, " (set · enter to keep, or type a new one)")
    } else {
        cat2(what, " (enter to skip)")
    }
}

/// What a web provider's key is called: by its variable where it takes several.
pub open spec fn web_label(provider: Seq<char>, var: Seq<char>, vars: int) -> Seq<char> {
    if vars == 1 {
        provider + " API key"@
    } else {
        provider + " · "@ + var
    }
}

/// What a web provider's key is called: by its variable where it takes several.
pub fn web_prompt_label(provider: &str, var: &str, vars: usize) -> (r: String)
    ensures
        r@ == web_label(provider@, var@, vars as int),
{
    if vars == 1 {
        cat2(provider, " API key")
    } else {
        cat3(provider, " · ", var)
    }
}

/// How many of some flags are set.
pub open spec fn count_set(v: Seq<bool>) -> nat
    decreases v.len(),
{
    if v.len() == 0 {
        0
    } else if v.last() {
        count_set(v.drop_last()) + 1
    } else {
        count_set(v.drop_last())
    }
}

/// What is shown beside the web tools; `set` says of each provider whether its
/// keys are all there.
pub fn web_hint(set: &Vec<bool>) -> (r: String)
    ensures
        r@ == (if count_set(set@) == 0 {
            "search and read the web"@
        } else {
            "search and read the web · "@ + dec(count_set(set@)) + " of "@ + dec(set@.len())
                + " set"@
        }),
{
    let mut n: usize = 0;
    let mut i: usize = 0;
    while i < set.len()
        invariant
            n <= i <= set@.len(),
            n == count_set(set@.take(i as int)),
        decreases set.len() - i,
    {
        proof {
            assert(set@.take(i + 1).drop_last() =~= set@.take(i as int));
            assert(set@.take(i + 1).last() == set@[i as int]);
        }
        if set[i] {
            n += 1;
        }
        i += 1;
    }
    assert(set@.take(set@.len() as int) =~= set@);
    if n == 0 {
        return "search and read the web".to_owned();
    }
    cat5(
        "search and read the web · ",
        decimal_usize(n).as_str(),
        " of ",
        decimal_usize(set.len()).as_str(),
        " set",
    )
}

/// A web provider as a row of the menu.
pub open spec fn web_row(p: WebProvider, set: bool) -> (Seq<char>, Seq<char>) {
    (
        p.name@,
        hint_of(
            set,
            if p.vars@.len() > 0 {
                p.vars@[0].1@
            } else {
                Seq::empty()
            },
        ),
    )
}

/// The rows of the web tools; `set` says of each provider whether its keys are
/// all there.
pub fn web_menu(providers: &Vec<WebProvider>, set: &Vec<bool>) -> (r: Vec<(String, String)>)
    requires
        set@.len() == providers@.len(),
    ensures
        pairs(r@) == Seq::new(providers@.len(), |i: int| web_row(providers@[i], set@[i])),
{
    let mut out: Vec<(String, String)> = Vec::new();
    let mut i: usize = 0;
    while i < providers.len()
        invariant
            i <= providers@.len(),
            set@.len() == providers@.len(),
            out@.len() == i,
            forall|k: int|
                0 <= k < i ==> (#[trigger] out@[k].0@, out@[k].1@) == web_row(
                    providers@[k],
                    set@[k],
                ),
        decreases providers.len() - i,
    {
        let p = &providers[i];
        let buys = if p.vars.len() > 0 {
            p.vars[0].1.clone()
        } else {
            String::new()
        };
        assert(p.vars@.len() == 0 ==> buys@ =~= Seq::empty());
        out.push((p.name.clone(), key_hint(set[i], buys.as_str())));
        i += 1;
    }
    assert(pairs(out@) =~= Seq::new(providers@.len(), |i: int| web_row(providers@[i], set@[i])));
    out
}

/// What is asked of a web provider: each variable, and how its key is asked for.
pub fn web_setup(p: &WebProvider, set: &Vec<bool>) -> (r: Vec<(String, String)>)
    requires
        set@.len() == p.vars@.len(),
    ensures
        pairs(r@) == Seq::new(
            p.vars@.len(),
            |i: int|
                (
                    p.vars@[i].0@,
                    prompt_of(web_label(p.name@, p.vars@[i].0@, p.vars@.len() as int), set@[i]),
                ),
        ),
{
    let mut out: Vec<(String, String)> = Vec::new();
    let count: usize = p.vars.len();
    let mut i: usize = 0;
    while i < p.vars.len()
        invariant
            i <= p.vars@.len(),
            count == p.vars@.len(),
            set@.len() == p.vars@.len(),
            out@.len() == i,
            forall|k: int|
                0 <= k < i ==> #[trigger] out@[k].0@ == p.vars@[k].0@ && out@[k].1@ == prompt_of(
                    web_label(p.name@, p.vars@[k].0@, p.vars@.len() as int),
                    set@[k],
                ),
        decreases p.vars.len() - i,
    {
        let what = web_prompt_label(p.name.as_str(), p.vars[i].0.as_str(), count);
        out.push((p.vars[i].0.clone(), key_prompt(what.as_str(), set[i])));
        i += 1;
    }
    assert(pairs(out@) =~= Seq::new(
        p.vars@.len(),
        |i: int|
            (
                p.vars@[i].0@,
                prompt_of(web_label(p.name@, p.vars@[i].0@, p.vars@.len() as int), set@[i]),
            ),
    ));
    out
}

/// How an endpoint is connected to.
#[derive(Clone, Copy, PartialEq, Eq, Structural, Debug)]
pub enum Route {
    SignIn,
    Key,
    Local,
}

/// Where the question of how to connect starts; `loopback` says whether the
/// endpoint in use is on this machine.
pub fn route_step(configured: bool, loopback: bool) -> (r: Route)
    ensures
        r == (if !configured {
            Route::SignIn
        } else if loopback {
            Route::Local
        } else {
            Route::Key
        }),
{
    if !configured {
        Route::SignIn
    } else if loopback {
        Route::Local
    } else {
        Route::Key
    }
}

/// How a route is offered: its label and hint.
pub fn route_row(route: Route) -> (r: (&'static str, &'static str))
    ensures
        (r.0@, r.1@) == (match route {
            Route::SignIn => (
                "Sign in with a browser"@,
                "OpenRouter, ChatGPT, or Z.ai · no key to manage"@,
            ),
            Route::Key => (
                "I have an API key"@,
                "any provider in the catalog, or your own endpoint"@,
            ),
            Route::Local => (
                "A model on this machine"@,
                "Ollama, LM Studio, vLLM, llama.cpp · no account"@,
            ),
        }),
{
    match route {
        Route::SignIn => (
            "Sign in with a browser",
            "OpenRouter, ChatGPT, or Z.ai · no key to manage",
        ),
        Route::Key => (
            "I have an API key",
            "any provider in the catalog, or your own endpoint",
        ),
        Route::Local => (
            "A model on this machine",
            "Ollama, LM Studio, vLLM, llama.cpp · no account",
        ),
    }
}

/// What is said of a sign-in that was found.
pub fn found_line(login: &Login) -> (r: String)
    ensures
        r@ == "Found "@ + login.name@ + " on this computer, signed in"@ + (match opt(
            login.account,
        ) {
            Some(a) => " as "@ + a,
            None => Seq::empty(),
        }) + (". Choose \"Sign in with a browser\", then "@ + login.name@ + ", to use it."@),
{
    let account = match &login.account {
        Some(a) => cat2(" as ", a.as_str()),
        None => String::new(),
    };
    assert(opt(login.account) is None ==> account@ =~= Seq::empty());
    let tail = cat3(
        ". Choose \"Sign in with a browser\", then ",
        login.name.as_str(),
        ", to use it.",
    );
    cat5(
        "Found ",
        login.name.as_str(),
        " on this computer, signed in",
        account.as_str(),
        tail.as_str(),
    )
}

/// The providers whose sign-in can be driven: id, label and hint.
pub open spec fn sign_in_entry(i: int) -> (Seq<char>, Seq<char>, Seq<char>) {
    if i == 0 {
        ("openrouter"@, "OpenRouter"@, "one account, most models"@)
    } else if i == 1 {
        ("codex"@, "ChatGPT"@, "use a Plus or Pro subscription"@)
    } else if i == 2 {
        ("zai_coding"@, "Z.ai"@, "the GLM coding plan"@)
    } else {
        ("cloudflare"@, "Cloudflare"@, "Workers AI on your account"@)
    }
}

/// How many providers have a sign-in that can be driven.
pub const SIGN_INS: usize = 4;

fn sign_in_at(i: usize) -> (r: (&'static str, &'static str, &'static str))
    requires
        i < SIGN_INS,
    ensures
        (r.0@, r.1@, r.2@) == sign_in_entry(i as int),
{
    if i == 0 {
        ("openrouter", "OpenRouter", "one account, most models")
    } else if i == 1 {
        ("codex", "ChatGPT", "use a Plus or Pro subscription")
    } else if i == 2 {
        ("zai_coding", "Z.ai", "the GLM coding plan")
    } else {
        ("cloudflare", "Cloudflare", "Workers AI on your account")
    }
}

/// The first sign-in of a provider among those that were found.
pub open spec fn login_of(logins: Seq<Login>, id: Seq<char>) -> Option<int> {
    first_index(logins.len(), |i: int| logins[i].provider@ == id)
}

fn find_login(logins: &Vec<Login>, id: &str) -> (r: Option<usize>)
    ensures
        match r {
            Some(i) => i < logins@.len() && login_of(logins@, id@) == Some(i as int),
            None => login_of(logins@, id@) is None,
        },
{
    let ghost p = |i: int| logins@[i].provider@ == id@;
    let mut found: Option<usize> = None;
    let mut i: usize = 0;
    while i < logins.len()
        invariant
            i <= logins@.len(),
            p == (|i: int| logins@[i].provider@ == id@),
            match found {
                Some(k) => k < i && first_index(i as nat, p) == Some(k as int),
                None => first_index(i as nat, p) is None,
            },
        decreases logins.len() - i,
    {
        if found.is_none() && same(logins[i].provider.as_str(), id) {
            found = Some(i);
        }
        i += 1;
    }
    found
}

/// What is shown beside a sign-in.
pub open spec fn sign_in_hint(logins: Seq<Login>, i: int) -> Seq<char> {
    match login_of(logins, sign_in_entry(i).0) {
        Some(k) => match opt(logins[k].account) {
            Some(a) => "already signed in as "@ + a,
            None => "already signed in on this computer"@,
        },
        None => sign_in_entry(i).2,
    }
}

/// A sign-in as a row of the menu.
pub open spec fn sign_in_row(logins: Seq<Login>, i: int) -> (Seq<char>, Seq<char>) {
    (sign_in_entry(i).1, sign_in_hint(logins, i))
}

/// The menu of sign-ins. The cursor starts on the first that is on this computer
/// already, else on the first.
pub fn sign_in_menu(logins: &Vec<Login>) -> (r: Menu)
    ensures
        r.at == or_zero(
            first_index(
                SIGN_INS as nat,
                |i: int| login_of(logins@, sign_in_entry(i).0) is Some,
            ),
        ),
        pairs(r.rows@) == Seq::new(SIGN_INS as nat, |i: int| sign_in_row(logins@, i)),
{
    let ghost p = |i: int| login_of(logins@, sign_in_entry(i).0) is Some;
    let mut at: Option<usize> = None;
    let mut rows: Vec<(String, String)> = Vec::new();
    let mut i: usize = 0;
    while i < SIGN_INS
        invariant
            i <= SIGN_INS,
            p == (|i: int| login_of(logins@, sign_in_entry(i).0) is Some),
            match at {
                Some(k) => first_index(i as nat, p) == Some(k as int),
                None => first_index(i as nat, p) is None,
            },
            pairs(rows@) == Seq::new(i as nat, |k: int| sign_in_row(logins@, k)),
        decreases SIGN_INS - i,
    {
        let (id, name, hint) = sign_in_at(i);
        let shown = match find_login(logins, id) {
            Some(k) => {
                if at.is_none() {
                    at = Some(i);
                }
                match &logins[k].account {
                    Some(a) => cat2("already signed in as ", a.as_str()),
                    None => "already signed in on this computer".to_owned(),
                }
            },
            None => hint.to_owned(),
        };
        let ghost had = pairs(rows@);
        let ghost row = (name@, shown@);
        rows.push((name.to_owned(), shown));
        assert(pairs(rows@) =~= had.push(row));
        assert(row == sign_in_row(logins@, i as int));
        assert(had.push(row) =~= Seq::new((i + 1) as nat, |k: int| sign_in_row(logins@, k)));
        i += 1;
    }
    let at: usize = match at {
        Some(k) => k,
        None => 0,
    };
    Menu { at, rows }
}

/// What signing in takes.
pub enum SignIn {
    /// Nothing: the sign-in is there. This is what is said.
    Here { said: String },
    OpenRouter,
    Zai,
    Cloudflare,
    /// The Codex login. This is what is said once it is done.
    Codex { said: String },
}

/// What signing in to a provider takes.
pub fn sign_in(i: usize, logins: &Vec<Login>) -> (r: SignIn)
    requires
        i < SIGN_INS,
    ensures
        login_of(logins@, sign_in_entry(i as int).0) is Some ==> (r matches SignIn::Here { said }
            && said@ == "Using the "@ + sign_in_entry(i as int).1
            + " sign-in already on this computer."@),
        login_of(logins@, sign_in_entry(i as int).0) is None ==> {
            &&& i == 0 ==> r is OpenRouter
            &&& i == 1 ==> (r matches SignIn::Codex { said } && said@ == "Signed in to ChatGPT."@)
            &&& i == 2 ==> r is Zai
            &&& i == 3 ==> r is Cloudflare
        },
{
    let (id, name, _) = sign_in_at(i);
    if find_login(logins, id).is_some() {
        return SignIn::Here {
            said: cat3("Using the ", name, " sign-in already on this computer."),
        };
    }
    if i == 0 {
        SignIn::OpenRouter
    } else if i == 1 {
        SignIn::Codex { said: "Signed in to ChatGPT.".to_owned() }
    } else if i == 2 {
        SignIn::Zai
    } else {
        SignIn::Cloudflare
    }
}

/// The row of the catalog that a sign-in is for, and the address it then uses.
/// `signed_in` is the address that the sign-in itself gave, where it gave one.
pub fn sign_in_endpoint(
    providers: &Vec<Provider>,
    i: usize,
    signed_in: &Option<String>,
) -> (r: Result<(usize, String), String>)
    requires
        i < SIGN_INS,
    ensures
        match first_row(providers@, |p: Provider| p.id@ == sign_in_entry(i as int).0) {
            Some(k) => r is Ok && r->Ok_0.0 == k && r->Ok_0.1@ == (match opt(*signed_in) {
                Some(u) => u,
                None => providers@[k].base_url@,
            }),
            None => r is Err && r->Err_0@ == "providers.json has no "@ + sign_in_entry(i as int).0
                + " row to sign in against"@,
        },
{
    let (id, _, _) = sign_in_at(i);
    let ghost want = sign_in_entry(i as int).0;
    proof {
        assert((|p: Provider| p.id@ == id@) =~= (|p: Provider| p.id@ == want));
    }
    match by_id(providers, id) {
        Some(k) => {
            let url = match signed_in {
                Some(u) => u.clone(),
                None => providers[k].base_url.clone(),
            };
            Ok((k, url))
        },
        None => Err(cat3("providers.json has no ", id, " row to sign in against")),
    }
}

/// The ids of servers one runs oneself, in the order they are probed.
pub open spec fn local_id(i: int) -> Seq<char> {
    if i == 0 {
        "ollama"@
    } else if i == 1 {
        "lmstudio"@
    } else if i == 2 {
        "vllm"@
    } else {
        "llamacpp"@
    }
}

/// How many kinds of servers there are.
pub const LOCAL_KINDS: usize = 4;

/// The rows of the catalog for the first `n` kinds of servers.
pub open spec fn local_of(providers: Seq<Provider>, n: nat) -> Seq<int>
    decreases n,
{
    if n == 0 {
        Seq::empty()
    } else {
        let head = local_of(providers, (n - 1) as nat);
        match first_row(providers, |p: Provider| p.id@ == local_id(n - 1)) {
            Some(i) => head.push(i),
            None => head,
        }
    }
}

/// The rows of the catalog for servers one runs oneself.
pub fn local_rows(providers: &Vec<Provider>) -> (r: Vec<usize>)
    ensures
        r@.map_values(|i: usize| i as int) == local_of(providers@, LOCAL_KINDS as nat),
        forall|k: int| 0 <= k < r@.len() ==> #[trigger] r@[k] < providers@.len(),
{
    let mut out: Vec<usize> = Vec::new();
    let mut i: usize = 0;
    assert(out@.map_values(|i: usize| i as int) =~= local_of(providers@, 0));
    while i < LOCAL_KINDS
        invariant
            i <= LOCAL_KINDS,
            out@.map_values(|i: usize| i as int) == local_of(providers@, i as nat),
            forall|k: int| 0 <= k < out@.len() ==> #[trigger] out@[k] < providers@.len(),
        decreases LOCAL_KINDS - i,
    {
        let id = if i == 0 {
            "ollama"
        } else if i == 1 {
            "lmstudio"
        } else if i == 2 {
            "vllm"
        } else {
            "llamacpp"
        };
        let ghost had = out@.map_values(|i: usize| i as int);
        proof {
            let want = local_id(i as int);
            assert(want == id@);
            assert((|p: Provider| p.id@ == id@) =~= (|p: Provider| p.id@ == local_id(
                (i + 1) as nat - 1,
            )));
        }
        match by_id(providers, id) {
            Some(k) => {
                out.push(k);
                assert(out@.map_values(|i: usize| i as int) =~= had.push(k as int));
            },
            None => {},
        }
        i += 1;
    }
    out
}

/// What probing for servers found: `Err` where none answers.
pub fn probed(running: usize) -> (r: Result<String, &'static str>)
    ensures
        running == 0 ==> r is Err && r->Err_0@ == "nothing answering on the usual ports"@,
        running > 0 ==> r is Ok && r->Ok_0@ == dec(running as nat) + " running"@,
{
    if running == 0 {
        Err("nothing answering on the usual ports")
    } else {
        Ok(cat2(decimal_usize(running).as_str(), " running"))
    }
}

/// A server as a row of the menu.
pub open spec fn local_row(p: Provider, running: bool) -> (Seq<char>, Seq<char>) {
    (
        p.name@,
        if running {
            p.base_url@ + " · running"@
        } else {
            p.base_url@ + " · not answering"@
        },
    )
}

/// The last row of a menu of endpoints.
pub open spec fn custom_row(hint: Seq<char>) -> (Seq<char>, Seq<char>) {
    ("Custom endpoint"@, hint)
}

/// The menu of servers; `running` says of each whether it answers. The cursor
/// starts on the first that does.
pub fn local_menu(providers: &Vec<Provider>, rows: &Vec<usize>, running: &Vec<bool>) -> (r: Menu)
    requires
        running@.len() == rows@.len(),
        forall|k: int| 0 <= k < rows@.len() ==> #[trigger] rows@[k] < providers@.len(),
    ensures
        r.at == or_zero(first_index(rows@.len(), |i: int| running@[i])),
        pairs(r.rows@) == Seq::new(
            rows@.len(),
            |i: int| local_row(providers@[rows@[i] as int], running@[i]),
        ).push(custom_row("any OpenAI-compatible base URL"@)),
{
    let ghost p = |i: int| running@[i];
    let mut at: Option<usize> = None;
    let mut out: Vec<(String, String)> = Vec::new();
    let mut i: usize = 0;
    while i < rows.len()
        invariant
            i <= rows@.len(),
            running@.len() == rows@.len(),
            forall|k: int| 0 <= k < rows@.len() ==> #[trigger] rows@[k] < providers@.len(),
            p == (|i: int| running@[i]),
            match at {
                Some(k) => first_index(i as nat, p) == Some(k as int),
                None => first_index(i as nat, p) is None,
            },
            out@.len() == i,
            forall|k: int|
                0 <= k < i ==> (#[trigger] out@[k].0@, out@[k].1@) == local_row(
                    providers@[rows@[k] as int],
                    running@[k],
                ),
        decreases rows.len() - i,
    {
        let provider = &providers[rows[i]];
        if at.is_none() && running[i] {
            at = Some(i);
        }
        let tail = if running[i] { " · running" } else { " · not answering" };
        out.push((provider.name.clone(), cat2(provider.base_url.as_str(), tail)));
        i += 1;
    }
    out.push(("Custom endpoint".to_owned(), "any OpenAI-compatible base URL".to_owned()));
    assert(pairs(out@) =~= Seq::new(
        rows@.len(),
        |i: int| local_row(providers@[rows@[i] as int], running@[i]),
    ).push(custom_row("any OpenAI-compatible base URL"@)));
    let at: usize = match at {
        Some(k) => k,
        None => 0,
    };
    Menu { at, rows: out }
}

/// The address that an endpoint lists its models at.
pub fn models_url(base_url: &str) -> (r: String)
    ensures
        r@ == crate::catalog::bare(base_url@) + "/models"@,
{
    cat2(crate::text::affix::trim_end_of(base_url, "/").as_str(), "/models")
}

/// The row of an endpoint that the catalog does not have.
pub fn custom(url: &str) -> (r: Provider)
    ensures
        r.id@ == "custom"@,
        r.name@ == "Custom endpoint"@,
        r.base_url@ == url@,
        r.example_model@.len() == 0,
        r.auth@.len() == 0,
{
    Provider {
        id: "custom".to_owned(),
        name: "Custom endpoint".to_owned(),
        base_url: url.to_owned(),
        example_model: String::new(),
        auth: String::new(),
    }
}

/// Where the menu of endpoints starts: on the one in use, which is a custom one
/// where no row serves it; on the first where nothing is set up.
pub open spec fn key_start(providers: Seq<Provider>, c: Current) -> int {
    match first_index(providers.len(), |i: int| in_use(c, providers[i].base_url@)) {
        Some(i) => i,
        None => if c.configured {
            providers.len() as int
        } else {
            0
        },
    }
}

/// A provider as a row of the menu; `at` is where the cursor starts.
pub open spec fn key_row(providers: Seq<Provider>, c: Current, at: int, i: int) -> (
    Seq<char>,
    Seq<char>,
) {
    (
        providers[i].name@,
        if i == at && c.configured {
            providers[i].base_url@ + " · in use"@
        } else {
            providers[i].base_url@
        },
    )
}

/// The menu of endpoints: the catalog's rows, then one for any other.
pub fn key_menu(providers: &Vec<Provider>, current: &Current) -> (r: Menu)
    ensures
        r.at == key_start(providers@, *current),
        pairs(r.rows@) == Seq::new(
            providers@.len(),
            |i: int| key_row(providers@, *current, r.at as int, i),
        ).push(
            custom_row(
                if r.at == providers@.len() && current.configured {
                    current.base_url@ + " · in use"@
                } else {
                    "any OpenAI-compatible base URL"@
                },
            ),
        ),
{
    let ghost p = |i: int| in_use(*current, providers@[i].base_url@);
    let count: usize = providers.len();
    let mut found: Option<usize> = None;
    let mut i: usize = 0;
    while i < providers.len()
        invariant
            i <= providers@.len(),
            p == (|i: int| in_use(*current, providers@[i].base_url@)),
            match found {
                Some(k) => first_index(i as nat, p) == Some(k as int),
                None => first_index(i as nat, p) is None,
            },
        decreases providers.len() - i,
    {
        if found.is_none() && current.serves(providers[i].base_url.as_str()) {
            found = Some(i);
        }
        i += 1;
    }
    let at: usize = match found {
        Some(k) => k,
        None => if current.configured {
            count
        } else {
            0
        },
    };
    let mut rows: Vec<(String, String)> = Vec::new();
    let mut j: usize = 0;
    while j < providers.len()
        invariant
            j <= providers@.len(),
            pairs(rows@) == Seq::new(
                j as nat,
                |k: int| key_row(providers@, *current, at as int, k),
            ),
        decreases providers.len() - j,
    {
        let hint = if j == at && current.configured {
            cat2(providers[j].base_url.as_str(), " · in use")
        } else {
            providers[j].base_url.clone()
        };
        let ghost had = pairs(rows@);
        let ghost row = (providers@[j as int].name@, hint@);
        rows.push((providers[j].name.clone(), hint));
        assert(pairs(rows@) =~= had.push(row));
        assert(row == key_row(providers@, *current, at as int, j as int));
        assert(had.push(row) =~= Seq::new(
            (j + 1) as nat,
            |k: int| key_row(providers@, *current, at as int, k),
        ));
        j += 1;
    }
    let hint = if at == count && current.configured {
        cat2(current.base_url.as_str(), " · in use")
    } else {
        "any OpenAI-compatible base URL".to_owned()
    };
    let ghost before = pairs(rows@);
    let ghost last = hint@;
    rows.push(("Custom endpoint".to_owned(), hint));
    assert(pairs(rows@) =~= before.push(custom_row(last)));
    Menu { at, rows }
}

/// What was typed over a proposal: the proposal where nothing was.
pub open spec fn typed_or(typed: Seq<char>, proposal: Seq<char>) -> Seq<char> {
    if trimmed(typed).len() == 0 {
        proposal
    } else {
        trimmed(typed)
    }
}

/// What was typed over a proposal: the proposal where nothing was.
pub fn typed_over(typed: &str, proposal: &str) -> (r: String)
    ensures
        r@ == typed_or(typed@, proposal@),
{
    let t = trim(typed);
    if t.as_str().is_empty() {
        proposal.to_owned()
    } else {
        t
    }
}

/// The address that was typed for a custom endpoint; nothing typed keeps the one
/// in use, where it is a custom one.
pub fn custom_base_url(current: &Current, in_use: bool, typed: &str) -> (r: String)
    ensures
        r@ == (if in_use {
            typed_or(typed@, current.base_url@)
        } else {
            trimmed(typed@)
        }),
{
    if in_use {
        typed_over(typed, current.base_url.as_str())
    } else {
        trim(typed)
    }
}

/// How an endpoint's key is asked for.
pub fn api_key_prompt(has_key: bool, needs_key: bool, var: &str) -> (r: String)
    ensures
        r@ == (if has_key {
            "API key ("@ + var@ + " is set · enter to keep it)"@
        } else if needs_key {
            "API key, stored as "@ + var@ + " (enter to add later)"@
        } else {
            "API key (usually none · enter to skip)"@
        }),
{
    if has_key {
        cat3("API key (", var, " is set · enter to keep it)")
    } else if needs_key {
        cat3("API key, stored as ", var, " (enter to add later)")
    } else {
        "API key (usually none · enter to skip)".to_owned()
    }
}

/// The key that was typed, where one was.
pub fn typed_key(entered: &Option<String>) -> (r: Option<String>)
    ensures
        opt(r) == (match opt(*entered) {
            Some(k) => if trimmed(k).len() > 0 {
                Some(k)
            } else {
                None
            },
            None => None,
        }),
{
    match entered {
        Some(k) => if is_blank(k.as_str()) {
            None
        } else {
            Some(k.clone())
        },
        None => None,
    }
}

/// The models offered for an endpoint: the recommended ones, with the one in use
/// first where they lack it.
pub open spec fn offered(models: Seq<Seq<char>>, c: Current, base_url: Seq<char>) -> Seq<
    Seq<char>,
> {
    if in_use(c, base_url) && !models.contains(c.model@) {
        Seq::empty().push(c.model@) + models
    } else {
        models
    }
}

/// The models offered for an endpoint: the recommended ones, with the one in use
/// first where they lack it.
pub fn model_rows(models: Vec<String>, current: &Current, base_url: &str) -> (r: Vec<String>)
    ensures
        texts(r@) == offered(texts(models@), *current, base_url@),
{
    let mut rows = models;
    if current.serves(base_url) && !contains_text(&rows, current.model.as_str()) {
        let ghost had = texts(rows@);
        let first = current.model.clone();
        rows.insert(0, first);
        assert(texts(rows@) =~= Seq::empty().push(current.model@) + had);
    }
    rows
}

/// A row of a menu whose rows are told apart by a number.
pub struct Item {
    pub value: usize,
    pub label: String,
    pub hint: String,
}

/// The model of a row.
#[verifier::ext_equal]
pub struct ItemV {
    pub value: nat,
    pub label: Seq<char>,
    pub hint: Seq<char>,
}

/// The models of the rows of a menu.
pub open spec fn items_view(v: Seq<Item>) -> Seq<ItemV> {
    Seq::new(
        v.len(),
        |i: int| ItemV { value: v[i].value as nat, label: v[i].label@, hint: v[i].hint@ },
    )
}

/// One model as a row.
pub open spec fn model_item(models: Seq<Seq<char>>, c: Current, base_url: Seq<char>, i: int) -> ItemV {
    ItemV {
        value: i as nat,
        label: models[i],
        hint: if in_use(c, base_url) && models[i] == c.model@ {
            "in use"@
        } else {
            ""@
        },
    }
}

/// The menu of models: those offered, then a search where a key can ask the
/// endpoint, then typing one.
pub open spec fn model_items(models: Seq<Seq<char>>, c: Current, base_url: Seq<char>, has_key: bool) -> Seq<
    ItemV,
> {
    let rows = Seq::new(models.len(), |i: int| model_item(models, c, base_url, i));
    let search = ItemV {
        value: models.len(),
        label: "Search all models"@,
        hint: "ask this endpoint what it serves"@,
    };
    let other = ItemV {
        value: models.len() + 1,
        label: "Something else"@,
        hint: "type an id this endpoint serves"@,
    };
    if has_key {
        rows.push(search).push(other)
    } else {
        rows.push(other)
    }
}

/// The menu of models; none where there is nothing to choose from and a model
/// has to be typed.
pub fn pick_model(rows: &Vec<String>, current: &Current, base_url: &str, has_key: bool) -> (r:
    Option<Vec<Item>>)
    requires
        rows@.len() < usize::MAX,
    ensures
        rows@.len() == 0 && !has_key ==> r is None,
        rows@.len() > 0 || has_key ==> r is Some && items_view(r->Some_0@) == model_items(
            texts(rows@),
            *current,
            base_url@,
            has_key,
        ),
{
    if rows.len() == 0 && !has_key {
        return None;
    }
    let serves = current.serves(base_url);
    let ghost all = texts(rows@);
    let mut out: Vec<Item> = Vec::new();
    let mut i: usize = 0;
    while i < rows.len()
        invariant
            i <= rows@.len(),
            all == texts(rows@),
            serves == in_use(*current, base_url@),
            out@.len() == i,
            forall|k: int|
                0 <= k < i ==> #[trigger] items_view(out@)[k] == model_item(
                    all,
                    *current,
                    base_url@,
                    k,
                ),
        decreases rows.len() - i,
    {
        let hint = if serves && same(rows[i].as_str(), current.model.as_str()) {
            "in use"
        } else {
            ""
        };
        let ghost had = out@;
        out.push(Item { value: i, label: rows[i].clone(), hint: hint.to_owned() });
        proof {
            assert forall|k: int| 0 <= k < i + 1 implies #[trigger] items_view(out@)[k]
                == model_item(all, *current, base_url@, k) by {
                if k < i {
                    assert(items_view(out@)[k] == items_view(had)[k]);
                }
            }
        }
        i += 1;
    }
    let ghost models = items_view(out@);
    assert(models =~= Seq::new(all.len(), |i: int| model_item(all, *current, base_url@, i)));
    let count: usize = rows.len();
    if has_key {
        out.push(
            Item {
                value: count,
                label: "Search all models".to_owned(),
                hint: "ask this endpoint what it serves".to_owned(),
            },
        );
    }
    out.push(
        Item {
            value: count + 1,
            label: "Something else".to_owned(),
            hint: "type an id this endpoint serves".to_owned(),
        },
    );
    assert(items_view(out@) =~= model_items(all, *current, base_url@, has_key));
    Some(out)
}

/// What a choice among the models comes to.
pub enum Picked {
    Model(String),
    Search,
    Typed,
}

/// What a choice among the models comes to.
pub fn picked_model(rows: &Vec<String>, value: usize, has_key: bool) -> (r: Picked)
    ensures
        value < rows@.len() ==> (r matches Picked::Model(m) && m@ == rows@[value as int]@),
        value == rows@.len() && has_key ==> r is Search,
        value > rows@.len() || (value == rows@.len() && !has_key) ==> r is Typed,
{
    if value < rows.len() {
        Picked::Model(rows[value].clone())
    } else if value == rows.len() && has_key {
        Picked::Search
    } else {
        Picked::Typed
    }
}

/// The model that was typed, the provider's example where nothing was. Without
/// an example something has to be typed.
pub fn type_model(p: &Provider, typed: &str) -> (r: Option<String>)
    ensures
        opt(r) == (if trimmed(typed@).len() == 0 && p.example_model@.len() == 0 {
            None
        } else {
            Some(typed_or(typed@, p.example_model@))
        }),
{
    let model = typed_over(typed, p.example_model.as_str());
    if model.as_str().is_empty() {
        None
    } else {
        Some(model)
    }
}

/// What asking an endpoint for its models came to: `Err` where there is nothing
/// to choose from.
pub fn listed(models: &Result<Vec<String>, String>) -> (r: Result<String, String>)
    ensures
        match *models {
            Ok(v) => if v@.len() > 0 {
                r is Ok && r->Ok_0@ == dec(v@.len()) + " models"@
            } else {
                r is Err && r->Err_0@ == "the endpoint listed no models"@
            },
            Err(e) => r is Err && r->Err_0@ == "could not list models: "@ + e@,
        },
{
    match models {
        Ok(v) => if v.len() > 0 {
            Ok(cat2(decimal_usize(v.len()).as_str(), " models"))
        } else {
            Err("the endpoint listed no models".to_owned())
        },
        Err(e) => Err(cat2("could not list models: ", e.as_str())),
    }
}

/// A model that an endpoint listed as a row of the menu; `at` is where the
/// cursor starts.
pub open spec fn listed_row(models: Seq<String>, serves: bool, at: int, i: int) -> (
    Seq<char>,
    Seq<char>,
) {
    (
        models[i]@,
        if i == at && serves {
            "in use"@
        } else {
            ""@
        },
    )
}

/// The menu of the models that an endpoint listed. The cursor starts on the one
/// in use.
pub fn search_models(models: &Vec<String>, current: &Current, base_url: &str) -> (r: Menu)
    ensures
        r.at == or_zero(
            first_index(
                models@.len(),
                |i: int| in_use(*current, base_url@) && models@[i]@ == current.model@,
            ),
        ),
        pairs(r.rows@) == Seq::new(
            models@.len(),
            |i: int| listed_row(models@, in_use(*current, base_url@), r.at as int, i),
        ),
{
    let serves = current.serves(base_url);
    let ghost p = |i: int| in_use(*current, base_url@) && models@[i]@ == current.model@;
    let mut found: Option<usize> = None;
    let mut i: usize = 0;
    while i < models.len()
        invariant
            i <= models@.len(),
            serves == in_use(*current, base_url@),
            p == (|i: int| in_use(*current, base_url@) && models@[i]@ == current.model@),
            match found {
                Some(k) => first_index(i as nat, p) == Some(k as int),
                None => first_index(i as nat, p) is None,
            },
        decreases models.len() - i,
    {
        if found.is_none() && serves && same(models[i].as_str(), current.model.as_str()) {
            found = Some(i);
        }
        i += 1;
    }
    let at: usize = match found {
        Some(k) => k,
        None => 0,
    };
    let mut rows: Vec<(String, String)> = Vec::new();
    let mut j: usize = 0;
    while j < models.len()
        invariant
            j <= models@.len(),
            serves == in_use(*current, base_url@),
            pairs(rows@) == Seq::new(
                j as nat,
                |k: int| listed_row(models@, serves, at as int, k),
            ),
        decreases models.len() - j,
    {
        let hint = if j == at && serves { "in use" } else { "" };
        let ghost had = pairs(rows@);
        let ghost row = (models@[j as int]@, hint@);
        rows.push((models[j].clone(), hint.to_owned()));
        assert(pairs(rows@) =~= had.push(row));
        assert(row == listed_row(models@, serves, at as int, j as int));
        assert(had.push(row) =~= Seq::new(
            (j + 1) as nat,
            |k: int| listed_row(models@, serves, at as int, k),
        ));
        j += 1;
    }
    Menu { at, rows }
}

} // verus!
