//! A client: the endpoint it talks to and how its requests are made.

use vstd::prelude::*;

use crate::client::usage::UsageCounter;
use crate::text::affix::{drop_back, one_of, trim, trim_end_of, trimmed};
use crate::text::number::{parse_unsigned, parsed};
use crate::text::pieces::{join, joined};
use crate::text::{cat2, opt, pairs, same, texts};

verus! {

/// The endpoint where nothing names one.
pub const DEFAULT_BASE_URL: &'static str = "https://openrouter.ai/api/v1";

/// The model where nothing names one.
pub const DEFAULT_MODEL: &'static str = "openai/gpt-4o-mini";

/// Output cap sent with every request when nothing configures one.
pub const DEFAULT_MAX_TOKENS: u32 = 8000;

/// Seconds of silence before a request is given up.
pub const DEFAULT_TIMEOUT_SECS: u64 = 300;

/// Seconds to establish a connection.
pub const CONNECT_TIMEOUT_SECS: u64 = 10;

/// How often a request is tried again.
pub const DEFAULT_MAX_RETRIES: u32 = 3;

/// Seconds after which no request is tried again.
pub const DEFAULT_DEADLINE_SECS: u64 = 180;

/// The reasoning budget of a request.
#[derive(Clone, Copy, PartialEq, Eq, Structural, Debug)]
pub enum Effort {
    Off,
    Low,
    Medium,
    High,
    Xhigh,
    Max,
    Ultra,
}

/// The word for a reasoning budget.
pub open spec fn effort_word(e: Effort) -> Seq<char> {
    match e {
        Effort::Off => "off"@,
        Effort::Low => "low"@,
        Effort::Medium => "medium"@,
        Effort::High => "high"@,
        Effort::Xhigh => "xhigh"@,
        Effort::Max => "max"@,
        Effort::Ultra => "ultra"@,
    }
}

/// The reasoning budget a word stands for.
pub open spec fn effort_of(word: Seq<char>) -> Option<Effort> {
    if word == "off"@ {
        Some(Effort::Off)
    } else if word == "low"@ {
        Some(Effort::Low)
    } else if word == "medium"@ {
        Some(Effort::Medium)
    } else if word == "high"@ {
        Some(Effort::High)
    } else if word == "xhigh"@ {
        Some(Effort::Xhigh)
    } else if word == "max"@ {
        Some(Effort::Max)
    } else if word == "ultra"@ {
        Some(Effort::Ultra)
    } else {
        None
    }
}

impl Effort {
    /// The word for it.
    pub fn as_str(self) -> (r: &'static str)
        ensures
            r@ == effort_word(self),
    {
        match self {
            Effort::Off => "off",
            Effort::Low => "low",
            Effort::Medium => "medium",
            Effort::High => "high",
            Effort::Xhigh => "xhigh",
            Effort::Max => "max",
            Effort::Ultra => "ultra",
        }
    }

    /// The one a word stands for.
    pub fn parse(word: &str) -> (r: Option<Effort>)
        ensures
            r == effort_of(word@),
    {
        if same(word, "off") {
            Some(Effort::Off)
        } else if same(word, "low") {
            Some(Effort::Low)
        } else if same(word, "medium") {
            Some(Effort::Medium)
        } else if same(word, "high") {
            Some(Effort::High)
        } else if same(word, "xhigh") {
            Some(Effort::Xhigh)
        } else if same(word, "max") {
            Some(Effort::Max)
        } else if same(word, "ultra") {
            Some(Effort::Ultra)
        } else {
            None
        }
    }
}

/// Reading the word for a budget gives the budget back.
pub proof fn effort_words_read_back(e: Effort)
    ensures
        effort_of(effort_word(e)) == Some(e),
{
    reveal_strlit("off");
    reveal_strlit("low");
    reveal_strlit("medium");
    reveal_strlit("high");
    reveal_strlit("xhigh");
    reveal_strlit("max");
    reveal_strlit("ultra");
    assert("off"@[0] != "low"@[0]);
    assert("off"@[0] != "max"@[0]);
    assert("low"@[0] != "max"@[0]);
    assert("xhigh"@[0] != "ultra"@[0]);
    assert("off"@.len() == 3 && "medium"@.len() == 6 && "high"@.len() == 4 && "xhigh"@.len() == 5);
}

/// The environment a client reads, each variable as it is set.
pub struct ClientEnv {
    pub seed: Option<String>,
    pub max_tokens: Option<String>,
    pub effort: Option<Effort>,
    pub web_search: Option<String>,
    pub timeout_secs: Option<String>,
    pub max_retries: Option<String>,
    pub deadline_secs: Option<String>,
}

/// A number from the environment, or a default where it is not set to one.
pub open spec fn number_or(v: Option<Seq<char>>, default: u64) -> u64 {
    match v {
        Some(s) => match parsed(trimmed(s), u64::MAX as nat) {
            Some(n) => n as u64,
            None => default,
        },
        None => default,
    }
}

/// A number from the environment, or a default where it is not set to one.
pub fn env_u64(v: &Option<String>, default: u64) -> (r: u64)
    ensures
        r == number_or(opt(*v), default),
{
    match v {
        Some(s) => match parse_unsigned(trim(s.as_str()).as_str(), u64::MAX) {
            Some(n) => n,
            None => default,
        },
        None => default,
    }
}

/// True when a variable is set to a word for yes.
pub open spec fn truthy(v: Option<Seq<char>>) -> bool {
    match v {
        Some(s) => trimmed(s) == "1"@ || trimmed(s) == "true"@ || trimmed(s) == "yes"@ || trimmed(s)
            == "on"@,
        None => false,
    }
}

/// Whether a variable is set to a word for yes.
pub fn env_truthy(v: &Option<String>) -> (r: bool)
    ensures
        r == truthy(opt(*v)),
{
    match v {
        Some(s) => {
            let t = trim(s.as_str());
            let t = t.as_str();
            same(t, "1") || same(t, "true") || same(t, "yes") || same(t, "on")
        },
        None => false,
    }
}

/// The seed that is sent: zero unless set; none for `none`, `off` and what is
/// no number.
pub open spec fn seed_of(v: Option<Seq<char>>) -> Option<u64> {
    match v {
        None => Some(0),
        Some(s) => if s == "none"@ || s == "off"@ {
            None
        } else {
            match parsed(s, u64::MAX as nat) {
                Some(n) => Some(n as u64),
                None => None,
            }
        },
    }
}

fn read_seed(v: &Option<String>) -> (r: Option<u64>)
    ensures
        r == seed_of(opt(*v)),
{
    match v {
        None => Some(0),
        Some(s) => if same(s.as_str(), "none") || same(s.as_str(), "off") {
            None
        } else {
            parse_unsigned(s.as_str(), u64::MAX)
        },
    }
}

/// The output cap that is sent: the default unless set; none for `0`, `none`,
/// `off` and what is no number.
pub open spec fn max_tokens_of(v: Option<Seq<char>>) -> Option<u32> {
    match v {
        None => Some(DEFAULT_MAX_TOKENS),
        Some(s) => if s == "0"@ || s == "none"@ || s == "off"@ {
            None
        } else {
            match parsed(s, u32::MAX as nat) {
                Some(n) => Some(n as u32),
                None => None,
            }
        },
    }
}

fn read_max_tokens(v: &Option<String>) -> (r: Option<u32>)
    ensures
        r == max_tokens_of(opt(*v)),
{
    match v {
        None => Some(DEFAULT_MAX_TOKENS),
        Some(s) => if same(s.as_str(), "0") || same(s.as_str(), "none") || same(
            s.as_str(),
            "off",
        ) {
            None
        } else {
            match parse_unsigned(s.as_str(), u32::MAX as u64) {
                Some(n) => Some(n as u32),
                None => None,
            }
        },
    }
}

/// What a session has learnt about the thinking settings of its models.
pub struct Memo {
    /// The effort that a model took, for the one that was asked; none means no
    /// thinking fields at all.
    pub efforts: Vec<(String, Effort, Option<Effort>)>,
    pub strip_history: bool,
}

/// The model of what was learnt, in the order it was.
pub open spec fn learnt(v: Seq<(String, Effort, Option<Effort>)>) -> Seq<
    (Seq<char>, Effort, Option<Effort>),
> {
    Seq::new(v.len(), |i: int| (v[i].0@, v[i].1, v[i].2))
}

/// The effort for a model: what was learnt last, or the one that is asked.
pub open spec fn effort_known(
    v: Seq<(Seq<char>, Effort, Option<Effort>)>,
    model: Seq<char>,
    asked: Effort,
) -> Option<Effort>
    decreases v.len(),
{
    if v.len() == 0 {
        Some(asked)
    } else if v.last().0 == model && v.last().1 == asked {
        v.last().2
    } else {
        effort_known(v.drop_last(), model, asked)
    }
}

/// A chat client.
pub struct AiClient {
    pub base_url: String,
    pub api_key: String,
    pub model: String,
    pub usage: UsageCounter,
    pub seed: Option<u64>,
    pub max_tokens: Option<u32>,
    pub effort: Effort,
    pub web_search: bool,
    pub attribution_headers: Vec<(String, String)>,
    pub timeout_secs: u64,
    pub max_retries: u32,
    pub deadline_secs: u64,
    pub memo: Memo,
}

/// The model of a client.
#[verifier::ext_equal]
pub struct ClientV {
    pub base_url: Seq<char>,
    pub api_key: Seq<char>,
    pub model: Seq<char>,
    pub usage: UsageCounter,
    pub seed: Option<u64>,
    pub max_tokens: Option<u32>,
    pub effort: Effort,
    pub web_search: bool,
    pub attribution_headers: Seq<(Seq<char>, Seq<char>)>,
    pub timeout_secs: u64,
    pub max_retries: u32,
    pub deadline_secs: u64,
    pub efforts: Seq<(Seq<char>, Effort, Option<Effort>)>,
    pub strip_history: bool,
}

impl View for AiClient {
    type V = ClientV;

    open spec fn view(&self) -> ClientV {
        ClientV {
            base_url: self.base_url@,
            api_key: self.api_key@,
            model: self.model@,
            usage: self.usage,
            seed: self.seed,
            max_tokens: self.max_tokens,
            effort: self.effort,
            web_search: self.web_search,
            attribution_headers: pairs(self.attribution_headers@),
            timeout_secs: self.timeout_secs,
            max_retries: self.max_retries,
            deadline_secs: self.deadline_secs,
            efforts: learnt(self.memo.efforts@),
            strip_history: self.memo.strip_history,
        }
    }
}

/// A client as it is built: the endpoint without trailing slashes, and the rest
/// from the environment.
pub open spec fn built(
    base_url: Seq<char>,
    api_key: Seq<char>,
    model: Seq<char>,
    timeout_secs: u64,
    max_retries: u32,
    deadline_secs: u64,
    env: ClientEnv,
    default_effort: Effort,
) -> ClientV {
    ClientV {
        base_url: drop_back(base_url, one_of("/"@)),
        api_key,
        model,
        usage: UsageCounter {
            prompt_tokens: 0,
            completion_tokens: 0,
            requests: 0,
            estimated: false,
        },
        seed: seed_of(opt(env.seed)),
        max_tokens: max_tokens_of(opt(env.max_tokens)),
        effort: match env.effort {
            Some(e) => e,
            None => default_effort,
        },
        web_search: truthy(opt(env.web_search)),
        attribution_headers: Seq::empty(),
        timeout_secs,
        max_retries,
        deadline_secs,
        efforts: Seq::empty(),
        strip_history: false,
    }
}

/// What a client without a key is told to set.
pub open spec fn missing_key_text(codex: bool, key_vars: Seq<Seq<char>>) -> Seq<char> {
    if codex {
        "not signed in to ChatGPT; run `aster login codex`"@
    } else {
        "set "@ + joined(key_vars, " or "@)
    }
}

/// What a request carries besides its messages and tools.
pub struct RequestHead {
    pub model: String,
    pub stream: bool,
    /// The stream is asked to report its usage.
    pub include_usage: bool,
    pub seed: Option<u64>,
    pub max_tokens: Option<u32>,
    /// The web search plugin goes with the request.
    pub web_plugin: bool,
}

impl AiClient {
    fn build(
        base_url: &str,
        api_key: &str,
        model: &str,
        timeout_secs: u64,
        max_retries: u32,
        deadline_secs: u64,
        env: &ClientEnv,
        default_effort: Effort,
    ) -> (r: AiClient)
        ensures
            r@ == built(
                base_url@,
                api_key@,
                model@,
                timeout_secs,
                max_retries,
                deadline_secs,
                *env,
                default_effort,
            ),
    {
        let r = AiClient {
            base_url: trim_end_of(base_url, "/"),
            api_key: api_key.to_owned(),
            model: model.to_owned(),
            usage: UsageCounter::new(),
            seed: read_seed(&env.seed),
            max_tokens: read_max_tokens(&env.max_tokens),
            effort: match env.effort {
                Some(e) => e,
                None => default_effort,
            },
            web_search: env_truthy(&env.web_search),
            attribution_headers: Vec::new(),
            timeout_secs,
            max_retries,
            deadline_secs,
            memo: Memo { efforts: Vec::new(), strip_history: false },
        };
        assert(r@.attribution_headers =~= Seq::empty());
        assert(r@.efforts =~= Seq::empty());
        r
    }

    /// A client for an endpoint, with the default timing.
    pub fn new(
        base_url: &str,
        api_key: &str,
        model: &str,
        env: &ClientEnv,
        default_effort: Effort,
    ) -> (r: AiClient)
        ensures
            r@ == built(
                base_url@,
                api_key@,
                model@,
                DEFAULT_TIMEOUT_SECS,
                DEFAULT_MAX_RETRIES,
                DEFAULT_DEADLINE_SECS,
                *env,
                default_effort,
            ),
    {
        AiClient::build(
            base_url,
            api_key,
            model,
            DEFAULT_TIMEOUT_SECS,
            DEFAULT_MAX_RETRIES,
            DEFAULT_DEADLINE_SECS,
            env,
            default_effort,
        )
    }

    /// A client from the environment. `key` is the one that was found for the
    /// endpoint, `key_vars` the variables it is looked for in.
    pub fn from_env(
        base_url: &Option<String>,
        key: &Option<String>,
        model: &Option<String>,
        codex: bool,
        key_vars: &Vec<String>,
        env: &ClientEnv,
        default_effort: Effort,
    ) -> (r: Result<AiClient, String>)
        ensures
            match opt(*key) {
                Some(k) => r is Ok && r->Ok_0@ == built(
                    match opt(*base_url) {
                        Some(u) => u,
                        None => DEFAULT_BASE_URL@,
                    },
                    k,
                    match opt(*model) {
                        Some(m) => m,
                        None => DEFAULT_MODEL@,
                    },
                    number_or(opt(env.timeout_secs), DEFAULT_TIMEOUT_SECS),
                    (number_or(opt(env.max_retries), DEFAULT_MAX_RETRIES as u64)
                        % 0x1_0000_0000) as u32,
                    number_or(opt(env.deadline_secs), DEFAULT_DEADLINE_SECS),
                    *env,
                    default_effort,
                ),
                None => r is Err && r->Err_0@ == missing_key_text(codex, texts(key_vars@)),
            },
    {
        let url = match base_url {
            Some(u) => u.as_str(),
            None => DEFAULT_BASE_URL,
        };
        let api_key = match key {
            Some(k) => k.as_str(),
            None => {
                return Err(
                    if codex {
                        "not signed in to ChatGPT; run `aster login codex`".to_owned()
                    } else {
                        cat2("set ", join(key_vars, " or ").as_str())
                    },
                );
            },
        };
        let name = match model {
            Some(m) => m.as_str(),
            None => DEFAULT_MODEL,
        };
        let retries: u64 = env_u64(&env.max_retries, DEFAULT_MAX_RETRIES as u64);
        Ok(
            AiClient::build(
                url,
                api_key,
                name,
                env_u64(&env.timeout_secs, DEFAULT_TIMEOUT_SECS),
                (retries % 0x1_0000_0000) as u32,
                env_u64(&env.deadline_secs, DEFAULT_DEADLINE_SECS),
                env,
                default_effort,
            ),
        )
    }

    /// The client with another reasoning budget.
    pub fn with_effort(self, effort: Effort) -> (r: AiClient)
        ensures
            r@ == (ClientV { effort, ..self@ }),
    {
        let mut c = self;
        c.effort = effort;
        c
    }

    /// The client with another output cap.
    pub fn with_max_tokens(self, max_tokens: Option<u32>) -> (r: AiClient)
        ensures
            r@ == (ClientV { max_tokens, ..self@ }),
    {
        let mut c = self;
        c.max_tokens = max_tokens;
        c
    }

    /// The client with web search on or off.
    pub fn with_web_search(self, web_search: bool) -> (r: AiClient)
        ensures
            r@ == (ClientV { web_search, ..self@ }),
    {
        let mut c = self;
        c.web_search = web_search;
        c
    }

    /// The client with other attribution headers.
    pub fn with_attribution_headers(self, headers: Vec<(String, String)>) -> (r: AiClient)
        ensures
            r@ == (ClientV { attribution_headers: pairs(headers@), ..self@ }),
    {
        let mut c = self;
        c.attribution_headers = headers;
        c
    }

    /// Replace the attribution headers.
    pub fn set_attribution_headers(&mut self, headers: Vec<(String, String)>)
        ensures
            final(self)@ == (ClientV { attribution_headers: pairs(headers@), ..old(self)@ }),
    {
        self.attribution_headers = headers;
    }

    /// Change the reasoning budget.
    pub fn set_effort(&mut self, effort: Effort)
        ensures
            final(self)@ == (ClientV { effort, ..old(self)@ }),
    {
        self.effort = effort;
    }

    /// The reasoning budget.
    pub fn effort(&self) -> (r: Effort)
        ensures
            r == self@.effort,
    {
        self.effort
    }

    /// Turn web search on or off.
    pub fn set_web_search(&mut self, enabled: bool)
        ensures
            final(self)@ == (ClientV { web_search: enabled, ..old(self)@ }),
    {
        self.web_search = enabled;
    }

    /// Change the output cap.
    pub fn set_max_tokens(&mut self, max_tokens: Option<u32>)
        ensures
            final(self)@ == (ClientV { max_tokens, ..old(self)@ }),
    {
        self.max_tokens = max_tokens;
    }

    /// The output cap.
    pub fn max_tokens(&self) -> (r: Option<u32>)
        ensures
            r == self@.max_tokens,
    {
        self.max_tokens
    }

    /// Whether web search is on.
    pub fn web_search(&self) -> (r: bool)
        ensures
            r == self@.web_search,
    {
        self.web_search
    }

    /// The key.
    pub fn api_key(&self) -> (r: &str)
        ensures
            r@ == self@.api_key,
    {
        self.api_key.as_str()
    }

    /// The endpoint.
    pub fn base_url(&self) -> (r: &str)
        ensures
            r@ == self@.base_url,
    {
        self.base_url.as_str()
    }

    /// Point the client at another endpoint, with its key.
    pub fn set_endpoint(&mut self, base_url: &str, api_key: &str)
        ensures
            final(self)@ == (ClientV { base_url: base_url@, api_key: api_key@, ..old(self)@ }),
    {
        self.base_url = base_url.to_owned();
        self.api_key = api_key.to_owned();
    }

    /// The effort to ask `model` for, after any refusal that was worked around.
    pub fn effort_for(&self, model: &str) -> (r: Option<Effort>)
        ensures
            r == effort_known(self@.efforts, model@, self@.effort),
    {
        let ghost all = self@.efforts;
        let mut n: usize = self.memo.efforts.len();
        assert(all.take(n as int) =~= all);
        while n > 0
            invariant
                n <= self.memo.efforts@.len(),
                all == learnt(self.memo.efforts@),
                effort_known(all.take(n as int), model@, self.effort) == effort_known(
                    all,
                    model@,
                    self.effort,
                ),
            decreases n,
        {
            proof {
                assert(all.take(n as int).last() == all[n - 1]);
                assert(all.take(n as int).drop_last() =~= all.take(n - 1));
            }
            if self.memo.efforts[n - 1].1 == self.effort && same(
                self.memo.efforts[n - 1].0.as_str(),
                model,
            ) {
                return self.memo.efforts[n - 1].2;
            }
            n -= 1;
        }
        Some(self.effort)
    }

    /// Remember the effort that `model` took.
    pub fn learn_effort(&mut self, model: &str, effort: Option<Effort>)
        ensures
            final(self)@ == (ClientV {
                efforts: old(self)@.efforts.push((model@, old(self)@.effort, effort)),
                ..old(self)@
            }),
    {
        self.memo.efforts.push((model.to_owned(), self.effort, effort));
        assert(learnt(self.memo.efforts@) =~= old(self)@.efforts.push(
            (model@, old(self)@.effort, effort),
        ));
    }

    /// Remember that earlier thinking is to be dropped from the history.
    pub fn learn_strip(&mut self)
        ensures
            final(self)@ == (ClientV { strip_history: true, ..old(self)@ }),
    {
        self.memo.strip_history = true;
    }

    /// What a request for `model` carries.
    pub fn build_request_from(&self, model: &str, stream: bool) -> (r: RequestHead)
        ensures
            r.model@ == model@,
            r.stream == stream,
            r.include_usage == stream,
            r.seed == self@.seed,
            r.max_tokens == self@.max_tokens,
            r.web_plugin == self@.web_search,
    {
        RequestHead {
            model: model.to_owned(),
            stream,
            include_usage: stream,
            seed: self.seed,
            max_tokens: self.max_tokens,
            web_plugin: self.web_search,
        }
    }
}

/// A refusal that was worked around is paid for once: the effort that was
/// learnt is the one that is asked for from then on.
pub proof fn learnt_effort_is_used(
    v: Seq<(Seq<char>, Effort, Option<Effort>)>,
    model: Seq<char>,
    asked: Effort,
    took: Option<Effort>,
)
    ensures
        effort_known(v.push((model, asked, took)), model, asked) == took,
{
}

} // verus!
