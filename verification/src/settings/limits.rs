//! The limits of a turn and of a swarm: the environment first, then the
//! configuration, then the defaults.

use vstd::prelude::*;

use crate::settings::{Agent, Agents};
use crate::text::affix::{trim, trimmed};
use crate::text::number::{dec, dec_reads_back, parse_unsigned, parsed};
use crate::text::opt;

verus! {

/// Tool rounds of a turn on a desktop.
pub const DESKTOP_TOOL_ROUNDS: usize = 60;

/// Tool rounds of a turn on a phone, which nobody watches.
pub const PHONE_TOOL_ROUNDS: usize = 200;

/// Seconds one command may run on a desktop.
pub const DESKTOP_COMMAND_SECS: usize = 300;

/// Seconds one command may run on a phone.
pub const PHONE_COMMAND_SECS: usize = 1800;

/// Seconds one sub-agent may run on a desktop.
pub const DESKTOP_AGENT_SECS: u64 = 300;

/// Seconds one sub-agent may run on a phone.
pub const PHONE_AGENT_SECS: u64 = 1800;

/// The size at which a history is folded.
pub const COMPACT_BUDGET_CHARS: usize = 192_000;

/// The smallest size at which a history is folded.
pub const MIN_COMPACT_BUDGET: usize = 6_000;

/// How long a turn may work, how long one command may run, and which language
/// replies are written in.
pub struct Limits {
    pub max_tool_rounds: usize,
    pub command_timeout_secs: usize,
    pub compact_budget_chars: usize,
    /// None follows the language the user writes in.
    pub language: Option<String>,
}

/// The environment that limits read, each variable as it is set.
pub struct LimitsEnv {
    pub max_tool_rounds: Option<String>,
    pub command_timeout: Option<String>,
    pub compact_budget: Option<String>,
    pub language: Option<String>,
}

/// A number from the environment, no larger than `max`.
pub open spec fn env_number(v: Option<Seq<char>>, max: nat) -> Option<nat> {
    match v {
        Some(s) => parsed(s, max),
        None => None,
    }
}

fn env_usize(v: &Option<String>) -> (r: Option<usize>)
    ensures
        r is Some <==> env_number(opt(*v), usize::MAX as nat) is Some,
        r is Some ==> env_number(opt(*v), usize::MAX as nat) == Some(r.unwrap() as nat),
{
    match v {
        Some(s) => match parse_unsigned(s.as_str(), usize::MAX as u64) {
            Some(n) => Some(n as usize),
            None => None,
        },
        None => None,
    }
}

/// A limit: from the environment, else from the configuration, else the
/// default; and never below the floor.
pub open spec fn limit(
    env: Option<nat>,
    configured: Option<nat>,
    default: nat,
    floor: nat,
) -> nat {
    let n = match env {
        Some(v) => v,
        None => match configured {
            Some(v) => v,
            None => default,
        },
    };
    if n >= floor {
        n
    } else {
        floor
    }
}

/// An optional number as a natural one.
pub open spec fn as_nat(n: Option<usize>) -> Option<nat> {
    match n {
        Some(v) => Some(v as nat),
        None => None,
    }
}

fn settle(env: Option<usize>, configured: Option<usize>, default: usize, floor: usize) -> (r: usize)
    ensures
        r == limit(as_nat(env), as_nat(configured), default as nat, floor as nat),
{
    let n: usize = match env {
        Some(v) => v,
        None => match configured {
            Some(v) => v,
            None => default,
        },
    };
    if n >= floor {
        n
    } else {
        floor
    }
}

/// The language: from the environment, else from the configuration; trimmed,
/// and none when nothing is left.
pub open spec fn language_of(env: Option<Seq<char>>, configured: Option<Seq<char>>) -> Option<
    Seq<char>,
> {
    let v = if env is Some {
        env
    } else {
        configured
    };
    match v {
        Some(s) => if trimmed(s).len() > 0 {
            Some(trimmed(s))
        } else {
            None
        },
        None => None,
    }
}

/// True when `r` is what the environment, the settings and the device come to.
pub open spec fn limits_settled(r: Limits, agent: Agent, env: LimitsEnv, phone: bool) -> bool {
    &&& r.max_tool_rounds == limit(
        env_number(opt(env.max_tool_rounds), usize::MAX as nat),
        as_nat(agent.max_tool_rounds),
        if phone {
            PHONE_TOOL_ROUNDS as nat
        } else {
            DESKTOP_TOOL_ROUNDS as nat
        },
        1,
    )
    &&& r.command_timeout_secs == limit(
        env_number(opt(env.command_timeout), usize::MAX as nat),
        match agent.command_timeout_secs {
            Some(n) => Some((n as usize) as nat),
            None => None,
        },
        if phone {
            PHONE_COMMAND_SECS as nat
        } else {
            DESKTOP_COMMAND_SECS as nat
        },
        1,
    )
    &&& r.compact_budget_chars == limit(
        env_number(opt(env.compact_budget), usize::MAX as nat),
        as_nat(agent.compact_budget_chars),
        COMPACT_BUDGET_CHARS as nat,
        MIN_COMPACT_BUDGET as nat,
    )
    &&& opt(r.language) == language_of(opt(env.language), opt(agent.language))
}

/// Each limit is that of its own variable, or else its own setting, or else the
/// default of the device; none is taken for another, and none is below its
/// floor.
pub proof fn each_limit_has_its_own_setting(
    r: Limits,
    agent: Agent,
    env: LimitsEnv,
    phone: bool,
    n: usize,
)
    requires
        limits_settled(r, agent, env, phone),
    ensures
        opt(env.max_tool_rounds) == Some(dec(n as nat)) && n >= 1 ==> r.max_tool_rounds == n,
        opt(env.command_timeout) == Some(dec(n as nat)) && n >= 1 ==> r.command_timeout_secs == n,
        opt(env.compact_budget) == Some(dec(n as nat)) && n >= MIN_COMPACT_BUDGET
            ==> r.compact_budget_chars == n,
        env.max_tool_rounds is None && agent.max_tool_rounds == Some(n) && n >= 1
            ==> r.max_tool_rounds == n,
        env.compact_budget is None && agent.compact_budget_chars == Some(n) && n
            >= MIN_COMPACT_BUDGET ==> r.compact_budget_chars == n,
        env.max_tool_rounds is None && agent.max_tool_rounds is None ==> r.max_tool_rounds
            == if phone {
            PHONE_TOOL_ROUNDS
        } else {
            DESKTOP_TOOL_ROUNDS
        },
        env.command_timeout is None && agent.command_timeout_secs is None
            ==> r.command_timeout_secs == if phone {
            PHONE_COMMAND_SECS
        } else {
            DESKTOP_COMMAND_SECS
        },
        env.compact_budget is None && agent.compact_budget_chars is None ==> r.compact_budget_chars
            == COMPACT_BUDGET_CHARS,
        r.max_tool_rounds >= 1 && r.command_timeout_secs >= 1,
{
    dec_reads_back(n as nat, usize::MAX as nat);
}

impl Limits {
    /// The defaults.
    pub fn defaults(phone: bool) -> (r: Limits)
        ensures
            r.max_tool_rounds == if phone {
                PHONE_TOOL_ROUNDS
            } else {
                DESKTOP_TOOL_ROUNDS
            },
            r.command_timeout_secs == if phone {
                PHONE_COMMAND_SECS
            } else {
                DESKTOP_COMMAND_SECS
            },
            r.compact_budget_chars == COMPACT_BUDGET_CHARS,
            r.language is None,
    {
        Limits {
            max_tool_rounds: if phone { PHONE_TOOL_ROUNDS } else { DESKTOP_TOOL_ROUNDS },
            command_timeout_secs: if phone { PHONE_COMMAND_SECS } else { DESKTOP_COMMAND_SECS },
            compact_budget_chars: COMPACT_BUDGET_CHARS,
            language: None,
        }
    }

    /// The limits of a session: the environment wins, so one run can differ.
    pub fn resolve(agent: &Agent, env: &LimitsEnv, phone: bool) -> (r: Limits)
        ensures
            r.max_tool_rounds == limit(
                env_number(opt(env.max_tool_rounds), usize::MAX as nat),
                as_nat(agent.max_tool_rounds),
                if phone {
                    PHONE_TOOL_ROUNDS as nat
                } else {
                    DESKTOP_TOOL_ROUNDS as nat
                },
                1,
            ),
            r.command_timeout_secs == limit(
                env_number(opt(env.command_timeout), usize::MAX as nat),
                match agent.command_timeout_secs {
                    Some(n) => Some((n as usize) as nat),
                    None => None,
                },
                if phone {
                    PHONE_COMMAND_SECS as nat
                } else {
                    DESKTOP_COMMAND_SECS as nat
                },
                1,
            ),
            r.compact_budget_chars == limit(
                env_number(opt(env.compact_budget), usize::MAX as nat),
                as_nat(agent.compact_budget_chars),
                COMPACT_BUDGET_CHARS as nat,
                MIN_COMPACT_BUDGET as nat,
            ),
            opt(r.language) == language_of(opt(env.language), opt(agent.language)),
            r.max_tool_rounds >= 1,
            r.command_timeout_secs >= 1,
            r.compact_budget_chars >= MIN_COMPACT_BUDGET,
            limits_settled(r, *agent, *env, phone),
    {
        let defaults = Limits::defaults(phone);
        let command: Option<usize> = match agent.command_timeout_secs {
            Some(n) => Some(n as usize),
            None => None,
        };
        let raw = match &env.language {
            Some(l) => Some(l.clone()),
            None => agent.language.clone(),
        };
        let language = match raw {
            Some(l) => {
                let t = trim(l.as_str());
                if t.as_str().is_empty() {
                    None
                } else {
                    Some(t)
                }
            },
            None => None,
        };
        Limits {
            max_tool_rounds: settle(
                env_usize(&env.max_tool_rounds),
                agent.max_tool_rounds,
                defaults.max_tool_rounds,
                1,
            ),
            command_timeout_secs: settle(
                env_usize(&env.command_timeout),
                command,
                defaults.command_timeout_secs,
                1,
            ),
            compact_budget_chars: settle(
                env_usize(&env.compact_budget),
                agent.compact_budget_chars,
                COMPACT_BUDGET_CHARS,
                MIN_COMPACT_BUDGET,
            ),
            language,
        }
    }
}

/// Caps on the fan-out to sub-agents.
pub struct SwarmLimits {
    pub max_concurrent: usize,
    pub max_per_turn: usize,
    pub agent_timeout_secs: u64,
    pub collector_model: Option<String>,
}

/// The environment that swarm limits read, each variable as it is set.
pub struct SwarmEnv {
    pub max_concurrent: Option<String>,
    pub max_per_turn: Option<String>,
    pub agent_timeout: Option<String>,
    pub collector_model: Option<String>,
}

/// Agents that run side by side by default.
pub const DEFAULT_MAX_CONCURRENT: usize = 8;

/// Agents that one turn may call by default.
pub const DEFAULT_MAX_PER_TURN: usize = 24;

/// True when `r` is what the environment, the settings and the device come to.
pub open spec fn swarm_settled(r: SwarmLimits, agents: Agents, env: SwarmEnv, phone: bool) -> bool {
    &&& r.max_concurrent == limit(
        env_number(opt(env.max_concurrent), usize::MAX as nat),
        as_nat(agents.max_concurrent),
        DEFAULT_MAX_CONCURRENT as nat,
        1,
    )
    &&& r.max_per_turn == limit(
        env_number(opt(env.max_per_turn), usize::MAX as nat),
        as_nat(agents.max_per_turn),
        DEFAULT_MAX_PER_TURN as nat,
        1,
    )
    &&& r.agent_timeout_secs == limit(
        env_number(opt(env.agent_timeout), u64::MAX as nat),
        match agents.agent_timeout_secs {
            Some(n) => Some(n as nat),
            None => None,
        },
        if phone {
            PHONE_AGENT_SECS as nat
        } else {
            DESKTOP_AGENT_SECS as nat
        },
        1,
    )
    &&& opt(r.collector_model) == if env.collector_model is Some {
        opt(env.collector_model)
    } else {
        opt(agents.collector_model)
    }
}

/// Each limit on sub-agents too is that of its own variable, or else its own
/// setting, or else the default.
pub proof fn each_swarm_limit_has_its_own_setting(
    r: SwarmLimits,
    agents: Agents,
    env: SwarmEnv,
    phone: bool,
    n: usize,
)
    requires
        swarm_settled(r, agents, env, phone),
        n >= 1,
    ensures
        opt(env.max_concurrent) == Some(dec(n as nat)) ==> r.max_concurrent == n,
        opt(env.max_per_turn) == Some(dec(n as nat)) ==> r.max_per_turn == n,
        env.max_concurrent is None && agents.max_concurrent == Some(n) ==> r.max_concurrent == n,
        env.max_per_turn is None && agents.max_per_turn == Some(n) ==> r.max_per_turn == n,
        env.max_concurrent is None && agents.max_concurrent is None ==> r.max_concurrent
            == DEFAULT_MAX_CONCURRENT,
        env.max_per_turn is None && agents.max_per_turn is None ==> r.max_per_turn
            == DEFAULT_MAX_PER_TURN,
        env.agent_timeout is None && agents.agent_timeout_secs is None ==> r.agent_timeout_secs
            == if phone {
            PHONE_AGENT_SECS
        } else {
            DESKTOP_AGENT_SECS
        },
        env.collector_model is Some ==> opt(r.collector_model) == opt(env.collector_model),
        env.collector_model is None ==> opt(r.collector_model) == opt(agents.collector_model),
{
    dec_reads_back(n as nat, usize::MAX as nat);
}

impl SwarmLimits {
    /// The defaults.
    pub fn defaults(phone: bool) -> (r: SwarmLimits)
        ensures
            r.max_concurrent == DEFAULT_MAX_CONCURRENT,
            r.max_per_turn == DEFAULT_MAX_PER_TURN,
            r.agent_timeout_secs == if phone {
                PHONE_AGENT_SECS
            } else {
                DESKTOP_AGENT_SECS
            },
            r.collector_model is None,
    {
        SwarmLimits {
            max_concurrent: DEFAULT_MAX_CONCURRENT,
            max_per_turn: DEFAULT_MAX_PER_TURN,
            agent_timeout_secs: if phone { PHONE_AGENT_SECS } else { DESKTOP_AGENT_SECS },
            collector_model: None,
        }
    }

    /// The caps of a session: the environment wins.
    pub fn resolve(agents: &Agents, env: &SwarmEnv, phone: bool) -> (r: SwarmLimits)
        ensures
            r.max_concurrent == limit(
                env_number(opt(env.max_concurrent), usize::MAX as nat),
                as_nat(agents.max_concurrent),
                DEFAULT_MAX_CONCURRENT as nat,
                1,
            ),
            r.max_per_turn == limit(
                env_number(opt(env.max_per_turn), usize::MAX as nat),
                as_nat(agents.max_per_turn),
                DEFAULT_MAX_PER_TURN as nat,
                1,
            ),
            r.agent_timeout_secs == limit(
                env_number(opt(env.agent_timeout), u64::MAX as nat),
                match agents.agent_timeout_secs {
                    Some(n) => Some(n as nat),
                    None => None,
                },
                if phone {
                    PHONE_AGENT_SECS as nat
                } else {
                    DESKTOP_AGENT_SECS as nat
                },
                1,
            ),
            opt(r.collector_model) == if env.collector_model is Some {
                opt(env.collector_model)
            } else {
                opt(agents.collector_model)
            },
            swarm_settled(r, *agents, *env, phone),
    {
        let asked: Option<u64> = match &env.agent_timeout {
            Some(s) => parse_unsigned(s.as_str(), u64::MAX),
            None => None,
        };
        let secs: u64 = match asked {
            Some(n) => n,
            None => match agents.agent_timeout_secs {
                Some(n) => n,
                None => if phone {
                    PHONE_AGENT_SECS
                } else {
                    DESKTOP_AGENT_SECS
                },
            },
        };
        SwarmLimits {
            max_concurrent: settle(
                env_usize(&env.max_concurrent),
                agents.max_concurrent,
                DEFAULT_MAX_CONCURRENT,
                1,
            ),
            max_per_turn: settle(
                env_usize(&env.max_per_turn),
                agents.max_per_turn,
                DEFAULT_MAX_PER_TURN,
                1,
            ),
            agent_timeout_secs: if secs >= 1 { secs } else { 1 },
            collector_model: match &env.collector_model {
                Some(m) => Some(m.clone()),
                None => agents.collector_model.clone(),
            },
        }
    }
}

} // verus!
