//! The configuration: the global file, the repository's on top of it.

use vstd::prelude::*;

use crate::client::config::Effort;
use crate::json::{
    lookup, members, put, put_keeps_keys_unique, put_keeps_others, put_member, put_then_lookup,
    unique_keys, Json, JsonV,
};
use crate::text::{contains_text, same, texts};
use crate::tools::approval::Mode;

pub mod filter;
pub mod laws;
pub mod limits;
pub mod yaml;
pub mod yaml_laws;

verus! {

/// Opt-in behavior that may change.
pub struct Experimental {
    pub jev: Option<bool>,
}

/// Where refreshed model ids come from.
pub struct Providers {
    pub catalog_url: Option<String>,
}

/// Whether a manifest picks the model per turn, and which file to read.
pub struct Mom {
    pub enabled: Option<bool>,
    pub manifest: Option<String>,
}

/// Terminal presentation choices.
pub struct Ui {
    pub welcome: Option<bool>,
    pub theme: Option<String>,
}

/// Limits on one agent turn.
pub struct Agent {
    pub max_tool_rounds: Option<usize>,
    pub command_timeout_secs: Option<u64>,
    pub compact_budget_chars: Option<usize>,
    pub max_output_tokens: Option<u32>,
    pub language: Option<String>,
    pub learn: Option<bool>,
}

/// Limits on the fan-out to sub-agents.
pub struct Agents {
    pub collector_model: Option<String>,
    pub max_concurrent: Option<usize>,
    pub max_per_turn: Option<usize>,
    pub agent_timeout_secs: Option<u64>,
}

/// How a review runs.
pub struct Review {
    pub model: Option<String>,
    pub base_url: Option<String>,
    pub hypothesis_model: Option<String>,
    pub verify_model: Option<String>,
    /// The bits of the number.
    pub min_confidence: Option<u32>,
    pub max_diff_bytes: Option<usize>,
    pub analyzers: Vec<String>,
    pub astgrep_rules: Option<String>,
    pub focus_areas: Vec<String>,
    pub effort: Option<Effort>,
    pub web_search: Option<bool>,
    pub included: Vec<String>,
    pub excluded: Vec<String>,
}

/// What the agent may do.
pub struct Permissions {
    pub mode: Mode,
    pub allow: Vec<String>,
    pub ask: Vec<String>,
    pub deny: Vec<String>,
    pub additional_directories: Vec<String>,
    pub allow_credentials: Vec<String>,
    pub use_default_rules: bool,
}

/// The MCP servers, each under its name, and which of their tools are used.
pub struct Mcp {
    pub servers: Vec<(String, Json)>,
    pub allow: Vec<String>,
    pub deny: Vec<String>,
}

/// A scheduled run: its name, and what it is.
pub struct Schedule {
    pub name: String,
    pub definition: Json,
}

/// The whole configuration.
pub struct Settings {
    pub review: Review,
    pub permissions: Permissions,
    pub mcp: Mcp,
    pub agent: Agent,
    pub agents: Agents,
    pub ui: Ui,
    pub mom: Mom,
    pub providers: Providers,
    pub experimental: Experimental,
    pub schedules: Vec<Schedule>,
}

/// The first of two that is set.
pub open spec fn first_set<T>(a: Option<T>, b: Option<T>) -> Option<T> {
    if a is Some {
        a
    } else {
        b
    }
}

/// The first of two that is set.
pub fn either<T>(a: Option<T>, b: Option<T>) -> (r: Option<T>)
    ensures
        r == first_set(a, b),
{
    match a {
        Some(v) => Some(v),
        None => b,
    }
}

/// The project's list where it has one, else the global one.
pub open spec fn picked(global: Vec<String>, project: Vec<String>) -> Vec<String> {
    if project@.len() == 0 {
        global
    } else {
        project
    }
}

/// The project's list where it has one, else the global one.
pub fn pick(global: Vec<String>, project: Vec<String>) -> (r: Vec<String>)
    ensures
        r == picked(global, project),
{
    if project.len() == 0 {
        global
    } else {
        project
    }
}

/// The items of `a`, then those of `b` that are not there yet.
pub open spec fn united(a: Seq<Seq<char>>, b: Seq<Seq<char>>) -> Seq<Seq<char>>
    decreases b.len(),
{
    if b.len() == 0 {
        a
    } else {
        let head = united(a, b.drop_last());
        if head.contains(b.last()) {
            head
        } else {
            head.push(b.last())
        }
    }
}

/// The items of `a`, then those of `b` that are not there yet.
pub fn union(a: Vec<String>, b: &Vec<String>) -> (r: Vec<String>)
    ensures
        texts(r@) == united(texts(a@), texts(b@)),
{
    let ghost all = texts(b@);
    let ghost start = texts(a@);
    let mut out = a;
    let mut i: usize = 0;
    assert(all.take(0) =~= Seq::empty());
    while i < b.len()
        invariant
            i <= b@.len(),
            all == texts(b@),
            texts(out@) == united(start, all.take(i as int)),
        decreases b.len() - i,
    {
        proof {
            assert(all.take(i + 1).drop_last() =~= all.take(i as int));
            assert(all.take(i + 1).last() == b@[i as int]@);
        }
        let ghost had = texts(out@);
        if !contains_text(&out, b[i].as_str()) {
            let item = b[i].clone();
            out.push(item);
            assert(texts(out@) =~= had.push(item@));
        }
        i += 1;
    }
    assert(all.take(all.len() as int) =~= all);
    out
}

/// A union holds everything of both lists and nothing else, keeps the first as
/// it is, and adds nothing that is there already.
pub proof fn union_holds_both(a: Seq<Seq<char>>, b: Seq<Seq<char>>)
    ensures
        a.is_prefix_of(united(a, b)),
        forall|x: Seq<char>| #[trigger] united(a, b).contains(x) <==> a.contains(x) || b.contains(x),
        forall|i: int, j: int|
            0 <= i < j < united(a, b).len() && a.len() <= j ==> united(a, b)[i] != united(a, b)[j],
    decreases b.len(),
{
    let u = united(a, b);
    if b.len() == 0 {
        assert(a =~= u.subrange(0, a.len() as int));
    } else {
        let head = united(a, b.drop_last());
        union_holds_both(a, b.drop_last());
        let last = b.last();
        assert forall|x: Seq<char>| #[trigger] u.contains(x) <==> a.contains(x) || b.contains(x) by {
            assert(head.contains(x) <==> a.contains(x) || b.drop_last().contains(x));
            if b.drop_last().contains(x) {
                let k = choose|k: int| 0 <= k < b.drop_last().len() && b.drop_last()[k] == x;
                assert(b[k] == x);
            }
            if b.contains(x) && x != last {
                let k = choose|k: int| 0 <= k < b.len() && b[k] == x;
                assert(b.drop_last()[k] == x);
            }
            assert(b[b.len() - 1] == last);
            if head.contains(x) {
                let k = choose|k: int| 0 <= k < head.len() && head[k] == x;
                assert(u[k] == x);
            }
            if x == last && !head.contains(last) {
                assert(u[head.len() as int] == x);
            }
        }
        assert(a =~= u.subrange(0, a.len() as int)) by {
            assert(a =~= head.subrange(0, a.len() as int));
            assert forall|i: int| 0 <= i < a.len() implies a[i] == u[i] by {
                assert(head.subrange(0, a.len() as int)[i] == head[i]);
            }
        }
        assert forall|i: int, j: int| 0 <= i < j < u.len() && a.len() <= j implies u[i] != u[j] by {
            if j == head.len() {
                assert(head[i] == u[i]);
            }
        }
    }
}

/// Uniting a list with one it holds changes nothing.
pub proof fn union_is_idempotent(a: Seq<Seq<char>>, b: Seq<Seq<char>>)
    requires
        forall|i: int| 0 <= i < b.len() ==> a.contains(#[trigger] b[i]),
    ensures
        united(a, b) == a,
    decreases b.len(),
{
    if b.len() > 0 {
        assert forall|i: int| 0 <= i < b.drop_last().len() implies a.contains(
            #[trigger] b.drop_last()[i],
        ) by {
            assert(b.drop_last()[i] == b[i]);
        }
        union_is_idempotent(a, b.drop_last());
        assert(a.contains(b[b.len() - 1]));
    }
}

/// The review settings with the project's on top.
pub open spec fn review_overlay(g: Review, p: Review) -> Review {
    Review {
        model: first_set(p.model, g.model),
        base_url: first_set(p.base_url, g.base_url),
        hypothesis_model: first_set(p.hypothesis_model, g.hypothesis_model),
        verify_model: first_set(p.verify_model, g.verify_model),
        min_confidence: first_set(p.min_confidence, g.min_confidence),
        max_diff_bytes: first_set(p.max_diff_bytes, g.max_diff_bytes),
        analyzers: picked(g.analyzers, p.analyzers),
        astgrep_rules: first_set(p.astgrep_rules, g.astgrep_rules),
        focus_areas: picked(g.focus_areas, p.focus_areas),
        effort: first_set(p.effort, g.effort),
        web_search: first_set(p.web_search, g.web_search),
        included: picked(g.included, p.included),
        excluded: picked(g.excluded, p.excluded),
    }
}

impl Review {
    /// The review settings with the project's on top.
    pub fn overlaid_with(self, project: Review) -> (r: Review)
        ensures
            r == review_overlay(self, project),
    {
        Review {
            model: either(project.model, self.model),
            base_url: either(project.base_url, self.base_url),
            hypothesis_model: either(project.hypothesis_model, self.hypothesis_model),
            verify_model: either(project.verify_model, self.verify_model),
            min_confidence: either(project.min_confidence, self.min_confidence),
            max_diff_bytes: either(project.max_diff_bytes, self.max_diff_bytes),
            analyzers: pick(self.analyzers, project.analyzers),
            astgrep_rules: either(project.astgrep_rules, self.astgrep_rules),
            focus_areas: pick(self.focus_areas, project.focus_areas),
            effort: either(project.effort, self.effort),
            web_search: either(project.web_search, self.web_search),
            included: pick(self.included, project.included),
            excluded: pick(self.excluded, project.excluded),
        }
    }
}

/// What permissions come to, given the stricter of the two modes.
pub open spec fn permissions_merged(
    r: Permissions,
    g: Permissions,
    p: Permissions,
    stricter: Mode,
) -> bool {
    &&& r.mode == stricter
    &&& texts(r.allow@) == united(texts(g.allow@), texts(p.allow@))
    &&& texts(r.ask@) == united(texts(g.ask@), texts(p.ask@))
    &&& texts(r.deny@) == united(texts(g.deny@), texts(p.deny@))
    &&& texts(r.additional_directories@) == united(
        texts(g.additional_directories@),
        texts(p.additional_directories@),
    )
    &&& texts(r.allow_credentials@) == united(
        texts(g.allow_credentials@),
        texts(p.allow_credentials@),
    )
    &&& r.use_default_rules == (g.use_default_rules && p.use_default_rules)
}

/// Both files' permissions together: every rule of either, and the default
/// rules unless one of them drops them.
pub fn merge_permissions(global: Permissions, project: Permissions, stricter: Mode) -> (r:
    Permissions)
    ensures
        permissions_merged(r, global, project, stricter),
{
    Permissions {
        mode: stricter,
        allow: union(global.allow, &project.allow),
        ask: union(global.ask, &project.ask),
        deny: union(global.deny, &project.deny),
        additional_directories: union(
            global.additional_directories,
            &project.additional_directories,
        ),
        allow_credentials: union(global.allow_credentials, &project.allow_credentials),
        use_default_rules: global.use_default_rules && project.use_default_rules,
    }
}

/// The last entry under a name.
pub open spec fn server_at(v: Seq<(Seq<char>, JsonV)>, name: Seq<char>) -> Option<JsonV>
    decreases v.len(),
{
    if v.len() == 0 {
        None
    } else if v.last().0 == name {
        Some(v.last().1)
    } else {
        server_at(v.drop_last(), name)
    }
}

/// The global servers with the project's put over them, one by one.
pub open spec fn servers_extended(
    g: Seq<(Seq<char>, JsonV)>,
    p: Seq<(Seq<char>, JsonV)>,
) -> Seq<(Seq<char>, JsonV)>
    decreases p.len(),
{
    if p.len() == 0 {
        g
    } else {
        put(servers_extended(g, p.drop_last()), p.last().0, p.last().1)
    }
}

/// The servers of both files, and the tools that either allows or denies. A
/// server of the project replaces a global one of the same name.
pub fn merge_mcp(global: Mcp, project: Mcp) -> (r: Mcp)
    ensures
        members(r.servers@) == servers_extended(
            members(global.servers@),
            members(project.servers@),
        ),
        texts(r.allow@) == united(texts(global.allow@), texts(project.allow@)),
        texts(r.deny@) == united(texts(global.deny@), texts(project.deny@)),
{
    let ghost base = members(global.servers@);
    let ghost over = members(project.servers@);
    let more = project.servers;
    let mut servers = global.servers;
    let mut i: usize = 0;
    assert(over.take(0) =~= Seq::empty());
    while i < more.len()
        invariant
            i <= more@.len(),
            over == members(more@),
            members(servers@) == servers_extended(base, over.take(i as int)),
        decreases more.len() - i,
    {
        proof {
            assert(over.take(i + 1).drop_last() =~= over.take(i as int));
            assert(over.take(i + 1).last() == over[i as int]);
        }
        servers = put_member(servers, more[i].0.as_str(), more[i].1.copy());
        i += 1;
    }
    assert(over.take(over.len() as int) =~= over);
    Mcp {
        servers,
        allow: union(global.allow, &project.allow),
        deny: union(global.deny, &project.deny),
    }
}

/// Of two servers under one name the project's is the one that is found; a name
/// that the project does not use finds the global one.
pub proof fn project_servers_win(
    g: Seq<(Seq<char>, JsonV)>,
    p: Seq<(Seq<char>, JsonV)>,
    name: Seq<char>,
)
    ensures
        server_at(p, name) is Some ==> lookup(servers_extended(g, p), name) == server_at(p, name),
        server_at(p, name) is None ==> lookup(servers_extended(g, p), name) == lookup(g, name),
    decreases p.len(),
{
    if p.len() > 0 {
        let head = servers_extended(g, p.drop_last());
        if p.last().0 == name {
            put_then_lookup(head, name, p.last().1);
        } else {
            put_keeps_others(head, p.last().0, p.last().1, name);
            project_servers_win(g, p.drop_last(), name);
        }
    }
}

/// Merging leaves one server to a name.
pub proof fn servers_stay_unique(g: Seq<(Seq<char>, JsonV)>, p: Seq<(Seq<char>, JsonV)>)
    requires
        unique_keys(g),
    ensures
        unique_keys(servers_extended(g, p)),
    decreases p.len(),
{
    if p.len() > 0 {
        servers_stay_unique(g, p.drop_last());
        put_keeps_keys_unique(servers_extended(g, p.drop_last()), p.last().0, p.last().1);
    }
}

/// Add a server unless one of that name is there.
pub fn add_server(mcp: &mut Mcp, name: &str, server: Json)
    ensures
        final(mcp).allow == old(mcp).allow,
        final(mcp).deny == old(mcp).deny,
        members(final(mcp).servers@) == (match server_at(members(old(mcp).servers@), name@) {
            Some(_) => members(old(mcp).servers@),
            None => members(old(mcp).servers@).push((name@, server@)),
        }),
{
    let ghost all = members(mcp.servers@);
    let mut n: usize = mcp.servers.len();
    assert(all.take(n as int) =~= all);
    while n > 0
        invariant
            n <= mcp.servers@.len(),
            members(mcp.servers@) == all,
            *mcp == *old(mcp),
            server_at(all.take(n as int), name@) == server_at(all, name@),
        decreases n,
    {
        proof {
            assert(all.take(n as int).last() == all[n - 1]);
            assert(all.take(n as int).drop_last() =~= all.take(n - 1));
        }
        if same(mcp.servers[n - 1].0.as_str(), name) {
            return;
        }
        n -= 1;
    }
    mcp.servers.push((name.to_owned(), server));
    assert(members(mcp.servers@) =~= all.push((name@, server@)));
}

/// The position of the first schedule of a name, or the length.
pub open spec fn schedule_index(v: Seq<Schedule>, name: Seq<char>) -> nat
    decreases v.len(),
{
    if v.len() == 0 || v[0].name@ == name {
        0
    } else {
        1 + schedule_index(v.drop_first(), name)
    }
}

/// The schedules with one put in place of the one of its name, or at the end.
pub open spec fn schedule_put(v: Seq<Schedule>, s: Schedule) -> Seq<Schedule> {
    let i = schedule_index(v, s.name@) as int;
    if i < v.len() {
        v.update(i, s)
    } else {
        v.push(s)
    }
}

/// The global schedules with the project's put over them.
pub open spec fn schedules_merged(g: Seq<Schedule>, p: Seq<Schedule>) -> Seq<Schedule>
    decreases p.len(),
{
    if p.len() == 0 {
        g
    } else {
        schedules_merged(schedule_put(g, p[0]), p.drop_first())
    }
}

proof fn lemma_schedule_index(v: Seq<Schedule>, name: Seq<char>, n: int)
    requires
        0 <= n <= v.len(),
        forall|k: int| 0 <= k < n ==> (#[trigger] v[k]).name@ != name,
        n == v.len() || v[n].name@ == name,
    ensures
        schedule_index(v, name) == n,
    decreases n,
{
    if n > 0 {
        assert(v[0].name@ != name);
        assert forall|k: int| 0 <= k < n - 1 implies (#[trigger] v.drop_first()[k]).name@
            != name by {
            assert(v.drop_first()[k] == v[k + 1]);
        }
        lemma_schedule_index(v.drop_first(), name, n - 1);
    }
}

/// The global schedules with the project's put over them, by name.
pub fn merge_schedules(global: Vec<Schedule>, project: Vec<Schedule>) -> (r: Vec<Schedule>)
    ensures
        r@ == schedules_merged(global@, project@),
{
    let ghost want = schedules_merged(global@, project@);
    let mut out = global;
    let mut rest = project;
    while rest.len() > 0
        invariant
            schedules_merged(out@, rest@) == want,
        decreases rest@.len(),
    {
        let ghost before = rest@;
        let s = rest.remove(0);
        assert(rest@ =~= before.drop_first());
        let mut n: usize = 0;
        while n < out.len() && !same(out[n].name.as_str(), s.name.as_str())
            invariant
                n <= out@.len(),
                forall|k: int| 0 <= k < n ==> (#[trigger] out@[k]).name@ != s.name@,
            decreases out.len() - n,
        {
            n += 1;
        }
        proof {
            lemma_schedule_index(out@, s.name@, n as int);
        }
        if n < out.len() {
            out.set(n, s);
        } else {
            out.push(s);
        }
    }
    out
}

/// True when `r` is the global configuration with the project's on top.
pub open spec fn settings_overlaid(
    r: Settings,
    g: Settings,
    p: Settings,
    stricter: Mode,
) -> bool {
    &&& r.review == review_overlay(g.review, p.review)
    &&& permissions_merged(r.permissions, g.permissions, p.permissions, stricter)
    &&& members(r.mcp.servers@) == servers_extended(
        members(g.mcp.servers@),
        members(p.mcp.servers@),
    )
    &&& texts(r.mcp.allow@) == united(texts(g.mcp.allow@), texts(p.mcp.allow@))
    &&& texts(r.mcp.deny@) == united(texts(g.mcp.deny@), texts(p.mcp.deny@))
    &&& r.agent == (Agent {
        max_tool_rounds: first_set(p.agent.max_tool_rounds, g.agent.max_tool_rounds),
        command_timeout_secs: first_set(
            p.agent.command_timeout_secs,
            g.agent.command_timeout_secs,
        ),
        compact_budget_chars: first_set(
            p.agent.compact_budget_chars,
            g.agent.compact_budget_chars,
        ),
        max_output_tokens: first_set(p.agent.max_output_tokens, g.agent.max_output_tokens),
        language: first_set(p.agent.language, g.agent.language),
        learn: first_set(p.agent.learn, g.agent.learn),
    })
    &&& r.agents == (Agents {
        collector_model: first_set(p.agents.collector_model, g.agents.collector_model),
        max_concurrent: first_set(p.agents.max_concurrent, g.agents.max_concurrent),
        max_per_turn: first_set(p.agents.max_per_turn, g.agents.max_per_turn),
        agent_timeout_secs: first_set(p.agents.agent_timeout_secs, g.agents.agent_timeout_secs),
    })
    &&& r.ui == (Ui {
        welcome: first_set(p.ui.welcome, g.ui.welcome),
        theme: first_set(p.ui.theme, g.ui.theme),
    })
    &&& r.mom == (Mom {
        enabled: first_set(p.mom.enabled, g.mom.enabled),
        manifest: first_set(p.mom.manifest, g.mom.manifest),
    })
    &&& r.providers == (Providers {
        catalog_url: first_set(p.providers.catalog_url, g.providers.catalog_url),
    })
    &&& r.experimental == (Experimental {
        jev: first_set(p.experimental.jev, g.experimental.jev),
    })
    &&& r.schedules@ == schedules_merged(g.schedules@, p.schedules@)
}

impl Settings {
    /// The global configuration with the project's on top. `stricter` is the
    /// stricter of their two permission modes.
    pub fn overlaid_with(self, project: Settings, stricter: Mode) -> (r: Settings)
        ensures
            settings_overlaid(r, self, project, stricter),
    {
        Settings {
            review: self.review.overlaid_with(project.review),
            permissions: merge_permissions(self.permissions, project.permissions, stricter),
            mcp: merge_mcp(self.mcp, project.mcp),
            agent: Agent {
                max_tool_rounds: either(
                    project.agent.max_tool_rounds,
                    self.agent.max_tool_rounds,
                ),
                command_timeout_secs: either(
                    project.agent.command_timeout_secs,
                    self.agent.command_timeout_secs,
                ),
                compact_budget_chars: either(
                    project.agent.compact_budget_chars,
                    self.agent.compact_budget_chars,
                ),
                max_output_tokens: either(
                    project.agent.max_output_tokens,
                    self.agent.max_output_tokens,
                ),
                language: either(project.agent.language, self.agent.language),
                learn: either(project.agent.learn, self.agent.learn),
            },
            agents: Agents {
                collector_model: either(
                    project.agents.collector_model,
                    self.agents.collector_model,
                ),
                max_concurrent: either(project.agents.max_concurrent, self.agents.max_concurrent),
                max_per_turn: either(project.agents.max_per_turn, self.agents.max_per_turn),
                agent_timeout_secs: either(
                    project.agents.agent_timeout_secs,
                    self.agents.agent_timeout_secs,
                ),
            },
            ui: Ui {
                welcome: either(project.ui.welcome, self.ui.welcome),
                theme: either(project.ui.theme, self.ui.theme),
            },
            mom: Mom {
                enabled: either(project.mom.enabled, self.mom.enabled),
                manifest: either(project.mom.manifest, self.mom.manifest),
            },
            providers: Providers {
                catalog_url: either(project.providers.catalog_url, self.providers.catalog_url),
            },
            experimental: Experimental {
                jev: either(project.experimental.jev, self.experimental.jev),
            },
            schedules: merge_schedules(self.schedules, project.schedules),
        }
    }
}

/// Some servers with others added, each unless one of its name is there.
pub open spec fn servers_added(
    v: Seq<(Seq<char>, JsonV)>,
    more: Seq<(Seq<char>, JsonV)>,
) -> Seq<(Seq<char>, JsonV)>
    decreases more.len(),
{
    if more.len() == 0 {
        v
    } else {
        let head = servers_added(v, more.drop_last());
        match server_at(head, more.last().0) {
            Some(_) => head,
            None => head.push(more.last()),
        }
    }
}

/// True when two configurations differ in their servers at most.
pub open spec fn same_but_servers(a: Settings, b: Settings) -> bool {
    &&& a.review == b.review
    &&& a.permissions == b.permissions
    &&& a.mcp.allow == b.mcp.allow
    &&& a.mcp.deny == b.mcp.deny
    &&& a.agent == b.agent
    &&& a.agents == b.agents
    &&& a.ui == b.ui
    &&& a.mom == b.mom
    &&& a.providers == b.providers
    &&& a.experimental == b.experimental
    &&& a.schedules == b.schedules
}

/// True when a configuration is what the two files give: the project's on top of
/// the global one, the one that is there, or the fallback.
pub open spec fn layered(
    r: Settings,
    global: Option<Settings>,
    project: Option<Settings>,
    fallback: Settings,
    stricter: Mode,
) -> bool {
    match (global, project) {
        (Some(g), Some(p)) => settings_overlaid(r, g, p, stricter),
        (Some(only), None) => r == only,
        (None, Some(only)) => r == only,
        (None, None) => r == fallback,
    }
}

impl Settings {
    /// The configuration that a run uses: what the two files give, and the
    /// servers that other tools share, in order, where the files name none of
    /// that name. `stricter` is the stricter of the files' permission modes.
    pub fn load(
        global: Option<Settings>,
        project: Option<Settings>,
        fallback: Settings,
        stricter: Mode,
        shared: &Vec<(String, Json)>,
    ) -> (r: Settings)
        ensures
            exists|base: Settings| #[trigger]
                layered(base, global, project, fallback, stricter) && same_but_servers(r, base)
                    && members(r.mcp.servers@) == servers_added(
                    members(base.mcp.servers@),
                    members(shared@),
                ),
    {
        let mut settings = match global {
            Some(g) => match project {
                Some(p) => g.overlaid_with(p, stricter),
                None => g,
            },
            None => match project {
                Some(p) => p,
                None => fallback,
            },
        };
        let ghost base = settings;
        let ghost start = members(settings.mcp.servers@);
        let ghost more = members(shared@);
        assert(layered(base, global, project, fallback, stricter));
        let mut i: usize = 0;
        assert(more.take(0) =~= Seq::empty());
        while i < shared.len()
            invariant
                i <= shared@.len(),
                more == members(shared@),
                same_but_servers(settings, base),
                members(settings.mcp.servers@) == servers_added(start, more.take(i as int)),
            decreases shared.len() - i,
        {
            proof {
                assert(more.take(i + 1).drop_last() =~= more.take(i as int));
                assert(more.take(i + 1).last() == more[i as int]);
            }
            add_server(&mut settings.mcp, shared[i].0.as_str(), shared[i].1.copy());
            i += 1;
        }
        assert(more.take(more.len() as int) =~= more);
        settings
    }
}

proof fn lemma_pushed_lookup(v: Seq<(Seq<char>, JsonV)>, e: (Seq<char>, JsonV), name: Seq<char>)
    requires
        lookup(v, name) is Some,
    ensures
        lookup(v.push(e), name) == lookup(v, name),
    decreases v.len(),
{
    if v.len() > 0 && v[0].0 != name {
        lemma_pushed_lookup(v.drop_first(), e, name);
        assert(v.push(e).drop_first() =~= v.drop_first().push(e));
    }
}

/// A server that the configuration names is never replaced by a shared one.
pub proof fn configured_servers_stay(
    v: Seq<(Seq<char>, JsonV)>,
    more: Seq<(Seq<char>, JsonV)>,
    name: Seq<char>,
)
    requires
        lookup(v, name) is Some,
    ensures
        lookup(servers_added(v, more), name) == lookup(v, name),
    decreases more.len(),
{
    if more.len() > 0 {
        configured_servers_stay(v, more.drop_last(), name);
        lemma_pushed_lookup(servers_added(v, more.drop_last()), more.last(), name);
    }
}

} // verus!
