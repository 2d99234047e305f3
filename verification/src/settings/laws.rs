//! What holds of settings that are laid over one another, and of diffs that are
//! filtered.

use vstd::prelude::*;

use crate::json::{lookup, members};
use crate::settings::filter::{all_lines, keeping, kept_lines, target_of, PathFilter};
use crate::settings::limits::{env_number, language_of, limit};
use crate::settings::{
    layered, permissions_merged, review_overlay, same_but_servers, schedule_index, schedule_put,
    schedules_merged, servers_added, settings_overlaid, union_holds_both, Permissions, Review,
    Schedule, Settings,
};
use crate::text::affix::trimmed;
use crate::text::number::{dec, dec_reads_back};
use crate::text::texts;
use crate::tools::approval::Mode;

verus! {

/// True when `r` is what the project says, or what the user says where the
/// project says nothing.
pub open spec fn outranked<T>(r: Option<T>, user: Option<T>, project: Option<T>) -> bool {
    if project is Some {
        r == project
    } else {
        r == user
    }
}

/// True when `r` is the project's list, or the user's where the project's is
/// empty.
pub open spec fn replaced(r: Vec<String>, user: Vec<String>, project: Vec<String>) -> bool {
    if project@.len() > 0 {
        r == project
    } else {
        r == user
    }
}

/// Every setting of a review that the project makes comes before the user's, and
/// every other one stays the user's.
pub proof fn the_project_reviews_its_way(g: Review, p: Review)
    ensures
        ({
            let r = review_overlay(g, p);
            &&& outranked(r.model, g.model, p.model)
            &&& outranked(r.base_url, g.base_url, p.base_url)
            &&& outranked(r.hypothesis_model, g.hypothesis_model, p.hypothesis_model)
            &&& outranked(r.verify_model, g.verify_model, p.verify_model)
            &&& outranked(r.min_confidence, g.min_confidence, p.min_confidence)
            &&& outranked(r.max_diff_bytes, g.max_diff_bytes, p.max_diff_bytes)
            &&& outranked(r.astgrep_rules, g.astgrep_rules, p.astgrep_rules)
            &&& outranked(r.effort, g.effort, p.effort)
            &&& outranked(r.web_search, g.web_search, p.web_search)
            &&& replaced(r.analyzers, g.analyzers, p.analyzers)
            &&& replaced(r.focus_areas, g.focus_areas, p.focus_areas)
            &&& replaced(r.included, g.included, p.included)
            &&& replaced(r.excluded, g.excluded, p.excluded)
        }),
{
}

/// Every other setting that the project makes comes before the user's too.
pub proof fn the_project_outranks_the_user(r: Settings, g: Settings, p: Settings, stricter: Mode)
    requires
        settings_overlaid(r, g, p, stricter),
    ensures
        r.review == review_overlay(g.review, p.review),
        outranked(r.agent.max_tool_rounds, g.agent.max_tool_rounds, p.agent.max_tool_rounds),
        outranked(
            r.agent.command_timeout_secs,
            g.agent.command_timeout_secs,
            p.agent.command_timeout_secs,
        ),
        outranked(
            r.agent.compact_budget_chars,
            g.agent.compact_budget_chars,
            p.agent.compact_budget_chars,
        ),
        outranked(r.agent.max_output_tokens, g.agent.max_output_tokens, p.agent.max_output_tokens),
        outranked(r.agent.language, g.agent.language, p.agent.language),
        outranked(r.agent.learn, g.agent.learn, p.agent.learn),
        outranked(r.agents.collector_model, g.agents.collector_model, p.agents.collector_model),
        outranked(r.agents.max_concurrent, g.agents.max_concurrent, p.agents.max_concurrent),
        outranked(r.agents.max_per_turn, g.agents.max_per_turn, p.agents.max_per_turn),
        outranked(
            r.agents.agent_timeout_secs,
            g.agents.agent_timeout_secs,
            p.agents.agent_timeout_secs,
        ),
        outranked(r.ui.welcome, g.ui.welcome, p.ui.welcome),
        outranked(r.ui.theme, g.ui.theme, p.ui.theme),
        outranked(r.mom.enabled, g.mom.enabled, p.mom.enabled),
        outranked(r.mom.manifest, g.mom.manifest, p.mom.manifest),
        outranked(r.providers.catalog_url, g.providers.catalog_url, p.providers.catalog_url),
        outranked(r.experimental.jev, g.experimental.jev, p.experimental.jev),
        r.permissions.mode == stricter,
{
}

/// Rules add up: what either side allows, asks about or denies is allowed, asked
/// about or denied, and nothing else; the rules that come with the program hold
/// only where neither side turns them off.
pub proof fn rules_of_both_sides_hold(
    r: Permissions,
    g: Permissions,
    p: Permissions,
    stricter: Mode,
    rule: Seq<char>,
)
    requires
        permissions_merged(r, g, p, stricter),
    ensures
        texts(r.deny@).contains(rule) <==> texts(g.deny@).contains(rule) || texts(
            p.deny@,
        ).contains(rule),
        texts(r.ask@).contains(rule) <==> texts(g.ask@).contains(rule) || texts(p.ask@).contains(
            rule,
        ),
        texts(r.allow@).contains(rule) <==> texts(g.allow@).contains(rule) || texts(
            p.allow@,
        ).contains(rule),
        texts(r.allow_credentials@).contains(rule) <==> texts(g.allow_credentials@).contains(rule)
            || texts(p.allow_credentials@).contains(rule),
        texts(r.additional_directories@).contains(rule) <==> texts(
            g.additional_directories@,
        ).contains(rule) || texts(p.additional_directories@).contains(rule),
        r.use_default_rules <==> g.use_default_rules && p.use_default_rules,
        r.mode == stricter,
{
    union_holds_both(texts(g.deny@), texts(p.deny@));
    union_holds_both(texts(g.ask@), texts(p.ask@));
    union_holds_both(texts(g.allow@), texts(p.allow@));
    union_holds_both(texts(g.allow_credentials@), texts(p.allow_credentials@));
    union_holds_both(texts(g.additional_directories@), texts(p.additional_directories@));
}

/// Servers may be allowed and denied by either side.
pub proof fn servers_are_ruled_by_both_sides(
    r: Settings,
    g: Settings,
    p: Settings,
    stricter: Mode,
    name: Seq<char>,
)
    requires
        settings_overlaid(r, g, p, stricter),
    ensures
        texts(r.mcp.deny@).contains(name) <==> texts(g.mcp.deny@).contains(name) || texts(
            p.mcp.deny@,
        ).contains(name),
        texts(r.mcp.allow@).contains(name) <==> texts(g.mcp.allow@).contains(name) || texts(
            p.mcp.allow@,
        ).contains(name),
{
    union_holds_both(texts(g.mcp.deny@), texts(p.mcp.deny@));
    union_holds_both(texts(g.mcp.allow@), texts(p.mcp.allow@));
}

/// One layer alone is taken as it is, and without any the fallback is.
pub proof fn a_layer_alone_stands(
    r: Settings,
    only: Settings,
    fallback: Settings,
    stricter: Mode,
)
    ensures
        layered(r, Some(only), None, fallback, stricter) ==> r == only,
        layered(r, None, Some(only), fallback, stricter) ==> r == only,
        layered(r, None, None, fallback, stricter) ==> r == fallback,
{
}

/// True when `v` has `s` and no other schedule of that name.
pub open spec fn runs(v: Seq<Schedule>, s: Schedule) -> bool {
    (exists|i: int| 0 <= i < v.len() && #[trigger] v[i] == s) && forall|i: int|
        0 <= i < v.len() && (#[trigger] v[i]).name@ == s.name@ ==> v[i] == s
}

/// True when no two schedules share a name.
pub open spec fn names_once(v: Seq<Schedule>) -> bool {
    forall|i: int, j: int|
        0 <= i < j < v.len() ==> (#[trigger] v[i]).name@ != (#[trigger] v[j]).name@
}

proof fn lemma_schedule_index(v: Seq<Schedule>, name: Seq<char>)
    ensures
        schedule_index(v, name) <= v.len(),
        schedule_index(v, name) < v.len() ==> v[schedule_index(v, name) as int].name@ == name,
        forall|i: int| 0 <= i < schedule_index(v, name) ==> (#[trigger] v[i]).name@ != name,
    decreases v.len(),
{
    if v.len() > 0 && v[0].name@ != name {
        let t = v.drop_first();
        lemma_schedule_index(t, name);
        assert forall|i: int| 0 <= i < schedule_index(v, name) implies (#[trigger] v[i]).name@
            != name by {
            if i > 0 {
                assert(t[i - 1] == v[i]);
            }
        }
    }
}

/// A schedule that is put is the one that runs under its name, and every other
/// name keeps what it had.
pub proof fn a_schedule_is_put_once(v: Seq<Schedule>, s: Schedule)
    requires
        names_once(v),
    ensures
        names_once(schedule_put(v, s)),
        runs(schedule_put(v, s), s),
        forall|o: Schedule| o.name@ != s.name@ && #[trigger] runs(v, o) ==> runs(schedule_put(v, s), o),
{
    lemma_schedule_index(v, s.name@);
    let i = schedule_index(v, s.name@) as int;
    let w = schedule_put(v, s);
    assert(w[i] == s);
    assert forall|o: Schedule| o.name@ != s.name@ && #[trigger] runs(v, o) implies runs(w, o) by {
        let j = choose|j: int| 0 <= j < v.len() && #[trigger] v[j] == o;
        assert(w[j] == v[j]);
        assert forall|k: int| 0 <= k < w.len() && (#[trigger] w[k]).name@ == o.name@ implies w[k]
            == o by {
            if k != i {
                assert(w[k] == v[k]);
            }
        }
    }
}

proof fn lemma_merged_keeps(g: Seq<Schedule>, p: Seq<Schedule>, o: Schedule)
    requires
        names_once(g),
        runs(g, o),
        forall|k: int| 0 <= k < p.len() ==> (#[trigger] p[k]).name@ != o.name@,
    ensures
        runs(schedules_merged(g, p), o),
        names_once(schedules_merged(g, p)),
    decreases p.len(),
{
    if p.len() > 0 {
        a_schedule_is_put_once(g, p[0]);
        let t = p.drop_first();
        assert forall|k: int| 0 <= k < t.len() implies (#[trigger] t[k]).name@ != o.name@ by {
            assert(t[k] == p[k + 1]);
        }
        lemma_merged_keeps(schedule_put(g, p[0]), t, o);
    }
}

/// Every schedule of the project runs, in place of the user's of that name; the
/// user's others run as they did.
pub proof fn schedules_of_the_project_run(g: Seq<Schedule>, p: Seq<Schedule>, i: int)
    requires
        names_once(g),
        names_once(p),
        0 <= i < p.len(),
    ensures
        runs(schedules_merged(g, p), p[i]),
        forall|o: Schedule|
            #[trigger] runs(g, o) && (forall|k: int|
                0 <= k < p.len() ==> (#[trigger] p[k]).name@ != o.name@) ==> runs(
                schedules_merged(g, p),
                o,
            ),
    decreases p.len(),
{
    let t = p.drop_first();
    let w = schedule_put(g, p[0]);
    a_schedule_is_put_once(g, p[0]);
    assert(names_once(t)) by {
        assert forall|a: int, b: int| 0 <= a < b < t.len() implies (#[trigger] t[a]).name@ != (
        #[trigger] t[b]).name@ by {
            assert(t[a] == p[a + 1] && t[b] == p[b + 1]);
        }
    }
    if i == 0 {
        assert forall|k: int| 0 <= k < t.len() implies (#[trigger] t[k]).name@ != p[0].name@ by {
            assert(t[k] == p[k + 1]);
        }
        lemma_merged_keeps(w, t, p[0]);
    } else {
        schedules_of_the_project_run(w, t, i - 1);
        assert(t[i - 1] == p[i]);
    }
    assert forall|o: Schedule|
        #[trigger] runs(g, o) && (forall|k: int|
            0 <= k < p.len() ==> (#[trigger] p[k]).name@ != o.name@) implies runs(
        schedules_merged(g, p),
        o,
    ) by {
        lemma_merged_keeps(g, p, o);
    }
}

/// Servers that are shared join only where none of that name is configured, and
/// leave everything else.
pub proof fn shared_servers_join(r: Settings, base: Settings, name: Seq<char>)
    requires
        same_but_servers(r, base),
        lookup(members(base.mcp.servers@), name) is Some,
    ensures
        forall|more: Seq<(Seq<char>, crate::json::JsonV)>|
            members(r.mcp.servers@) == #[trigger] servers_added(members(base.mcp.servers@), more)
                ==> lookup(members(r.mcp.servers@), name) == lookup(
                members(base.mcp.servers@),
                name,
            ),
        r.permissions == base.permissions,
        r.review == base.review,
{
    assert forall|more: Seq<(Seq<char>, crate::json::JsonV)>|
        members(r.mcp.servers@) == #[trigger] servers_added(
            members(base.mcp.servers@),
            more,
        ) implies lookup(members(r.mcp.servers@), name) == lookup(
        members(base.mcp.servers@),
        name,
    ) by {
        crate::settings::configured_servers_stay(members(base.mcp.servers@), more, name);
    }
}

/// The lines of a file in a diff, its header and all that follow up to the next
/// header, stay or go together: they stay exactly where the filter lets the
/// file's path through.
pub proof fn a_file_stays_or_goes_whole(
    f: PathFilter,
    v: Seq<Seq<char>>,
    header: int,
    i: int,
    path: Seq<char>,
)
    requires
        0 <= header <= i < v.len(),
        target_of(v[header]) == Some(Some(path)),
        forall|k: int| header < k <= i ==> target_of(#[trigger] v[k]) is None,
    ensures
        keeping(f, v, (i + 1) as nat) <==> f.lets(path),
    decreases i,
{
    if i > header {
        assert(target_of(v[i]) is None);
        a_file_stays_or_goes_whole(f, v, header, i - 1, path);
    }
}

/// What comes before the first header stays.
pub proof fn the_preamble_stays(f: PathFilter, v: Seq<Seq<char>>, i: int)
    requires
        0 <= i < v.len(),
        forall|k: int| 0 <= k <= i ==> target_of(#[trigger] v[k]) is None,
    ensures
        keeping(f, v, (i + 1) as nat),
    decreases i,
{
    assert(target_of(v[i]) is None);
    if i > 0 {
        the_preamble_stays(f, v, i - 1);
    } else {
        assert(keeping(f, v, 0));
    }
}

/// A filtered diff is the lines that stay, each as it was and in order.
pub proof fn a_filtered_diff_is_the_lines_that_stay(
    f: PathFilter,
    v: Seq<Seq<char>>,
    n: nat,
) -> (from: Seq<int>)
    requires
        n <= v.len(),
    ensures
        forall|i: int, j: int| 0 <= i < j < from.len() ==> #[trigger] from[i] < #[trigger] from[j],
        forall|k: int|
            #![trigger v[k]]
            0 <= k < n ==> (from.contains(k) <==> keeping(f, v, (k + 1) as nat)),
        forall|i: int| 0 <= i < from.len() ==> 0 <= #[trigger] from[i] < n,
        kept_lines(f, v, n) == all_lines(Seq::new(from.len(), |i: int| v[from[i]]), from.len()),
    decreases n,
{
    if n == 0 {
        Seq::empty()
    } else {
        let most = a_filtered_diff_is_the_lines_that_stay(f, v, (n - 1) as nat);
        let from = if keeping(f, v, n) { most.push(n - 1) } else { most };
        let before = Seq::new(most.len(), |i: int| v[most[i]]);
        let now = Seq::new(from.len(), |i: int| v[from[i]]);
        if keeping(f, v, n) {
            lemma_all_lines(before, now, most.len());
        }
        assert forall|k: int| #![trigger v[k]] 0 <= k < n implies (from.contains(k) <==> keeping(
            f,
            v,
            (k + 1) as nat,
        )) by {
            if k < n - 1 {
                assert(most.contains(k) <==> keeping(f, v, (k + 1) as nat));
                if most.contains(k) {
                    let j = choose|j: int| 0 <= j < most.len() && most[j] == k;
                    assert(from[j] == k);
                }
                if from.contains(k) {
                    let j = choose|j: int| 0 <= j < from.len() && from[j] == k;
                    assert(most[j] == k);
                }
            } else {
                if keeping(f, v, n) {
                    assert(from[from.len() - 1] == k);
                } else if from.contains(k) {
                    let j = choose|j: int| 0 <= j < from.len() && from[j] == k;
                    assert(most[j] < n - 1);
                }
            }
        }
        from
    }
}

proof fn lemma_all_lines(a: Seq<Seq<char>>, b: Seq<Seq<char>>, n: nat)
    requires
        n <= a.len(),
        n <= b.len(),
        forall|i: int| 0 <= i < n ==> #[trigger] a[i] == b[i],
    ensures
        all_lines(a, n) == all_lines(b, n),
    decreases n,
{
    if n > 0 {
        lemma_all_lines(a, b, (n - 1) as nat);
        assert(a[n - 1] == b[n - 1]);
    }
}

/// A limit is the environment's number, or else the configured one, or else the
/// default, and never below its floor.
pub proof fn a_limit_is_settled(env: Option<nat>, configured: Option<nat>, default: nat, floor: nat)
    ensures
        limit(env, configured, default, floor) >= floor,
        env is Some && env.unwrap() >= floor ==> limit(env, configured, default, floor)
            == env.unwrap(),
        env is None && configured is Some && configured.unwrap() >= floor ==> limit(
            env,
            configured,
            default,
            floor,
        ) == configured.unwrap(),
        env is None && configured is None && default >= floor ==> limit(
            env,
            configured,
            default,
            floor,
        ) == default,
{
}

/// A number in the environment is read as it is written.
pub proof fn numbers_are_read(n: nat, max: nat)
    requires
        n <= max,
    ensures
        env_number(Some(dec(n)), max) == Some(n),
        env_number(None, max) is None,
{
    dec_reads_back(n, max);
}

/// The language is the environment's, or else the configured one, without the
/// blanks around it; a blank one is none.
pub proof fn a_language_is_settled(env: Option<Seq<char>>, configured: Option<Seq<char>>)
    ensures
        env is Some && trimmed(env.unwrap()).len() > 0 ==> language_of(env, configured) == Some(
            trimmed(env.unwrap()),
        ),
        env is None && configured is Some && trimmed(configured.unwrap()).len() > 0
            ==> language_of(env, configured) == Some(trimmed(configured.unwrap())),
        env is None && configured is None ==> language_of(env, configured) is None,
{
}

} // verus!
