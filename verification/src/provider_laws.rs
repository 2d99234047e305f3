//! What holds of every endpoint, model and provider that is settled on.

use vstd::prelude::*;

use crate::catalog::{
    bare, base_urls, first_row, found_provider, goes_by, host_of, label_of, recommended,
    resolved_url, row_for, usable, Listing, Provider, TemplateEnv,
};
use crate::client::config::{effort_of, Effort, DEFAULT_BASE_URL, DEFAULT_MODEL};
use crate::json::{found_after_push, nothing_in_nothing};
use crate::provider::{
    attribution_of, cap_from, cap_note, effort_asked, effort_note, effort_used, endpoint_of,
    first_line_of, key_note, login_for, model_of, openrouter, probe_note, report_text, report_value,
    routed_model, searches, shadow_notes, shell_or, source_word, ways_in, KeySource, ProviderEnv,
    Report, Routed, Setup,
};
use crate::settings::Review;
use crate::text::affix::{closes, holds, lemma_holds_between, lemma_holds_wider, opens, trimmed};
use crate::text::number::{dec, dec_reads_back};
use crate::text::pieces::{joined, lemma_joined_holds};
use crate::text::{opt, texts};

verus! {

proof fn lemma_first_row(v: Seq<Provider>, p: spec_fn(Provider) -> bool)
    ensures
        match first_row(v, p) {
            Some(i) => 0 <= i < v.len() && p(v[i]) && forall|k: int| 0 <= k < i ==> !p(#[trigger] v[k]),
            None => forall|k: int| 0 <= k < v.len() ==> !p(#[trigger] v[k]),
        },
    decreases v.len(),
{
    if v.len() > 0 {
        let head = v.drop_last();
        lemma_first_row(head, p);
        match first_row(head, p) {
            Some(i) => {
                assert(v[i] == head[i]);
                assert forall|k: int| 0 <= k < i implies !p(#[trigger] v[k]) by {
                    assert(v[k] == head[k]);
                }
            },
            None => {
                assert forall|k: int| 0 <= k < v.len() - 1 implies !p(#[trigger] v[k]) by {
                    assert(v[k] == head[k]);
                }
                assert(v.last() == v[v.len() - 1]);
            },
        }
    }
}

/// A provider is found by its id, its name or its address, whatever the case of
/// the letters: the first that goes by the word, with its own name, its own
/// address and its own model.
pub proof fn a_provider_is_found_by_its_name(
    v: Seq<Provider>,
    env: TemplateEnv,
    target: Seq<char>,
    i: int,
)
    requires
        0 <= i < v.len(),
        goes_by(v[i], bare(trimmed(target))),
        forall|k: int| 0 <= k < i ==> !goes_by(#[trigger] v[k], bare(trimmed(target))),
    ensures
        resolved_url(v[i].base_url@, env) matches Some(url) ==> (found_provider(v, env, target)
            matches Ok(c) && c.name == v[i].name@ && c.base_url == url && c.model
            == v[i].example_model@),
        resolved_url(v[i].base_url@, env) is None ==> (found_provider(v, env, target) matches Err(
            why,
        ) && opens(why, v[i].name@)),
{
    let want = bare(trimmed(target));
    let p = |q: Provider| goes_by(q, want);
    lemma_first_row(v, p);
    match first_row(v, p) {
        Some(j) => {
            if j < i {
                assert(p(v[j]));
            }
            if i < j {
                assert(p(v[i]));
            }
        },
        None => {
            assert(p(v[i]));
        },
    }
    if resolved_url(v[i].base_url@, env) is None {
        let why = crate::catalog::unfilled_text(v[i]);
        assert(why.take(v[i].name@.len() as int) =~= v[i].name@);
    }
}

/// A provider goes by its own id, its own name and its own address.
pub proof fn a_provider_goes_by_its_own_names(p: Provider)
    ensures
        goes_by(p, p.id@),
        goes_by(p, p.name@),
        goes_by(p, bare(p.base_url@)),
{
}

/// An address that no provider goes by is taken as it is, and any other unknown
/// word is refused.
pub proof fn an_unknown_address_is_taken(v: Seq<Provider>, env: TemplateEnv, target: Seq<char>)
    requires
        forall|k: int| 0 <= k < v.len() ==> !goes_by(#[trigger] v[k], bare(trimmed(target))),
    ensures
        opens(bare(trimmed(target)), "http://"@) || opens(bare(trimmed(target)), "https://"@) ==> (
        found_provider(v, env, target) matches Ok(c) && c.base_url == bare(trimmed(target))
            && c.model.len() == 0),
        !opens(bare(trimmed(target)), "http://"@) && !opens(bare(trimmed(target)), "https://"@)
            ==> found_provider(v, env, target) is Err,
{
    let want = bare(trimmed(target));
    lemma_first_row(v, |q: Provider| goes_by(q, want));
}

/// An endpoint is known by the row that has its address, before any that only
/// shares its host; one without a row goes by its host.
pub proof fn an_endpoint_is_known_by_its_address(v: Seq<Provider>, base_url: Seq<char>)
    ensures
        row_for(v, base_url) matches Some(i) ==> 0 <= i < v.len() && host_of(bare(v[i].base_url@))
            == host_of(bare(base_url)),
        (exists|k: int|
            0 <= k < v.len() && bare((#[trigger] v[k]).base_url@) == bare(base_url)) ==> (row_for(
            v,
            base_url,
        ) matches Some(i) && bare(v[i].base_url@) == bare(base_url)),
        row_for(v, bare(base_url)) is None ==> label_of(v, base_url) == host_of(bare(base_url)),
        row_for(v, bare(base_url)) matches Some(i) ==> label_of(v, base_url) == v[i].name@,
{
    let want = bare(base_url);
    let p = |q: Provider| bare(q.base_url@) == want;
    let h = |q: Provider| host_of(bare(q.base_url@)) == host_of(want);
    lemma_first_row(v, p);
    lemma_first_row(v, h);
    if exists|k: int| 0 <= k < v.len() && bare((#[trigger] v[k]).base_url@) == want {
        let k = choose|k: int| 0 <= k < v.len() && bare((#[trigger] v[k]).base_url@) == want;
        assert(p(v[k]));
    }
    match first_row(v, p) {
        Some(i) => {
            assert(p(v[i]));
        },
        None => match first_row(v, h) {
            Some(i) => {
                assert(h(v[i]));
            },
            None => {},
        },
    }
}

/// An address with a gap is filled from the environment or not at all, and the
/// first variable that is set fills it.
pub proof fn gaps_are_filled_from_the_environment(
    base_url: Seq<char>,
    env: TemplateEnv,
    other: TemplateEnv,
)
    ensures
        holds(base_url, "{account_id}"@) && env.cloudflare_account_id is None
            && env.cf_account_id is None ==> resolved_url(base_url, env) is None,
        env.cloudflare_account_id is Some && opt(env.cloudflare_account_id) == opt(
            other.cloudflare_account_id,
        ) && opt(env.aws_region) == opt(other.aws_region) && opt(env.aws_default_region) == opt(
            other.aws_default_region,
        ) && opt(env.azure_openai_resource) == opt(other.azure_openai_resource) ==> resolved_url(
            base_url,
            env,
        ) == resolved_url(base_url, other),
        env.aws_region is Some && opt(env.aws_region) == opt(other.aws_region) && opt(
            env.cloudflare_account_id,
        ) == opt(other.cloudflare_account_id) && opt(env.cf_account_id) == opt(other.cf_account_id)
            && opt(env.azure_openai_resource) == opt(other.azure_openai_resource) ==> resolved_url(
            base_url,
            env,
        ) == resolved_url(base_url, other),
{
}

/// The providers offered are those whose address is whole, in order, each with
/// its own name, address and model.
pub proof fn usable_providers_are_offered(v: Seq<Provider>, env: TemplateEnv) -> (from: Seq<int>)
    ensures
        from.len() == usable(v, env).len(),
        forall|i: int|
            0 <= i < from.len() ==> 0 <= #[trigger] from[i] < v.len() && Some(
                usable(v, env)[i].base_url,
            ) == resolved_url(v[from[i]].base_url@, env) && usable(v, env)[i].name
                == v[from[i]].name@ && usable(v, env)[i].model == v[from[i]].example_model@,
        forall|i: int, j: int| 0 <= i < j < from.len() ==> #[trigger] from[i] < #[trigger] from[j],
        forall|k: int|
            0 <= k < v.len() && resolved_url((#[trigger] v[k]).base_url@, env) is Some
                ==> from.contains(k),
    decreases v.len(),
{
    if v.len() == 0 {
        Seq::empty()
    } else {
        let head = v.drop_last();
        let most = usable_providers_are_offered(head, env);
        let from = if resolved_url(v.last().base_url@, env) is Some {
            most.push(v.len() - 1)
        } else {
            most
        };
        assert forall|i: int| 0 <= i < most.len() implies head[#[trigger] most[i]] == v[most[i]] by {}
        assert forall|k: int|
            0 <= k < v.len() && resolved_url(
                (#[trigger] v[k]).base_url@,
                env,
            ) is Some implies from.contains(k) by {
            if k < v.len() - 1 {
                assert(head[k] == v[k]);
                let j = choose|j: int| 0 <= j < most.len() && most[j] == k;
                assert(from[j] == k);
            } else {
                assert(from[from.len() - 1] == k);
            }
        }
        from
    }
}

/// What a shell sets comes before what a file sets, unless it is empty.
pub proof fn the_shell_outranks_the_file(shell: Seq<char>, file: Option<Seq<char>>)
    ensures
        shell.len() > 0 ==> shell_or(Some(shell), file) == Some(shell),
        shell.len() == 0 ==> shell_or(Some(shell), file) == file,
        shell_or(None, file) == file,
{
}

/// The endpoint is the shell's, or else the file's, or else the default.
pub proof fn an_endpoint_is_settled(env: ProviderEnv, review: Review)
    ensures
        env.base_url is Some && opt(env.base_url).unwrap().len() > 0 ==> endpoint_of(env, review)
            == opt(env.base_url).unwrap(),
        env.base_url is None && review.base_url is Some ==> endpoint_of(env, review) == opt(
            review.base_url,
        ).unwrap(),
        env.base_url is None && review.base_url is None ==> endpoint_of(env, review)
            == DEFAULT_BASE_URL@,
{
}

/// The model is the flag's, or else the shell's, or else the file's, or else the
/// default.
pub proof fn a_model_is_settled(env: ProviderEnv, review: Review, flag: Option<Seq<char>>)
    ensures
        flag matches Some(m) ==> model_of(env, review, flag) == m,
        flag is None && env.model is Some && opt(env.model).unwrap().len() > 0 ==> model_of(
            env,
            review,
            flag,
        ) == opt(env.model).unwrap(),
        flag is None && env.model is None && review.model is Some ==> model_of(env, review, flag)
            == opt(review.model).unwrap(),
        flag is None && env.model is None && review.model is None ==> model_of(env, review, flag)
            == DEFAULT_MODEL@,
{
}

/// The effort is the flag's, or else what the shell's word means, or else the
/// configured one, or else the default; a word without a meaning is passed over
/// with a note.
pub proof fn an_effort_is_settled(
    flag: Option<Effort>,
    env: ProviderEnv,
    configured: Option<Effort>,
    default: Effort,
)
    ensures
        flag matches Some(e) ==> effort_used(flag, env, configured, default) == e && effort_note(
            flag,
            env,
        ) is None,
        flag is None && effort_asked(env) is None && configured is Some ==> effort_used(
            flag,
            env,
            configured,
            default,
        ) == configured.unwrap(),
        flag is None && effort_asked(env) is None && configured is None ==> effort_used(
            flag,
            env,
            configured,
            default,
        ) == default,
        flag is None && effort_asked(env) is Some && effort_of(effort_asked(env).unwrap()) is Some
            ==> effort_used(flag, env, configured, default) == effort_of(
            effort_asked(env).unwrap(),
        ).unwrap() && effort_note(flag, env) is None,
        flag is None && effort_asked(env) is Some && effort_of(effort_asked(env).unwrap()) is None
            ==> effort_note(flag, env) is Some && effort_used(flag, env, configured, default)
            == effort_used(
            None,
            ProviderEnv { effort: None, reasoning_effort: None, ..env },
            configured,
            default,
        ),
        env.effort is Some && opt(env.effort).unwrap().len() > 0 ==> effort_asked(env) == opt(
            env.effort,
        ),
{
}

/// The cap on a reply is the number the environment gives, or else the
/// configured one, or else the default; zero lifts it.
pub proof fn a_cap_is_settled(configured: Option<u32>, n: u32)
    requires
        trimmed(dec(n as nat)) == dec(n as nat),
        dec(n as nat) != "none"@,
        dec(n as nat) != "off"@,
    ensures
        n > 0 && dec(n as nat) != "0"@ ==> cap_from(configured, Some(dec(n as nat))) == Some(n),
        cap_from(Some(0), None) is None,
        configured is Some && configured.unwrap() > 0 ==> cap_from(configured, None) == configured,
        cap_from(None, None) == Some(crate::client::config::DEFAULT_MAX_TOKENS),
{
    dec_reads_back(n as nat, u32::MAX as nat);
}

/// The web is searched where the shell says so, and where it is silent, where
/// the settings do.
pub proof fn searching_is_settled(env: ProviderEnv, configured: Option<bool>)
    ensures
        env.web_search is None ==> (searches(env, configured) <==> configured == Some(true)),
        env.web_search is Some && trimmed(opt(env.web_search).unwrap()) == "on"@ && opt(
            env.web_search,
        ).unwrap().len() > 0 ==> searches(env, configured),
{
}

/// A login is offered for the endpoint at hand: a subscription's own, or the
/// router's only for the router.
pub proof fn logins_fit_the_endpoint(base_url: Seq<char>, codex: bool)
    ensures
        codex ==> login_for(base_url, codex) == Some("codex"@),
        !codex && openrouter(base_url) ==> login_for(base_url, codex) == Some("openrouter"@),
        !codex && !openrouter(base_url) && !holds(base_url, "z.ai"@) ==> login_for(
            base_url,
            codex,
        ) is None,
        openrouter(base_url) ==> attribution_of(base_url).len() == 2,
{
}

/// The ways in name the provider and every variable that could hold its key.
pub proof fn the_ways_in_name_the_variables(s: Setup, i: int)
    requires
        0 <= i < s.key_vars@.len(),
    ensures
        opt(s.login) != Some("codex"@) ==> holds(ways_in(s)[0], s.provider@),
        holds(ways_in(s).last(), s.key_vars@[i]@),
{
    let vars = texts(s.key_vars@);
    lemma_holds_between("no key for "@, s.provider@, " yet. Ways in:"@);
    let row = ways_in(s).last();
    assert(vars[i] == s.key_vars@[i]@);
    if i == 0 {
        let rest = row.skip(("  export "@ + vars[0]).len() as int);
        assert(row =~= "  export "@ + vars[0] + rest);
        lemma_holds_between("  export "@, vars[0], rest);
    } else {
        let others = vars.skip(1);
        let mid = joined(others, ", "@);
        lemma_joined_holds(others, ", "@, i - 1);
        assert(others[i - 1] == vars[i]);
        let front = "  export "@ + vars[0] + "=…"@ + "   (or "@;
        assert(row =~= front + mid + ")"@);
        lemma_holds_wider(front, mid, ")"@, vars[i]);
    }
}

/// A report tells the model, the provider, the endpoint and the file, each under
/// its key.
pub proof fn a_report_tells_what_is_set(p: Report)
    ensures
        report_value(p).text_at("model"@) == Some(p.model@),
        report_value(p).text_at("provider"@) == Some(p.label@),
        report_value(p).text_at("base_url"@) == Some(p.base_url@),
        report_value(p).text_at("config"@) == Some(p.config@),
        report_value(p).text_at("also"@) == opt(p.also),
{
    broadcast use {found_after_push, nothing_in_nothing};

    lemma_report_keys();
}

/// A report tells whether there is a key and where it comes from.
pub proof fn a_report_tells_of_the_key(p: Report)
    ensures
        report_value(p).boolean_at("has_key"@) == Some(p.source is Some),
        report_value(p).text_at("key_source"@) == Some(source_word(p.source)),
        p.source is None <==> source_word(p.source) == "none"@,
{
    broadcast use {found_after_push, nothing_in_nothing};

    lemma_report_keys();
    reveal_strlit("provider");
    reveal_strlit("shared");
    reveal_strlit("local");
    reveal_strlit("none");
    assert("none"@.len() == 4 && "provider"@.len() == 8 && "shared"@.len() == 6 && "local"@.len()
        == 5);
}

proof fn lemma_report_keys()
    ensures
        "ok"@.len() == 2,
        "model"@.len() == 5,
        "provider"@.len() == 8 && "provider"@[0] == 'p',
        "base_url"@.len() == 8 && "base_url"@[0] == 'b',
        "config"@.len() == 6,
        "also"@.len() == 4,
        "key_env"@.len() == 7 && "key_env"@[0] == 'k',
        "has_key"@.len() == 7 && "has_key"@[0] == 'h',
        "key_source"@.len() == 10,
        "shadowed_by_env"@.len() == 15,
{
    reveal_strlit("ok");
    reveal_strlit("model");
    reveal_strlit("provider");
    reveal_strlit("base_url");
    reveal_strlit("config");
    reveal_strlit("also");
    reveal_strlit("key_env");
    reveal_strlit("has_key");
    reveal_strlit("key_source");
    reveal_strlit("shadowed_by_env");
}

/// The lines of a report close with the provider, the model and the file.
pub proof fn a_report_shows_what_is_set(p: Report)
    ensures
        report_text(p).len() == if p.also is Some { 4int } else { 3 },
        closes(report_text(p)[0], p.label@),
        closes(report_text(p)[1], p.model@),
        closes(report_text(p)[2], p.config@),
{
    let v = report_text(p);
    assert(v[0].skip(v[0].len() - p.label@.len()) =~= p.label@);
    assert(v[1].skip(v[1].len() - p.model@.len()) =~= p.model@);
    assert(v[2].skip(v[2].len() - p.config@.len()) =~= p.config@);
}

/// A key that is missing is told of with every variable it could be under, and a
/// variable that outranks what was saved is named.
pub proof fn missing_and_shadowed_keys_are_told(p: Report, i: int)
    ensures
        p.source is None && !p.codex && 0 <= i < p.key_vars@.len() ==> (key_note(p) matches Some(
            note,
        ) && holds(note, p.key_vars@[i]@)),
        p.source == Some(KeySource::Provider) || p.source == Some(KeySource::Local) ==> key_note(
            p,
        ) is None,
        0 <= i < p.shadowed@.len() ==> shadow_notes(texts(p.shadowed@)).len() == p.shadowed@.len()
            && holds(shadow_notes(texts(p.shadowed@))[i], p.shadowed@[i]@),
{
    if p.source is None && !p.codex && 0 <= i < p.key_vars@.len() {
        let vars = texts(p.key_vars@);
        let mid = joined(vars, " or "@);
        lemma_joined_holds(vars, " or "@, i);
        lemma_holds_wider(
            "note: no key for this endpoint; set "@,
            mid,
            ", or run `aster init`"@,
            vars[i],
        );
    }
    if 0 <= i < p.shadowed@.len() {
        lemma_holds_between(
            "note: "@,
            texts(p.shadowed@)[i],
            " is set in this shell and outranks the saved value"@,
        );
    }
}

/// The router's pick is the model used, and where it fails the default is.
pub proof fn the_routers_pick_is_used(routed: Routed)
    ensures
        routed matches Routed::Pick { model, from_cache, figures } ==> routed_model(routed).0
            == model@ && holds(routed_model(routed).1, model@),
        routed matches Routed::Failed(e) ==> routed_model(routed).0 == DEFAULT_MODEL@ && holds(
            routed_model(routed).1,
            e@,
        ),
{
    let note = routed_model(routed).1;
    match routed {
        Routed::Pick { model, from_cache, figures } => {
            let a = "note: router picked "@;
            let b = "note: model router unavailable, using the default "@;
            if model@ != DEFAULT_MODEL@ || from_cache {
                let rest = note.skip((a + model@).len() as int);
                assert(note =~= a + model@ + rest);
                lemma_holds_between(a, model@, rest);
            } else {
                let rest = note.skip((b + model@).len() as int);
                assert(note =~= b + model@ + rest);
                lemma_holds_between(b, model@, rest);
            }
        },
        Routed::Failed(e) => {
            let a = "note: model router failed ("@;
            let rest = note.skip((a + e@).len() as int);
            assert(note =~= a + e@ + rest);
            lemma_holds_between(a, e@, rest);
        },
    }
}

/// What is recommended is the shortlist, or the one example where there is none.
pub proof fn the_shortlist_is_recommended(l: Listing)
    ensures
        l.shortlist@.len() > 0 ==> recommended(Some(l)) == texts(l.shortlist@),
        l.shortlist@.len() == 0 && l.example@.len() > 0 ==> recommended(Some(l)) == seq![
            l.example@,
        ],
        recommended(None).len() == 0,
{
}

/// A cap that is no number is told of, and a number or a word for none is not.
pub proof fn a_bad_cap_is_told(n: u32)
    requires
        trimmed(dec(n as nat)) == dec(n as nat),
    ensures
        cap_note(Some(dec(n as nat))) is None,
        cap_note(None) is None,
{
    dec_reads_back(n as nat, u32::MAX as nat);
}

/// The addresses of providers are those that are whole, each with its id, in
/// order.
pub proof fn whole_addresses_are_listed(v: Seq<Provider>, env: TemplateEnv) -> (from: Seq<int>)
    ensures
        from.len() == base_urls(v, env).len(),
        forall|i: int|
            0 <= i < from.len() ==> 0 <= #[trigger] from[i] < v.len() && base_urls(v, env)[i].0
                == v[from[i]].id@ && Some(base_urls(v, env)[i].1) == resolved_url(
                v[from[i]].base_url@,
                env,
            ),
        forall|i: int, j: int| 0 <= i < j < from.len() ==> #[trigger] from[i] < #[trigger] from[j],
        forall|k: int|
            0 <= k < v.len() && resolved_url((#[trigger] v[k]).base_url@, env) is Some
                ==> from.contains(k),
    decreases v.len(),
{
    if v.len() == 0 {
        Seq::empty()
    } else {
        let head = v.drop_last();
        let most = whole_addresses_are_listed(head, env);
        let from = if resolved_url(v.last().base_url@, env) is Some {
            most.push(v.len() - 1)
        } else {
            most
        };
        assert forall|i: int| 0 <= i < most.len() implies head[#[trigger] most[i]] == v[most[i]] by {}
        assert forall|k: int|
            0 <= k < v.len() && resolved_url(
                (#[trigger] v[k]).base_url@,
                env,
            ) is Some implies from.contains(k) by {
            if k < v.len() - 1 {
                assert(head[k] == v[k]);
                let j = choose|j: int| 0 <= j < most.len() && most[j] == k;
                assert(from[j] == k);
            } else {
                assert(from[from.len() - 1] == k);
            }
        }
        from
    }
}

/// A probe is noted with the provider, how many models it serves, how many of the
/// shortlist are kept, and how many are gone where some are.
pub proof fn a_probe_is_noted(id: Seq<char>, served: nat, kept: nat, listed: nat)
    requires
        kept <= listed,
    ensures
        opens(probe_note(id, served as int, kept as int, listed as int), id),
        holds(
            probe_note(id, served as int, kept as int, listed as int),
            dec(served) + " served"@,
        ),
        holds(probe_note(id, served as int, kept as int, listed as int), dec(kept) + " kept"@),
        kept < listed ==> closes(
            probe_note(id, served as int, kept as int, listed as int),
            dec((listed - kept) as nat) + " gone"@,
        ),
{
    let note = probe_note(id, served as int, kept as int, listed as int);
    let label = crate::text::number::padded_right(id, 16);
    assert(label.take(id.len() as int) =~= id);
    assert(note.take(id.len() as int) =~= label.take(id.len() as int));
    reveal_strlit(" served · ");
    reveal_strlit(" served");
    let end = " served · "@;
    assert(end =~= " served"@ + end.skip(7));
    let front = label + " "@;
    let first = dec(served) + " served"@;
    let rest = note.skip((front + first).len() as int);
    assert(note =~= front + first + rest);
    lemma_holds_between(front, first, rest);
    let head = label + " "@ + dec(served) + end;
    let second = dec(kept) + " kept"@;
    let tail = note.skip((head + second).len() as int);
    assert(note =~= head + second + tail);
    lemma_holds_between(head, second, tail);
    if kept < listed {
        let gone = dec((listed - kept) as nat) + " gone"@;
        assert(note.skip(note.len() - gone.len()) =~= gone);
    }
}

/// The first line of a text is its first.
pub proof fn the_first_line_is_first(x: Seq<char>, rest: Seq<char>)
    requires
        !x.contains('\n'),
        x.len() > 0,
        x.last() != '\r',
    ensures
        first_line_of(x + seq!['\n'] + rest) == x,
        first_line_of(x) == x,
{
    crate::text::laws::lines_end_at_line_breaks(x, rest);
}

/// The words that lift the cap are taken without a note.
pub proof fn lifting_the_cap_is_no_mistake(word: Seq<char>)
    requires
        word == "0"@ || word == "none"@ || word == "off"@,
        trimmed(word) == word,
    ensures
        cap_note(Some(word)) is None,
        cap_from(None, Some(word)) is None,
{
}

} // verus!
