//! What holds of every setup: what is asked, what is offered, what is written.

use vstd::prelude::*;

use crate::catalog::{bare, Provider};
use crate::login::logins::Login;
use crate::settings::yaml::scalar;
use crate::setup::menus::{
    count_set, first_index, hint_of, kept_keys, key_row, key_start, listed_row, local_row, login_of,
    model_items, offered, prompt_of, sign_in_entry, sign_in_hint, sign_in_row, stored_keys,
    typed_or, web_label, web_row, Configured,
};
use crate::setup::{
    ending, first_set_var, in_use, key_var, plain_ending, scaffolded, wrote_text, Current,
    SCAFFOLD_HEAD, SCAFFOLD_MIDDLE, SCAFFOLD_TAIL,
};
use crate::config::key::WebProvider;
use crate::text::affix::{closes, holds, lemma_holds_between, opens, trimmed};
use crate::text::{opt, pairs};

verus! {

/// The first place is one where it holds, and it holds nowhere before.
pub proof fn the_first_place_is_first(n: nat, p: spec_fn(int) -> bool)
    ensures
        match first_index(n, p) {
            Some(i) => 0 <= i < n && p(i) && forall|k: int| 0 <= k < i ==> !#[trigger] p(k),
            None => forall|k: int| 0 <= k < n ==> !#[trigger] p(k),
        },
    decreases n,
{
    if n > 0 {
        the_first_place_is_first((n - 1) as nat, p);
    }
}

/// Of the keys that were typed those that are not blank are stored, each under
/// its own variable and without the blanks around it, in order.
pub proof fn typed_keys_are_stored(v: Seq<(Seq<char>, Seq<char>)>) -> (from: Seq<int>)
    ensures
        from.len() == kept_keys(v).len(),
        forall|i: int|
            0 <= i < from.len() ==> 0 <= #[trigger] from[i] < v.len() && kept_keys(v)[i].0
                == v[from[i]].0 && kept_keys(v)[i].1 == trimmed(v[from[i]].1) && trimmed(
                v[from[i]].1,
            ).len() > 0,
        forall|i: int, j: int| 0 <= i < j < from.len() ==> #[trigger] from[i] < #[trigger] from[j],
        forall|k: int|
            0 <= k < v.len() && trimmed((#[trigger] v[k]).1).len() > 0 ==> from.contains(k),
    decreases v.len(),
{
    if v.len() == 0 {
        Seq::empty()
    } else {
        let head = v.drop_last();
        let most = typed_keys_are_stored(head);
        let from = if trimmed(v.last().1).len() > 0 { most.push(v.len() - 1) } else { most };
        assert forall|i: int| 0 <= i < most.len() implies head[#[trigger] most[i]] == v[most[i]] by {}
        assert forall|k: int|
            0 <= k < v.len() && trimmed((#[trigger] v[k]).1).len() > 0 implies from.contains(k) by {
            if k < v.len() - 1 {
                assert(head[k] == v[k]);
                let j = choose|j: int| 0 <= j < most.len() && most[j] == k;
                assert(from[j] == k);
            } else {
                assert(from[from.len() - 1] == k);
            }
        }
        from
    }
}

/// The key for the model is stored first, under the variable it was asked for.
pub proof fn the_models_key_is_stored(c: Configured)
    ensures
        c.api_key is Some && c.key_var is Some ==> stored_keys(c).len() == 1 + kept_keys(
            pairs(c.web_keys@),
        ).len() && stored_keys(c)[0] == (opt(c.key_var).unwrap(), trimmed(opt(c.api_key).unwrap())),
        c.api_key is None ==> stored_keys(c) == kept_keys(pairs(c.web_keys@)),
{
    if c.api_key is None {
        assert(stored_keys(c) =~= kept_keys(pairs(c.web_keys@)));
    }
}

/// A provider's variable is its own first one, and the shared one where it has
/// none.
pub proof fn a_provider_has_its_own_variable(vars: Seq<Seq<char>>, shared: Seq<char>)
    ensures
        vars.len() > 0 ==> key_var(vars, shared) == vars[0],
        vars.len() == 0 ==> key_var(vars, shared) == shared,
{
}

/// The key in use is that of the first variable that is set.
pub proof fn the_first_variable_set_counts(v: Seq<(String, bool)>, i: int)
    requires
        0 <= i <= v.len(),
        forall|k: int| 0 <= k < i ==> !(#[trigger] v[k]).1,
        i < v.len() ==> v[i].1,
    ensures
        i < v.len() ==> first_set_var(v) == Some(v[i].0@),
        i == v.len() ==> first_set_var(v) is None,
    decreases v.len(),
{
    if v.len() > 0 {
        let head = v.drop_last();
        let j = if i == v.len() { i - 1 } else { i };
        if j <= head.len() {
            assert forall|k: int| 0 <= k < j implies !(#[trigger] head[k]).1 by {
                assert(head[k] == v[k]);
            }
            the_first_variable_set_counts(head, j);
        }
        if i == v.len() {
            assert(!v[v.len() - 1].1);
        }
    }
}

/// A sign-in that is on this machine already is told with its account.
pub proof fn sign_ins_here_are_told(logins: Seq<Login>, i: int)
    ensures
        sign_in_row(logins, i).0 == sign_in_entry(i).1,
        login_of(logins, sign_in_entry(i).0) is None ==> sign_in_hint(logins, i) == sign_in_entry(
            i,
        ).2,
        login_of(logins, sign_in_entry(i).0) matches Some(k) ==> (opt(logins[k].account) matches Some(
            a,
        ) ==> closes(sign_in_hint(logins, i), a)),
{
    let id = sign_in_entry(i).0;
    match login_of(logins, id) {
        Some(k) => match opt(logins[k].account) {
            Some(a) => {
                let hint = sign_in_hint(logins, i);
                assert(hint.skip(hint.len() - a.len()) =~= a);
            },
            None => {},
        },
        None => {},
    }
}

/// The list of providers opens on the one in use, and marks that one alone; each
/// row has its own provider's name and address.
pub proof fn the_provider_in_use_is_marked(v: Seq<Provider>, c: Current, i: int)
    requires
        0 <= i < v.len(),
    ensures
        key_row(v, c, key_start(v, c), i).0 == v[i].name@,
        opens(key_row(v, c, key_start(v, c), i).1, v[i].base_url@),
        in_use(c, v[i].base_url@) ==> in_use(c, v[key_start(v, c)].base_url@) && key_start(v, c)
            <= i,
        !c.configured ==> key_start(v, c) == 0 && key_row(v, c, key_start(v, c), i).1
            == v[i].base_url@,
        i != key_start(v, c) ==> key_row(v, c, key_start(v, c), i).1 == v[i].base_url@,
{
    let p = |k: int| in_use(c, v[k].base_url@);
    the_first_place_is_first(v.len(), p);
    let row = key_row(v, c, key_start(v, c), i).1;
    assert(row.take(v[i].base_url@.len() as int) =~= v[i].base_url@);
    if in_use(c, v[i].base_url@) {
        assert(p(i));
    }
    if !c.configured {
        match first_index(v.len(), p) {
            Some(k) => {
                assert(p(k));
            },
            None => {},
        }
    }
}

/// An endpoint is in use where something is configured and its address is the
/// same, but for a slash at the end.
pub proof fn the_endpoint_in_use_is_the_configured_one(c: Current, base_url: Seq<char>)
    ensures
        c.configured && c.base_url@ == base_url ==> in_use(c, base_url),
        !c.configured ==> !in_use(c, base_url),
        in_use(c, base_url) ==> bare(c.base_url@) == bare(base_url),
{
}

/// Every model that is served is offered, and the one in use besides.
pub proof fn models_are_offered(models: Seq<Seq<char>>, c: Current, base_url: Seq<char>)
    ensures
        forall|i: int|
            0 <= i < models.len() ==> offered(models, c, base_url).contains(#[trigger] models[i]),
        in_use(c, base_url) ==> offered(models, c, base_url).contains(c.model@),
        !in_use(c, base_url) ==> offered(models, c, base_url) == models,
        offered(models, c, base_url).len() <= models.len() + 1,
{
    let all = offered(models, c, base_url);
    if in_use(c, base_url) && !models.contains(c.model@) {
        assert(all[0] == c.model@);
        assert forall|i: int| 0 <= i < models.len() implies all.contains(#[trigger] models[i]) by {
            assert(all[i + 1] == models[i]);
        }
    }
}

/// Each model is a row of its own, at its own place and by its own name, marked
/// where it is the one in use; behind them come the ways to another.
pub proof fn a_row_stands_for_its_model(
    models: Seq<Seq<char>>,
    c: Current,
    base_url: Seq<char>,
    has_key: bool,
    i: int,
)
    requires
        0 <= i < models.len(),
    ensures
        ({
            let rows = model_items(models, c, base_url, has_key);
            &&& rows.len() == models.len() + if has_key { 2nat } else { 1nat }
            &&& rows[i].value == i
            &&& rows[i].label == models[i]
            &&& rows[i].hint.len() > 0 <==> in_use(c, base_url) && models[i] == c.model@
            &&& rows.last().value == models.len() + 1
            &&& has_key ==> rows[models.len() as int].value == models.len()
        }),
{
    reveal_strlit("in use");
    reveal_strlit("");
}

/// What is typed counts, and where nothing is, what was proposed.
pub proof fn typing_replaces_the_proposal(typed: Seq<char>, proposal: Seq<char>)
    ensures
        trimmed(typed).len() > 0 ==> typed_or(typed, proposal) == trimmed(typed),
        trimmed(typed).len() == 0 ==> typed_or(typed, proposal) == proposal,
{
}

/// A local server is shown by its name and address, and by whether it answers.
pub proof fn local_servers_are_shown(p: Provider, running: bool)
    ensures
        local_row(p, running).0 == p.name@,
        opens(local_row(p, running).1, p.base_url@),
        running <==> closes(local_row(p, running).1, " · running"@),
{
    let row = local_row(p, running).1;
    assert(row.take(p.base_url@.len() as int) =~= p.base_url@);
    reveal_strlit(" · running");
    reveal_strlit(" · not answering");
    let end = " · running"@;
    if running {
        assert(row.skip(row.len() - end.len()) =~= end);
    } else {
        let tail = " · not answering"@;
        assert(tail.len() == 16 && end.len() == 10);
        assert(row[row.len() - 8] == tail[8]);
        assert(end[2] == ' ');
        if closes(row, end) {
            let last = row.skip(row.len() - end.len());
            assert(last[3] == end[3]);
            assert(last[3] == tail[9]);
        }
    }
}

/// A provider of web tools is shown by its name, with what its first key buys and
/// whether that is set.
pub proof fn web_tools_are_shown(p: WebProvider, set: bool)
    requires
        p.vars@.len() > 0,
    ensures
        web_row(p, set).0 == p.name@,
        opens(web_row(p, set).1, p.vars@[0].1@),
        !set ==> web_row(p, set).1 == p.vars@[0].1@,
{
    let hint = hint_of(set, p.vars@[0].1@);
    assert(hint.take(p.vars@[0].1@.len() as int) =~= p.vars@[0].1@);
}

/// A key is asked for by what it is, and one of several by its variable.
pub proof fn keys_are_asked_for_by_name(
    provider: Seq<char>,
    var: Seq<char>,
    vars: int,
    set: bool,
    what: Seq<char>,
)
    ensures
        opens(prompt_of(what, set), what),
        opens(web_label(provider, var, vars), provider),
        vars != 1 ==> closes(web_label(provider, var, vars), var),
{
    let asked = prompt_of(what, set);
    assert(asked.take(what.len() as int) =~= what);
    let label = web_label(provider, var, vars);
    assert(label.take(provider.len() as int) =~= provider);
    if vars != 1 {
        assert(label.skip(label.len() - var.len()) =~= var);
    }
}

/// One more key that is set adds one to the count.
pub proof fn set_keys_are_counted(v: Seq<bool>, one: bool)
    ensures
        count_set(v.push(one)) == count_set(v) + if one { 1nat } else { 0nat },
        count_set(v) <= v.len(),
    decreases v.len(),
{
    assert(v.push(one).drop_last() =~= v);
    if v.len() > 0 {
        set_keys_are_counted(v.drop_last(), one);
    }
}

/// A new settings file has the model and the endpoint that were picked, the one
/// under `model` and the other under `base_url`.
pub proof fn a_new_file_has_what_was_picked(base_url: Seq<char>, model: Seq<char>)
    ensures
        opens(scaffolded(base_url, model), SCAFFOLD_HEAD@ + scalar(model)),
        holds(scaffolded(base_url, model), SCAFFOLD_MIDDLE@ + scalar(base_url)),
        closes(scaffolded(base_url, model), SCAFFOLD_TAIL@),
{
    let text = scaffolded(base_url, model);
    let front = SCAFFOLD_HEAD@ + scalar(model);
    let mid = SCAFFOLD_MIDDLE@ + scalar(base_url);
    assert(text =~= front + mid + SCAFFOLD_TAIL@);
    assert(text.take(front.len() as int) =~= front);
    lemma_holds_between(front, mid, SCAFFOLD_TAIL@);
    assert(text.skip(text.len() - SCAFFOLD_TAIL@.len()) =~= SCAFFOLD_TAIL@);
}

/// What was written is told by its path.
pub proof fn what_was_written_is_told(rewrite: bool, shown: Seq<char>)
    ensures
        closes(wrote_text(rewrite, shown), shown),
        rewrite ==> opens(wrote_text(rewrite, shown), "Rewrote "@),
        !rewrite ==> opens(wrote_text(rewrite, shown), "Wrote "@),
{
    let text = wrote_text(rewrite, shown);
    assert(text.skip(text.len() - shown.len()) =~= shown);
    if rewrite {
        assert(text.take("Rewrote "@.len() as int) =~= "Rewrote "@);
    } else {
        assert(text.take("Wrote "@.len() as int) =~= "Wrote "@);
    }
}

/// A setup without a key ends with the variable to set; with one it ends ready
/// to run.
pub proof fn a_setup_ends_with_the_next_step(
    stored_key: bool,
    has_key: bool,
    global: bool,
    var: Seq<char>,
)
    ensures
        !stored_key && !has_key ==> holds(ending(true, stored_key, has_key, global, var), var),
        stored_key || has_key ==> ending(true, stored_key, has_key, global, var) == if global {
            "You're set. cd into any repo and run: aster"@
        } else {
            "You're set. Next: aster"@
        },
        !has_key ==> holds(plain_ending(global, has_key, var).0, var),
        has_key ==> plain_ending(global, has_key, var).1 == " aster"@,
{
    lemma_holds_between(
        "No API key yet. Set "@,
        var,
        " in your shell, or run `aster init` again to store one."@,
    );
}

/// A list of models is shown by their ids, and only the one in use is marked.
pub proof fn listed_models_are_shown(models: Seq<String>, serves: bool, at: int, i: int)
    requires
        0 <= i < models.len(),
    ensures
        listed_row(models, serves, at, i).0 == models[i]@,
        listed_row(models, serves, at, i).1.len() > 0 <==> serves && i == at,
{
    reveal_strlit("in use");
    reveal_strlit("");
}

} // verus!
