//! What holds of every login.

use vstd::prelude::*;

use crate::json::JsonV;
use crate::login::codex::{
    authorize_params, callback_meaning, data_path, is_stale, loaded, param_of, refreshed,
    request_target, token_payload, usable, without_query, AuthV, Callback, Place, Stores,
    TokenResponse, CLIENT_ID, REDIRECT_URI, SCOPES,
};
use crate::text::affix::opens;
use crate::text::opt;
use crate::text::path::joined_path;
use crate::text::pieces::{cut_all, first_of, lemma_first_of, lemma_first_of_meaning, words_of};

verus! {

/// The login that is used is the first with tokens: this program's own before
/// the old places, and those before another program's. One without tokens is
/// never used, nor hides another.
pub proof fn the_own_login_comes_first(s: Stores)
    ensures
        usable(s.own) ==> loaded(s) == Some((s.own.unwrap(), Place::Own)),
        !usable(s.own) && usable(s.legacy_data) ==> loaded(s) == Some(
            (s.legacy_data.unwrap(), Place::LegacyData),
        ),
        !usable(s.own) && !usable(s.legacy_data) && usable(s.legacy_home) ==> loaded(s) == Some(
            (s.legacy_home.unwrap(), Place::LegacyHome),
        ),
        loaded(s) matches Some((a, place)) ==> a.tokens is Some && (place == Place::Cli ==> s.cli
            == Some(a) && !usable(s.own) && !usable(s.legacy_data) && !usable(s.legacy_home)),
        loaded(s) is None <==> !usable(s.own) && !usable(s.legacy_data) && !usable(s.legacy_home)
            && !usable(s.cli),
{
}

/// The claims of a token stand in its second part.
pub proof fn claims_stand_in_the_second_part(
    head: Seq<char>,
    body: Seq<char>,
    tail: Seq<char>,
)
    requires
        !head.contains('.'),
        !body.contains('.'),
    ensures
        token_payload(head + seq!['.'] + body + seq!['.'] + tail) == Some(body),
        token_payload(head) is None,
{
    let token = head + seq!['.'] + body + seq!['.'] + tail;
    let n = head.len() as int;
    assert forall|k: int| 0 <= k < n implies #[trigger] token[k] != '.' by {
        assert(token[k] == head[k]);
    }
    assert(token[n] == '.');
    lemma_first_of(token, '.', n);
    let rest = token.skip(n + 1);
    let m = body.len() as int;
    assert(rest =~= body + seq!['.'] + tail);
    assert forall|k: int| 0 <= k < m implies #[trigger] rest[k] != '.' by {
        assert(rest[k] == body[k]);
    }
    assert(rest[m] == '.');
    lemma_first_of(rest, '.', m);
    assert(rest.take(m) =~= body);
    let after = cut_all(rest.skip(m + 1), '.');
    assert(cut_all(rest, '.') == seq![body] + after);
    assert(cut_all(token, '.') == seq![token.take(n)] + cut_all(rest, '.'));
    assert(cut_all(token, '.')[1] == body);
    lemma_first_of_meaning(head, '.');
    assert(cut_all(head, '.') =~= seq![head]);
}

/// A token is sent only while it holds for a minute more; one whose end is not
/// known is refreshed.
pub proof fn only_fresh_tokens_are_sent(t: u64, now: int)
    ensures
        is_stale(Some(JsonV::Number(t)), now) <==> t < now + 60,
        is_stale(None, now),
{
}

/// A refreshed login has the tokens that came, and keeps those that did not; the
/// account and the key stay.
pub proof fn a_refresh_takes_what_came(a: AuthV, r: TokenResponse, now: Seq<char>)
    requires
        a.tokens is Some,
    ensures
        ({
            let t = refreshed(a, r, now).tokens.unwrap();
            &&& t.access_token == r.access_token@
            &&& opt(r.id_token) matches Some(id) ==> t.id_token == id
            &&& r.id_token is None ==> t.id_token == a.tokens.unwrap().id_token
            &&& opt(r.refresh_token) matches Some(x) ==> t.refresh_token == x
            &&& r.refresh_token is None ==> t.refresh_token == a.tokens.unwrap().refresh_token
            &&& t.account_id == a.tokens.unwrap().account_id
            &&& refreshed(a, r, now).openai_api_key == a.openai_api_key
            &&& refreshed(a, r, now).last_refresh == Some(now)
        }),
{
}

/// A parameter is the first of its name.
pub proof fn a_parameter_is_the_first_of_its_name(
    v: Seq<(Seq<char>, Seq<char>)>,
    name: Seq<char>,
    i: int,
)
    requires
        0 <= i <= v.len(),
        forall|k: int| 0 <= k < i ==> (#[trigger] v[k]).0 != name,
        i < v.len() ==> v[i].0 == name,
    ensures
        i < v.len() ==> param_of(v, name) == Some(v[i].1),
        i == v.len() ==> param_of(v, name) is None,
    decreases i,
{
    if i > 0 {
        assert(v[0].0 != name);
        let t = v.drop_first();
        assert forall|k: int| 0 <= k < i - 1 implies (#[trigger] t[k]).0 != name by {
            assert(t[k] == v[k + 1]);
        }
        a_parameter_is_the_first_of_its_name(t, name, i - 1);
    }
}

/// A login asks for a code with this attempt's own challenge and state, for this
/// program, and to be sent back to it.
pub proof fn a_login_asks_with_its_own_state(challenge: Seq<char>, state: Seq<char>)
    ensures
        param_of(authorize_params(challenge, state), "state"@) == Some(state),
        param_of(authorize_params(challenge, state), "code_challenge"@) == Some(challenge),
        param_of(authorize_params(challenge, state), "code_challenge_method"@) == Some("S256"@),
        param_of(authorize_params(challenge, state), "response_type"@) == Some("code"@),
        param_of(authorize_params(challenge, state), "client_id"@) == Some(CLIENT_ID@),
        param_of(authorize_params(challenge, state), "redirect_uri"@) == Some(REDIRECT_URI@),
        param_of(authorize_params(challenge, state), "scope"@) == Some(SCOPES@),
{
    reveal_strlit("state");
    reveal_strlit("code_challenge");
    reveal_strlit("code_challenge_method");
    reveal_strlit("response_type");
    reveal_strlit("client_id");
    reveal_strlit("redirect_uri");
    reveal_strlit("scope");
    assert("state"@.len() == 5 && "scope"@.len() == 5 && "state"@[1] == 't' && "scope"@[1] == 'c');
    assert("code_challenge"@.len() == 14 && "code_challenge_method"@.len() == 21);
    assert("response_type"@.len() == 13 && "client_id"@.len() == 9 && "redirect_uri"@.len() == 12);
    let v = authorize_params(challenge, state);
    a_parameter_is_the_first_of_its_name(v, "response_type"@, 0);
    a_parameter_is_the_first_of_its_name(v, "client_id"@, 1);
    a_parameter_is_the_first_of_its_name(v, "redirect_uri"@, 2);
    a_parameter_is_the_first_of_its_name(v, "scope"@, 3);
    a_parameter_is_the_first_of_its_name(v, "code_challenge"@, 4);
    a_parameter_is_the_first_of_its_name(v, "code_challenge_method"@, 5);
    a_parameter_is_the_first_of_its_name(v, "state"@, 6);
}

/// A redirect gives its code exactly when it has one, has this attempt's state
/// and no error; the code is the one it has.
pub proof fn a_redirect_gives_its_own_code(
    c: Callback,
    v: Seq<(Seq<char>, Seq<char>)>,
    state: Seq<char>,
)
    requires
        callback_meaning(c, v, state),
    ensures
        c is Code <==> param_of(v, "error"@) is None && param_of(v, "code"@) is Some && param_of(
            v,
            "state"@,
        ) == Some(state),
        c matches Callback::Code(s) ==> param_of(v, "code"@) == Some(s@),
        c is NotTheRedirect <==> param_of(v, "error"@) is None && param_of(v, "code"@) is None,
        param_of(v, "error"@) is Some ==> c is Refused,
{
}

/// What a request asks for is its second word.
pub proof fn a_request_asks_for_its_second_word(req: Seq<char>)
    ensures
        words_of(req).len() >= 2 ==> request_target(req) == words_of(req)[1],
        words_of(req).len() < 2 ==> request_target(req).len() == 0,
{
}

/// An address is shown up to its query.
pub proof fn queries_are_not_shown(url: Seq<char>)
    ensures
        opens(url, without_query(url)),
        !without_query(url).contains('?'),
        !url.contains('?') ==> without_query(url) == url,
{
    lemma_first_of_meaning(url, '?');
    let n = first_of(url, '?') as int;
    let shown = without_query(url);
    assert forall|k: int| 0 <= k < shown.len() implies shown[k] != '?' by {
        assert(shown[k] == url[k]);
    }
    assert(url.take(n) == shown);
    if !url.contains('?') {
        assert(url.take(n) =~= url);
    }
}

/// Logins are kept under the user's data directory, where that is set, and else
/// under the home directory.
pub proof fn logins_are_kept_with_the_data(home: Seq<char>, dir: Seq<char>)
    ensures
        dir.len() > 0 ==> data_path(home, Some(dir)) == joined_path(dir, "aster"@),
        data_path(home, None) == joined_path(
            joined_path(joined_path(home, ".local"@), "share"@),
            "aster"@,
        ),
        data_path(home, Some(Seq::empty())) == data_path(home, None),
{
}

} // verus!
