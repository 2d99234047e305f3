use aster::login::codex;
use aster::login::logins::found;
use aster::provider::found_logins;
use base64::Engine;

fn b64(text: &str) -> String {
    base64::engine::general_purpose::URL_SAFE_NO_PAD.encode(text.as_bytes())
}

fn fake_jwt(claims: &str) -> String {
    format!("{}.{}.sig", b64("{\"alg\":\"none\"}"), b64(claims))
}

fn auth_with(id_token: String, access_token: String) -> codex::CodexAuth {
    codex::CodexAuth {
        openai_api_key: None,
        tokens: Some(codex::TokenSet {
            id_token,
            access_token,
            refresh_token: "rt".to_string(),
            account_id: None,
        }),
        last_refresh: None,
    }
}

fn nothing_stored() -> codex::Stores {
    codex::Stores { own: None, legacy_data: None, legacy_home: None, cli: None }
}

#[test]
fn finds_a_codex_cli_sign_in_with_its_account() {
    let home = tempfile::tempdir().expect("tempdir");
    let home = home.path().to_string_lossy().to_string();
    let auth = auth_with(fake_jwt("{\"email\":\"me@example.com\"}"), "at".to_string());
    assert_eq!(codex::codex_cli_path(&home), format!("{home}/.codex/auth.json"));

    let stores = codex::Stores { cli: Some(auth), ..nothing_stored() };
    let loaded = codex::load(stores).map(|(auth, _)| auth);
    let logins = found(&loaded);
    assert_eq!(logins.len(), 1);
    assert_eq!(logins[0].provider, "codex");
    assert_eq!(logins[0].name, "ChatGPT");
    assert_eq!(logins[0].base_url, codex::CODEX_BASE_URL);
    assert_eq!(logins[0].account, Some("me@example.com".to_string()));
}

#[test]
fn finds_nothing_in_an_empty_home() {
    let loaded = codex::load(nothing_stored()).map(|(auth, _)| auth);
    assert_eq!(found(&loaded).len(), 0);
    assert_eq!(found_logins(&loaded).len(), 0);
}

#[test]
fn our_own_store_comes_before_the_cli() {
    let stores = codex::Stores {
        own: Some(auth_with("a.b.c".to_string(), "own".to_string())),
        cli: Some(auth_with("a.b.c".to_string(), "cli".to_string())),
        ..nothing_stored()
    };
    let (auth, place) = codex::load(stores).expect("a login");
    assert_eq!(auth.tokens.expect("tokens").access_token, "own");
    assert!(matches!(place, codex::Place::Own));
}

#[test]
fn claims_come_from_the_middle_part_of_a_token() {
    let token = fake_jwt("{\"exp\":1000,\"email\":\"x@y.z\"}");
    let exp = codex::jwt_claim(&token, "exp").expect("exp");
    assert_eq!(exp.as_u64(), Some(1000));
    assert!(codex::jwt_claim(&token, "nope").is_none());
    assert!(codex::jwt_claim("no dots", "exp").is_none());
    assert!(codex::jwt_claim("a.***.c", "exp").is_none());
}

#[test]
fn a_token_is_stale_shortly_before_it_expires() {
    let token = fake_jwt("{\"exp\":1000}");
    assert!(!codex::expired(&token, 100));
    assert!(codex::expired(&token, 1000));
    assert!(codex::expired(&token, 5000));
}

#[test]
fn a_stale_token_is_refreshed_and_a_missing_one_is_not_sent() {
    let fresh = Some(auth_with("i".to_string(), fake_jwt("{\"exp\":100000}")));
    match codex::ensure_access_token(&fresh, 10) {
        codex::TokenStep::Send(t) => assert_eq!(t, fake_jwt("{\"exp\":100000}")),
        _ => panic!("expected the token itself"),
    }
    let old = Some(auth_with("i".to_string(), fake_jwt("{\"exp\":5}")));
    assert!(matches!(codex::ensure_access_token(&old, 10), codex::TokenStep::Refresh));
    assert!(matches!(codex::ensure_access_token(&None, 10), codex::TokenStep::NotLoggedIn));
}

#[test]
fn refreshing_keeps_what_the_reply_leaves_out() {
    let auth = auth_with("old id".to_string(), "old".to_string());
    let reply = codex::TokenResponse {
        access_token: "new".to_string(),
        id_token: None,
        refresh_token: None,
    };
    let auth = match codex::refresh_with(auth, reply, "2024-01-01T00:00:00Z") {
        Ok(a) => a,
        Err(e) => panic!("{e}"),
    };
    let tokens = auth.tokens.expect("tokens");
    assert_eq!(tokens.access_token, "new");
    assert_eq!(tokens.id_token, "old id");
    assert_eq!(tokens.refresh_token, "rt");
    assert_eq!(auth.last_refresh, Some("2024-01-01T00:00:00Z".to_string()));
}

#[test]
fn the_authorize_url_carries_the_challenge_and_the_state() {
    let url = codex::authorize_url("ch al", "st").expect("a url");
    assert!(url.starts_with("https://auth.openai.com/oauth/authorize?"));
    assert!(url.contains("code_challenge=ch+al"));
    assert!(url.contains("state=st"));
    assert!(url.contains("redirect_uri=http%3A%2F%2Flocalhost%3A1455%2Fauth%2Fcallback"));
    assert_eq!(codex::home_display(&url), "https://auth.openai.com/oauth/authorize");
}

#[test]
fn a_callback_is_judged_by_its_state() {
    let ok = "GET /auth/callback?code=a%20b&state=s HTTP/1.1";
    match codex::parse_callback(ok, "s") {
        codex::Callback::Code(c) => assert_eq!(c, "a b"),
        _ => panic!("expected a code"),
    }
    let foreign = "GET /auth/callback?code=c&state=other HTTP/1.1";
    assert!(matches!(codex::parse_callback(foreign, "s"), codex::Callback::Refused(_)));
    let denied = "GET /auth/callback?error=access_denied&state=s HTTP/1.1";
    assert!(matches!(codex::parse_callback(denied, "s"), codex::Callback::Refused(_)));
    let other = "GET /favicon.ico HTTP/1.1";
    assert!(matches!(codex::parse_callback(other, "s"), codex::Callback::NotTheRedirect));
}

#[test]
fn stores_live_under_the_data_directory() {
    assert!(codex::store_path("/h", &None).starts_with("/h/"));
    assert!(codex::store_path("/h", &Some("/x".to_string())).starts_with("/x/"));
}

#[test]
fn a_login_at_an_old_place_is_found_again_once_moved() {
    let auth = || Some(auth_with("a.b.c".to_string(), "old".to_string()));
    let stores = codex::Stores { legacy_home: auth(), cli: auth(), ..nothing_stored() };
    let (found, place) = codex::load(stores).expect("a login");
    assert_eq!(codex::moved_from(place), Some(1));
    let stores = codex::Stores { own: Some(found), cli: auth(), ..nothing_stored() };
    let (found, place) = codex::load(stores).expect("a login");
    assert_eq!(found.tokens.expect("tokens").access_token, "old");
    assert_eq!(codex::moved_from(place), None);
    assert_eq!(codex::moved_from(codex::Place::LegacyData), Some(0));
}
