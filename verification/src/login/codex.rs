//! ChatGPT subscription auth for the Codex backend. The tokens are kept where
//! one login serves both this program and the Codex CLI.

use vstd::prelude::*;
use vstd::utf8::{decode_utf8, valid_utf8};

use crate::json::{Json, JsonV};
use crate::json_text::{json_text, lift_value, value_of};
use crate::text::affix::{opens, trim_end, trimmed_end};
use crate::text::number::{dec, decimal_usize};
use crate::text::path::{joined_path, path_join};
use crate::text::pieces::{cut_all, first_of, split, split_once, words, words_of};
use crate::text::utf8::{byte_len, utf8_len};
use crate::text::{cat2, cat4, cat5, opt, owned, pairs, same, texts};

verus! {

/// The client this program signs in as.
pub const CLIENT_ID: &'static str = "app_EMoamEEZ73f0CkXaXp7hrann";

/// Who issues the tokens.
pub const ISSUER: &'static str = "https://auth.openai.com";

/// Where tokens are exchanged and refreshed.
pub const TOKEN_URL: &'static str = "https://auth.openai.com/oauth/token";

/// Where a login starts.
pub const AUTHORIZE_URL: &'static str = "https://auth.openai.com/oauth/authorize";

/// The backend that takes the tokens.
pub const CODEX_BASE_URL: &'static str = "https://chatgpt.com/backend-api/codex";

/// The port the browser comes back to.
pub const CALLBACK_PORT: u16 = 1455;

/// What a login asks for.
pub const SCOPES: &'static str = "openid profile email offline_access";

/// Where the browser comes back to.
pub const REDIRECT_URI: &'static str = "http://localhost:1455/auth/callback";

/// Said where nobody is signed in.
pub const NOT_LOGGED_IN: &'static str =
    "no ChatGPT/Codex login found. Run `aster login codex`, or sign in once with the Codex CLI";

/// Said where a login has expired.
pub const LOGIN_EXPIRED: &'static str =
    "your ChatGPT login has expired; run `aster login codex` to sign in again";

/// The tokens of a login.
pub struct TokenSet {
    pub id_token: String,
    pub access_token: String,
    pub refresh_token: String,
    pub account_id: Option<String>,
}

/// What the store of a login holds.
pub struct CodexAuth {
    pub openai_api_key: Option<String>,
    pub tokens: Option<TokenSet>,
    pub last_refresh: Option<String>,
}

/// The model of the tokens.
#[verifier::ext_equal]
pub struct TokensV {
    pub id_token: Seq<char>,
    pub access_token: Seq<char>,
    pub refresh_token: Seq<char>,
    pub account_id: Option<Seq<char>>,
}

impl View for TokenSet {
    type V = TokensV;

    open spec fn view(&self) -> TokensV {
        TokensV {
            id_token: self.id_token@,
            access_token: self.access_token@,
            refresh_token: self.refresh_token@,
            account_id: opt(self.account_id),
        }
    }
}

/// The model of a store.
#[verifier::ext_equal]
pub struct AuthV {
    pub openai_api_key: Option<Seq<char>>,
    pub tokens: Option<TokensV>,
    pub last_refresh: Option<Seq<char>>,
}

impl View for CodexAuth {
    type V = AuthV;

    open spec fn view(&self) -> AuthV {
        AuthV {
            openai_api_key: opt(self.openai_api_key),
            tokens: match self.tokens {
                Some(t) => Some(t@),
                None => None,
            },
            last_refresh: opt(self.last_refresh),
        }
    }
}

/// The directory of this program's data.
pub open spec fn data_path(home: Seq<char>, xdg: Option<Seq<char>>) -> Seq<char> {
    let root = match xdg {
        Some(dir) => if dir.len() > 0 {
            dir
        } else {
            joined_path(joined_path(home, ".local"@), "share"@)
        },
        None => joined_path(joined_path(home, ".local"@), "share"@),
    };
    joined_path(root, "aster"@)
}

/// The directory of this program's data. `xdg` is `XDG_DATA_HOME` as it is set.
pub fn data_dir(home: &str, xdg: &Option<String>) -> (r: String)
    ensures
        r@ == data_path(home@, opt(*xdg)),
{
    match xdg {
        Some(dir) => if !dir.as_str().is_empty() {
            return path_join(dir.as_str(), "aster");
        },
        None => {},
    }
    path_join(path_join(path_join(home, ".local").as_str(), "share").as_str(), "aster")
}

/// Where this program keeps its own copy.
pub fn store_path(home: &str, xdg: &Option<String>) -> (r: String)
    ensures
        r@ == joined_path(data_path(home@, opt(*xdg)), "codex.json"@),
{
    path_join(data_dir(home, xdg).as_str(), "codex.json")
}

/// Where earlier versions kept it.
pub fn legacy_store_paths(home: &str, xdg: &Option<String>) -> (r: (String, String))
    ensures
        r.0@ == joined_path(joined_path(data_path(home@, opt(*xdg)), ".aster"@), "codex.json"@),
        r.1@ == joined_path(joined_path(home@, ".aster"@), "codex.json"@),
{
    (
        path_join(path_join(data_dir(home, xdg).as_str(), ".aster").as_str(), "codex.json"),
        path_join(path_join(home, ".aster").as_str(), "codex.json"),
    )
}

/// Where the Codex CLI keeps its own.
pub fn codex_cli_path(home: &str) -> (r: String)
    ensures
        r@ == joined_path(joined_path(home@, ".codex"@), "auth.json"@),
{
    path_join(path_join(home, ".codex").as_str(), "auth.json")
}

/// What the four places a login may be in hold; none for one that cannot be
/// read.
pub struct Stores {
    pub own: Option<CodexAuth>,
    pub legacy_data: Option<CodexAuth>,
    pub legacy_home: Option<CodexAuth>,
    pub cli: Option<CodexAuth>,
}

/// Where a login was found.
#[derive(Clone, Copy, PartialEq, Eq, Structural, Debug)]
pub enum Place {
    Own,
    LegacyData,
    LegacyHome,
    Cli,
}

/// A store that holds tokens.
pub open spec fn usable(a: Option<CodexAuth>) -> bool {
    a is Some && a.unwrap().tokens is Some
}

fn has_tokens(a: &Option<CodexAuth>) -> (r: bool)
    ensures
        r == usable(*a),
{
    match a {
        Some(auth) => auth.tokens.is_some(),
        None => false,
    }
}

/// The login that counts, and where it was found: this program's own, then those
/// at older places, then the Codex CLI's.
pub open spec fn loaded(s: Stores) -> Option<(CodexAuth, Place)> {
    if usable(s.own) {
        Some((s.own.unwrap(), Place::Own))
    } else if usable(s.legacy_data) {
        Some((s.legacy_data.unwrap(), Place::LegacyData))
    } else if usable(s.legacy_home) {
        Some((s.legacy_home.unwrap(), Place::LegacyHome))
    } else if usable(s.cli) {
        Some((s.cli.unwrap(), Place::Cli))
    } else {
        None
    }
}

/// True for the older places: a login found there is to be moved to the
/// program's own.
pub open spec fn is_old(place: Place) -> bool {
    place == Place::LegacyData || place == Place::LegacyHome
}

/// Which of the older places a login is to be moved from, in the order of their
/// paths; none where it stays.
pub fn moved_from(place: Place) -> (r: Option<usize>)
    ensures
        r is Some <==> is_old(place),
        place == Place::LegacyData ==> r == Some(0usize),
        place == Place::LegacyHome ==> r == Some(1usize),
{
    match place {
        Place::LegacyData => Some(0),
        Place::LegacyHome => Some(1),
        Place::Own | Place::Cli => None,
    }
}

/// The places once a login that was found at an older one was dealt with. It is
/// removed there only when `saved` says that it stands at the program's own.
pub open spec fn settled(s: Stores, saved: bool) -> Stores {
    match loaded(s) {
        Some((a, place)) => if saved && place == Place::LegacyData {
            Stores { own: Some(a), legacy_data: None, ..s }
        } else if saved && place == Place::LegacyHome {
            Stores { own: Some(a), legacy_home: None, ..s }
        } else {
            s
        },
        None => s,
    }
}

/// A login found at an older place is found again: at the program's own with
/// nothing left to move once it was saved there, and where it was otherwise. It
/// is gone from the older place only once it was saved. The Codex CLI's file
/// stays as it is.
pub proof fn a_moved_login_is_found_again(s: Stores, saved: bool)
    requires
        loaded(s) is Some,
        is_old(loaded(s).unwrap().1),
    ensures
        ({
            let (a, place) = loaded(s).unwrap();
            let now = settled(s, saved);
            &&& saved ==> loaded(now) == Some((a, Place::Own)) && !is_old(Place::Own)
            &&& saved && place == Place::LegacyData ==> now.legacy_data is None && now.legacy_home
                == s.legacy_home
            &&& saved && place == Place::LegacyHome ==> now.legacy_home is None && now.legacy_data
                == s.legacy_data
            &&& !saved ==> now == s && loaded(now) == Some((a, place))
            &&& now.cli == s.cli
            &&& settled(now, true) == (if saved {
                now
            } else {
                settled(s, true)
            })
        }),
{
}

/// The login that counts, and where it was found. One at an older place is to be
/// moved.
pub fn load(s: Stores) -> (r: Option<(CodexAuth, Place)>)
    ensures
        r == loaded(s),
        r is Some ==> r.unwrap().0.tokens is Some,
{
    if has_tokens(&s.own) {
        return match s.own {
            Some(a) => Some((a, Place::Own)),
            None => None,
        };
    }
    if has_tokens(&s.legacy_data) {
        return match s.legacy_data {
            Some(a) => Some((a, Place::LegacyData)),
            None => None,
        };
    }
    if has_tokens(&s.legacy_home) {
        return match s.legacy_home {
            Some(a) => Some((a, Place::LegacyHome)),
            None => None,
        };
    }
    if has_tokens(&s.cli) {
        return match s.cli {
            Some(a) => Some((a, Place::Cli)),
            None => None,
        };
    }
    None
}

/// The bytes that a text in URL-safe base64 without padding stands for.
pub uninterp spec fn base64_bytes(s: Seq<char>) -> Option<Seq<u8>>;

/// `decode` of the `base64` crate's `URL_SAFE_NO_PAD` engine. The result depends
/// on the text alone.
#[verifier::external_body]
fn decode_base64(s: &str) -> (r: Option<Vec<u8>>)
    ensures
        match r {
            Some(bytes) => base64_bytes(s@) == Some(bytes@),
            None => base64_bytes(s@) is None,
        },
{
    base64::Engine::decode(&base64::engine::general_purpose::URL_SAFE_NO_PAD, s).ok()
}

/// What `serde_json::from_slice` makes of bytes.
pub uninterp spec fn json_bytes(b: Seq<u8>) -> Option<JsonV>;

/// `serde_json::from_slice` into a `Value`. Bytes that are UTF-8 are read as
/// their text is.
#[verifier::external_body]
fn parse_bytes(b: &Vec<u8>) -> (r: Option<serde_json::Value>)
    ensures
        match r {
            Some(v) => json_bytes(b@) == Some(value_of(v)),
            None => json_bytes(b@) is None,
        },
        valid_utf8(b@) ==> match r {
            Some(v) => json_text(decode_utf8(b@)) == Ok::<JsonV, Seq<char>>(value_of(v)),
            None => json_text(decode_utf8(b@)) is Err,
        },
{
    serde_json::from_slice(b).ok()
}

/// The payload of a token: what stands between its first two dots.
pub open spec fn token_payload(token: Seq<char>) -> Option<Seq<char>> {
    let parts = cut_all(token, '.');
    if parts.len() >= 2 {
        Some(parts[1])
    } else {
        None
    }
}

/// The claims of a token.
pub open spec fn claims_of(token: Seq<char>) -> Option<JsonV> {
    match token_payload(token) {
        Some(p) => match base64_bytes(p) {
            Some(b) => json_bytes(b),
            None => None,
        },
        None => None,
    }
}

/// One claim of a token.
pub open spec fn claim_of(token: Seq<char>, claim: Seq<char>) -> Option<JsonV> {
    match claims_of(token) {
        Some(v) => v.get(claim),
        None => None,
    }
}

/// The claims of a token.
pub fn jwt_claims(token: &str) -> (r: Option<Json>)
    ensures
        match r {
            Some(j) => claims_of(token@) == Some(j@),
            None => claims_of(token@) is None,
        },
{
    let parts = split(token, '.');
    assert(texts(parts@).len() == parts@.len());
    if parts.len() < 2 {
        return None;
    }
    assert(texts(parts@)[1] == parts@[1]@);
    match decode_base64(parts[1].as_str()) {
        Some(b) => match parse_bytes(&b) {
            Some(v) => Some(lift_value(&v)),
            None => None,
        },
        None => None,
    }
}

/// One claim of a token.
pub fn jwt_claim(token: &str, claim: &str) -> (r: Option<Json>)
    ensures
        match r {
            Some(j) => claim_of(token@, claim@) == Some(j@),
            None => claim_of(token@, claim@) is None,
        },
{
    match jwt_claims(token) {
        Some(v) => match v.get(claim) {
            Some(j) => Some(j.copy()),
            None => None,
        },
        None => None,
    }
}

/// True when a token is expired or nearly so, given its claim of when it is.
pub open spec fn is_stale(exp: Option<JsonV>, now: int) -> bool {
    match exp {
        Some(v) => match v.unsigned() {
            Some(t) => now + 60 > t,
            None => true,
        },
        None => true,
    }
}

/// Whether a token is expired or nearly so, given its claim of when it is.
pub fn stale(exp: &Option<Json>, now: u64) -> (r: bool)
    requires
        now <= u64::MAX - 60,
    ensures
        r == is_stale(
            match *exp {
                Some(j) => Some(j@),
                None => None,
            },
            now as int,
        ),
{
    match exp {
        Some(v) => match v.as_u64() {
            Some(t) => now + 60 > t,
            None => true,
        },
        None => true,
    }
}

/// Whether an access token is expired or nearly so.
pub fn expired(access_token: &str, now: u64) -> (r: bool)
    requires
        now <= u64::MAX - 60,
    ensures
        r == is_stale(claim_of(access_token@, "exp"@), now as int),
{
    stale(&jwt_claim(access_token, "exp"), now)
}

/// The email of the account that signed in.
pub fn email(auth: &CodexAuth) -> (r: Option<String>)
    ensures
        opt(r) == match auth@.tokens {
            Some(t) => match claim_of(t.id_token, "email"@) {
                Some(v) => v.text(),
                None => None,
            },
            None => None,
        },
{
    match &auth.tokens {
        Some(t) => match jwt_claim(t.id_token.as_str(), "email") {
            Some(v) => owned(v.as_str()),
            None => None,
        },
        None => None,
    }
}

/// What is to be done to get a bearer token.
pub enum TokenStep {
    /// Nobody is signed in.
    NotLoggedIn,
    /// Send this one.
    Send(String),
    /// Refresh first.
    Refresh,
}

/// What is to be done to get a bearer token.
pub fn ensure_access_token(auth: &Option<CodexAuth>, now: u64) -> (r: TokenStep)
    requires
        now <= u64::MAX - 60,
    ensures
        match *auth {
            Some(a) => match a@.tokens {
                Some(t) => if is_stale(claim_of(t.access_token, "exp"@), now as int) {
                    r is Refresh
                } else {
                    r matches TokenStep::Send(s) && s@ == t.access_token
                },
                None => r is NotLoggedIn,
            },
            None => r is NotLoggedIn,
        },
{
    match auth {
        Some(a) => match &a.tokens {
            Some(t) => if expired(t.access_token.as_str(), now) {
                TokenStep::Refresh
            } else {
                TokenStep::Send(t.access_token.clone())
            },
            None => TokenStep::NotLoggedIn,
        },
        None => TokenStep::NotLoggedIn,
    }
}

/// What the token endpoint sends back.
pub struct TokenResponse {
    pub access_token: String,
    pub id_token: Option<String>,
    pub refresh_token: Option<String>,
}

/// A login after a refresh: the new tokens, and the old ones where no new ones
/// came.
pub open spec fn refreshed(a: AuthV, r: TokenResponse, now: Seq<char>) -> AuthV {
    let t = a.tokens.unwrap();
    AuthV {
        openai_api_key: a.openai_api_key,
        tokens: Some(
            TokensV {
                id_token: match opt(r.id_token) {
                    Some(id) => id,
                    None => t.id_token,
                },
                access_token: r.access_token@,
                refresh_token: match opt(r.refresh_token) {
                    Some(x) => x,
                    None => t.refresh_token,
                },
                account_id: t.account_id,
            },
        ),
        last_refresh: Some(now),
    }
}

/// A login after a refresh. `now` is the time, as it is kept.
pub fn refresh_with(auth: CodexAuth, response: TokenResponse, now: &str) -> (r: Result<
    CodexAuth,
    String,
>)
    ensures
        auth.tokens is Some ==> r is Ok && r->Ok_0@ == refreshed(auth@, response, now@),
        auth.tokens is None ==> r is Err && r->Err_0@ == "no tokens to refresh"@,
{
    match auth.tokens {
        Some(t) => Ok(
            CodexAuth {
                openai_api_key: auth.openai_api_key,
                tokens: Some(
                    TokenSet {
                        id_token: match response.id_token {
                            Some(id) => id,
                            None => t.id_token,
                        },
                        access_token: response.access_token,
                        refresh_token: match response.refresh_token {
                            Some(x) => x,
                            None => t.refresh_token,
                        },
                        account_id: t.account_id,
                    },
                ),
                last_refresh: Some(now.to_owned()),
            },
        ),
        None => Err("no tokens to refresh".to_owned()),
    }
}

/// A refresh always yields a token to send, and never loses what it did not
/// replace.
pub proof fn refreshing_keeps_the_account(a: AuthV, r: TokenResponse, now: Seq<char>)
    requires
        a.tokens is Some,
    ensures
        refreshed(a, r, now).tokens is Some,
        refreshed(a, r, now).tokens.unwrap().access_token == r.access_token@,
        refreshed(a, r, now).tokens.unwrap().account_id == a.tokens.unwrap().account_id,
        r.refresh_token is None ==> refreshed(a, r, now).tokens.unwrap().refresh_token
            == a.tokens.unwrap().refresh_token,
{
}

/// The account that a token names.
pub open spec fn account_of(id_token: Option<Seq<char>>) -> Option<Seq<char>> {
    match id_token {
        Some(id) => match claim_of(id, "https://api.openai.com/auth"@) {
            Some(v) => v.text_at("chatgpt_account_id"@),
            None => None,
        },
        None => None,
    }
}

/// The login that a token response makes.
pub open spec fn logged_in(response: TokenResponse, now: Seq<char>) -> AuthV {
    AuthV {
        openai_api_key: None,
        tokens: Some(
            TokensV {
                id_token: match opt(response.id_token) {
                    Some(id) => id,
                    None => Seq::empty(),
                },
                access_token: response.access_token@,
                refresh_token: match opt(response.refresh_token) {
                    Some(x) => x,
                    None => Seq::empty(),
                },
                account_id: account_of(opt(response.id_token)),
            },
        ),
        last_refresh: Some(now),
    }
}

/// A new login has the tokens that came and the account that its own identity
/// claims.
pub proof fn a_login_has_the_tokens_that_came(response: TokenResponse, now: Seq<char>)
    ensures
        logged_in(response, now).tokens is Some,
        ({
            let t = logged_in(response, now).tokens.unwrap();
            &&& t.access_token == response.access_token@
            &&& opt(response.id_token) matches Some(id) ==> t.id_token == id
            &&& opt(response.refresh_token) matches Some(x) ==> t.refresh_token == x
            &&& response.id_token is None ==> t.account_id is None
            &&& opt(response.id_token) is Some ==> (claim_of(
                opt(response.id_token).unwrap(),
                "https://api.openai.com/auth"@,
            ) matches Some(v) ==> t.account_id == v.text_at("chatgpt_account_id"@))
        }),
        logged_in(response, now).last_refresh == Some(now),
        logged_in(response, now).openai_api_key is None,
{
}

/// A login from what the token endpoint sent back.
pub fn login(response: TokenResponse, now: &str) -> (r: CodexAuth)
    ensures
        r@ == (AuthV {
            openai_api_key: None,
            tokens: Some(
                TokensV {
                    id_token: match opt(response.id_token) {
                        Some(id) => id,
                        None => Seq::empty(),
                    },
                    access_token: response.access_token@,
                    refresh_token: match opt(response.refresh_token) {
                        Some(x) => x,
                        None => Seq::empty(),
                    },
                    account_id: account_of(opt(response.id_token)),
                },
            ),
            last_refresh: Some(now@),
        }),
        r@ == logged_in(response, now@),
{
    let account_id = match &response.id_token {
        Some(id) => match jwt_claim(id.as_str(), "https://api.openai.com/auth") {
            Some(v) => owned(v.str_at("chatgpt_account_id")),
            None => None,
        },
        None => None,
    };
    let none = String::new();
    assert(none@ =~= Seq::empty());
    let blank = String::new();
    assert(blank@ =~= Seq::empty());
    CodexAuth {
        openai_api_key: None,
        tokens: Some(
            TokenSet {
                id_token: match response.id_token {
                    Some(id) => id,
                    None => none,
                },
                access_token: response.access_token,
                refresh_token: match response.refresh_token {
                    Some(x) => x,
                    None => blank,
                },
                account_id,
            },
        ),
        last_refresh: Some(now.to_owned()),
    }
}

fn param(list: &mut Vec<(String, String)>, name: &str, value: &str)
    ensures
        pairs(final(list)@) == pairs(old(list)@).push((name@, value@)),
{
    list.push((name.to_owned(), value.to_owned()));
    assert(pairs(list@) =~= pairs(old(list)@).push((name@, value@)));
}

fn no_params() -> (r: Vec<(String, String)>)
    ensures
        pairs(r@) == Seq::<(Seq<char>, Seq<char>)>::empty(),
{
    let r: Vec<(String, String)> = Vec::new();
    assert(pairs(r@) =~= Seq::<(Seq<char>, Seq<char>)>::empty());
    r
}

/// The form that refreshes a login.
pub fn refresh_form(refresh_token: &str) -> (r: Vec<(String, String)>)
    ensures
        pairs(r@) == Seq::empty().push(("grant_type"@, "refresh_token"@)).push(
            ("refresh_token"@, refresh_token@),
        ).push(("client_id"@, CLIENT_ID@)).push(("scope"@, SCOPES@)),
{
    let mut out = no_params();
    param(&mut out, "grant_type", "refresh_token");
    param(&mut out, "refresh_token", refresh_token);
    param(&mut out, "client_id", CLIENT_ID);
    param(&mut out, "scope", SCOPES);
    out
}

/// The form that exchanges a code for tokens.
pub fn exchange_form(code: &str, verifier: &str) -> (r: Vec<(String, String)>)
    ensures
        pairs(r@) == Seq::empty().push(("grant_type"@, "authorization_code"@)).push(
            ("code"@, code@),
        ).push(("client_id"@, CLIENT_ID@)).push(("code_verifier"@, verifier@)).push(
            ("redirect_uri"@, REDIRECT_URI@),
        ),
{
    let mut out = no_params();
    param(&mut out, "grant_type", "authorization_code");
    param(&mut out, "code", code);
    param(&mut out, "client_id", CLIENT_ID);
    param(&mut out, "code_verifier", verifier);
    param(&mut out, "redirect_uri", REDIRECT_URI);
    out
}

/// A URL with its parameters; none when the base is no URL.
pub uninterp spec fn url_with(base: Seq<char>, params: Seq<(Seq<char>, Seq<char>)>) -> Option<
    Seq<char>,
>;

/// `reqwest::Url::parse_with_params`: the base with the parameters as its query.
/// The result depends on the base and the parameters alone. Where the base is a
/// web address without a query or a fragment, the parameters are what the query
/// of the result gives back.
#[verifier::external_body]
fn build_url(base: &str, params: &Vec<(String, String)>) -> (r: Option<String>)
    ensures
        opt(r) == url_with(base@, pairs(params@)),
        r is Some && opens(base@, "https://"@) && !base@.contains('?') && !base@.contains('#')
            ==> url_query(r.unwrap()@) == Some(pairs(params@)),
{
    reqwest::Url::parse_with_params(base, params).ok().map(|u| u.to_string())
}

/// The parameters a login starts with.
pub open spec fn authorize_params(challenge: Seq<char>, state: Seq<char>) -> Seq<
    (Seq<char>, Seq<char>),
> {
    Seq::empty().push(("response_type"@, "code"@)).push(("client_id"@, CLIENT_ID@)).push(
        ("redirect_uri"@, REDIRECT_URI@),
    ).push(("scope"@, SCOPES@)).push(("code_challenge"@, challenge)).push(
        ("code_challenge_method"@, "S256"@),
    ).push(("state"@, state))
}

/// The parameters a login starts with.
pub fn login_params(challenge: &str, state: &str) -> (r: Vec<(String, String)>)
    ensures
        pairs(r@) == authorize_params(challenge@, state@),
{
    let mut out = no_params();
    param(&mut out, "response_type", "code");
    param(&mut out, "client_id", CLIENT_ID);
    param(&mut out, "redirect_uri", REDIRECT_URI);
    param(&mut out, "scope", SCOPES);
    param(&mut out, "code_challenge", challenge);
    param(&mut out, "code_challenge_method", "S256");
    param(&mut out, "state", state);
    out
}

proof fn lemma_authorize_url()
    ensures
        opens(AUTHORIZE_URL@, "https://"@),
        !AUTHORIZE_URL@.contains('?'),
        !AUTHORIZE_URL@.contains('#'),
{
    reveal_strlit("https://auth.openai.com/oauth/authorize");
    reveal_strlit("https://");
    let url = "https://auth.openai.com/oauth/authorize"@;
    assert(url.take(8) =~= "https://"@);
}

/// Where the browser is sent to sign in; the parameters of the login are what
/// the query of that address holds.
pub fn authorize_url(challenge: &str, state: &str) -> (r: Result<String, String>)
    ensures
        match url_with(AUTHORIZE_URL@, authorize_params(challenge@, state@)) {
            Some(u) => r is Ok && r->Ok_0@ == u,
            None => r is Err && r->Err_0@ == "building the authorize URL"@,
        },
        r is Ok ==> url_query(r->Ok_0@) == Some(authorize_params(challenge@, state@)),
{
    proof {
        lemma_authorize_url();
    }
    match build_url(AUTHORIZE_URL, &login_params(challenge, state)) {
        Some(u) => Ok(u),
        None => Err("building the authorize URL".to_owned()),
    }
}

/// A URL without its query.
pub open spec fn without_query(url: Seq<char>) -> Seq<char> {
    url.take(first_of(url, '?') as int)
}

/// A URL as it is shown: without its query.
pub fn home_display(url: &str) -> (r: String)
    ensures
        r@ == without_query(url@),
{
    proof {
        crate::text::pieces::lemma_first_of_meaning(url@, '?');
    }
    match split_once(url, '?') {
        Some((head, _)) => head,
        None => {
            assert(url@.take(url@.len() as int) =~= url@);
            url.to_owned()
        },
    }
}

/// What a request to the callback means.
pub enum Callback {
    /// The login is approved; this is the code.
    Code(String),
    /// The login failed, for this reason.
    Refused(String),
    /// It is not the redirect.
    NotTheRedirect,
}

/// The value of the first parameter of a name.
pub open spec fn param_of(v: Seq<(Seq<char>, Seq<char>)>, name: Seq<char>) -> Option<Seq<char>>
    decreases v.len(),
{
    if v.len() == 0 {
        None
    } else if v[0].0 == name {
        Some(v[0].1)
    } else {
        param_of(v.drop_first(), name)
    }
}

fn find_param(v: &Vec<(String, String)>, name: &str) -> (r: Option<String>)
    ensures
        opt(r) == param_of(pairs(v@), name@),
{
    let ghost all = pairs(v@);
    let mut i: usize = 0;
    assert(all.skip(0) =~= all);
    while i < v.len()
        invariant
            i <= v@.len(),
            all == pairs(v@),
            param_of(all.skip(i as int), name@) == param_of(all, name@),
        decreases v.len() - i,
    {
        assert(all.skip(i as int)[0] == all[i as int]);
        if same(v[i].0.as_str(), name) {
            return Some(v[i].1.clone());
        }
        assert(all.skip(i as int).drop_first() =~= all.skip(i + 1));
        i += 1;
    }
    None
}

/// Said when a redirect was not started by this login.
pub const STATE_MISMATCH: &'static str =
    "the callback state did not match this login attempt; try again";

/// What the parameters of a redirect mean: an error is a refusal; no code means
/// it is no redirect; a code counts only with the state of this login.
pub open spec fn callback_meaning(
    c: Callback,
    v: Seq<(Seq<char>, Seq<char>)>,
    state: Seq<char>,
) -> bool {
    match param_of(v, "error"@) {
        Some(error) => c matches Callback::Refused(s) && s@ == trimmed_end(
            "the provider refused the login: "@ + error + " "@ + (match param_of(
                v,
                "error_description"@,
            ) {
                Some(d) => d,
                None => Seq::empty(),
            }),
        ),
        None => match param_of(v, "code"@) {
            None => c is NotTheRedirect,
            Some(code) => if param_of(v, "state"@) == Some(state) {
                c matches Callback::Code(s) && s@ == code
            } else {
                c matches Callback::Refused(s) && s@ == STATE_MISMATCH@
            },
        },
    }
}

/// What the parameters of a redirect mean.
pub fn judge_callback(params: &Vec<(String, String)>, state: &str) -> (r: Callback)
    ensures
        callback_meaning(r, pairs(params@), state@),
{
    match find_param(params, "error") {
        Some(error) => {
            let detail = match find_param(params, "error_description") {
                Some(d) => d,
                None => {
                    let none = String::new();
                    assert(none@ =~= Seq::empty());
                    none
                },
            };
            let reason = cat4(
                "the provider refused the login: ",
                error.as_str(),
                " ",
                detail.as_str(),
            );
            return Callback::Refused(trim_end(reason.as_str()));
        },
        None => {},
    }
    let code = match find_param(params, "code") {
        Some(code) => code,
        None => return Callback::NotTheRedirect,
    };
    let matched = match find_param(params, "state") {
        Some(s) => same(s.as_str(), state),
        None => false,
    };
    if !matched {
        return Callback::Refused(STATE_MISMATCH.to_owned());
    }
    Callback::Code(code)
}

/// The parameters in the query of a URL; none when it is no URL.
pub uninterp spec fn url_query(url: Seq<char>) -> Option<Seq<(Seq<char>, Seq<char>)>>;

/// `reqwest::Url::parse` and `query_pairs`: the decoded parameters of a URL, in
/// order. The result depends on the URL alone.
#[verifier::external_body]
fn query_of(url: &str) -> (r: Option<Vec<(String, String)>>)
    ensures
        match r {
            Some(v) => url_query(url@) == Some(pairs(v@)),
            None => url_query(url@) is None,
        },
{
    let url = reqwest::Url::parse(url).ok()?;
    Some(url.query_pairs().map(|(k, v)| (k.into_owned(), v.into_owned())).collect())
}

/// The target of a request: its second word.
pub open spec fn request_target(req: Seq<char>) -> Seq<char> {
    let w = words_of(req);
    if w.len() >= 2 {
        w[1]
    } else {
        Seq::empty()
    }
}

/// What a request to the callback means.
pub fn parse_callback(req: &str, expected_state: &str) -> (r: Callback)
    ensures
        match url_query("http://localhost"@ + request_target(req@)) {
            Some(v) => callback_meaning(r, v, expected_state@),
            None => r is NotTheRedirect,
        },
{
    let w = words(req);
    assert(texts(w@).len() == w@.len());
    let url = if w.len() >= 2 {
        assert(texts(w@)[1] == w@[1]@);
        cat2("http://localhost", w[1].as_str())
    } else {
        let r = "http://localhost".to_owned();
        assert(r@ =~= "http://localhost"@ + Seq::<char>::empty());
        r
    };
    match query_of(url.as_str()) {
        Some(params) => judge_callback(&params, expected_state),
        None => Callback::NotTheRedirect,
    }
}

/// A redirect that another login started never yields a code.
pub proof fn foreign_redirects_are_refused(
    c: Callback,
    v: Seq<(Seq<char>, Seq<char>)>,
    state: Seq<char>,
)
    requires
        callback_meaning(c, v, state),
        param_of(v, "state"@) != Some(state),
    ensures
        !(c is Code),
{
}

/// The answer the browser gets.
pub fn respond(status: &str, body: &str) -> (r: String)
    ensures
        r@ == ("HTTP/1.1 "@ + status@ + "\r\nContent-Length: "@ + dec(utf8_len(body@))
            + "\r\n\r\n"@) + body@,
{
    let head = cat5(
        "HTTP/1.1 ",
        status,
        "\r\nContent-Length: ",
        decimal_usize(byte_len(body)).as_str(),
        "\r\n\r\n",
    );
    cat2(head.as_str(), body)
}

/// What is said about a refresh that was refused.
pub fn refresh_refused(status: &str) -> (r: String)
    ensures
        r@ == LOGIN_EXPIRED@ + " ("@ + status@ + ")"@,
{
    cat4(LOGIN_EXPIRED, " (", status, ")")
}

/// What is said about an exchange that was refused.
pub fn exchange_refused(status: &str, body: &str) -> (r: String)
    ensures
        r@ == "token exchange failed ("@ + status@ + "). "@ + body@,
{
    cat4("token exchange failed (", status, "). ", body)
}

} // verus!
