//! Subscription sign-ins already on this machine.

use vstd::prelude::*;

use crate::login::codex::{claim_of, email, CODEX_BASE_URL, CodexAuth};
use crate::text::opt;

verus! {

/// A sign-in found on disk that can be used as it is.
pub struct Login {
    pub provider: String,
    pub name: String,
    pub base_url: String,
    pub account: Option<String>,
}

/// The sign-in that a Codex login is.
pub open spec fn is_codex_login(l: Login, auth: CodexAuth) -> bool {
    &&& l.provider@ == "codex"@
    &&& l.name@ == "ChatGPT"@
    &&& l.base_url@ == CODEX_BASE_URL@
    &&& opt(l.account) == match auth@.tokens {
        Some(t) => match claim_of(t.id_token, "email"@) {
            Some(v) => v.text(),
            None => None,
        },
        None => None,
    }
}

/// Every usable sign-in, most preferred first, given the login that was loaded.
pub fn found(auth: &Option<CodexAuth>) -> (r: Vec<Login>)
    ensures
        match *auth {
            Some(a) => r@.len() == 1 && is_codex_login(r@[0], a),
            None => r@.len() == 0,
        },
{
    let mut out: Vec<Login> = Vec::new();
    match auth {
        Some(a) => {
            out.push(
                Login {
                    provider: "codex".to_owned(),
                    name: "ChatGPT".to_owned(),
                    base_url: CODEX_BASE_URL.to_owned(),
                    account: email(a),
                },
            );
        },
        None => {},
    }
    out
}

} // verus!
