//! Sending a request: where it goes, when it is sent again, and how it fails.

use vstd::prelude::*;

use crate::json::{Json, JsonV};
use crate::message::{messages, plain_message, ChatMessage, MessageV};
use crate::text::pieces::{lowered, to_lower};
use crate::text::{cat2, chars, collect, opt, pairs, same};

verus! {

/// Where a chat request goes.
pub open spec fn endpoint_for(base_url: Seq<char>, login: Option<Seq<char>>) -> Seq<char> {
    match login {
        Some(url) => url,
        None => base_url + "/chat/completions"@,
    }
}

/// A request goes to the login's own endpoint where there is one, and else under
/// the address that is set.
pub proof fn a_request_goes_to_its_endpoint(base_url: Seq<char>, login: Option<Seq<char>>)
    ensures
        login matches Some(url) ==> endpoint_for(base_url, login) == url,
        login is None ==> endpoint_for(base_url, login).take(base_url.len() as int) == base_url,
{
    assert((base_url + "/chat/completions"@).take(base_url.len() as int) =~= base_url);
}

/// The address of a chat request.
pub fn chat_url(base_url: &str, codex_endpoint: &Option<String>) -> (r: String)
    ensures
        r@ == match *codex_endpoint {
            Some(url) => url@,
            None => base_url@ + "/chat/completions"@,
        },
        r@ == endpoint_for(base_url@, opt(*codex_endpoint)),
{
    match codex_endpoint {
        Some(url) => url.clone(),
        None => cat2(base_url, "/chat/completions"),
    }
}

/// True when a stream has to be forced on and put together again: the backend
/// takes nothing else and the caller did not ask for one.
pub open spec fn assembles(codex: bool, body: JsonV) -> bool {
    codex && body.boolean_at("stream"@) != Some(true)
}

/// The body to send, and whether its stream has to be put together again.
pub fn stream_body(codex: bool, body: Json) -> (r: (bool, Json))
    ensures
        r.0 == assembles(codex, body@),
        r.1@ == if assembles(codex, body@) {
            body@.with("stream"@, JsonV::Bool(true))
        } else {
            body@
        },
{
    let streaming = match body.bool_at("stream") {
        Some(b) => b,
        None => false,
    };
    if codex && !streaming {
        (true, body.set("stream", Json::Bool(true)))
    } else {
        (false, body)
    }
}

/// What is to be done about a reply's status.
#[derive(Clone, Copy, PartialEq, Eq, Structural, Debug)]
pub enum StatusStep {
    /// Read the reply.
    Read,
    /// Refresh the token and send again.
    Refresh,
    /// The login has expired.
    Expired,
    /// Fail with what the reply says.
    Fail,
}

/// What is to be done about a reply's status: a rejected token of the codex
/// backend is refreshed once.
pub open spec fn status_step(status: int, codex: bool, refreshed: bool) -> StatusStep {
    if 200 <= status <= 299 {
        StatusStep::Read
    } else if codex && status == 401 {
        if refreshed {
            StatusStep::Expired
        } else {
            StatusStep::Refresh
        }
    } else {
        StatusStep::Fail
    }
}

/// What is to be done about a reply's status.
pub fn send_with_retry(status: u16, codex: bool, refreshed: bool) -> (r: StatusStep)
    ensures
        r == status_step(status as int, codex, refreshed),
{
    if 200 <= status && status <= 299 {
        StatusStep::Read
    } else if codex && status == 401 {
        if refreshed {
            StatusStep::Expired
        } else {
            StatusStep::Refresh
        }
    } else {
        StatusStep::Fail
    }
}

/// A token is refreshed at most once per request.
pub proof fn tokens_are_refreshed_once(status: int, codex: bool)
    ensures
        status_step(status, codex, true) != StatusStep::Refresh,
{
}

/// The last `n` characters, or all of them.
pub open spec fn trailing(s: Seq<char>, n: int) -> Seq<char> {
    if s.len() <= n {
        s
    } else {
        s.skip(s.len() - n)
    }
}

/// What is said about a forced stream that held no reply.
pub fn no_reply_in_stream(text: &str) -> (r: String)
    ensures
        r@ == "no completed response in the codex stream: "@ + trailing(text@, 400),
{
    let v = chars(text);
    let from: usize = if v.len() <= 400 { 0 } else { v.len() - 400 };
    let tail = collect(&v, from, v.len());
    assert(tail@ =~= trailing(text@, 400));
    cat2("no completed response in the codex stream: ", tail.as_str())
}

/// What is to be done about a request that failed over its thinking settings.
#[derive(Clone, Copy, PartialEq, Eq, Structural, Debug)]
pub enum ReasonedStep {
    /// Drop the earlier thinking from the history and send again.
    DropHistory,
    /// Send again at a lower effort.
    Relax,
    /// Fail.
    Fail,
}

/// What is to be done about a request that failed: earlier thinking that was
/// refused is dropped while there is any; a refused effort is relaxed while it
/// can be; anything else fails.
pub open spec fn reasoned_step(
    history_refused: bool,
    carries_thinking: bool,
    effort_refused: bool,
    can_relax: bool,
) -> ReasonedStep {
    if history_refused && carries_thinking {
        ReasonedStep::DropHistory
    } else if effort_refused && can_relax {
        ReasonedStep::Relax
    } else {
        ReasonedStep::Fail
    }
}

/// What is to be done about a request that failed over its thinking settings.
pub fn send_reasoned(
    history_refused: bool,
    carries_thinking: bool,
    effort_refused: bool,
    can_relax: bool,
) -> (r: ReasonedStep)
    ensures
        r == reasoned_step(history_refused, carries_thinking, effort_refused, can_relax),
{
    if history_refused && carries_thinking {
        ReasonedStep::DropHistory
    } else if effort_refused && can_relax {
        ReasonedStep::Relax
    } else {
        ReasonedStep::Fail
    }
}

/// True for the characters that the name of a header is made of.
pub open spec fn token_char(c: char) -> bool {
    ||| '0' <= c <= '9'
    ||| 'a' <= c <= 'z'
    ||| 'A' <= c <= 'Z'
    ||| "!#$%&'*+-.^_`|~"@.contains(c)
}

/// True when a text can be the name of a header: a token of at most 65535
/// characters.
pub open spec fn header_name(s: Seq<char>) -> bool {
    1 <= s.len() <= 65535 && forall|i: int| 0 <= i < s.len() ==> token_char(#[trigger] s[i])
}

/// `reqwest::header::HeaderName::try_from`: whether a text can be the name of a
/// header. It takes letters, digits and the marks of a token, in any case, from
/// one to 65535 of them, and nothing else.
#[verifier::external_body]
fn is_header_name(s: &str) -> (r: bool)
    ensures
        r == header_name(s@),
{
    reqwest::header::HeaderName::try_from(s).is_ok()
}

/// True when a text can be the value of a header: no control characters but the
/// tab.
pub open spec fn header_value(s: Seq<char>) -> bool {
    forall|i: int|
        0 <= i < s.len() ==> ((#[trigger] s[i]) as u32 >= 32 && s[i] as u32 != 127) || s[i] == '\t'
}

/// `reqwest::header::HeaderValue::from_str`: whether a text can be the value of
/// a header. It takes the tab and every byte from the space up but the delete
/// character.
#[verifier::external_body]
fn is_header_value(s: &str) -> (r: bool)
    ensures
        r == header_value(s@),
{
    reqwest::header::HeaderValue::from_str(s).is_ok()
}

/// The position of the first header of a name, or the length.
pub open spec fn header_index(v: Seq<(Seq<char>, Seq<char>)>, name: Seq<char>) -> nat
    decreases v.len(),
{
    if v.len() == 0 || v[0].0 == name {
        0
    } else {
        1 + header_index(v.drop_first(), name)
    }
}

proof fn lemma_header_index(v: Seq<(Seq<char>, Seq<char>)>, name: Seq<char>, n: int)
    requires
        0 <= n <= v.len(),
        forall|k: int| 0 <= k < n ==> (#[trigger] v[k]).0 != name,
        n == v.len() || v[n].0 == name,
    ensures
        header_index(v, name) == n,
    decreases n,
{
    if n > 0 {
        assert(v[0].0 != name);
        assert forall|k: int| 0 <= k < n - 1 implies (#[trigger] v.drop_first()[k]).0 != name by {
            assert(v.drop_first()[k] == v[k + 1]);
        }
        lemma_header_index(v.drop_first(), name, n - 1);
    }
}

/// The headers with one put in place of the one of its name, or at the end.
pub open spec fn header_put(
    v: Seq<(Seq<char>, Seq<char>)>,
    name: Seq<char>,
    value: Seq<char>,
) -> Seq<(Seq<char>, Seq<char>)> {
    let i = header_index(v, name) as int;
    if i < v.len() {
        v.update(i, (name, value))
    } else {
        v.push((name, value))
    }
}

/// The headers that a list of pairs makes. A pair that is no header is left
/// out; names are one whatever their case, and a later value replaces an earlier
/// one.
pub open spec fn valid_headers(v: Seq<(Seq<char>, Seq<char>)>) -> Seq<(Seq<char>, Seq<char>)>
    decreases v.len(),
{
    if v.len() == 0 {
        Seq::empty()
    } else if header_name(v.last().0) && header_value(v.last().1) {
        header_put(valid_headers(v.drop_last()), lowered(v.last().0), v.last().1)
    } else {
        valid_headers(v.drop_last())
    }
}

/// The headers that a list of pairs makes.
pub fn attribution(v: &Vec<(String, String)>) -> (r: Vec<(String, String)>)
    ensures
        pairs(r@) == valid_headers(pairs(v@)),
{
    let ghost all = pairs(v@);
    let mut out: Vec<(String, String)> = Vec::new();
    let mut i: usize = 0;
    assert(pairs(out@) =~= valid_headers(all.take(0)));
    while i < v.len()
        invariant
            i <= v@.len(),
            all == pairs(v@),
            pairs(out@) == valid_headers(all.take(i as int)),
        decreases v.len() - i,
    {
        proof {
            assert(all.take(i + 1).drop_last() =~= all.take(i as int));
            assert(all.take(i + 1).last() == all[i as int]);
        }
        if is_header_name(v[i].0.as_str()) && is_header_value(v[i].1.as_str()) {
            let name = to_lower(v[i].0.as_str());
            put_header(&mut out, name.as_str(), v[i].1.as_str());
        }
        i += 1;
    }
    assert(all.take(all.len() as int) =~= all);
    out
}

fn put_header(out: &mut Vec<(String, String)>, name: &str, value: &str)
    ensures
        pairs(final(out)@) == header_put(pairs(old(out)@), name@, value@),
{
    let ghost had = pairs(out@);
    let mut at: usize = 0;
    while at < out.len() && !same(out[at].0.as_str(), name)
        invariant
            at <= out@.len(),
            had == pairs(out@),
            forall|k: int| 0 <= k < at ==> (#[trigger] had[k]).0 != name@,
        decreases out.len() - at,
    {
        at += 1;
    }
    proof {
        if at < out@.len() {
            assert(had[at as int].0 == name@);
        }
        lemma_header_index(had, name@, at as int);
    }
    if at < out.len() {
        out.set(at, (name.to_owned(), value.to_owned()));
        assert(pairs(out@) =~= had.update(at as int, (name@, value@)));
    } else {
        out.push((name.to_owned(), value.to_owned()));
        assert(pairs(out@) =~= had.push((name@, value@)));
    }
}

/// Some headers with others put over them, one by one.
pub open spec fn headers_over(
    v: Seq<(Seq<char>, Seq<char>)>,
    more: Seq<(Seq<char>, Seq<char>)>,
) -> Seq<(Seq<char>, Seq<char>)>
    decreases more.len(),
{
    if more.len() == 0 {
        v
    } else {
        header_put(headers_over(v, more.drop_last()), more.last().0, more.last().1)
    }
}

/// The headers that the Codex backend takes.
pub open spec fn codex_headers(account: Option<Seq<char>>) -> Seq<(Seq<char>, Seq<char>)> {
    let beta = Seq::empty().push(("openai-beta"@, "responses=experimental"@));
    match account {
        Some(id) => header_put(beta, "chatgpt-account-id"@, id),
        None => beta,
    }
}

/// The headers of a request besides the key: those of the Codex backend where it
/// is that one, and those that attribute usage over them.
pub fn post_headers(
    codex: bool,
    account: &Option<String>,
    attributed: &Vec<(String, String)>,
) -> (r: Vec<(String, String)>)
    ensures
        pairs(r@) == headers_over(
            if codex {
                codex_headers(opt(*account))
            } else {
                Seq::empty()
            },
            valid_headers(pairs(attributed@)),
        ),
{
    let mut out: Vec<(String, String)> = Vec::new();
    assert(pairs(out@) =~= Seq::empty());
    if codex {
        out.push(("openai-beta".to_owned(), "responses=experimental".to_owned()));
        assert(pairs(out@) =~= Seq::empty().push(("openai-beta"@, "responses=experimental"@)));
        match account {
            Some(id) => put_header(&mut out, "chatgpt-account-id", id.as_str()),
            None => {},
        }
    }
    let ghost base = pairs(out@);
    let over = attribution(attributed);
    let ghost all = pairs(over@);
    let mut i: usize = 0;
    assert(all.take(0) =~= Seq::empty());
    while i < over.len()
        invariant
            i <= over@.len(),
            all == pairs(over@),
            pairs(out@) == headers_over(base, all.take(i as int)),
        decreases over.len() - i,
    {
        proof {
            assert(all.take(i + 1).drop_last() =~= all.take(i as int));
            assert(all.take(i + 1).last() == all[i as int]);
        }
        put_header(&mut out, over[i].0.as_str(), over[i].1.as_str());
        i += 1;
    }
    assert(all.take(all.len() as int) =~= all);
    out
}

/// The two messages of a plain request.
pub open spec fn request_of(system: Seq<char>, user: Seq<char>) -> Seq<MessageV> {
    Seq::empty().push(plain_message("system"@, system)).push(plain_message("user"@, user))
}

/// A plain request is the system's words and then the user's.
pub proof fn a_request_asks_as_the_user(system: Seq<char>, user: Seq<char>)
    ensures
        request_of(system, user).len() == 2,
        request_of(system, user)[0].role == "system"@ && request_of(system, user)[0].text == system,
        request_of(system, user)[1].role == "user"@ && request_of(system, user)[1].text == user,
{
}

/// The messages of a single question.
pub fn build_request(system: &str, user: &str) -> (r: Vec<ChatMessage>)
    ensures
        messages(r@) == Seq::empty().push(plain_message("system"@, system@)).push(
            plain_message("user"@, user@),
        ),
        messages(r@) == request_of(system@, user@),
{
    let mut out: Vec<ChatMessage> = Vec::new();
    out.push(ChatMessage::plain("system", system));
    out.push(ChatMessage::plain("user", user));
    assert(messages(out@) =~= Seq::empty().push(plain_message("system"@, system@)).push(
        plain_message("user"@, user@),
    ));
    out
}

} // verus!
