//! What a failed request is reported as.

use vstd::prelude::*;

use crate::json::{items, Json, JsonV};
use crate::json_text::{json_text, read_json};
use crate::text::affix::{contains, holds, trim, trimmed};
use crate::text::case::lowercase;
use crate::text::number::{dec, decimal};
use crate::text::{cat3, cat4, cat5, opt, opt_str, owned};

verus! {

/// The words for a status.
pub open spec fn status_label(status: int) -> Seq<char> {
    if status == 429 {
        "rate limited"@
    } else if status == 401 || status == 403 {
        "authentication failed (check your API key)"@
    } else if status == 400 {
        "bad request"@
    } else if status == 404 {
        "model or endpoint not found"@
    } else if 500 <= status <= 599 {
        "provider error"@
    } else {
        "request failed"@
    }
}

/// The member called `key`, of a value that may not be there.
pub open spec fn at(v: Option<JsonV>, key: Seq<char>) -> Option<JsonV> {
    match v {
        Some(j) => j.get(key),
        None => None,
    }
}

/// The first element, of a value that may not be there.
pub open spec fn first(v: Option<JsonV>) -> Option<JsonV> {
    match v {
        Some(j) => match j.elements() {
            Some(e) => if e.len() > 0 {
                Some(e[0])
            } else {
                None
            },
            None => None,
        },
        None => None,
    }
}

/// The text, of a value that may not be there.
pub open spec fn text(v: Option<JsonV>) -> Option<Seq<char>> {
    match v {
        Some(j) => j.text(),
        None => None,
    }
}

/// The first of two that is there.
pub open spec fn or(a: Option<Seq<char>>, b: Option<Seq<char>>) -> Option<Seq<char>> {
    if a is Some {
        a
    } else {
        b
    }
}

/// Where the message of an error body stands, in the order in which the shapes
/// of the providers are tried.
pub open spec fn body_message(v: JsonV) -> Option<Seq<char>> {
    let j = Some(v);
    or(
        text(at(at(at(j, "error"@), "metadata"@), "raw"@)),
        or(
            text(at(at(j, "error"@), "message"@)),
            or(
                text(at(j, "error"@)),
                or(
                    text(at(j, "message"@)),
                    or(
                        text(at(j, "detail"@)),
                        or(
                            text(at(first(at(j, "detail"@)), "msg"@)),
                            text(at(first(at(j, "errors"@)), "message"@)),
                        ),
                    ),
                ),
            ),
        ),
    )
}

/// A text, trimmed, if anything is left of it.
pub open spec fn substance(s: Seq<char>) -> Option<Seq<char>> {
    if trimmed(s).len() > 0 {
        Some(trimmed(s))
    } else {
        None
    }
}

/// The detail of an error: the message in its body where the body is JSON that
/// has one, else the whole body.
pub open spec fn detail_of(parsed: Option<JsonV>, body: Seq<char>) -> Option<Seq<char>> {
    let found = match parsed {
        Some(v) => match body_message(v) {
            Some(m) => substance(m),
            None => None,
        },
        None => None,
    };
    if found is Some {
        found
    } else {
        substance(body)
    }
}

/// What a failed request is reported as.
pub open spec fn error_text(status: int, detail: Option<Seq<char>>) -> Seq<char> {
    match detail {
        Some(d) => status_label(status) + " ("@ + dec(status as nat) + "): "@ + d,
        None => status_label(status) + " ("@ + dec(status as nat) + ")"@,
    }
}

fn get_at<'a>(v: Option<&'a Json>, key: &str) -> (r: Option<&'a Json>)
    ensures
        r is Some <==> at(
            match v {
                Some(j) => Some(j@),
                None => None,
            },
            key@,
        ) is Some,
        r is Some ==> at(
            match v {
                Some(j) => Some(j@),
                None => None,
            },
            key@,
        ) == Some(r.unwrap()@),
{
    match v {
        Some(j) => j.get(key),
        None => None,
    }
}

fn get_first<'a>(v: Option<&'a Json>) -> (r: Option<&'a Json>)
    ensures
        r is Some <==> first(
            match v {
                Some(j) => Some(j@),
                None => None,
            },
        ) is Some,
        r is Some ==> first(
            match v {
                Some(j) => Some(j@),
                None => None,
            },
        ) == Some(r.unwrap()@),
{
    match v {
        Some(j) => match j.as_array() {
            Some(e) => if e.len() > 0 {
                assert(items(e@)[0] == e@[0]@);
                Some(&e[0])
            } else {
                None
            },
            None => None,
        },
        None => None,
    }
}

fn get_text<'a>(v: Option<&'a Json>) -> (r: Option<&'a str>)
    ensures
        opt_str(r) == text(
            match v {
                Some(j) => Some(j@),
                None => None,
            },
        ),
{
    match v {
        Some(j) => j.as_str(),
        None => None,
    }
}

fn message_of(v: &Json) -> (r: Option<String>)
    ensures
        opt(r) == body_message(v@),
{
    let j = Some(v);
    let error = get_at(j, "error");
    match get_text(get_at(get_at(error, "metadata"), "raw")) {
        Some(s) => return Some(s.to_owned()),
        None => {},
    }
    match get_text(get_at(error, "message")) {
        Some(s) => return Some(s.to_owned()),
        None => {},
    }
    match get_text(error) {
        Some(s) => return Some(s.to_owned()),
        None => {},
    }
    match get_text(get_at(j, "message")) {
        Some(s) => return Some(s.to_owned()),
        None => {},
    }
    let detail = get_at(j, "detail");
    match get_text(detail) {
        Some(s) => return Some(s.to_owned()),
        None => {},
    }
    match get_text(get_at(get_first(detail), "msg")) {
        Some(s) => return Some(s.to_owned()),
        None => {},
    }
    owned(get_text(get_at(get_first(get_at(j, "errors")), "message")))
}

fn substance_of(s: &str) -> (r: Option<String>)
    ensures
        opt(r) == substance(s@),
{
    let t = trim(s);
    if t.as_str().is_empty() {
        None
    } else {
        Some(t)
    }
}

/// The words for a status.
pub fn label_of(status: u16) -> (r: &'static str)
    ensures
        r@ == status_label(status as int),
{
    if status == 429 {
        "rate limited"
    } else if status == 401 || status == 403 {
        "authentication failed (check your API key)"
    } else if status == 400 {
        "bad request"
    } else if status == 404 {
        "model or endpoint not found"
    } else if 500 <= status && status <= 599 {
        "provider error"
    } else {
        "request failed"
    }
}

/// [`format_api_error`] once it is known whether the body is JSON.
pub fn describe_error(status: u16, parsed: Option<&Json>, body: &str) -> (r: String)
    ensures
        r@ == error_text(
            status as int,
            detail_of(
                match parsed {
                    Some(j) => Some(j@),
                    None => None,
                },
                body@,
            ),
        ),
{
    let found = match parsed {
        Some(v) => match message_of(v) {
            Some(m) => substance_of(m.as_str()),
            None => None,
        },
        None => None,
    };
    let detail = match found {
        Some(d) => Some(d),
        None => substance_of(body),
    };
    let code = decimal(status as u64);
    match detail {
        Some(d) => cat5(label_of(status), " (", code.as_str(), "): ", d.as_str()),
        None => cat4(label_of(status), " (", code.as_str(), ")"),
    }
}

/// What a request that came back with a failing status is reported as.
pub fn format_api_error(status: u16, body: &str) -> (r: String)
    ensures
        r@ == error_text(
            status as int,
            detail_of(
                match json_text(body@) {
                    Ok(v) => Some(v),
                    Err(_) => None,
                },
                body@,
            ),
        ),
{
    match read_json(body) {
        Ok(v) => describe_error(status, Some(&v), body),
        Err(_) => describe_error(status, None, body),
    }
}

/// True when an error text in lower case blames the images in the request.
pub open spec fn blames_images(low: Seq<char>) -> bool {
    holds(low, "image"@) || holds(low, "vision"@) || holds(low, "multimodal"@)
}

/// Whether an error text in lower case blames the images in the request.
pub fn blames_images_in(low: &str) -> (r: bool)
    ensures
        r == blames_images(low@),
{
    contains(low, "image") || contains(low, "vision") || contains(low, "multimodal")
}

/// Whether an error blames the images in the request.
pub fn rejected_images(error: &str) -> (r: bool)
    ensures
        r == blames_images(lowercase(error@)),
{
    blames_images_in(error.to_lowercase().as_str())
}

/// The host of a URL; none when it is no URL or has no host.
pub uninterp spec fn url_host(url: Seq<char>) -> Option<Seq<char>>;

/// `reqwest::Url::parse` and `host_str`: the host of a URL. The result depends
/// on the URL alone.
#[verifier::external_body]
fn host_of(url: &str) -> (r: Option<String>)
    ensures
        opt(r) == url_host(url@),
{
    reqwest::Url::parse(url).ok().and_then(|u| u.host_str().map(str::to_owned))
}

/// How a request failed before any reply.
#[derive(Clone, Copy, PartialEq, Eq, Structural, Debug)]
pub enum Transport {
    Timeout,
    Connect,
    Other,
}

/// What a failure before any reply is reported as, given the host it names;
/// none when the error speaks for itself.
pub open spec fn transport_text(kind: Transport, host: Option<Seq<char>>) -> Option<Seq<char>> {
    let name = match host {
        Some(h) => h,
        None => "the provider"@,
    };
    match kind {
        Transport::Timeout => Some(
            "The request to "@ + name
                + " timed out. Check your internet connection and try again."@,
        ),
        Transport::Connect => Some(
            "Couldn't reach "@ + name + ". Check your internet connection and try again."@,
        ),
        Transport::Other => None,
    }
}

/// [`network_error`] once the host is known.
pub fn describe_transport(kind: Transport, host: &Option<String>) -> (r: Option<String>)
    ensures
        opt(r) == transport_text(kind, opt(*host)),
{
    let name = match host {
        Some(h) => h.as_str(),
        None => "the provider",
    };
    match kind {
        Transport::Timeout => Some(
            cat3(
                "The request to ",
                name,
                " timed out. Check your internet connection and try again.",
            ),
        ),
        Transport::Connect => Some(
            cat3(
                "Couldn't reach ",
                name,
                ". Check your internet connection and try again.",
            ),
        ),
        Transport::Other => None,
    }
}

/// What a failure before any reply is reported as: `host` is the one the error
/// names, `url` the one that was asked.
pub fn network_error(kind: Transport, host: Option<String>, url: &str) -> (r: Option<String>)
    ensures
        opt(r) == transport_text(
            kind,
            if host is Some {
                opt(host)
            } else {
                url_host(url@)
            },
        ),
{
    let host = match host {
        Some(h) => Some(h),
        None => host_of(url),
    };
    describe_transport(kind, &host)
}

} // verus!
