//! Tokens spent, as reported or as estimated.

use vstd::prelude::*;

use crate::json_text::{compact_text, value_of};
use crate::message::EventUsage;
use crate::text::utf8::{byte_len, utf8_len};

verus! {

/// Rough bytes per token, for sizing a request against a context window.
pub const CHARS_PER_TOKEN: usize = 4;

/// Held back so an under-counted prompt still leaves the cap inside the window.
pub const WINDOW_SLACK: u32 = 512;

/// The cap on the output never drops below this.
pub const MIN_OUTPUT_TOKENS: u32 = 512;

/// The tokens that a text of `chars` bytes is taken for: four bytes to a token,
/// rounded up.
pub fn estimate_tokens(chars: usize) -> (r: u64)
    ensures
        r == (chars + 3) / 4,
{
    let n: u64 = chars as u64;
    if n % 4 == 0 { n / 4 } else { n / 4 + 1 }
}

/// What a provider reports for one request.
#[derive(Clone, Copy, PartialEq, Eq, Structural, Debug)]
pub struct Usage {
    pub prompt_tokens: u64,
    pub completion_tokens: u64,
}

/// What a client has spent so far.
#[derive(Clone, Copy, PartialEq, Eq, Structural, Debug)]
pub struct UsageCounter {
    pub prompt_tokens: u64,
    pub completion_tokens: u64,
    pub requests: u64,
    /// Set once any request's tokens were estimated.
    pub estimated: bool,
}

/// What a client has spent, as it is shown.
#[derive(Clone, Copy, PartialEq, Eq, Structural, Debug)]
pub struct UsageSnapshot {
    pub prompt_tokens: u64,
    pub completion_tokens: u64,
    pub total_tokens: u64,
    pub requests: u64,
    pub cost_is_estimate: bool,
    pub estimated: bool,
}

/// The sum of two counts, which starts again at zero past the largest.
pub open spec fn wrapped(a: u64, b: int) -> u64 {
    ((a + b) % 0x1_0000_0000_0000_0000) as u64
}

/// The tokens a request counts for: what was reported, or an estimate from the
/// sizes of the prompt and the completion.
pub open spec fn counted(usage: Option<Usage>, prompt_chars: int, completion_chars: int) -> (
    int,
    int,
) {
    match usage {
        Some(u) => (u.prompt_tokens as int, u.completion_tokens as int),
        None => ((prompt_chars + 3) / 4, (completion_chars + 3) / 4),
    }
}

/// The counter after one request.
pub open spec fn usage_after(
    c: UsageCounter,
    usage: Option<Usage>,
    prompt_chars: int,
    completion_chars: int,
) -> UsageCounter {
    let spent = counted(usage, prompt_chars, completion_chars);
    UsageCounter {
        prompt_tokens: wrapped(c.prompt_tokens, spent.0),
        completion_tokens: wrapped(c.completion_tokens, spent.1),
        requests: wrapped(c.requests, 1),
        estimated: c.estimated || usage is None,
    }
}

/// What a counter shows.
pub open spec fn snapshot_taken(c: UsageCounter, priced: bool) -> UsageSnapshot {
    UsageSnapshot {
        prompt_tokens: c.prompt_tokens,
        completion_tokens: c.completion_tokens,
        total_tokens: (c.prompt_tokens + c.completion_tokens) as u64,
        requests: c.requests,
        cost_is_estimate: !priced || c.estimated,
        estimated: c.estimated,
    }
}

/// A snapshot shows what was counted, and their sum; the cost is exact only where
/// prices are known and every count is the provider's own.
pub proof fn a_snapshot_shows_the_count(c: UsageCounter, priced: bool)
    requires
        c.prompt_tokens + c.completion_tokens <= u64::MAX,
    ensures
        snapshot_taken(c, priced).prompt_tokens == c.prompt_tokens,
        snapshot_taken(c, priced).completion_tokens == c.completion_tokens,
        snapshot_taken(c, priced).total_tokens == c.prompt_tokens + c.completion_tokens,
        snapshot_taken(c, priced).requests == c.requests,
        snapshot_taken(c, priced).estimated == c.estimated,
        !snapshot_taken(c, priced).cost_is_estimate <==> priced && !c.estimated,
{
}

impl UsageCounter {
    /// Nothing spent yet.
    pub fn new() -> (r: UsageCounter)
        ensures
            r == (UsageCounter {
                prompt_tokens: 0,
                completion_tokens: 0,
                requests: 0,
                estimated: false,
            }),
    {
        UsageCounter { prompt_tokens: 0, completion_tokens: 0, requests: 0, estimated: false }
    }

    /// Count one request.
    pub fn record_usage(
        &mut self,
        usage: Option<Usage>,
        prompt_chars: usize,
        completion_chars: usize,
    )
        ensures
            *final(self) == usage_after(
                *old(self),
                usage,
                prompt_chars as int,
                completion_chars as int,
            ),
    {
        self.requests = self.requests.wrapping_add(1);
        match usage {
            Some(u) => {
                self.prompt_tokens = self.prompt_tokens.wrapping_add(u.prompt_tokens);
                self.completion_tokens = self.completion_tokens.wrapping_add(u.completion_tokens);
            },
            None => {
                self.prompt_tokens = self.prompt_tokens.wrapping_add(estimate_tokens(prompt_chars));
                self.completion_tokens = self.completion_tokens.wrapping_add(
                    estimate_tokens(completion_chars),
                );
                self.estimated = true;
            },
        }
    }

    /// What was spent so far. `priced` says whether any price was configured.
    pub fn usage_snapshot(&self, priced: bool) -> (r: UsageSnapshot)
        requires
            self.prompt_tokens + self.completion_tokens <= u64::MAX,
        ensures
            r == (UsageSnapshot {
                prompt_tokens: self.prompt_tokens,
                completion_tokens: self.completion_tokens,
                total_tokens: (self.prompt_tokens + self.completion_tokens) as u64,
                requests: self.requests,
                cost_is_estimate: !priced || self.estimated,
                estimated: self.estimated,
            }),
            r == snapshot_taken(*self, priced),
    {
        UsageSnapshot {
            prompt_tokens: self.prompt_tokens,
            completion_tokens: self.completion_tokens,
            total_tokens: self.prompt_tokens + self.completion_tokens,
            requests: self.requests,
            cost_is_estimate: !priced || self.estimated,
            estimated: self.estimated,
        }
    }
}

/// Once an estimate was counted, the total is labelled as one for good.
pub proof fn estimates_stay_labelled(
    c: UsageCounter,
    usage: Option<Usage>,
    prompt_chars: int,
    completion_chars: int,
)
    ensures
        usage is None ==> usage_after(c, usage, prompt_chars, completion_chars).estimated,
        c.estimated ==> usage_after(c, usage, prompt_chars, completion_chars).estimated,
        !c.estimated && usage is Some ==> !usage_after(
            c,
            usage,
            prompt_chars,
            completion_chars,
        ).estimated,
{
}

/// What was spent between two readings; none when nothing was.
pub open spec fn spent_between(before: UsageSnapshot, after: UsageSnapshot) -> Option<EventUsage> {
    let p = if after.prompt_tokens >= before.prompt_tokens {
        after.prompt_tokens - before.prompt_tokens
    } else {
        0
    };
    let c = if after.completion_tokens >= before.completion_tokens {
        after.completion_tokens - before.completion_tokens
    } else {
        0
    };
    if p > 0 || c > 0 {
        Some(EventUsage { prompt_tokens: p as u64, completion_tokens: c as u64 })
    } else {
        None
    }
}

/// What was spent between two readings; none when nothing was.
pub fn round_usage(before: UsageSnapshot, after: UsageSnapshot) -> (r: Option<EventUsage>)
    ensures
        r == spent_between(before, after),
{
    let prompt_tokens: u64 = after.prompt_tokens.saturating_sub(before.prompt_tokens);
    let completion_tokens: u64 = after.completion_tokens.saturating_sub(before.completion_tokens);
    if prompt_tokens > 0 || completion_tokens > 0 {
        Some(EventUsage { prompt_tokens, completion_tokens })
    } else {
        None
    }
}

/// The output cap that goes with a prompt of `prompt_chars` bytes, given the
/// cap that is wanted and the window of the model. `known` says whether the
/// endpoint lists the model at all.
pub open spec fn budget_for(
    want: Option<u32>,
    known: bool,
    window: Option<u32>,
    prompt_chars: int,
) -> Option<u32> {
    match want {
        None => None,
        Some(w) => if !known {
            Some(w)
        } else {
            match window {
                None => Some(w),
                Some(total) => {
                    let room = total - ((prompt_chars / 4) % 0x1_0000_0000) - WINDOW_SLACK;
                    let cap = if w as int <= room {
                        w as int
                    } else {
                        room
                    };
                    Some(
                        if cap >= MIN_OUTPUT_TOKENS {
                            cap as u32
                        } else {
                            MIN_OUTPUT_TOKENS
                        },
                    )
                },
            }
        },
    }
}

/// The output cap that goes with a prompt of `prompt_chars` bytes.
pub fn output_budget(
    want: Option<u32>,
    known: bool,
    window: Option<u32>,
    prompt_chars: usize,
) -> (r: Option<u32>)
    ensures
        r == budget_for(want, known, window, prompt_chars as int),
{
    let want: u32 = match want {
        Some(w) => w,
        None => return None,
    };
    if !known {
        return Some(want);
    }
    let window: u32 = match window {
        Some(w) => w,
        None => return Some(want),
    };
    let tokens: u64 = (prompt_chars / CHARS_PER_TOKEN) as u64;
    let prompt: u32 = (tokens % 0x1_0000_0000) as u32;
    let room: u32 = window.saturating_sub(prompt).saturating_sub(WINDOW_SLACK);
    let cap: u32 = if want <= room { want } else { room };
    Some(if cap >= MIN_OUTPUT_TOKENS { cap } else { MIN_OUTPUT_TOKENS })
}

/// A cap is never below the floor, and never above what was wanted unless that
/// was below it.
pub proof fn budget_is_bounded(want: u32, window: u32, prompt_chars: nat)
    ensures
        budget_for(Some(want), true, Some(window), prompt_chars as int).unwrap()
            >= MIN_OUTPUT_TOKENS,
        want >= MIN_OUTPUT_TOKENS ==> budget_for(
            Some(want),
            true,
            Some(window),
            prompt_chars as int,
        ).unwrap() <= want,
{
}

/// `to_string` of a `serde_json::Value`: its text without spaces. Strings and
/// keys are written as JSON string literals, members in the order in which the
/// value holds them, and a number as its own text.
#[verifier::external_body]
fn to_compact(v: &serde_json::Value) -> (r: String)
    ensures
        r@ == compact_text(value_of(*v)),
{
    v.to_string()
}

/// How many bytes some values take as compact text.
pub open spec fn compact_bytes(v: Seq<serde_json::Value>) -> nat
    decreases v.len(),
{
    if v.len() == 0 {
        0
    } else {
        compact_bytes(v.drop_last()) + utf8_len(compact_text(value_of(v.last())))
    }
}

/// How many bytes some values take as compact text, none where that is beyond
/// what can be counted.
pub fn json_chars(values: &Vec<serde_json::Value>) -> (r: Option<usize>)
    ensures
        match r {
            Some(n) => n == compact_bytes(values@),
            None => compact_bytes(values@) > usize::MAX,
        },
{
    let mut n: usize = 0;
    let mut i: usize = 0;
    while i < values.len()
        invariant
            i <= values@.len(),
            n == compact_bytes(values@.take(i as int)),
        decreases values.len() - i,
    {
        proof {
            assert(values@.take(i + 1).drop_last() =~= values@.take(i as int));
            assert(values@.take(i + 1).last() == values@[i as int]);
            lemma_bytes_grow(values@, i + 1);
        }
        let text = to_compact(&values[i]);
        let more = byte_len(text.as_str());
        if more > usize::MAX - n {
            return None;
        }
        n += more;
        i += 1;
    }
    assert(values@.take(values@.len() as int) =~= values@);
    Some(n)
}

proof fn lemma_bytes_grow(v: Seq<serde_json::Value>, n: int)
    requires
        0 <= n <= v.len(),
    ensures
        compact_bytes(v.take(n)) <= compact_bytes(v),
    decreases v.len() - n,
{
    if n < v.len() {
        lemma_bytes_grow(v, n + 1);
        assert(v.take(n + 1).drop_last() =~= v.take(n));
    } else {
        assert(v.take(n) =~= v);
    }
}

} // verus!
