//! What holds of everything that a streamed reply shows.

use vstd::prelude::*;

use crate::client::partials::{merged, DeltaV, PartialV};
use crate::client::reasoning::{detail_shown, reasoned, DetailV};
use crate::client::stream::{
    choice_shown, choice_taken, details_after, details_shown, partials_after, stops, ChoiceV,
    StreamV,
};

verus! {

/// The text among what was shown, piece after piece.
pub open spec fn text_shown(v: Seq<(bool, Seq<char>)>) -> Seq<char>
    decreases v.len(),
{
    if v.len() == 0 {
        Seq::empty()
    } else if v.last().0 {
        text_shown(v.drop_last())
    } else {
        text_shown(v.drop_last()) + v.last().1
    }
}

/// The stream once the first `n` choices are in.
pub open spec fn stream_after(s: StreamV, choices: Seq<ChoiceV>, n: nat) -> StreamV
    decreases n,
{
    if n == 0 || n > choices.len() {
        s
    } else {
        choice_taken(stream_after(s, choices, (n - 1) as nat), choices[n - 1])
    }
}

/// All that the first `n` choices showed.
pub open spec fn shown_after(choices: Seq<ChoiceV>, n: nat) -> Seq<(bool, Seq<char>)>
    decreases n,
{
    if n == 0 || n > choices.len() {
        Seq::empty()
    } else {
        shown_after(choices, (n - 1) as nat) + choice_shown(choices[n - 1])
    }
}

proof fn lemma_text_concat(a: Seq<(bool, Seq<char>)>, b: Seq<(bool, Seq<char>)>)
    ensures
        text_shown(a + b) == text_shown(a) + text_shown(b),
    decreases b.len(),
{
    if b.len() == 0 {
        assert(a + b =~= a);
        assert(text_shown(a) + text_shown(b) =~= text_shown(a));
    } else {
        lemma_text_concat(a, b.drop_last());
        assert((a + b).drop_last() =~= a + b.drop_last());
        assert((a + b).last() == b.last());
        assert(text_shown(a + b) =~= text_shown(a) + text_shown(b));
    }
}

proof fn lemma_thinking_is_no_text(v: Seq<DetailV>, n: nat)
    ensures
        text_shown(details_shown(v, n)) == Seq::<char>::empty(),
    decreases n,
{
    if n > 0 && n <= v.len() {
        lemma_thinking_is_no_text(v, (n - 1) as nat);
        let head = details_shown(v, (n - 1) as nat);
        match detail_shown(v[n - 1]) {
            Some(text) => {
                assert(head.push((true, text)).drop_last() =~= head);
            },
            None => {},
        }
    }
}

proof fn lemma_choice_text(c: ChoiceV)
    requires
        !stops(c),
    ensures
        text_shown(choice_shown(c)) == c.text,
{
    let none = Seq::<(bool, Seq<char>)>::empty();
    let a = if c.tagged.len() > 0 {
        none.push((true, c.tagged))
    } else {
        none
    };
    assert(text_shown(none) =~= Seq::empty());
    assert(text_shown(a) =~= Seq::empty()) by {
        assert(none.push((true, c.tagged)).drop_last() =~= none);
    }
    let b = if c.text.len() > 0 {
        a.push((false, c.text))
    } else {
        a
    };
    assert(text_shown(b) =~= c.text) by {
        assert(a.push((false, c.text)).drop_last() =~= a);
    }
    let d = match c.reasoning_content {
        Some(text) => if text.len() > 0 {
            b.push((true, text))
        } else {
            b
        },
        None => b,
    };
    assert(text_shown(d) == text_shown(b)) by {
        if c.reasoning_content is Some {
            assert(b.push((true, c.reasoning_content.unwrap())).drop_last() =~= b);
        }
    }
    let rest = details_shown(c.reasoning_details, c.reasoning_details.len());
    lemma_text_concat(d, rest);
    lemma_thinking_is_no_text(c.reasoning_details, c.reasoning_details.len());
    assert(text_shown(choice_shown(c)) =~= c.text);
}

/// The content of a stream is the text that was shown of it, piece after piece,
/// as long as it was not dropped; thinking is shown and is none of it.
pub proof fn the_content_is_the_text_shown(s: StreamV, choices: Seq<ChoiceV>, n: nat)
    requires
        n <= choices.len(),
        forall|i: int| 0 <= i < n ==> !stops(#[trigger] choices[i]),
    ensures
        stream_after(s, choices, n).content == s.content + text_shown(shown_after(choices, n)),
    decreases n,
{
    if n == 0 {
        assert(s.content + text_shown(shown_after(choices, 0)) =~= s.content);
    } else {
        the_content_is_the_text_shown(s, choices, (n - 1) as nat);
        assert(!stops(choices[n - 1]));
        lemma_choice_text(choices[n - 1]);
        lemma_text_concat(shown_after(choices, (n - 1) as nat), choice_shown(choices[n - 1]));
        assert(stream_after(s, choices, n).content =~= s.content + text_shown(
            shown_after(choices, n),
        ));
    }
}

/// True when none of the first `n` pieces stops the stream: none has text that
/// makes the reply one that only repeats itself.
pub open spec fn none_stops(choices: Seq<ChoiceV>, n: nat) -> bool {
    forall|i: int|
        0 <= i < n && i < choices.len() ==> !((#[trigger] choices[i]).repeats
            && choices[i].text.len() > 0)
}

/// The text of the first `n` pieces, one after the other.
pub open spec fn text_of(choices: Seq<ChoiceV>, n: nat) -> Seq<char>
    decreases n,
{
    if n == 0 || n > choices.len() {
        Seq::empty()
    } else {
        text_of(choices, (n - 1) as nat) + choices[n - 1].text
    }
}

/// The bare thinking of the first `n` pieces, one after the other.
pub open spec fn thinking_of(choices: Seq<ChoiceV>, n: nat) -> Seq<char>
    decreases n,
{
    if n == 0 || n > choices.len() {
        Seq::empty()
    } else {
        let c = choices[n - 1];
        thinking_of(choices, (n - 1) as nat) + c.tagged + if c.reasoning_content is Some {
            c.reasoning_content.unwrap()
        } else {
            Seq::empty()
        }
    }
}

/// The fragments of tool calls in the first `n` pieces, one after the other.
pub open spec fn fragments_of(choices: Seq<ChoiceV>, n: nat) -> Seq<DeltaV>
    decreases n,
{
    if n == 0 || n > choices.len() {
        Seq::empty()
    } else {
        fragments_of(choices, (n - 1) as nat) + choices[n - 1].tool_calls
    }
}

/// The fragments of thinking in the first `n` pieces, one after the other.
pub open spec fn thoughts_in(choices: Seq<ChoiceV>, n: nat) -> Seq<DetailV>
    decreases n,
{
    if n == 0 || n > choices.len() {
        Seq::empty()
    } else {
        thoughts_in(choices, (n - 1) as nat) + choices[n - 1].reasoning_details
    }
}

proof fn lemma_partials_fold(have: Seq<PartialV>, v: Seq<DeltaV>, n: nat)
    requires
        n <= v.len(),
    ensures
        partials_after(have, v, n) == v.take(n as int).fold_left(
            have,
            |h: Seq<PartialV>, d: DeltaV| merged(h, d),
        ),
    decreases n,
{
    if n > 0 {
        lemma_partials_fold(have, v, (n - 1) as nat);
        assert(v.take(n as int).drop_last() =~= v.take(n - 1));
        assert(v.take(n as int).last() == v[n - 1]);
    }
}

proof fn lemma_details_fold(have: Seq<DetailV>, v: Seq<DetailV>, n: nat)
    requires
        n <= v.len(),
    ensures
        details_after(have, v, n) == v.take(n as int).fold_left(
            have,
            |h: Seq<DetailV>, d: DetailV| reasoned(h, d),
        ),
    decreases n,
{
    if n > 0 {
        lemma_details_fold(have, v, (n - 1) as nat);
        assert(v.take(n as int).drop_last() =~= v.take(n - 1));
        assert(v.take(n as int).last() == v[n - 1]);
    }
}

proof fn lemma_fold_concat<A, B>(a: Seq<A>, b: Seq<A>, start: B, f: spec_fn(B, A) -> B)
    ensures
        (a + b).fold_left(start, f) == b.fold_left(a.fold_left(start, f), f),
{
    (a + b).lemma_fold_left_split(start, f, a.len() as int);
    assert((a + b).subrange(0, a.len() as int) =~= a);
    assert((a + b).subrange(a.len() as int, (a + b).len() as int) =~= b);
}

/// Over any pieces of which none stops the stream, the partial calls at the end
/// are those that merging the fragments of all pieces, one after the other,
/// gives from the start.
pub proof fn every_fragment_is_merged(s: StreamV, choices: Seq<ChoiceV>, n: nat)
    requires
        n <= choices.len(),
        none_stops(choices, n),
    ensures
        stream_after(s, choices, n).partials == fragments_of(choices, n).fold_left(
            s.partials,
            |have: Seq<PartialV>, d: DeltaV| merged(have, d),
        ),
    decreases n,
{
    if n > 0 {
        let before = stream_after(s, choices, (n - 1) as nat);
        let c = choices[n - 1];
        let f = |have: Seq<PartialV>, d: DeltaV| merged(have, d);
        every_fragment_is_merged(s, choices, (n - 1) as nat);
        assert(!stops(c));
        lemma_partials_fold(before.partials, c.tool_calls, c.tool_calls.len());
        assert(c.tool_calls.take(c.tool_calls.len() as int) =~= c.tool_calls);
        lemma_fold_concat(fragments_of(choices, (n - 1) as nat), c.tool_calls, s.partials, f);
    }
}

/// Likewise the blocks of thinking are those that all fragments of thinking,
/// one after the other, build up.
pub proof fn every_block_of_thinking_is_kept(s: StreamV, choices: Seq<ChoiceV>, n: nat)
    requires
        n <= choices.len(),
        none_stops(choices, n),
    ensures
        stream_after(s, choices, n).reasoning_details == thoughts_in(choices, n).fold_left(
            s.reasoning_details,
            |have: Seq<DetailV>, d: DetailV| reasoned(have, d),
        ),
    decreases n,
{
    if n > 0 {
        let before = stream_after(s, choices, (n - 1) as nat);
        let c = choices[n - 1];
        let f = |have: Seq<DetailV>, d: DetailV| reasoned(have, d);
        every_block_of_thinking_is_kept(s, choices, (n - 1) as nat);
        assert(!stops(c));
        let v = c.reasoning_details;
        lemma_details_fold(before.reasoning_details, v, v.len());
        assert(v.take(v.len() as int) =~= v);
        lemma_fold_concat(thoughts_in(choices, (n - 1) as nat), v, s.reasoning_details, f);
    }
}

/// The calls of a stream depend on the fragments of its pieces alone: whatever
/// text, thinking and sources come along, and however the fragments are spread
/// over the pieces, the partial calls are the same.
pub proof fn calls_depend_on_fragments_alone(
    s: StreamV,
    t: StreamV,
    a: Seq<ChoiceV>,
    b: Seq<ChoiceV>,
)
    requires
        s.partials == t.partials,
        none_stops(a, a.len()),
        none_stops(b, b.len()),
        fragments_of(a, a.len()) == fragments_of(b, b.len()),
    ensures
        stream_after(s, a, a.len()).partials == stream_after(t, b, b.len()).partials,
{
    every_fragment_is_merged(s, a, a.len());
    every_fragment_is_merged(t, b, b.len());
}

/// The content is the text of all pieces and the bare thinking that of all
/// pieces, each in order; a stream that nothing stopped is no repetition, and
/// its count of tokens stays.
pub proof fn text_and_thinking_add_up(s: StreamV, choices: Seq<ChoiceV>, n: nat)
    requires
        n <= choices.len(),
        none_stops(choices, n),
    ensures
        stream_after(s, choices, n).content == s.content + text_of(choices, n),
        stream_after(s, choices, n).plain_thinking == s.plain_thinking + thinking_of(choices, n),
        stream_after(s, choices, n).degenerate == s.degenerate,
        stream_after(s, choices, n).usage == s.usage,
    decreases n,
{
    let now = stream_after(s, choices, n);
    if n > 0 {
        text_and_thinking_add_up(s, choices, (n - 1) as nat);
        assert(!stops(choices[n - 1]));
    }
    assert(now.content =~= s.content + text_of(choices, n));
    assert(now.plain_thinking =~= s.plain_thinking + thinking_of(choices, n));
}

/// The reason a stream finished is the last one given, and the sources are the
/// last that were named.
pub proof fn the_last_word_counts(s: StreamV, choices: Seq<ChoiceV>, n: nat, i: int)
    requires
        0 <= i < n <= choices.len(),
        none_stops(choices, n),
    ensures
        choices[i].finish_reason is Some && (forall|j: int|
            i < j < n ==> (#[trigger] choices[j]).finish_reason is None) ==> stream_after(
            s,
            choices,
            n,
        ).finish == choices[i].finish_reason,
        choices[i].annotations.len() > 0 && (forall|j: int|
            i < j < n ==> (#[trigger] choices[j]).annotations.len() == 0) ==> stream_after(
            s,
            choices,
            n,
        ).annotations == choices[i].annotations,
    decreases n,
{
    assert(!stops(choices[n - 1]));
    if i < n - 1 {
        the_last_word_counts(s, choices, (n - 1) as nat, i);
    }
}

/// A piece with text that only repeats what came before ends the stream: it is
/// dropped and marked, with the text itself kept.
pub proof fn a_repetition_stops_the_stream(s: StreamV, c: ChoiceV)
    requires
        c.text.len() > 0,
        c.repeats,
    ensures
        stops(c),
        choice_taken(s, c).degenerate,
        choice_taken(s, c).content == s.content + c.text,
        choice_taken(s, c).partials == s.partials,
{
}

} // verus!
