//! Tool calls put together from the fragments of a stream.

use vstd::prelude::*;

use crate::json::{Json, JsonV};
use crate::message::{calls, opt_json, CallV, ToolCall};
use crate::text::affix::{opens, starts_with};
use crate::text::number::{dec, decimal_usize};
use crate::text::{cat2, opt, same};

verus! {

/// A tool call as far as its fragments have arrived.
pub struct PartialToolCall {
    pub index: usize,
    pub id: String,
    pub name: String,
    pub arguments: String,
    pub extra_content: Option<Json>,
}

/// The model of a partial call.
#[verifier::ext_equal]
pub struct PartialV {
    pub index: usize,
    pub id: Seq<char>,
    pub name: Seq<char>,
    pub arguments: Seq<char>,
    pub extra_content: Option<JsonV>,
}

impl View for PartialToolCall {
    type V = PartialV;

    open spec fn view(&self) -> PartialV {
        PartialV {
            index: self.index,
            id: self.id@,
            name: self.name@,
            arguments: self.arguments@,
            extra_content: opt_json(self.extra_content),
        }
    }
}

/// One fragment of a tool call.
pub struct ToolCallDelta {
    pub index: usize,
    pub id: Option<String>,
    pub name: Option<String>,
    pub arguments: Option<String>,
    pub extra_content: Option<Json>,
}

/// The model of a fragment.
#[verifier::ext_equal]
pub struct DeltaV {
    pub index: usize,
    pub id: Option<Seq<char>>,
    pub name: Option<Seq<char>>,
    pub arguments: Option<Seq<char>>,
    pub extra_content: Option<JsonV>,
}

impl View for ToolCallDelta {
    type V = DeltaV;

    open spec fn view(&self) -> DeltaV {
        DeltaV {
            index: self.index,
            id: opt(self.id),
            name: opt(self.name),
            arguments: opt(self.arguments),
            extra_content: opt_json(self.extra_content),
        }
    }
}

/// The partial calls of a stream, in the order of their indices.
pub struct Partials {
    slots: Vec<PartialToolCall>,
}

/// The indices strictly ascend.
pub open spec fn ascending(v: Seq<PartialV>) -> bool {
    forall|i: int, j: int| 0 <= i < j < v.len() ==> (#[trigger] v[i]).index < (#[trigger] v[j]).index
}

/// A text that is there and not empty.
pub open spec fn filled(s: Option<Seq<char>>) -> Option<Seq<char>> {
    match s {
        Some(t) => if t.len() > 0 {
            Some(t)
        } else {
            None
        },
        None => None,
    }
}

/// True when a fragment can belong to the call: its id and its name, where it
/// has them, do not contradict the call's.
pub open spec fn fits(slot: PartialV, d: DeltaV) -> bool {
    (match filled(d.id) {
        Some(id) => slot.id.len() == 0 || slot.id == id,
        None => true,
    }) && (match filled(d.name) {
        Some(name) => slot.name.len() == 0 || slot.name == name,
        None => true,
    })
}

/// A call nothing has arrived of.
pub open spec fn blank_slot(index: usize) -> PartialV {
    PartialV {
        index,
        id: Seq::empty(),
        name: Seq::empty(),
        arguments: Seq::empty(),
        extra_content: None,
    }
}

/// The arguments with one more fragment: a fragment that opens with everything
/// gathered so far replaces it, any other goes on from it.
pub open spec fn more_arguments(have: Seq<char>, more: Option<Seq<char>>) -> Seq<char> {
    match more {
        Some(args) => if have.len() > 0 && opens(args, have) {
            args
        } else {
            have + args
        },
        None => have,
    }
}

/// The call with one more fragment.
pub open spec fn slot_with(slot: PartialV, d: DeltaV) -> PartialV {
    PartialV {
        index: slot.index,
        id: match filled(d.id) {
            Some(id) => id,
            None => slot.id,
        },
        name: match filled(d.name) {
            Some(name) => name,
            None => slot.name,
        },
        arguments: more_arguments(slot.arguments, d.arguments),
        extra_content: match d.extra_content {
            Some(x) => Some(x),
            None => slot.extra_content,
        },
    }
}

/// The call at an index, if anything of it has arrived.
pub open spec fn slot_at(v: Seq<PartialV>, index: usize) -> Option<PartialV>
    decreases v.len(),
{
    if v.len() == 0 {
        None
    } else if v[0].index == index {
        Some(v[0])
    } else {
        slot_at(v.drop_first(), index)
    }
}

/// The first index after all that are taken.
pub open spec fn fresh_index(v: Seq<PartialV>) -> int {
    if v.len() == 0 {
        0
    } else {
        v.last().index + 1
    }
}

/// The index a fragment goes to: its own, unless another call has it.
pub open spec fn target_index(v: Seq<PartialV>, d: DeltaV) -> int {
    match slot_at(v, d.index) {
        Some(slot) => if fits(slot, d) {
            d.index as int
        } else {
            fresh_index(v)
        },
        None => d.index as int,
    }
}

/// The calls with one set at its index.
pub open spec fn with_slot(v: Seq<PartialV>, slot: PartialV) -> Seq<PartialV>
    decreases v.len(),
{
    if v.len() == 0 {
        Seq::empty().push(slot)
    } else if v[0].index == slot.index {
        Seq::empty().push(slot) + v.drop_first()
    } else if v[0].index > slot.index {
        Seq::empty().push(slot) + v
    } else {
        Seq::empty().push(v[0]) + with_slot(v.drop_first(), slot)
    }
}

/// The calls with one more fragment.
pub open spec fn merged(v: Seq<PartialV>, d: DeltaV) -> Seq<PartialV> {
    let index = target_index(v, d) as usize;
    let slot = match slot_at(v, index) {
        Some(s) => s,
        None => blank_slot(index),
    };
    with_slot(v, slot_with(slot, d))
}

proof fn lemma_slot_at(v: Seq<PartialV>, index: usize, n: int)
    requires
        0 <= n <= v.len(),
        forall|k: int| 0 <= k < n ==> (#[trigger] v[k]).index < index,
        n < v.len() ==> v[n].index >= index,
        ascending(v),
    ensures
        n < v.len() && v[n].index == index ==> slot_at(v, index) == Some(v[n]),
        n == v.len() || v[n].index != index ==> slot_at(v, index) is None,
        forall|s: PartialV|
            s.index == index && n < v.len() && v[n].index == index ==> #[trigger] with_slot(v, s)
                == v.update(n, s),
        forall|s: PartialV|
            s.index == index && (n == v.len() || v[n].index != index) ==> #[trigger] with_slot(v, s)
                == v.insert(n, s),
    decreases v.len(),
{
    if v.len() == 0 {
        assert forall|s: PartialV| s.index == index implies #[trigger] with_slot(v, s) == v.insert(
            n,
            s,
        ) by {
            assert(with_slot(v, s) =~= v.insert(n, s));
        }
    } else {
        let t = v.drop_first();
        assert(ascending(t));
        if n > 0 {
            assert(v[0].index < index);
            assert forall|k: int| 0 <= k < n - 1 implies (#[trigger] t[k]).index < index by {
                assert(t[k] == v[k + 1]);
            }
            lemma_slot_at(t, index, n - 1);
            assert forall|s: PartialV|
                s.index == index && n < v.len() && v[n].index == index implies #[trigger] with_slot(
                v,
                s,
            ) == v.update(n, s) by {
                assert(with_slot(t, s) == t.update(n - 1, s));
                assert(with_slot(v, s) =~= v.update(n, s));
            }
            assert forall|s: PartialV|
                s.index == index && (n == v.len() || v[n].index
                    != index) implies #[trigger] with_slot(v, s) == v.insert(n, s) by {
                assert(with_slot(t, s) == t.insert(n - 1, s));
                assert(with_slot(v, s) =~= v.insert(n, s));
            }
        } else if v[0].index == index {
            assert forall|s: PartialV| s.index == index implies #[trigger] with_slot(v, s)
                == v.update(n, s) by {
                assert(with_slot(v, s) =~= v.update(n, s));
            }
        } else {
            lemma_absent(v, index);
            assert forall|s: PartialV| s.index == index implies #[trigger] with_slot(v, s)
                == v.insert(n, s) by {
                assert(with_slot(v, s) =~= v.insert(n, s));
            }
        }
    }
}

proof fn lemma_absent(v: Seq<PartialV>, index: usize)
    requires
        forall|k: int| 0 <= k < v.len() ==> (#[trigger] v[k]).index != index,
    ensures
        slot_at(v, index) is None,
    decreases v.len(),
{
    if v.len() > 0 {
        assert(v[0].index != index);
        assert forall|k: int| 0 <= k < v.drop_first().len() implies (
        #[trigger] v.drop_first()[k]).index != index by {
            assert(v.drop_first()[k] == v[k + 1]);
        }
        lemma_absent(v.drop_first(), index);
    }
}

fn fill(slot: &mut String, text: &Option<String>)
    ensures
        final(slot)@ == match filled(opt(*text)) {
            Some(t) => t,
            None => old(slot)@,
        },
{
    match text {
        Some(t) => if !t.as_str().is_empty() {
            *slot = t.clone();
        },
        None => {},
    }
}

fn same_call(slot: &PartialToolCall, d: &ToolCallDelta) -> (r: bool)
    ensures
        r == fits(slot@, d@),
{
    let id_ok = match &d.id {
        Some(id) => id.as_str().is_empty() || slot.id.as_str().is_empty() || same(
            slot.id.as_str(),
            id.as_str(),
        ),
        None => true,
    };
    let name_ok = match &d.name {
        Some(name) => name.as_str().is_empty() || slot.name.as_str().is_empty() || same(
            slot.name.as_str(),
            name.as_str(),
        ),
        None => true,
    };
    id_ok && name_ok
}

impl View for Partials {
    type V = Seq<PartialV>;

    closed spec fn view(&self) -> Seq<PartialV> {
        Seq::new(self.slots@.len(), |i: int| self.slots@[i]@)
    }
}

impl Partials {
    /// The indices strictly ascend.
    pub open spec fn wf(&self) -> bool {
        ascending(self@)
    }

    /// No calls yet.
    pub fn new() -> (r: Partials)
        ensures
            r@ == Seq::<PartialV>::empty(),
            r.wf(),
    {
        let r = Partials { slots: Vec::new() };
        assert(r@ =~= Seq::<PartialV>::empty());
        r
    }

    /// The same calls again.
    pub fn copy(&self) -> (r: Partials)
        ensures
            r@ == self@,
    {
        let mut slots: Vec<PartialToolCall> = Vec::new();
        let mut i: usize = 0;
        while i < self.slots.len()
            invariant
                i <= self.slots@.len(),
                slots@.len() == i,
                forall|k: int| 0 <= k < i ==> #[trigger] slots@[k]@ == self.slots@[k]@,
            decreases self.slots.len() - i,
        {
            let slot = &self.slots[i];
            slots.push(
                PartialToolCall {
                    index: slot.index,
                    id: slot.id.clone(),
                    name: slot.name.clone(),
                    arguments: slot.arguments.clone(),
                    extra_content: crate::message::copy_opt_json(&slot.extra_content),
                },
            );
            i += 1;
        }
        let r = Partials { slots };
        assert(r@ =~= self@);
        r
    }

    /// Whether nothing has arrived.
    pub fn is_empty(&self) -> (r: bool)
        ensures
            r == (self@.len() == 0),
    {
        self.slots.len() == 0
    }

    fn place(&self, index: usize) -> (n: usize)
        requires
            self.wf(),
        ensures
            n <= self.slots@.len(),
            forall|k: int| 0 <= k < n ==> (#[trigger] self@[k]).index < index,
            n < self.slots@.len() ==> self@[n as int].index >= index,
    {
        let mut n: usize = 0;
        while n < self.slots.len() && self.slots[n].index < index
            invariant
                n <= self.slots@.len(),
                forall|k: int| 0 <= k < n ==> (#[trigger] self@[k]).index < index,
            decreases self.slots.len() - n,
        {
            n += 1;
        }
        n
    }

    /// Whether there is an index left for the fragment.
    pub fn has_room(&self, d: &ToolCallDelta) -> (r: bool)
        requires
            self.wf(),
        ensures
            r == (target_index(self@, d@) <= usize::MAX),
    {
        let n = self.place(d.index);
        proof {
            lemma_slot_at(self@, d.index, n as int);
        }
        if n < self.slots.len() && self.slots[n].index == d.index && !same_call(
            &self.slots[n],
            d,
        ) {
            self.slots[self.slots.len() - 1].index < usize::MAX
        } else {
            true
        }
    }

    /// Take one fragment in: it goes to the call at its index, or to a call of
    /// its own when that one is another.
    pub fn merge_tool_call(&mut self, d: &ToolCallDelta)
        requires
            old(self).wf(),
            target_index(old(self)@, d@) <= usize::MAX,
        ensures
            final(self)@ == merged(old(self)@, d@),
            final(self).wf(),
    {
        let ghost start = self@;
        let own = self.place(d.index);
        proof {
            lemma_slot_at(start, d.index, own as int);
        }
        let index: usize = if own < self.slots.len() && self.slots[own].index == d.index
            && !same_call(&self.slots[own], d) {
            self.slots[self.slots.len() - 1].index + 1
        } else {
            d.index
        };
        assert(index == target_index(start, d@));
        let n = self.place(index);
        proof {
            lemma_slot_at(start, index, n as int);
        }
        if n < self.slots.len() && self.slots[n].index == index {
            let had = &self.slots[n];
            let mut id = had.id.clone();
            fill(&mut id, &d.id);
            let mut name = had.name.clone();
            fill(&mut name, &d.name);
            let arguments = match &d.arguments {
                Some(args) => if !had.arguments.as_str().is_empty() && starts_with(
                    args.as_str(),
                    had.arguments.as_str(),
                ) {
                    args.clone()
                } else {
                    cat2(had.arguments.as_str(), args.as_str())
                },
                None => had.arguments.clone(),
            };
            let extra_content = match &d.extra_content {
                Some(x) => Some(x.copy()),
                None => crate::message::copy_opt_json(&had.extra_content),
            };
            let slot = PartialToolCall { index, id, name, arguments, extra_content };
            assert(slot@ == slot_with(start[n as int], d@));
            self.slots.set(n, slot);
            assert(self@ =~= start.update(n as int, slot@));
        } else {
            let mut id = String::new();
            assert(id@ =~= Seq::empty());
            fill(&mut id, &d.id);
            let mut name = String::new();
            assert(name@ =~= Seq::empty());
            fill(&mut name, &d.name);
            let arguments = match &d.arguments {
                Some(args) => args.clone(),
                None => String::new(),
            };
            assert(arguments@ =~= more_arguments(Seq::empty(), d@.arguments));
            let slot = PartialToolCall {
                index,
                id,
                name,
                arguments,
                extra_content: crate::message::copy_opt_json(&d.extra_content),
            };
            assert(slot@ == slot_with(blank_slot(index), d@));
            self.slots.insert(n, slot);
            assert(self@ =~= start.insert(n as int, slot@));
        }
    }

    /// The calls that have a name, in order. One without an id is identified by
    /// its index.
    pub fn finish(&self) -> (r: Vec<ToolCall>)
        ensures
            calls(r@) == finished(self@),
    {
        let ghost all = self@;
        let mut out: Vec<ToolCall> = Vec::new();
        let mut i: usize = 0;
        assert(calls(out@) =~= finished(all.take(0)));
        while i < self.slots.len()
            invariant
                i <= self.slots@.len(),
                all == self@,
                calls(out@) == finished(all.take(i as int)),
            decreases self.slots.len() - i,
        {
            proof {
                assert(all.take(i + 1).drop_last() =~= all.take(i as int));
                assert(all.take(i + 1).last() == all[i as int]);
            }
            let ghost had = calls(out@);
            let slot = &self.slots[i];
            if !slot.name.as_str().is_empty() {
                let id = if slot.id.as_str().is_empty() {
                    cat2("call_", decimal_usize(slot.index).as_str())
                } else {
                    slot.id.clone()
                };
                let call = ToolCall {
                    id,
                    name: slot.name.clone(),
                    arguments: slot.arguments.clone(),
                    extra_content: crate::message::copy_opt_json(&slot.extra_content),
                };
                out.push(call);
                assert(calls(out@) =~= had.push(call@));
            }
            i += 1;
        }
        assert(all.take(all.len() as int) =~= all);
        out
    }
}

/// The calls that have a name, in order. One without an id is identified by its
/// index.
pub open spec fn finished(v: Seq<PartialV>) -> Seq<CallV>
    decreases v.len(),
{
    if v.len() == 0 {
        Seq::empty()
    } else {
        let slot = v.last();
        let head = finished(v.drop_last());
        if slot.name.len() == 0 {
            head
        } else {
            head.push(
                CallV {
                    id: if slot.id.len() == 0 {
                        "call_"@ + dec(slot.index as nat)
                    } else {
                        slot.id
                    },
                    name: slot.name,
                    arguments: slot.arguments,
                    extra_content: slot.extra_content,
                },
            )
        }
    }
}

/// A fragment that goes on from the arguments adds to them; one that repeats
/// them whole replaces them. Either way nothing gathered is lost.
pub proof fn arguments_only_grow(have: Seq<char>, more: Option<Seq<char>>)
    ensures
        opens(more_arguments(have, more), have),
{
    assert(have.take(have.len() as int) =~= have);
    match more {
        Some(args) => {
            assert((have + args).take(have.len() as int) =~= have);
        },
        None => {},
    }
}

/// A fragment changes one call; every other one stays as it is.
pub proof fn merging_touches_one_call(v: Seq<PartialV>, d: DeltaV, other: usize)
    requires
        ascending(v),
        target_index(v, d) <= usize::MAX,
        other != target_index(v, d),
    ensures
        slot_at(merged(v, d), other) == slot_at(v, other),
{
    let index = target_index(v, d) as usize;
    let slot = match slot_at(v, index) {
        Some(s) => s,
        None => blank_slot(index),
    };
    lemma_slot_index(v, index);
    lemma_other_slots(v, slot_with(slot, d), other);
}

/// Where a fragment goes: to the call at its own index, unless that one has
/// another id or another name; then to a call of its own behind all others.
pub proof fn fragments_go_to_their_own_call(v: Seq<PartialV>, d: DeltaV)
    requires
        ascending(v),
        target_index(v, d) <= usize::MAX,
    ensures
        ({
            let slot = slot_at(v, d.index);
            let other_id = d.id is Some && d.id.unwrap().len() > 0 && slot is Some
                && slot.unwrap().id.len() > 0 && slot.unwrap().id != d.id.unwrap();
            let other_name = d.name is Some && d.name.unwrap().len() > 0 && slot is Some
                && slot.unwrap().name.len() > 0 && slot.unwrap().name != d.name.unwrap();
            if other_id || other_name {
                forall|i: int| 0 <= i < v.len() ==> (#[trigger] v[i]).index < target_index(v, d)
            } else {
                target_index(v, d) == d.index
            }
        }),
{
    if v.len() == 0 {
        lemma_absent(v, d.index);
    }
}

/// A fragment's id and name, where it has them, become those of the call it
/// goes to; its arguments go behind those gathered, or replace them when they
/// open with them. What the fragment does not carry stays.
pub proof fn a_fragment_fills_its_call(v: Seq<PartialV>, d: DeltaV)
    requires
        ascending(v),
        target_index(v, d) <= usize::MAX,
    ensures
        slot_at(merged(v, d), target_index(v, d) as usize) is Some,
        ({
            let had = slot_at(v, target_index(v, d) as usize);
            let now = slot_at(merged(v, d), target_index(v, d) as usize).unwrap();
            let gathered = if had is Some { had.unwrap().arguments } else { Seq::empty() };
            &&& now.index == target_index(v, d)
            &&& d.id is Some && d.id.unwrap().len() > 0 ==> now.id == d.id.unwrap()
            &&& d.id is None && had is Some ==> now.id == had.unwrap().id
            &&& d.name is Some && d.name.unwrap().len() > 0 ==> now.name == d.name.unwrap()
            &&& d.name is None && had is Some ==> now.name == had.unwrap().name
            &&& d.arguments is None ==> now.arguments == gathered
            &&& d.arguments is Some && gathered.len() == 0 ==> now.arguments
                == d.arguments.unwrap()
            &&& d.arguments is Some && !opens(d.arguments.unwrap(), gathered) ==> now.arguments
                == gathered + d.arguments.unwrap()
            &&& d.arguments is Some && opens(d.arguments.unwrap(), gathered) ==> now.arguments
                == d.arguments.unwrap()
            &&& d.extra_content is Some ==> now.extra_content == d.extra_content
            &&& d.extra_content is None && had is Some ==> now.extra_content
                == had.unwrap().extra_content
        }),
{
    let index = target_index(v, d) as usize;
    let had = slot_at(v, index);
    let slot = match had {
        Some(s) => s,
        None => blank_slot(index),
    };
    lemma_slot_index(v, index);
    lemma_own_slot(v, slot_with(slot, d));
    if d.arguments is Some && slot.arguments.len() == 0 {
        assert(slot.arguments + d.arguments.unwrap() =~= d.arguments.unwrap());
    }
}

proof fn lemma_own_slot(v: Seq<PartialV>, slot: PartialV)
    ensures
        slot_at(with_slot(v, slot), slot.index) == Some(slot),
    decreases v.len(),
{
    let w = with_slot(v, slot);
    if v.len() > 0 && v[0].index < slot.index {
        lemma_own_slot(v.drop_first(), slot);
        assert(w.drop_first() =~= with_slot(v.drop_first(), slot));
    }
}

/// The finished calls are the partial ones that have a name, in their order,
/// each with its own name and arguments, and its own id where it has one.
pub proof fn finished_calls_are_the_named_ones(v: Seq<PartialV>) -> (from: Seq<int>)
    ensures
        from.len() == finished(v).len(),
        forall|i: int|
            0 <= i < from.len() ==> {
                let slot = v[#[trigger] from[i]];
                let call = finished(v)[i];
                &&& 0 <= from[i] < v.len()
                &&& slot.name.len() > 0
                &&& call.name == slot.name
                &&& call.arguments == slot.arguments
                &&& call.extra_content == slot.extra_content
                &&& slot.id.len() > 0 ==> call.id == slot.id
                &&& slot.id.len() == 0 ==> call.id == "call_"@ + dec(slot.index as nat)
            },
        forall|i: int, j: int|
            0 <= i < j < from.len() ==> #[trigger] from[i] < #[trigger] from[j],
        forall|k: int|
            0 <= k < v.len() && (#[trigger] v[k]).name.len() > 0 ==> from.contains(k),
    decreases v.len(),
{
    if v.len() == 0 {
        Seq::empty()
    } else {
        let head = v.drop_last();
        let most = finished_calls_are_the_named_ones(head);
        let from = if v.last().name.len() > 0 { most.push(v.len() - 1) } else { most };
        assert forall|i: int| 0 <= i < most.len() implies head[#[trigger] most[i]] == v[most[i]] by {}
        assert forall|k: int| 0 <= k < v.len() && (#[trigger] v[k]).name.len()
            > 0 implies from.contains(k) by {
            if k < v.len() - 1 {
                assert(head[k] == v[k]);
                let j = choose|j: int| 0 <= j < most.len() && most[j] == k;
                assert(from[j] == k);
            } else {
                assert(from[from.len() - 1] == k);
            }
        }
        from
    }
}

proof fn lemma_slot_index(v: Seq<PartialV>, index: usize)
    ensures
        slot_at(v, index) is Some ==> slot_at(v, index).unwrap().index == index,
    decreases v.len(),
{
    if v.len() > 0 {
        lemma_slot_index(v.drop_first(), index);
    }
}

proof fn lemma_other_slots(v: Seq<PartialV>, slot: PartialV, other: usize)
    requires
        slot.index != other,
    ensures
        slot_at(with_slot(v, slot), other) == slot_at(v, other),
    decreases v.len(),
{
    let w = with_slot(v, slot);
    if v.len() == 0 {
        assert(w.drop_first() =~= v);
    } else if v[0].index == slot.index {
        assert(w.drop_first() =~= v.drop_first());
    } else if v[0].index > slot.index {
        assert(w.drop_first() =~= v);
    } else {
        lemma_other_slots(v.drop_first(), slot, other);
        assert(w.drop_first() =~= with_slot(v.drop_first(), slot));
    }
}

} // verus!
