//! What holds of every key and variable that is listed, stored and cleared.

use vstd::prelude::*;

use crate::config::dotenv::{lists, with_line};
use crate::config::env;
use crate::config::key::{
    checked, cleared_lines, group_lines, group_rows, grouped, has_break, jev_row, list_value, mask,
    masked_opt, normalized, paths_value, row_note, row_value, shadow, shared_row, source_label,
    source_of, source_word, stored_as, taken_out, uppered, value_in, widest, KeyFile, Known, RowV,
    Source, State, Stored, JEV_VAR,
};
use crate::json::{found_after_push, nothing_in_nothing};
use crate::text::affix::{closes, holds, lemma_holds_between, opens, trimmed};
use crate::text::laws::{lines_end_at_line_breaks, lines_follow_one_another};
use crate::text::number::padded_right;
use crate::text::opt;
use crate::text::pieces::lines_of;
use crate::text::utf8::utf8_len;

verus! {

/// Where a value comes from: the repository's file before the user's, and the
/// shell where neither has that value; nothing where there is none.
pub proof fn a_value_is_traced(
    live: Option<Seq<char>>,
    local: Option<Seq<char>>,
    global: Option<Seq<char>>,
)
    ensures
        live is None <==> source_of(live, local, global) == Source::Unset,
        live is Some && local == live <==> source_of(live, local, global) == Source::Local,
        live is Some && local != live && global == live <==> source_of(live, local, global)
            == Source::Global,
        live is Some && local != live && global != live <==> source_of(live, local, global)
            == Source::Shell,
{
}

/// A key is shown by its last four characters at most, and a short one by none.
pub proof fn a_mask_shows_the_tail_alone(live: Seq<char>)
    ensures
        live.len() > 8 ==> mask(live).len() == 5 && closes(mask(live), live.skip(live.len() - 4)),
        live.len() <= 8 ==> mask(live) == "••••"@,
        masked_opt(Some(live)) == Some(mask(live)),
        masked_opt(None) is None,
{
    reveal_strlit("…");
    if live.len() > 8 {
        let tail = live.skip(live.len() - 4);
        assert("…"@.len() == 1);
        assert(mask(live).skip(1) =~= tail);
    }
}

/// A name is taken without the blanks around it and in capitals.
pub proof fn names_are_taken_in_capitals(var: Seq<char>)
    ensures
        normalized(var) matches Ok(v) ==> v == uppered(trimmed(var)) && v.len() == trimmed(
            var,
        ).len() && v.len() > 0,
        trimmed(var).len() == 0 ==> normalized(var) is Err,
        forall|i: int|
            0 <= i < var.len() && 'a' <= #[trigger] var[i] <= 'z' ==> uppered(var)[i] as u32 + 32
                == var[i] as u32,
        forall|i: int|
            0 <= i < var.len() && !('a' <= #[trigger] var[i] <= 'z') ==> uppered(var)[i] == var[i],
{
    assert forall|i: int| 0 <= i < var.len() && 'a' <= #[trigger] var[i] <= 'z' implies uppered(
        var,
    )[i] as u32 + 32 == var[i] as u32 by {
        let c = var[i];
        assert(c as u8 as u32 == c as u32);
    }
}

/// Every known key of a group that is set is listed, in order, with its own
/// label, variable and help; one that is not set only where all are asked for.
pub proof fn known_keys_are_listed(group: Seq<char>, v: Seq<Known>, all: bool, n: nat) -> (from:
    Seq<int>)
    requires
        n <= v.len(),
    ensures
        from.len() == group_rows(group, v, all, n).len(),
        forall|i: int|
            0 <= i < from.len() ==> {
                let k = v[#[trigger] from[i]];
                let row = group_rows(group, v, all, n)[i];
                &&& 0 <= from[i] < n
                &&& row.group == group && row.label == k.label@ && row.var == k.var@ && row.help
                    == k.help@ && row.source == k.source
                &&& k.live is None ==> row.masked is None
                &&& opt(k.live) matches Some(live) ==> row.masked == Some(mask(live))
                &&& all || k.source != Source::Unset
            },
        forall|i: int, j: int| 0 <= i < j < from.len() ==> #[trigger] from[i] < #[trigger] from[j],
        forall|k: int|
            0 <= k < n && (all || (#[trigger] v[k]).source != Source::Unset) ==> from.contains(k),
    decreases n,
{
    if n == 0 {
        Seq::empty()
    } else {
        let most = known_keys_are_listed(group, v, all, (n - 1) as nat);
        let from = if all || v[n - 1].source != Source::Unset { most.push(n - 1) } else { most };
        assert forall|k: int|
            0 <= k < n && (all || (#[trigger] v[k]).source != Source::Unset) implies from.contains(
            k,
        ) by {
            if k < n - 1 {
                let j = choose|j: int| 0 <= j < most.len() && most[j] == k;
                assert(from[j] == k);
            } else {
                assert(from[from.len() - 1] == k);
            }
        }
        from
    }
}

proof fn lemma_row_keys()
    ensures
        "var"@.len() == 3 && "var"@[0] == 'v',
        "set"@.len() == 3 && "set"@[0] == 's',
        "provider"@.len() == 8,
        "group"@.len() == 5,
        "source"@.len() == 6 && "source"@[1] == 'o',
        "masked"@.len() == 6 && "masked"@[1] == 'a',
        "secret"@.len() == 6 && "secret"@[1] == 'e',
        "help"@.len() == 4 && "help"@[0] == 'h',
        "kind"@.len() == 4 && "kind"@[0] == 'k',
        "value"@.len() == 5 && "value"@[0] == 'v',
        "group"@[0] == 'g',
        "ok"@.len() == 2,
        "keys"@.len() == 4,
{
    reveal_strlit("var");
    reveal_strlit("set");
    reveal_strlit("provider");
    reveal_strlit("group");
    reveal_strlit("source");
    reveal_strlit("masked");
    reveal_strlit("secret");
    reveal_strlit("help");
    reveal_strlit("kind");
    reveal_strlit("value");
    reveal_strlit("ok");
    reveal_strlit("keys");
}

/// A key is listed with its variable, whose it is, whether it is set and where,
/// and its mask; the key itself is not there.
pub proof fn a_listed_key_tells_all_but_itself(r: RowV)
    ensures
        row_value(r).text_at("var"@) == Some(r.var),
        row_value(r).text_at("provider"@) == Some(r.label),
        row_value(r).text_at("group"@) == Some(r.group),
        row_value(r).boolean_at("set"@) == Some(r.source != Source::Unset),
        row_value(r).text_at("source"@) == Some(source_word(r.source)),
        row_value(r).text_at("masked"@) == r.masked,
        row_value(r).text_at("help"@) == Some(r.help),
        row_value(r).get("value"@) is None,
{
    broadcast use {found_after_push, nothing_in_nothing};

    lemma_row_keys();
}

/// The keys are listed in order.
pub proof fn keys_are_listed_in_order(v: Seq<RowV>, i: int)
    requires
        0 <= i < v.len(),
    ensures
        list_value(v).elements_at("keys"@) is Some,
        list_value(v).elements_at("keys"@).unwrap().len() == v.len(),
        list_value(v).elements_at("keys"@).unwrap()[i] == row_value(v[i]),
{
    broadcast use {found_after_push, nothing_in_nothing};

    lemma_row_keys();
}

/// What is noted of a key is its mask and where it comes from, or that it is not
/// set.
pub proof fn a_key_is_noted(r: RowV)
    ensures
        r.source != Source::Unset && r.masked is Some ==> row_note(r) == r.masked.unwrap() + " · "@
            + source_label(r.source),
        r.source != Source::Unset ==> closes(row_note(r), source_label(r.source)),
        r.source == Source::Unset ==> opens(row_note(r), "not set"@) && closes(row_note(r), r.help),
{
    let note = row_note(r);
    let label = source_label(r.source);
    reveal_strlit("not set");
    reveal_strlit("not set · ");
    if r.source != Source::Unset {
        assert(note.skip(note.len() - label.len()) =~= label);
    } else {
        assert(note.take(7) =~= "not set"@);
        assert(note.skip(note.len() - r.help.len()) =~= r.help);
    }
}

/// The lines of a group are those of its rows, in order, each with the variable
/// in front and its note behind.
pub proof fn a_group_has_a_line_for_each_row(v: Seq<RowV>, group: Seq<char>, width: nat, n: nat)
    requires
        n <= v.len(),
        forall|i: int| 0 <= i < n ==> (#[trigger] v[i]).group == group,
    ensures
        group_lines(v, group, width, n).len() == n,
        forall|i: int|
            0 <= i < n ==> opens((#[trigger] group_lines(v, group, width, n)[i]).0, "  "@ + v[i].var)
                && group_lines(v, group, width, n)[i].1 == row_note(v[i]),
    decreases n,
{
    if n > 0 {
        a_group_has_a_line_for_each_row(v, group, width, (n - 1) as nat);
        let most = group_lines(v, group, width, (n - 1) as nat);
        let all = group_lines(v, group, width, n);
        assert(v[n - 1].group == group);
        assert forall|i: int| 0 <= i < n implies opens((#[trigger] all[i]).0, "  "@ + v[i].var)
            && all[i].1 == row_note(v[i]) by {
            if i < n - 1 {
                assert(all[i] == most[i]);
            } else {
                let front = "  "@ + v[i].var;
                let padded = padded_right(v[i].var, width as int);
                assert(all[i].0 == "  "@ + padded + "  "@);
                assert(all[i].0.take(front.len() as int) =~= front);
            }
        }
    }
}

/// The keys of one provider that stand together are one group, in order: the
/// groups, put end to end, are the keys that came.
pub proof fn groups_hold_every_key(v: Seq<(Seq<char>, Seq<char>, Seq<char>)>)
    ensures
        ungrouped(grouped(v)) == v,
        forall|i: int|
            0 <= i < grouped(v).len() - 1 ==> (#[trigger] grouped(v)[i]).0 != grouped(v)[i + 1].0,
    decreases v.len(),
{
    if v.len() > 0 {
        let head = grouped(v.drop_last());
        let all = grouped(v);
        let k = v.last();
        groups_hold_every_key(v.drop_last());
        assert(v =~= v.drop_last().push(k));
        if head.len() > 0 && head.last().0 == k.0 {
            let group = head.last().1;
            assert(all.drop_last() =~= head.drop_last());
            lemma_flat_push(k.0, group, (k.1, k.2));
            assert(ungrouped(all) =~= ungrouped(head).push(k));
            assert forall|i: int| 0 <= i < all.len() - 1 implies (#[trigger] all[i]).0 != all[i
                + 1].0 by {
                assert(head[i].0 != head[i + 1].0);
            }
        } else {
            assert(all.drop_last() =~= head);
            lemma_flat_push(k.0, Seq::empty(), (k.1, k.2));
            assert(flat(k.0, Seq::empty()) =~= Seq::empty());
            assert(ungrouped(all) =~= ungrouped(head).push(k));
            assert forall|i: int| 0 <= i < all.len() - 1 implies (#[trigger] all[i]).0 != all[i
                + 1].0 by {
                if i < head.len() - 1 {
                    assert(head[i].0 != head[i + 1].0);
                }
            }
        }
    }
}

/// The keys of one group, each with the name of its provider.
pub open spec fn flat(name: Seq<char>, vars: Seq<(Seq<char>, Seq<char>)>) -> Seq<
    (Seq<char>, Seq<char>, Seq<char>),
> {
    Seq::new(vars.len(), |i: int| (name, vars[i].0, vars[i].1))
}

/// The keys of all groups, one group behind the other.
pub open spec fn ungrouped(v: Seq<(Seq<char>, Seq<(Seq<char>, Seq<char>)>)>) -> Seq<
    (Seq<char>, Seq<char>, Seq<char>),
>
    decreases v.len(),
{
    if v.len() == 0 {
        Seq::empty()
    } else {
        ungrouped(v.drop_last()) + flat(v.last().0, v.last().1)
    }
}

proof fn lemma_flat_push(
    name: Seq<char>,
    vars: Seq<(Seq<char>, Seq<char>)>,
    one: (Seq<char>, Seq<char>),
)
    ensures
        flat(name, vars.push(one)) == flat(name, vars).push((name, one.0, one.1)),
{
    assert(flat(name, vars.push(one)) =~= flat(name, vars).push((name, one.0, one.1)));
}

/// A value is taken without the blanks around it; none, a blank one and one of
/// several lines are refused.
pub proof fn values_are_checked(
    given: Option<Seq<char>>,
    var: Seq<char>,
    command: Seq<char>,
    what: Seq<char>,
)
    ensures
        checked(given, var, command, what) is Ok <==> given is Some && trimmed(
            given.unwrap(),
        ).len() > 0 && !has_break(trimmed(given.unwrap())),
        checked(given, var, command, what) matches Ok(v) ==> v == trimmed(given.unwrap()),
{
}

/// A stored value is said to be shadowed exactly where another comes first: the
/// shell's always, the repository's where the user's own was written.
pub proof fn shadows_are_told(var: Seq<char>, before: Source, local: bool, command: Seq<char>)
    ensures
        shadow(var, before, local, command) is Some <==> before == Source::Shell || (before
            == Source::Local && !local),
        shadow(var, before, local, command) matches Some(note) ==> holds(note, var),
{
    match shadow(var, before, local, command) {
        Some(note) => {
            let lead = if before == Source::Shell {
                "Your shell already exports "@
            } else {
                "This repo's .env also sets "@
            };
            let rest = note.skip((lead + var).len() as int);
            assert(note =~= lead + var + rest);
            lemma_holds_between(lead, var, rest);
        },
        None => {},
    }
}

/// A variable is taken out of a file only where that was asked for.
pub proof fn only_what_was_asked_is_cleared(text: Option<Seq<char>>, var: Seq<char>, asked: bool)
    ensures
        !asked ==> taken_out(text, var, asked) is None,
        text is None ==> taken_out(text, var, asked) is None,
        asked && text is Some ==> taken_out(text, var, asked)
            == crate::config::dotenv::without_var(text.unwrap(), var),
{
}

/// Every file that a variable was cleared from is told, with the variable; where
/// there is none, that nothing changed.
pub proof fn clearings_are_told(var: Seq<char>, cleared: Seq<Seq<char>>, i: int)
    requires
        0 <= i < cleared.len(),
    ensures
        cleared_lines(var, cleared).len() == cleared.len(),
        closes(cleared_lines(var, cleared)[i], cleared[i]),
        holds(cleared_lines(var, cleared)[i], var),
        cleared_lines(var, Seq::empty()).len() == 1,
{
    let row = cleared_lines(var, cleared)[i];
    assert(row.skip(row.len() - cleared[i].len()) =~= cleared[i]);
    let rest = " from "@ + cleared[i];
    assert(row =~= "Cleared "@ + var + rest);
    lemma_holds_between("Cleared "@, var, rest);
}

/// A variable that no file sets has no value.
pub proof fn no_file_has_no_value(var: Seq<char>)
    ensures
        value_in(None, var) is None,
{
}

/// A variable that is no secret is listed with its value, and a secret with its
/// mask alone.
pub proof fn only_open_values_are_listed(
    v: Seq<env::VarV>,
    sources: Seq<Source>,
    live: Seq<Option<Seq<char>>>,
    i: int,
)
    requires
        0 <= i < v.len(),
    ensures
        env::rows_of(v, sources, live).len() == v.len(),
        env::rows_of(v, sources, live)[i].entry == v[i],
        env::rows_of(v, sources, live)[i].source == sources[i],
        !v[i].secret ==> env::rows_of(v, sources, live)[i].value == live[i] && env::rows_of(
            v,
            sources,
            live,
        )[i].masked is None,
        v[i].secret ==> env::rows_of(v, sources, live)[i].value is None,
        v[i].secret && live[i] is Some ==> env::rows_of(v, sources, live)[i].masked == Some(
            mask(live[i].unwrap()),
        ),
{
}

/// A variable is listed with what it is for, whether it is set and where, and
/// its value or its mask.
pub proof fn a_listed_variable_tells_all(r: env::RowV)
    ensures
        env::row_value(r).text_at("var"@) == Some(r.entry.var),
        env::row_value(r).text_at("group"@) == Some(r.entry.group),
        env::row_value(r).text_at("help"@) == Some(r.entry.help),
        env::row_value(r).text_at("kind"@) == Some(r.entry.kind),
        env::row_value(r).boolean_at("secret"@) == Some(r.entry.secret),
{
    broadcast use {found_after_push, nothing_in_nothing};

    lemma_row_keys();
}

/// Of a variable it is listed whether it is set, where, and its value or mask.
pub proof fn a_listed_variable_tells_its_value(r: env::RowV)
    ensures
        env::row_value(r).boolean_at("set"@) == Some(r.source != Source::Unset),
        env::row_value(r).text_at("source"@) == Some(source_word(r.source)),
        env::row_value(r).text_at("masked"@) == r.masked,
        env::row_value(r).text_at("value"@) == r.value,
{
    broadcast use {found_after_push, nothing_in_nothing};

    lemma_row_keys();
}

/// What is noted of a variable is its value, or its mask, and where it comes
/// from.
pub proof fn a_variable_is_noted(r: env::RowV)
    ensures
        r.source == Source::Unset ==> env::row_note(r) == "not set"@,
        r.source != Source::Unset && r.value is Some ==> env::row_note(r) == r.value.unwrap()
            + " · "@ + source_label(r.source),
        r.source != Source::Unset && r.value is None && r.masked is Some ==> env::row_note(r)
            == r.masked.unwrap() + " · "@ + source_label(r.source),
{
}

/// A variable is found by its name, and only where it is one of those known.
pub proof fn a_variable_is_found_by_its_name(v: Seq<env::VarV>, var: Seq<char>)
    ensures
        match env::entry_of(v, var) {
            Some(e) => e.var == var && v.contains(e),
            None => forall|i: int| 0 <= i < v.len() ==> (#[trigger] v[i]).var != var,
        },
    decreases v.len(),
{
    if v.len() > 0 {
        let head = v.drop_last();
        a_variable_is_found_by_its_name(head, var);
        match env::entry_of(head, var) {
            Some(e) => {
                let i = choose|i: int| 0 <= i < head.len() && head[i] == e;
                assert(v[i] == e);
            },
            None => {
                assert(v[v.len() - 1] == v.last());
                assert forall|i: int| 0 <= i < v.len() - 1 implies (#[trigger] v[i]).var != var by {
                    assert(v[i] == head[i]);
                }
            },
        }
    }
}

/// Only names of this program's own are set as its variables.
pub proof fn foreign_names_are_refused(var: Seq<char>)
    ensures
        env::foreign(var) is None <==> opens(var, "ASTER_"@),
        env::foreign(var) matches Some(why) ==> opens(why, var),
{
    match env::foreign(var) {
        Some(why) => {
            assert(why.take(var.len() as int) =~= var);
        },
        None => {},
    }
}

/// The column of a group is as wide as its widest variable, so that all its notes
/// begin in line.
pub proof fn a_column_fits_its_widest_variable(v: Seq<RowV>, group: Seq<char>, n: nat)
    requires
        n <= v.len(),
    ensures
        forall|i: int|
            0 <= i < n && (#[trigger] v[i]).group == group ==> utf8_len(v[i].var) <= widest(
                v,
                group,
                n,
            ),
        widest(v, group, n) > 0 ==> exists|i: int|
            0 <= i < n && (#[trigger] v[i]).group == group && utf8_len(v[i].var) == widest(
                v,
                group,
                n,
            ),
    decreases n,
{
    if n > 0 {
        a_column_fits_its_widest_variable(v, group, (n - 1) as nat);
        let w = widest(v, group, (n - 1) as nat);
        if widest(v, group, n) > 0 {
            if widest(v, group, n) == w {
                let i = choose|i: int|
                    0 <= i < n - 1 && (#[trigger] v[i]).group == group && utf8_len(v[i].var) == w;
                assert(v[i].group == group);
            } else {
                assert(v[n - 1].group == group);
            }
        }
    }
}

/// An entry that is added to a list of lines is listed, and everything that was
/// in the file still stands in front of it.
pub proof fn an_added_entry_is_listed(text: Seq<char>, entry: Seq<char>)
    requires
        entry.len() > 0,
        trimmed(entry) == entry,
        !entry.contains('\n'),
        entry.last() != '\r',
    ensures
        lists(with_line(text, entry), entry),
        opens(with_line(text, entry), text),
{
    reveal_strlit("\n");
    assert("\n"@ =~= seq!['\n']);
    let gap = crate::settings::yaml::missing_newline(text);
    let front = text + gap;
    let tail = entry + "\n"@;
    let now = with_line(text, entry);
    assert(now =~= front + tail);
    if front.len() > 0 {
        if gap.len() > 0 {
            assert(front.last() == '\n');
        } else {
            assert(front =~= text);
        }
    }
    lines_follow_one_another(front, tail);
    assert(tail =~= entry + seq!['\n'] + Seq::empty());
    lines_end_at_line_breaks(entry, Seq::empty());
    let none = Seq::<char>::empty();
    assert(lines_of(none) =~= Seq::empty());
    assert(lines_of(tail) =~= seq![entry]);
    let n = lines_of(front).len() as int;
    assert(lines_of(now)[n] == entry);
    assert(now.take(text.len() as int) =~= text);
}

/// The groups of a list are those of its rows, in order, and no two neighbours
/// are the same.
pub proof fn groups_come_in_order(v: Seq<env::RowV>)
    ensures
        v.len() > 0 ==> env::groups_of(v).len() > 0 && env::groups_of(v).last()
            == v.last().entry.group,
        forall|i: int|
            0 <= i < v.len() ==> env::groups_of(v).contains((#[trigger] v[i]).entry.group),
        forall|k: int|
            0 <= k < env::groups_of(v).len() - 1 ==> #[trigger] env::groups_of(v)[k]
                != env::groups_of(v)[k + 1],
    decreases v.len(),
{
    if v.len() > 0 {
        let head = v.drop_last();
        let most = env::groups_of(head);
        let all = env::groups_of(v);
        groups_come_in_order(head);
        assert forall|i: int| 0 <= i < v.len() implies all.contains(
            (#[trigger] v[i]).entry.group,
        ) by {
            if i < v.len() - 1 {
                assert(head[i] == v[i]);
                assert(most.contains(v[i].entry.group));
                let j = choose|j: int| 0 <= j < most.len() && most[j] == v[i].entry.group;
                assert(all[j] == most[j]);
            } else {
                assert(all[all.len() - 1] == v[i].entry.group);
            }
        }
        assert forall|k: int| 0 <= k < all.len() - 1 implies #[trigger] all[k] != all[k + 1] by {
            if k < most.len() - 1 {
                assert(most[k] != most[k + 1]);
            }
        }
    }
}

/// The keys that are no provider's are listed too: the advisor's under its own
/// variable, and the one for any endpoint under the shared one; both by their
/// masks.
pub proof fn other_keys_are_listed(var: Seq<char>, state: State)
    ensures
        jev_row(state).var == JEV_VAR@,
        shared_row(var, state).var == var,
        jev_row(state).source == state.source && shared_row(var, state).source == state.source,
        opt(state.live) matches Some(live) ==> jev_row(state).masked == Some(mask(live))
            && shared_row(var, state).masked == Some(mask(live)),
        state.live is None ==> jev_row(state).masked is None && shared_row(var, state).masked
            is None,
{
}

/// The files of keys are listed in order, each with its scope, its path and
/// whether it is there.
pub proof fn key_files_are_listed(v: Seq<KeyFile>, i: int)
    requires
        0 <= i < v.len(),
    ensures
        ({
            let all = paths_value(v).elements_at("files"@);
            &&& all is Some && all.unwrap().len() == v.len()
            &&& all.unwrap()[i].text_at("scope"@) == Some(v[i].scope@)
            &&& all.unwrap()[i].text_at("path"@) == opt(v[i].path)
            &&& all.unwrap()[i].boolean_at("exists"@) == Some(v[i].exists)
        }),
{
    broadcast use {found_after_push, nothing_in_nothing};

    reveal_strlit("ok");
    reveal_strlit("files");
    reveal_strlit("scope");
    reveal_strlit("path");
    reveal_strlit("exists");
    assert("ok"@.len() == 2 && "files"@.len() == 5 && "scope"@.len() == 5 && "path"@.len() == 4
        && "exists"@.len() == 6);
}

/// A value that was refused is not stored; any other is what the file then gives
/// under that variable.
pub proof fn a_stored_value_stands_in_the_file(
    r: Result<Stored, String>,
    text: Option<Seq<char>>,
    var: Seq<char>,
    value: Result<Seq<char>, Seq<char>>,
)
    requires
        stored_as(r, text, var, value),
        crate::config::dotenv::is_var(var),
    ensures
        r is Ok <==> value is Ok,
        r is Ok && !value->Ok_0.contains('\n') && !value->Ok_0.contains('\r') ==> r->Ok_0.var@ == var
            && value_in(Some(r->Ok_0.text@), var) == Some(
            crate::config::dotenv::unquoted(trimmed(value->Ok_0)),
        ),
{
    match value {
        Ok(v) => {
            if !v.contains('\n') && !v.contains('\r') {
                let had = if text is Some { text.unwrap() } else { Seq::empty() };
                crate::config::dotenv::a_var_set_reads_back(had, var, v);
            }
        },
        Err(_) => {},
    }
}

/// A name of letters, digits and underscores that opens with a letter is taken,
/// small letters or capitals; any other is refused.
pub proof fn well_formed_names_are_taken(var: Seq<char>)
    requires
        trimmed(var) == var,
        var.len() > 0,
    ensures
        (forall|i: int|
            0 <= i < var.len() ==> 'A' <= #[trigger] var[i] <= 'Z' || ('0' <= var[i] <= '9' && i > 0)
                || (var[i] == '_' && i > 0)) ==> normalized(var) == Ok::<Seq<char>, Seq<char>>(var),
        (exists|i: int| 0 <= i < var.len() && (#[trigger] var[i] == ' ' || var[i] == '=')) ==> normalized(
            var,
        ) is Err,
        '0' <= var[0] <= '9' ==> normalized(var) is Err,
{
    let v = uppered(var);
    if forall|i: int|
        0 <= i < var.len() ==> 'A' <= #[trigger] var[i] <= 'Z' || ('0' <= var[i] <= '9' && i > 0)
            || (var[i] == '_' && i > 0) {
        assert(v =~= var) by {
            assert forall|i: int| 0 <= i < var.len() implies v[i] == var[i] by {
                assert('A' <= var[i] <= 'Z' || '0' <= var[i] <= '9' || var[i] == '_');
            }
        }
        assert('A' <= var[0] <= 'Z');
        assert forall|i: int| 0 <= i < v.len() implies crate::config::key::is_letter(#[trigger] v[i])
            || ('0' <= v[i] && v[i] <= '9') || v[i] == '_' by {
            assert(v[i] == var[i]);
        }
    }
    if exists|i: int| 0 <= i < var.len() && (#[trigger] var[i] == ' ' || var[i] == '=') {
        let i = choose|i: int| 0 <= i < var.len() && (#[trigger] var[i] == ' ' || var[i] == '=');
        assert(v[i] == var[i]);
        assert(!crate::config::key::is_shaped(v));
    }
    if '0' <= var[0] <= '9' {
        assert(v[0] == var[0]);
    }
}

} // verus!
