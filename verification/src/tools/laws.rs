//! What holds of every look, edit, command and memory.

use vstd::prelude::*;

use crate::json::{found_after_push, nothing_in_nothing, JsonV};
use crate::message::CallV;
use crate::rounds::is_read_tool;
use crate::text::affix::{
    closes, holds, is_space, lemma_holds_between, lemma_holds_through, lemma_holds_wider, opens,
    trimmed,
};
use crate::text::case::lowercase;
use crate::text::number::dec;
use crate::text::opt;
use crate::text::pieces::{cut_once, joined, lemma_joined_holds};
use crate::tools::approval::{
    approval_event, approval_of, batch_gate, edit_gate, edit_report, edited_after, first_denial,
    gate_after, hinted, mode_after, picked, reported, split_grants, Answer, Decision, Gate, Mode,
    Place, PlanGate,
};
use crate::tools::files::{
    indented, missing_path_text, path_hint, path_shaped, readable, stamp_of, Reach,
};
use crate::tools::flow::{
    command_guard, edited_content, look_comes_to, Found, Look, LookStep, Sight,
};
use crate::tools::lookup::{
    args_of, is_internal, label_of, planned, read_positions, refused_text, repeat_text,
    results_text, side_by_side, steps_of, tool_of,
};
use crate::tools::memory::{block_line, block_lines, mentions, recall_text, remembered_text};

verus! {

/// A look opens what it names exactly when that is there, resolves, is not
/// denied, and stands in the repository or is granted from outside it. A denied
/// path stays shut whatever was granted.
pub proof fn a_look_opens_what_it_may(
    s: LookStep,
    look: Look,
    path: Seq<char>,
    sight: Sight,
    nearby: Seq<Seq<char>>,
    shown: Seq<char>,
    yolo: bool,
)
    requires
        look_comes_to(s, look, Some(path), sight, nearby, shown, yolo, false),
    ensures
        (s is Open || s is Image) <==> sight.there && match sight.reach {
            Reach::Unresolved(_) => false,
            Reach::InRepo(denied) => denied is None,
            Reach::Outside => yolo || sight.granted,
        },
        s is Image ==> look == (Look::File { image: true }),
        s is Open ==> look != (Look::File { image: true }),
        s is Ask <==> sight.there && sight.reach is Outside && !yolo && !sight.granted,
        s matches LookStep::Ask { preview, refusal } ==> closes(preview@, shown) && opens(
            refusal@,
            shown,
        ),
        s matches LookStep::Fail(e) ==> sight.there && match sight.reach {
            Reach::Unresolved(why) => e@ == why@,
            Reach::InRepo(denied) => opt(denied) == Some(e@),
            Reach::Outside => false,
        },
        s is Widen <==> !sight.there && look == Look::Search,
        s matches LookStep::Widen(d) ==> d@ == path,
        s is Say <==> !sight.there && look != Look::Search,
        s matches LookStep::Say(t) ==> holds(t@, path),
        !(s is Root),
        !(s is Alone),
{
    match s {
        LookStep::Say(t) => {
            lemma_missing_names_path(path, nearby);
        },
        LookStep::Ask { preview, refusal } => {
            let lead = "read outside the repository:\n  "@;
            assert((lead + shown).skip((lead + shown).len() - shown.len()) =~= shown);
            assert(refusal@.take(shown.len() as int) =~= shown);
        },
        _ => {},
    }
}

proof fn lemma_missing_names_path(path: Seq<char>, nearby: Seq<Seq<char>>)
    ensures
        holds(missing_path_text(path, nearby), path),
{
    let text = missing_path_text(path, nearby);
    let lead = "note: "@;
    let rest = text.skip((lead + path).len() as int);
    assert(text =~= lead + path + rest);
    lemma_holds_between(lead, path, rest);
}

/// Every nearby path is listed when a path leads nowhere, and when a search for
/// something like a path finds nothing.
pub proof fn nearby_paths_are_listed(path: Seq<char>, nearby: Seq<Seq<char>>, i: int)
    requires
        0 <= i < nearby.len(),
    ensures
        holds(missing_path_text(path, nearby), nearby[i]),
        path_hint(path, nearby) matches Some(hint) ==> holds(hint, nearby[i]),
{
    let body = joined(indented(nearby), "\n"@);
    lemma_listed(nearby, i);
    let lead = "note: "@ + path + " does not exist. Nearest paths in the repository:\n"@;
    let tail = "\n\nCall find_files if none of these are the one."@;
    lemma_holds_wider(lead, body, tail, nearby[i]);
    let front = "no content matches for `"@ + path
        + "`. If you meant the file itself, paths with similar names:\n"@;
    lemma_holds_wider(front, body, Seq::empty(), nearby[i]);
    assert(front + body + Seq::empty() =~= front + body);
}

proof fn lemma_listed(nearby: Seq<Seq<char>>, i: int)
    requires
        0 <= i < nearby.len(),
    ensures
        holds(joined(indented(nearby), "\n"@), nearby[i]),
{
    let rows = indented(nearby);
    lemma_joined_holds(rows, "\n"@, i);
    assert(rows[i] =~= "  "@ + nearby[i] + Seq::empty());
    lemma_holds_between("  "@, nearby[i], Seq::empty());
    lemma_holds_through(joined(rows, "\n"@), rows[i], nearby[i]);
}

/// A search keeps every hit that may be read, in order, and no other.
pub proof fn readable_hits_stay(denied: Seq<bool>, n: nat)
    requires
        n <= denied.len(),
    ensures
        forall|i: int|
            0 <= i < readable(denied, n).len() ==> 0 <= #[trigger] readable(denied, n)[i] < n
                && !denied[readable(denied, n)[i]],
        forall|i: int, j: int|
            0 <= i < j < readable(denied, n).len() ==> #[trigger] readable(denied, n)[i]
                < #[trigger] readable(denied, n)[j],
        forall|k: int| 0 <= k < n && !#[trigger] denied[k] ==> readable(denied, n).contains(k),
    decreases n,
{
    if n > 0 {
        readable_hits_stay(denied, (n - 1) as nat);
        let most = readable(denied, (n - 1) as nat);
        let all = readable(denied, n);
        assert forall|k: int| 0 <= k < n && !#[trigger] denied[k] implies all.contains(k) by {
            if k < n - 1 {
                let j = choose|j: int| 0 <= j < most.len() && most[j] == k;
                assert(all[j] == k);
            } else {
                assert(all[all.len() - 1] == k);
            }
        }
    }
}

/// A read is known by its path and its range: the stamp found under a key is the
/// one noted last under it, whatever was noted under others.
pub proof fn reads_are_told_apart(
    v: Seq<(Seq<char>, Option<u128>)>,
    key: Seq<char>,
    other: Seq<char>,
    modified: Option<u128>,
)
    ensures
        key != other ==> stamp_of(v.push((other, modified)), key) == stamp_of(v, key),
        stamp_of(v.push((key, modified)), key) == Some(modified),
{
    assert(v.push((other, modified)).drop_last() =~= v);
    assert(v.push((key, modified)).drop_last() =~= v);
}

/// A file that is created gets the text given, one that is there is not created
/// again, and an edit that applies gives the text it came to.
pub proof fn an_edit_writes_what_it_says(path: Seq<char>, replace: Seq<char>, found: Found)
    ensures
        found matches Found::New { there, misplaced } ==> {
            &&& edited_content(path, replace, found) is Ok <==> !there && misplaced is None
            &&& edited_content(path, replace, found) matches Ok(text) ==> text == replace
            &&& there ==> opens(edited_content(path, replace, found)->Err_0, path)
        },
        found matches Found::Applied(done) ==> {
            &&& edited_content(path, replace, found) is Ok <==> done is Ok
            &&& done matches Ok(text) ==> edited_content(path, replace, found)->Ok_0 == text@
            &&& done matches Err(why) ==> edited_content(path, replace, found)->Err_0 == why@
        },
{
    let text = path + " already exists; put the text to replace in `search`"@;
    assert(text.take(path.len() as int) =~= path);
}

/// A command runs unasked only where the policy allows it and there is such a
/// binary; a denial is never asked about; a prompt shows its own preview.
pub proof fn commands_follow_the_policy(
    g: Gate,
    binary: Seq<char>,
    on_path: bool,
    decision: Decision,
    can_ask: bool,
)
    requires
        command_guard(g, binary, on_path, decision, can_ask),
    ensures
        g is Go <==> (on_path || binary.contains('/')) && decision is Allow,
        g is Ask <==> (on_path || binary.contains('/')) && decision is Prompt,
        g matches Gate::Ask { preview, refusal } ==> (decision matches Decision::Prompt(shown)
            && preview@ == shown@) && holds(refusal@, binary),
        g matches Gate::Refuse(why) ==> (decision matches Decision::Deny(reason) && opens(
            why@,
            reason@,
        )) || holds(why@, binary),
{
    match g {
        Gate::Ask { preview, refusal } => {
            lemma_holds_between(
                "command `"@,
                binary,
                "` needs user approval; it was rejected or this run cannot ask"@,
            );
        },
        Gate::Refuse(why) => {
            if on_path || binary.contains('/') {
                match decision {
                    Decision::Deny(reason) => {
                        assert(hinted(reason@, can_ask).take(reason@.len() as int) =~= reason@);
                    },
                    _ => {},
                }
            } else {
                let rest = why@.skip(("there is no `"@ + binary).len() as int);
                assert(why@ =~= "there is no `"@ + binary + rest);
                lemma_holds_between("there is no `"@, binary, rest);
            }
        },
        _ => {},
    }
}

/// An edit goes unasked only where the policy allows it in the repository, or
/// outside it where everything is allowed; a denial is never asked about; a
/// prompt names the file and shows the edit.
pub proof fn edits_follow_the_policy(
    g: Gate,
    creating: bool,
    path: Seq<char>,
    block: Seq<char>,
    place: Place,
    yolo: bool,
    can_ask: bool,
)
    requires
        edit_gate(g, creating, path, block, place, yolo, can_ask),
    ensures
        g is Go <==> match place {
            Place::InRepo(decision) => decision is Allow,
            Place::Outside => yolo,
        },
        g is Refuse <==> (place matches Place::InRepo(decision) && decision is Deny),
        g matches Gate::Ask { preview, refusal } ==> holds(preview@, path) && closes(
            preview@,
            block,
        ),
{
    match g {
        Gate::Ask { preview, refusal } => {
            let lead = crate::tools::approval::edit_verb(creating) + " "@;
            let rest = preview@.skip((lead + path).len() as int);
            assert(preview@ =~= lead + path + rest);
            lemma_holds_between(lead, path, rest);
            assert(preview@.skip(preview@.len() - block.len()) =~= block);
        },
        _ => {},
    }
}

proof fn lemma_first_denial(v: Seq<Decision>)
    ensures
        first_denial(v) is Some <==> exists|i: int| 0 <= i < v.len() && #[trigger] v[i] is Deny,
    decreases v.len(),
{
    if v.len() > 0 {
        let t = v.drop_first();
        lemma_first_denial(t);
        if exists|i: int| 0 <= i < v.len() && #[trigger] v[i] is Deny {
            let i = choose|i: int| 0 <= i < v.len() && #[trigger] v[i] is Deny;
            if i > 0 {
                assert(t[i - 1] is Deny);
            } else {
                assert(v[0] is Deny);
            }
        }
        if first_denial(v) is Some && !(v[0] is Deny) {
            let j = choose|j: int| 0 <= j < t.len() && #[trigger] t[j] is Deny;
            assert(v[j + 1] is Deny);
        }
    }
}

/// A rewrite of many files goes unasked only where every file allows it, and is
/// refused where any file denies it.
pub proof fn one_denial_stops_a_rewrite(
    g: Gate,
    v: Seq<Decision>,
    preview: Seq<char>,
    can_ask: bool,
)
    requires
        batch_gate(g, v, preview, can_ask),
    ensures
        g is Go <==> forall|i: int| 0 <= i < v.len() ==> #[trigger] v[i] is Allow,
        g is Refuse <==> exists|i: int| 0 <= i < v.len() && #[trigger] v[i] is Deny,
        g matches Gate::Ask { preview: p, refusal } ==> p@ == preview,
{
    lemma_first_denial(v);
}

/// Only a reply that allows counts as a yes, and only one that says so as an
/// always.
pub proof fn silence_is_no_approval(reply: JsonV)
    ensures
        approval_of(reply) != Answer::No <==> reply.boolean_at("allow"@) == Some(true),
        approval_of(reply) == Answer::Always <==> reply.boolean_at("allow"@) == Some(true)
            && reply.boolean_at("always"@) == Some(true),
{
}

/// A request for approval shows what is asked for.
pub proof fn a_request_shows_its_preview(
    kind: Seq<char>,
    preview: Seq<char>,
    scope: Option<Seq<char>>,
    markdown: Option<Seq<char>>,
)
    ensures
        approval_event(kind, preview, scope, markdown).text_at("type"@) == Some(
            "approval_request"@,
        ),
        approval_event(kind, preview, scope, markdown).text_at("kind"@) == Some(kind),
        approval_event(kind, preview, scope, markdown).text_at("preview"@) == Some(preview),
        approval_event(kind, preview, scope, markdown).text_at("scope"@) == scope,
        approval_event(kind, preview, scope, markdown).text_at("markdown"@) == markdown,
{
    broadcast use {found_after_push, nothing_in_nothing};

    reveal_strlit("type");
    reveal_strlit("kind");
    reveal_strlit("preview");
    reveal_strlit("scope");
    reveal_strlit("markdown");
    assert("type"@.len() == 4 && "kind"@.len() == 4 && "preview"@.len() == 7 && "scope"@.len() == 5
        && "markdown"@.len() == 8);
    assert("type"@[0] != "kind"@[0]);
}

/// What the user picked is told in their own words, and an error as one.
pub proof fn answers_are_passed_on(a: Seq<char>, outcome: Result<Seq<char>, Seq<char>>)
    ensures
        closes(picked(Some(a)), a),
        outcome matches Ok(text) ==> reported(outcome) == text,
        outcome matches Err(e) ==> closes(reported(outcome), e) && opens(
            reported(outcome),
            "error: "@,
        ),
{
    let told = picked(Some(a));
    assert(told.skip(told.len() - a.len()) =~= a);
    match outcome {
        Err(e) => {
            let said = reported(outcome);
            assert(said.skip(said.len() - e.len()) =~= e);
            assert(said.take("error: "@.len() as int) =~= "error: "@);
        },
        Ok(_) => {},
    }
}

/// An approved plan opens editing and stays approved; a refused one shuts it.
pub proof fn approval_opens_editing(gate: PlanGate, answer: Answer)
    ensures
        gate_after(gate, answer).allow_edits <==> answer != Answer::No,
        answer != Answer::No ==> gate_after(gate, answer).approved,
        mode_after(gate, answer) == Some(Mode::Plan) <==> answer == Answer::No,
        mode_after(gate, answer) == Some(Mode::Edit) <==> answer != Answer::No && !gate.allow_edits,
{
}

/// The report on an edit names the file, shows the edit, and has the rules and
/// the problems that go with it.
pub proof fn an_edit_is_reported(
    creating: bool,
    path: Seq<char>,
    block: Seq<char>,
    rules: Option<Seq<char>>,
    problems: Option<Seq<char>>,
)
    ensures
        opens(
            edit_report(creating, path, block, rules, problems),
            (if creating {
                "created "@
            } else {
                "edited "@
            }) + path + ":\n"@ + block,
        ),
        rules matches Some(p) ==> holds(edit_report(creating, path, block, rules, problems), p),
        problems matches Some(p) ==> closes(edit_report(creating, path, block, rules, problems), p),
{
    let text = edit_report(creating, path, block, rules, problems);
    reveal_strlit("created ");
    reveal_strlit("created");
    reveal_strlit("edited ");
    reveal_strlit("edited");
    reveal_strlit(" ");
    assert("created "@ =~= "created"@ + " "@);
    assert("edited "@ =~= "edited"@ + " "@);
    let done = (if creating {
        "created "@
    } else {
        "edited "@
    }) + path + ":\n"@ + block;
    assert(text.take(done.len() as int) =~= done);
    match rules {
        Some(p) => {
            let front = done + "\n\n"@;
            let rest = text.skip((front + p).len() as int);
            assert(text =~= front + p + rest);
            lemma_holds_between(front, p, rest);
        },
        None => {},
    }
    match problems {
        Some(p) => {
            assert(text.skip(text.len() - p.len()) =~= p);
        },
        None => {},
    }
}

/// The files edited in a turn are those that were and those that came, each
/// once, in the order they came.
pub proof fn edited_files_are_listed_once(edited: Seq<Seq<char>>, files: Seq<Seq<char>>, n: nat)
    requires
        n <= files.len(),
        edited.no_duplicates(),
    ensures
        edited_after(edited, files, n).no_duplicates(),
        edited_after(edited, files, n).len() >= edited.len(),
        edited_after(edited, files, n).take(edited.len() as int) == edited,
        forall|f: Seq<char>| #[trigger]
            edited_after(edited, files, n).contains(f) <==> edited.contains(f) || files.take(
                n as int,
            ).contains(f),
    decreases n,
{
    let now = edited_after(edited, files, n);
    if n == 0 {
        assert(now.take(edited.len() as int) =~= edited);
        assert(files.take(0) =~= Seq::<Seq<char>>::empty());
    } else {
        edited_files_are_listed_once(edited, files, (n - 1) as nat);
        let before = edited_after(edited, files, (n - 1) as nat);
        let f = files[n - 1];
        assert(files.take(n as int) =~= files.take(n - 1).push(f));
        assert(now.take(edited.len() as int) =~= before.take(edited.len() as int));
        if !before.contains(f) {
            assert(now =~= before.push(f));
        }
        assert forall|g: Seq<char>| #[trigger] now.contains(g) <==> edited.contains(g)
            || files.take(n as int).contains(g) by {
            lemma_push_contains(files.take(n - 1), f, g);
            lemma_push_contains(before, f, g);
            assert(before.contains(g) <==> edited.contains(g) || files.take(n - 1).contains(g));
        }
    }
}

proof fn lemma_push_contains<A>(v: Seq<A>, x: A, y: A)
    ensures
        v.push(x).contains(y) <==> v.contains(y) || x == y,
{
    let w = v.push(x);
    if v.contains(y) {
        let i = choose|i: int| 0 <= i < v.len() && v[i] == y;
        assert(w[i] == y);
    }
    if x == y {
        assert(w[v.len() as int] == y);
    }
    if w.contains(y) && x != y {
        let i = choose|i: int| 0 <= i < w.len() && w[i] == y;
        assert(v[i] == y);
    }
}

/// Every grant that has the mark is read as the part before it and the part
/// behind it.
pub proof fn grants_are_read_in_order(v: Seq<Seq<char>>, mark: char, trims: bool)
    requires
        forall|i: int| 0 <= i < v.len() ==> cut_once(#[trigger] v[i], mark) is Some,
    ensures
        split_grants(v, mark, trims).len() == v.len(),
        forall|i: int|
            0 <= i < v.len() ==> {
                let parts = cut_once(v[i], mark).unwrap();
                #[trigger] split_grants(v, mark, trims)[i] == if trims {
                    (trimmed(parts.0), trimmed(parts.1))
                } else {
                    parts
                }
            },
    decreases v.len(),
{
    if v.len() > 0 {
        let head = v.drop_last();
        assert forall|i: int| 0 <= i < head.len() implies cut_once(
            #[trigger] head[i],
            mark,
        ) is Some by {
            assert(head[i] == v[i]);
        }
        grants_are_read_in_order(head, mark, trims);
        assert(v.last() == v[v.len() - 1]);
    }
}

/// The calls that run side by side are exactly the reading ones, in order, as
/// soon as there are two.
pub proof fn reads_run_side_by_side(v: Seq<CallV>, n: nat)
    requires
        n <= v.len() <= usize::MAX,
    ensures
        forall|i: int|
            0 <= i < read_positions(v, n).len() ==> 0 <= #[trigger] read_positions(v, n)[i] < n
                && is_read_tool(v[read_positions(v, n)[i] as int].name),
        forall|i: int, j: int|
            0 <= i < j < read_positions(v, n).len() ==> #[trigger] read_positions(v, n)[i]
                < #[trigger] read_positions(v, n)[j],
        forall|k: int|
            0 <= k < n && is_read_tool((#[trigger] v[k]).name) ==> read_positions(v, n).contains(
                k as usize,
            ),
        side_by_side(v).len() != 1,
        read_positions(v, v.len()).len() > 1 ==> side_by_side(v) == read_positions(v, v.len()),
    decreases n,
{
    if n > 0 {
        reads_run_side_by_side(v, (n - 1) as nat);
        let most = read_positions(v, (n - 1) as nat);
        let all = read_positions(v, n);
        assert forall|k: int| 0 <= k < n && is_read_tool(
            (#[trigger] v[k]).name,
        ) implies all.contains(k as usize) by {
            if k < n - 1 {
                assert(most.contains(k as usize));
                let j = choose|j: int| 0 <= j < most.len() && most[j] == k as usize;
                assert(all[j] == k as usize);
            } else {
                assert(all[all.len() - 1] == k as usize);
            }
        }
    }
}

/// A step of a batch runs the tool it names with the arguments it gives, and its
/// label opens with the tool.
pub proof fn steps_run_as_written(step: JsonV, tool: Seq<char>, args: Seq<(Seq<char>, JsonV)>)
    requires
        step.text_at("tool"@) == Some(tool),
        step.get("args"@) == Some(JsonV::Obj(args)),
    ensures
        tool_of(step) == tool,
        args_of(step) == JsonV::Obj(args),
        opens(label_of(tool, args_of(step)), tool),
        JsonV::Obj(args).text_at("path"@) matches Some(path) ==> closes(
            label_of(tool, args_of(step)),
            path,
        ),
{
    let a = args_of(step);
    let label = label_of(tool, a);
    assert(label.take(tool.len() as int) =~= tool);
    match a.text_at("path"@) {
        Some(path) => {
            assert(label.skip(label.len() - path.len()) =~= path);
        },
        None => {},
    }
}

/// The steps of a batch are planned one for one, in order.
pub proof fn batches_keep_their_order(a: JsonV, v: Seq<JsonV>, i: int)
    requires
        a.elements_at("steps"@) == Some(v),
        0 <= i < v.len(),
    ensures
        steps_of(a) == Some(v),
        planned(v).len() == v.len(),
        planned(v)[i].1 == tool_of(v[i]),
        planned(v)[i].2 == args_of(v[i]),
        planned(v)[i].0 == label_of(tool_of(v[i]), args_of(v[i])),
{
}

/// The report on a batch has every result behind its number and its label.
pub proof fn every_result_is_reported(v: Seq<(Seq<char>, Seq<char>)>, n: nat, i: int)
    requires
        0 <= i < n <= v.len(),
    ensures
        holds(
            results_text(v, n),
            "["@ + dec((i + 1) as nat) + "] "@ + v[i].0 + "\n"@ + v[i].1 + "\n"@,
        ),
    decreases n,
{
    let before = results_text(v, (n - 1) as nat);
    let gap = if n > 1 { "\n"@ } else { Seq::empty() };
    let row = "["@ + dec(n) + "] "@ + v[n - 1].0 + "\n"@ + v[n - 1].1 + "\n"@;
    let want = "["@ + dec((i + 1) as nat) + "] "@ + v[i].0 + "\n"@ + v[i].1 + "\n"@;
    if i == n - 1 {
        assert(results_text(v, n) =~= (before + gap) + row + Seq::empty());
        lemma_holds_between(before + gap, row, Seq::empty());
    } else {
        every_result_is_reported(v, (n - 1) as nat, i);
        assert(results_text(v, n) =~= Seq::empty() + before + (gap + row));
        lemma_holds_wider(Seq::empty(), before, gap + row, want);
    }
}

/// Reading an internal skill is internal, and reading another is not; a tool
/// that neither reads a skill nor batches is never internal.
pub proof fn only_internal_skills_are_hidden(internal: Seq<Seq<char>>, name: Seq<char>, a: JsonV)
    ensures
        name == "read_skill"@ && a.text_at("name"@) is Some ==> (is_internal(internal, name, a)
            <==> internal.contains(a.text_at("name"@).unwrap())),
        name != "read_skill"@ && name != "explore"@ ==> !is_internal(internal, name, a),
{
}

/// A list of memories has a line for every block that mentions what is asked
/// for, in order, and for no other; the line has the block's name and what it is
/// about.
pub proof fn recalled_blocks_are_those_that_match(
    blocks: Seq<(Seq<char>, Seq<char>)>,
    query: Option<Seq<char>>,
) -> (from: Seq<int>)
    ensures
        from.len() == block_lines(blocks, query).len(),
        forall|i: int|
            0 <= i < from.len() ==> 0 <= #[trigger] from[i] < blocks.len() && mentions(
                blocks[from[i]],
                query,
            ) && block_lines(blocks, query)[i] == block_line(blocks[from[i]]),
        forall|i: int, j: int| 0 <= i < j < from.len() ==> #[trigger] from[i] < #[trigger] from[j],
        forall|k: int|
            0 <= k < blocks.len() && mentions(#[trigger] blocks[k], query) ==> from.contains(k),
    decreases blocks.len(),
{
    if blocks.len() == 0 {
        Seq::empty()
    } else {
        let head = blocks.drop_last();
        let most = recalled_blocks_are_those_that_match(head, query);
        let from = if mentions(blocks.last(), query) {
            most.push(blocks.len() - 1)
        } else {
            most
        };
        assert forall|i: int| 0 <= i < most.len() implies head[#[trigger] most[i]]
            == blocks[most[i]] by {}
        assert forall|k: int| 0 <= k < blocks.len() && mentions(
            #[trigger] blocks[k],
            query,
        ) implies from.contains(k) by {
            if k < blocks.len() - 1 {
                assert(head[k] == blocks[k]);
                let j = choose|j: int| 0 <= j < most.len() && most[j] == k;
                assert(from[j] == k);
            } else {
                assert(from[from.len() - 1] == k);
            }
        }
        from
    }
}

/// What is recalled holds every line it counts, and a line holds its block's
/// name.
pub proof fn recalled_lines_are_shown(
    blocks: Seq<(Seq<char>, Seq<char>)>,
    query: Option<Seq<char>>,
    i: int,
)
    requires
        0 <= i < block_lines(blocks, query).len(),
    ensures
        holds(recall_text(blocks, query), block_lines(blocks, query)[i]),
        opens(recall_text(blocks, query), dec(block_lines(blocks, query).len()) + " "@),
{
    let rows = block_lines(blocks, query);
    let body = joined(rows, "\n"@);
    let text = recall_text(blocks, query);
    let lead = dec(rows.len()) + " memory blocks; recall(name) reads one in full:\n"@;
    lemma_joined_holds(rows, "\n"@, i);
    assert(text =~= lead + body + Seq::empty());
    lemma_holds_wider(lead, body, Seq::empty(), rows[i]);
    reveal_strlit(" ");
    reveal_strlit(" memory blocks; recall(name) reads one in full:\n");
    let count = dec(rows.len()) + " "@;
    assert(text.take(count.len() as int) =~= count);
}

/// A memory block's line opens with its name, and closes with what it is about.
pub proof fn a_block_is_shown_by_name(block: (Seq<char>, Seq<char>))
    ensures
        opens(block_line(block), "- "@ + block.0),
        block.1.len() > 0 ==> closes(block_line(block), block.1),
{
    let row = block_line(block);
    let front = "- "@ + block.0;
    assert(row.take(front.len() as int) =~= front);
    if block.1.len() > 0 {
        assert(row.skip(row.len() - block.1.len()) =~= block.1);
    }
}

/// What was remembered is told with its title and with every block that says
/// nearly the same.
pub proof fn what_was_remembered_is_told(title: Seq<char>, same: Seq<Seq<char>>, i: int)
    ensures
        opens(remembered_text(title, same), "remembered under \""@ + title + "\""@),
        0 <= i < same.len() ==> holds(remembered_text(title, same), same[i]),
{
    let text = remembered_text(title, same);
    reveal_strlit("\"");
    reveal_strlit("\". ");
    let lead = "remembered under \""@ + title + "\""@;
    assert(text.take(lead.len() as int) =~= lead);
    if 0 <= i < same.len() {
        let mid = joined(same, " and "@);
        lemma_joined_holds(same, " and "@, i);
        let front = "remembered under \""@ + title + "\". "@;
        let rest = text.skip((front + mid).len() as int);
        assert(text =~= front + mid + rest);
        lemma_holds_wider(front, mid, rest, same[i]);
    }
}

/// A step is labelled by what it looks at: its path, or else its query, or else
/// its pattern, or else its directory, or else its name.
pub proof fn a_step_is_labelled_by_what_it_looks_at(tool: Seq<char>, a: JsonV)
    ensures
        a.text_at("path"@) is None && a.text_at("query"@) is Some ==> label_of(tool, a) == tool + " "@
            + a.text_at("query"@).unwrap(),
        a.text_at("path"@) is None && a.text_at("query"@) is None && a.text_at("pattern"@) is Some
            ==> label_of(tool, a) == tool + " "@ + a.text_at("pattern"@).unwrap(),
        a.text_at("path"@) is None && a.text_at("query"@) is None && a.text_at("pattern"@) is None
            && a.text_at("dir"@) is Some ==> label_of(tool, a) == tool + " "@ + a.text_at(
            "dir"@,
        ).unwrap(),
        a.text_at("path"@) is None && a.text_at("query"@) is None && a.text_at("pattern"@) is None
            && a.text_at("dir"@) is None && a.text_at("name"@) is None ==> label_of(tool, a) == tool,
{
}

/// A step's arguments are found under any of the names that models use for them,
/// and a step without any has none.
pub proof fn arguments_go_by_several_names(step: JsonV, v: Seq<(Seq<char>, JsonV)>)
    ensures
        step.get("args"@) is None && step.get("arguments"@) == Some(JsonV::Obj(v)) ==> args_of(step)
            == JsonV::Obj(v),
        step.get("args"@) is None && step.get("arguments"@) is None && step.get("input"@) == Some(
            JsonV::Obj(v),
        ) ==> args_of(step) == JsonV::Obj(v),
        step.get("args"@) is None && step.get("arguments"@) is None && step.get("input"@) is None
            && step.get("parameters"@) == Some(JsonV::Obj(v)) ==> args_of(step) == JsonV::Obj(v),
        step.get("args"@) is None && step.get("arguments"@) is None && step.get("input"@) is None
            && step.get("parameters"@) is None ==> args_of(step) == JsonV::Obj(Seq::empty()),
        step.text_at("tool"@) is None && step.text_at("name"@) is Some ==> tool_of(step)
            == step.text_at("name"@).unwrap(),
{
}

/// A block mentions what is asked for where its name or what it is about does,
/// upper and lower case alike; without a question every block counts.
pub proof fn a_block_mentions_by_name_or_subject(block: (Seq<char>, Seq<char>), q: Seq<char>)
    ensures
        holds(lowercase(block.0), lowercase(q)) ==> mentions(block, Some(q)),
        holds(lowercase(block.1), lowercase(q)) ==> mentions(block, Some(q)),
        !holds(lowercase(block.0), lowercase(q)) && !holds(lowercase(block.1), lowercase(q))
            ==> !mentions(block, Some(q)),
        mentions(block, None),
{
}

/// A step that did not run is told why: that it names no tool, that its tool is no
/// lookup, or that its arguments are bad; with the tool where it has one.
pub proof fn a_refused_step_is_told_why(tool: Seq<char>)
    ensures
        tool.len() > 0 ==> holds(refused_text(tool), "`"@ + tool + "`"@),
        holds(repeat_text(tool), tool),
{
    let pointer = repeat_text(tool);
    let rest = pointer.skip(("[identical "@ + tool).len() as int);
    assert(pointer =~= "[identical "@ + tool + rest);
    lemma_holds_between("[identical "@, tool, rest);
    if tool.len() > 0 {
        let text = refused_text(tool);
        let name = "`"@ + tool + "`"@;
        reveal_strlit("`");
        lemma_tick();
        let tail = text.skip(name.len() as int);
        assert(text =~= Seq::empty() + name + tail);
        lemma_holds_between(Seq::empty(), name, tail);
    }
}

proof fn lemma_tick()
    ensures
        "` is not a lookup; call it on its own"@.len() > 0,
        "` is not a lookup; call it on its own"@[0] == '`',
        "` did not run in the batch (its `args` were missing or malformed); \
         call it on its own"@.len() > 0,
        "` did not run in the batch (its `args` were missing or malformed); \
         call it on its own"@[0] == '`',
{
    reveal_strlit("` is not a lookup; call it on its own");
    reveal_strlit(
        "` did not run in the batch (its `args` were missing or malformed); \
         call it on its own",
    );
}

/// A hint at paths is given exactly where what was searched for looks like one
/// and there are some.
pub proof fn hints_are_given_for_paths(query: Seq<char>, nearby: Seq<Seq<char>>)
    ensures
        path_hint(query, nearby) is Some <==> path_shaped(query) && nearby.len() >= 1,
        query.contains('/') && (forall|i: int|
            0 <= i < query.len() ==> !is_space(#[trigger] query[i])) ==> path_shaped(query),
        path_hint(query, nearby) matches Some(hint) ==> holds(hint, "`"@ + query + "`"@),
{
    match path_hint(query, nearby) {
        Some(hint) => {
            reveal_strlit("`");
            reveal_strlit("no content matches for `");
            reveal_strlit("no content matches for ");
            reveal_strlit("`. If you meant the file itself, paths with similar names:\n");
            assert("no content matches for `"@ =~= "no content matches for "@ + "`"@);
            let front = "no content matches for "@;
            let mid = "`"@ + query + "`"@;
            let rest = hint.skip((front + mid).len() as int);
            assert(hint =~= front + mid + rest);
            lemma_holds_between(front, mid, rest);
        },
        None => {},
    }
}

} // verus!
