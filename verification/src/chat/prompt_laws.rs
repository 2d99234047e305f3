//! What holds of every prompt.

use vstd::prelude::*;

use crate::chat::prompt::{
    base_prompt, device_text, dirs_of, environment_text, full_prompt, git_text, indented_lines,
    language_text, last_segment, manager_line, manager_of, managers_text, or_nothing, runner_text,
    script_names, section, shown_dir, status_text, tools_section, Device, GitState, PromptParts,
    Surroundings, TaskRunners, TOOLS_PROMPT,
};
use crate::json::JsonV;
use crate::text::affix::{
    closes, holds, lemma_holds_between, lemma_holds_through, lemma_holds_wider, opens,
};
use crate::text::number::dec;
use crate::text::opt;
use crate::text::order::{before, sorted_by_key, sorting_orders_and_keeps};
use crate::text::pieces::{
    chained, joined, lemma_chained_holds, lemma_chained_push, lemma_joined_holds, lines_of,
};

verus! {

proof fn lemma_section_holds(a: Seq<char>, s: Option<Seq<char>>, b: Seq<char>)
    ensures
        s matches Some(t) ==> holds(a + section(s) + b, "\n\n"@ + t),
{
    lemma_holds_between(a, section(s), b);
}

/// The system prompt opens with the manual and has every part that there is: the
/// instructions, the surroundings, the language, the memory; with tools also how
/// to use them, the skills, the agents and the servers.
pub proof fn a_prompt_has_all_its_parts(p: PromptParts, tools: bool)
    ensures
        !p.android ==> opens(full_prompt(p, tools), p.manual@),
        holds(full_prompt(p, tools), p.manual@),
        opt(p.instructions) matches Some(t) ==> holds(full_prompt(p, tools), "\n\n"@ + t),
        opt(p.environment) matches Some(t) ==> holds(full_prompt(p, tools), "\n\n"@ + t),
        holds(full_prompt(p, tools), "\n\n"@ + language_text(opt(p.language))),
        opt(p.memory) matches Some(t) ==> closes(full_prompt(p, tools), "\n\n"@ + t),
        tools ==> holds(full_prompt(p, tools), tools_section(p)),
{
    let base = base_prompt(p.manual@, p.android);
    let a = section(opt(p.instructions));
    let b = section(opt(p.environment));
    let c = "\n\n"@ + language_text(opt(p.language));
    let d = if tools { tools_section(p) } else { Seq::empty() };
    let e = section(opt(p.memory));
    lemma_six(base, a, b, c, d, e);
    lemma_base(p.manual@, p.android);
    lemma_holds_through(full_prompt(p, tools), base, p.manual@);
}

proof fn lemma_base(manual: Seq<char>, android: bool)
    ensures
        holds(base_prompt(manual, android), manual),
        !android ==> base_prompt(manual, android) == manual,
{
    let base = base_prompt(manual, android);
    let front = base.take(base.len() - manual.len());
    assert(base =~= front + manual + Seq::empty());
    lemma_holds_between(front, manual, Seq::empty());
}

proof fn lemma_six(
    a: Seq<char>,
    b: Seq<char>,
    c: Seq<char>,
    d: Seq<char>,
    e: Seq<char>,
    f: Seq<char>,
)
    ensures
        opens(a + b + c + d + e + f, a),
        holds(a + b + c + d + e + f, a),
        holds(a + b + c + d + e + f, b),
        holds(a + b + c + d + e + f, c),
        holds(a + b + c + d + e + f, d),
        holds(a + b + c + d + e + f, e),
        closes(a + b + c + d + e + f, f),
{
    let v1 = Seq::empty().push(a);
    let v2 = v1.push(b);
    let v3 = v2.push(c);
    let v4 = v3.push(d);
    let v5 = v4.push(e);
    let v = v5.push(f);
    lemma_chained_push(v1, a);
    lemma_chained_push(v1, b);
    lemma_chained_push(v2, c);
    lemma_chained_push(v3, d);
    lemma_chained_push(v4, e);
    lemma_chained_push(v5, f);
    lemma_chained_holds(v, 0);
    lemma_chained_holds(v, 1);
    lemma_chained_holds(v, 2);
    lemma_chained_holds(v, 3);
    lemma_chained_holds(v, 4);
    lemma_chained_holds(v, 5);
}

/// The part on tools has every index that there is.
pub proof fn the_tools_come_with_their_indices(p: PromptParts)
    ensures
        opens(tools_section(p), TOOLS_PROMPT@),
        opt(p.skill_index) matches Some(t) ==> holds(tools_section(p), "\n\n"@ + t),
        opt(p.agent_index) matches Some(t) ==> holds(tools_section(p), "\n\n"@ + t),
        opt(p.mcp_prompt) matches Some(t) ==> holds(tools_section(p), "\n\n"@ + t),
        opt(p.mcp_disabled) matches Some(t) ==> holds(tools_section(p), "\n\n"@ + t),
{
    let text = tools_section(p);
    let base = TOOLS_PROMPT@;
    let a = section(opt(p.skill_index));
    let b = section(opt(p.agent_index));
    let c = section(opt(p.mcp_prompt));
    let d = section(opt(p.mcp_disabled));
    assert(text.take(base.len() as int) =~= base);
    assert(text =~= base + a + (b + c + d));
    lemma_section_holds(base, opt(p.skill_index), b + c + d);
    assert(text =~= (base + a) + b + (c + d));
    lemma_section_holds(base + a, opt(p.agent_index), c + d);
    assert(text =~= (base + a + b) + c + d);
    lemma_section_holds(base + a + b, opt(p.mcp_prompt), d);
    assert(text =~= (base + a + b + c) + d + Seq::empty());
    lemma_section_holds(base + a + b + c, opt(p.mcp_disabled), Seq::empty());
}

/// A language that is set is named.
pub proof fn the_language_is_named(language: Seq<char>)
    ensures
        holds(language_text(Some(language)), "Reply in "@ + language + ","@),
        holds(language_text(None), "Reply in the language the user writes in."@),
{
    reveal_strlit(", whatever language the user writes in.");
    reveal_strlit(",");
    let rest = ", whatever language the user writes in."@;
    assert(rest =~= ","@ + rest.skip(1));
    let want = "Reply in "@ + language + ","@;
    let tail = language_text(Some(language)).skip(("## Language\n"@ + want).len() as int);
    assert(language_text(Some(language)) =~= "## Language\n"@ + want + tail);
    lemma_holds_between("## Language\n"@, want, tail);
    let plain = "Reply in the language the user writes in."@;
    let end = language_text(None).skip(("## Language\n"@ + plain).len() as int);
    assert(language_text(None) =~= "## Language\n"@ + plain + end);
    lemma_holds_between("## Language\n"@, plain, end);
}

/// The surroundings name the platform and the date, and have every note that
/// there is.
pub proof fn the_surroundings_are_complete(s: Surroundings)
    ensures
        holds(environment_text(s), "- Platform: "@ + s.os@ + " ("@ + s.arch@ + ")\n"@),
        holds(environment_text(s), "- Today's date: "@ + s.date@ + "\n"@),
        opt(s.project) matches Some(t) ==> opens(environment_text(s), t),
        opt(s.device) matches Some(t) ==> holds(environment_text(s), t),
        opt(s.git) matches Some(t) ==> holds(environment_text(s), t),
        opt(s.packages) matches Some(t) ==> holds(environment_text(s), t),
        opt(s.runners) matches Some(t) ==> closes(environment_text(s), t),
{
    let project = match opt(s.project) {
        Some(p) => p + "\n"@,
        None => Seq::empty(),
    };
    let platform = "## Environment\n- Platform: "@ + s.os@ + " ("@ + s.arch@
        + ")\n- Today's date: "@;
    let date = s.date@ + "\n"@;
    let device = or_nothing(opt(s.device));
    let git = or_nothing(opt(s.git));
    let packages = or_nothing(opt(s.packages));
    let runners = or_nothing(opt(s.runners));
    let text = environment_text(s);
    lemma_six(project + platform, date, device, git, packages, runners);
    lemma_platform(s.os@, s.arch@, s.date@);
    lemma_dated(project, platform, date, device, git, packages, runners);
    lemma_holds_through(
        text,
        platform + date,
        "- Platform: "@ + s.os@ + " ("@ + s.arch@ + ")\n"@,
    );
    lemma_holds_through(text, platform + date, "- Today's date: "@ + s.date@ + "\n"@);
    match opt(s.project) {
        Some(t) => {
            assert(project + platform =~= t + ("\n"@ + platform));
            lemma_opens_deeper(text, project + platform, t, "\n"@ + platform);
        },
        None => {},
    }
}

proof fn lemma_opens_deeper(text: Seq<char>, head: Seq<char>, p: Seq<char>, rest: Seq<char>)
    requires
        opens(text, head),
        head == p + rest,
    ensures
        opens(text, p),
{
    assert(text.take(p.len() as int) =~= head.take(p.len() as int));
    assert(head.take(p.len() as int) =~= p);
}

proof fn lemma_dated(
    project: Seq<char>,
    platform: Seq<char>,
    date: Seq<char>,
    a: Seq<char>,
    b: Seq<char>,
    c: Seq<char>,
    d: Seq<char>,
)
    ensures
        holds(project + platform + date + a + b + c + d, platform + date),
{
    let text = project + platform + date + a + b + c + d;
    let both = platform + date;
    let rest = text.skip((project + both).len() as int);
    assert(text =~= project + both + rest);
    lemma_holds_between(project, both, rest);
}

proof fn lemma_platform(os: Seq<char>, arch: Seq<char>, date: Seq<char>)
    ensures
        ({
            let dated = "## Environment\n- Platform: "@ + os + " ("@ + arch
                + ")\n- Today's date: "@ + (date + "\n"@);
            &&& holds(dated, "- Platform: "@ + os + " ("@ + arch + ")\n"@)
            &&& holds(dated, "- Today's date: "@ + date + "\n"@)
        }),
{
    reveal_strlit("## Environment\n- Platform: ");
    reveal_strlit("## Environment\n");
    reveal_strlit("- Platform: ");
    reveal_strlit(")\n- Today's date: ");
    reveal_strlit(")\n");
    reveal_strlit("- Today's date: ");
    let title = "## Environment\n"@;
    assert("## Environment\n- Platform: "@ =~= title + "- Platform: "@);
    assert(")\n- Today's date: "@ =~= ")\n"@ + "- Today's date: "@);
    let dated = "## Environment\n- Platform: "@ + os + " ("@ + arch + ")\n- Today's date: "@ + (date
        + "\n"@);
    let first = "- Platform: "@ + os + " ("@ + arch + ")\n"@;
    let second = "- Today's date: "@ + date + "\n"@;
    assert(dated =~= title + first + second);
    lemma_holds_between(title, first, second);
    assert(dated =~= (title + first) + second + Seq::empty());
    lemma_holds_between(title + first, second, Seq::empty());
}

proof fn lemma_indented_holds(v: Seq<Seq<char>>, i: int)
    requires
        0 <= i < v.len(),
    ensures
        holds(indented_lines(v), "  "@ + v[i] + "\n"@),
    decreases v.len(),
{
    let before = indented_lines(v.drop_last());
    let row = "  "@ + v.last() + "\n"@;
    if i == v.len() - 1 {
        assert(indented_lines(v) =~= before + row + Seq::empty());
        lemma_holds_between(before, row, Seq::empty());
    } else {
        lemma_indented_holds(v.drop_last(), i);
        assert(indented_lines(v) =~= Seq::empty() + before + row);
        lemma_holds_wider(Seq::empty(), before, row, "  "@ + v[i] + "\n"@);
    }
}

/// The state of the repository names the branch, lists the changed files that
/// fit, each on a line, and tells how many there are.
pub proof fn changed_files_are_listed(g: GitState, status: Seq<char>, i: int)
    requires
        opt(g.status) == Some(status),
        status.len() > 0,
        0 <= i < lines_of(status).len(),
        i < 15,
    ensures
        opens(git_text(g), "- Git branch: "@ + g.branch@),
        holds(git_text(g), "  "@ + lines_of(status)[i] + "\n"@),
        holds(git_text(g), "("@ + dec(lines_of(status).len()) + "):\n"@),
{
    let v = lines_of(status);
    let text = git_text(g);
    let front = "- Git branch: "@ + g.branch@;
    assert(text.take(front.len() as int) =~= front);
    let body = status_text(Some(status));
    let shown = if v.len() > 15 { v.take(15) } else { v };
    let row = "  "@ + v[i] + "\n"@;
    lemma_indented_holds(shown, i);
    assert(shown[i] == v[i]);
    let rows = indented_lines(shown);
    let lead = "- Changed files at session start ("@ + dec(v.len()) + "):\n"@;
    let tail = body.skip((lead + rows).len() as int);
    assert(body =~= lead + rows + tail);
    lemma_holds_wider(lead, rows, tail, row);
    reveal_strlit("- Changed files at session start (");
    reveal_strlit("- Changed files at session start ");
    reveal_strlit("(");
    assert("- Changed files at session start ("@ =~= "- Changed files at session start "@ + "("@);
    let count = "("@ + dec(v.len()) + "):\n"@;
    let rest = rows + tail;
    assert(body =~= "- Changed files at session start "@ + count + rest);
    lemma_holds_between("- Changed files at session start "@, count, rest);
    let head = front + (match opt(g.head) {
        Some(h) => " (default branch: "@ + last_segment(h) + ")"@,
        None => Seq::empty(),
    }) + "\n"@;
    let log = text.skip((head + body).len() as int);
    assert(text =~= head + body + log);
    lemma_holds_wider(head, body, log, row);
    lemma_holds_wider(head, body, log, count);
}

/// The scripts of a package are named in order, all of them where they fit, and
/// else the first of them and how many more there are.
pub proof fn scripts_are_named_in_order(manifest: JsonV, v: Seq<(Seq<char>, JsonV)>)
    requires
        manifest.get("scripts"@) == Some(JsonV::Obj(v)),
        v.len() > 0,
    ensures
        script_names(manifest) is Some,
        v.len() <= 12 ==> script_names(manifest).unwrap().len() == v.len(),
        v.len() > 12 ==> script_names(manifest).unwrap().len() == 13 && script_names(
            manifest,
        ).unwrap().last() == "... "@ + dec((v.len() - 12) as nat) + " more"@,
        forall|i: int, j: int|
            0 <= i < j < script_names(manifest).unwrap().len() && j < 12 ==> !before(
                #[trigger] script_names(manifest).unwrap()[j],
                #[trigger] script_names(manifest).unwrap()[i],
            ),
        forall|i: int|
            0 <= i < script_names(manifest).unwrap().len() && i < 12 ==> exists|k: int|
                0 <= k < v.len() && (#[trigger] v[k]).0 == #[trigger] script_names(
                    manifest,
                ).unwrap()[i],
{
    broadcast use vstd::seq_lib::group_to_multiset_ensures;

    let list = Seq::new(v.len(), |i: int| (v[i].0, Seq::<char>::empty()));
    let s = sorted_by_key(list);
    sorting_orders_and_keeps(list);
    let names = script_names(manifest).unwrap();
    assert forall|i: int, j: int| 0 <= i < j < names.len() && j < 12 implies !before(
        #[trigger] names[j],
        #[trigger] names[i],
    ) by {
        assert(names[i] == s[i].0 && names[j] == s[j].0);
    }
    assert forall|i: int| 0 <= i < names.len() && i < 12 implies exists|k: int|
        0 <= k < v.len() && (#[trigger] v[k]).0 == #[trigger] names[i] by {
        assert(names[i] == s[i].0);
        assert(s.to_multiset().count(s[i]) > 0);
        assert(list.contains(s[i]));
        let k = choose|k: int| 0 <= k < list.len() && list[k] == s[i];
        assert(v[k].0 == names[i]);
    }
}

/// Every task runner that is there is told of.
pub proof fn task_runners_are_told(t: TaskRunners)
    ensures
        opt(t.just) matches Some(file) ==> opens(runner_text(t), "- "@ + file),
        t.make ==> holds(
            runner_text(t),
            "- Makefile present: run targets with `make <name>`.\n"@,
        ),
        t.task ==> holds(
            runner_text(t),
            "- Taskfile.yml present: run tasks with `task <name>`; `task --list` shows them.\n"@,
        ),
        crate::tools::offer::opt_texts(t.scripts) matches Some(names) ==> holds(
            runner_text(t),
            "- package.json scripts: "@ + joined(names, ", "@),
        ),
{
    let text = runner_text(t);
    let a = match opt(t.just) {
        Some(file) => "- "@ + file
            + " present: run recipes with `just <name>`; `just --list` shows them.\n"@,
        None => Seq::empty(),
    };
    let d = match crate::tools::offer::opt_texts(t.scripts) {
        Some(names) => "- package.json scripts: "@ + joined(names, ", "@)
            + ". Prefer these over hand-rolled equivalents.\n"@,
        None => Seq::empty(),
    };
    let v1 = Seq::empty().push(a);
    let v2 = v1.push(
        if t.make {
            "- Makefile present: run targets with `make <name>`.\n"@
        } else {
            Seq::empty()
        },
    );
    let v3 = v2.push(
        if t.task {
            "- Taskfile.yml present: run tasks with `task <name>`; `task --list` shows them.\n"@
        } else {
            Seq::empty()
        },
    );
    let v = v3.push(d);
    lemma_chained_push(v1, a);
    lemma_chained_push(v1, v2.last());
    lemma_chained_push(v2, v3.last());
    lemma_chained_push(v3, d);
    assert(text == chained(v));
    lemma_chained_holds(v, 0);
    lemma_chained_holds(v, 1);
    lemma_chained_holds(v, 2);
    lemma_chained_holds(v, 3);
    assert(v[0] == a && v[1] == v2.last() && v[2] == v3.last() && v[3] == d);
    match opt(t.just) {
        Some(file) => {
            let front = "- "@ + file;
            assert(text.take(front.len() as int) =~= a.take(front.len() as int));
            assert(a.take(front.len() as int) =~= front);
        },
        None => {},
    }
    match crate::tools::offer::opt_texts(t.scripts) {
        Some(names) => {
            let row = "- package.json scripts: "@ + joined(names, ", "@);
            let end = ". Prefer these over hand-rolled equivalents.\n"@;
            assert(d =~= Seq::empty() + row + end);
            lemma_holds_between(Seq::empty(), row, end);
            lemma_holds_through(text, d, row);
        },
        None => {},
    }
}

/// True when `dir` has a lock file of that package manager.
pub open spec fn locks(
    files: Seq<(Seq<char>, Seq<char>)>,
    manager: Seq<char>,
    dir: Seq<char>,
) -> bool {
    exists|i: int|
        0 <= i < files.len() && manager_of((#[trigger] files[i]).0) == Some(manager) && shown_dir(
            files[i].1,
        ) == dir
}

/// The directories of a package manager are those with a lock file of its own,
/// each once.
pub proof fn each_lock_file_counts_for_its_manager(
    files: Seq<(Seq<char>, Seq<char>)>,
    manager: Seq<char>,
)
    ensures
        dirs_of(files, manager).no_duplicates(),
        forall|dir: Seq<char>| #[trigger]
            dirs_of(files, manager).contains(dir) <==> locks(files, manager, dir),
    decreases files.len(),
{
    if files.len() > 0 {
        let head = files.drop_last();
        each_lock_file_counts_for_its_manager(head, manager);
        let most = dirs_of(head, manager);
        let all = dirs_of(files, manager);
        let last = shown_dir(files.last().1);
        assert(files[files.len() - 1] == files.last());
        assert forall|dir: Seq<char>| #[trigger] all.contains(dir) <==> locks(
            files,
            manager,
            dir,
        ) by {
            assert(most.contains(dir) <==> locks(head, manager, dir));
            if locks(head, manager, dir) {
                let i = choose|i: int|
                    0 <= i < head.len() && manager_of((#[trigger] head[i]).0) == Some(manager)
                        && shown_dir(head[i].1) == dir;
                assert(files[i] == head[i]);
                let j = choose|j: int| 0 <= j < most.len() && most[j] == dir;
                assert(all[j] == dir);
            }
            if all.contains(dir) && !most.contains(dir) {
                let j = choose|j: int| 0 <= j < all.len() && all[j] == dir;
                assert(j == most.len());
            }
            if locks(files, manager, dir) && !locks(head, manager, dir) {
                let i = choose|i: int|
                    0 <= i < files.len() && manager_of((#[trigger] files[i]).0) == Some(manager)
                        && shown_dir(files[i].1) == dir;
                if i < files.len() - 1 {
                    assert(head[i] == files[i]);
                }
                assert(all == most.push(last));
                assert(all[most.len() as int] == dir);
            }
        }
    }
}

/// A device is told by its model and its release where they are known, and by
/// whether its screen can be reached.
pub proof fn the_device_is_told(d: Device)
    ensures
        opt(d.model) matches Some(m) ==> holds(device_text(d), "- Model: "@ + m + "\n"@),
        opt(d.release) is Some && opt(d.sdk) is Some ==> holds(
            device_text(d),
            "- Android "@ + opt(d.release).unwrap() + " (API "@ + opt(d.sdk).unwrap() + ")\n"@,
        ),
        d.asterctl ==> holds(device_text(d), crate::chat::prompt::ASTERCTL_NOTE@),
        !d.asterctl ==> holds(device_text(d), crate::chat::prompt::NO_ASTERCTL_NOTE@),
{
    let text = device_text(d);
    let lead =
        "## Device\n- Running on the Android device itself, not on a machine attached to one\n"@;
    let a = match opt(d.model) {
        Some(m) => "- Model: "@ + m + "\n"@,
        None => Seq::empty(),
    };
    let b = match (opt(d.release), opt(d.sdk)) {
        (Some(release), Some(sdk)) => "- Android "@ + release + " (API "@ + sdk + ")\n"@,
        _ => Seq::empty(),
    };
    let c = if d.asterctl {
        crate::chat::prompt::ASTERCTL_NOTE@
    } else {
        crate::chat::prompt::NO_ASTERCTL_NOTE@
    };
    let e = crate::chat::prompt::PHONE_PYTHON_NOTE@;
    assert(text =~= lead + a + (b + c + e));
    lemma_holds_between(lead, a, b + c + e);
    assert(text =~= (lead + a) + b + (c + e));
    lemma_holds_between(lead + a, b, c + e);
    assert(text =~= (lead + a + b) + c + e);
    lemma_holds_between(lead + a + b, c, e);
}

/// A package manager is told of with every directory that is its own; one with
/// none is not told of.
pub proof fn managers_are_told_with_their_directories(
    dirs: Seq<Seq<char>>,
    manager: Seq<char>,
    i: int,
)
    ensures
        dirs.len() == 0 ==> manager_line(dirs, manager).len() == 0,
        0 <= i < dirs.len() ==> holds(manager_line(dirs, manager), dirs[i]) && holds(
            manager_line(dirs, manager),
            "`"@ + manager + "`"@,
        ),
{
    if 0 <= i < dirs.len() {
        let text = manager_line(dirs, manager);
        let mid = joined(dirs, ", "@);
        let lead = "- JavaScript packages in "@;
        let rest = text.skip((lead + mid).len() as int);
        assert(text =~= lead + mid + rest);
        lemma_joined_holds(dirs, ", "@, i);
        lemma_holds_wider(lead, mid, rest, dirs[i]);
        reveal_strlit(" use `");
        reveal_strlit(" use ");
        reveal_strlit("`");
        reveal_strlit("`; run scripts and one-off tools with it, not npm/npx.\n");
        let end = "`; run scripts and one-off tools with it, not npm/npx.\n"@;
        assert(" use `"@ =~= " use "@ + "`"@);
        assert(end =~= "`"@ + end.skip(1));
        let front = lead + mid + " use "@;
        let name = "`"@ + manager + "`"@;
        assert(text =~= front + name + end.skip(1));
        lemma_holds_between(front, name, end.skip(1));
    }
}

/// Every package manager that has a directory is told of.
pub proof fn every_manager_is_told(files: Seq<(Seq<char>, Seq<char>)>)
    ensures
        holds(managers_text(files), manager_line(dirs_of(files, "bun"@), "bun"@)),
        holds(managers_text(files), manager_line(dirs_of(files, "npm"@), "npm"@)),
        holds(managers_text(files), manager_line(dirs_of(files, "pnpm"@), "pnpm"@)),
        holds(managers_text(files), manager_line(dirs_of(files, "yarn"@), "yarn"@)),
{
    let a = manager_line(dirs_of(files, "bun"@), "bun"@);
    let b = manager_line(dirs_of(files, "npm"@), "npm"@);
    let c = manager_line(dirs_of(files, "pnpm"@), "pnpm"@);
    let d = manager_line(dirs_of(files, "yarn"@), "yarn"@);
    let v1 = Seq::empty().push(a);
    let v2 = v1.push(b);
    let v3 = v2.push(c);
    let v = v3.push(d);
    lemma_chained_push(v1, a);
    lemma_chained_push(v1, b);
    lemma_chained_push(v2, c);
    lemma_chained_push(v3, d);
    lemma_chained_holds(v, 0);
    lemma_chained_holds(v, 1);
    lemma_chained_holds(v, 2);
    lemma_chained_holds(v, 3);
    assert(managers_text(files) == chained(v));
}

/// The default branch goes by its name, without what stands before the last
/// slash.
pub proof fn a_branch_goes_by_its_last_name(dir: Seq<char>, name: Seq<char>)
    requires
        !name.contains('/'),
    ensures
        last_segment(dir + seq!['/'] + name) == name,
        last_segment(name) == name,
    decreases name.len(),
{
    let s = dir + seq!['/'] + name;
    if name.len() == 0 {
        assert(s.last() == '/');
        assert(last_segment(s) =~= name);
        assert(last_segment(name) =~= name);
    } else {
        let head = name.drop_last();
        assert(name[name.len() - 1] != '/');
        assert(!head.contains('/')) by {
            if head.contains('/') {
                let i = choose|i: int| 0 <= i < head.len() && head[i] == '/';
                assert(name[i] == '/');
            }
        }
        a_branch_goes_by_its_last_name(dir, head);
        assert(s.drop_last() =~= dir + seq!['/'] + head);
        assert(s.last() == name.last());
        assert(head.push(name.last()) =~= name);
    }
}

} // verus!
