//! Memory and skills: what is stored and what is answered.

use vstd::prelude::*;

use crate::text::affix::{contains, holds, is_blank, trim, trimmed};
use crate::text::case::lowercase;
use crate::text::number::{dec, decimal_usize};
use crate::text::pieces::{join, joined, leading, take_chars};
use crate::text::{cat2, cat3, cat4, cat5, opt, opt_str, pairs, texts};

verus! {

/// Said where no store is open.
pub const NO_STORE: &'static str = "memory is unavailable; no store is open";

/// How a string is written with `{:?}`.
pub uninterp spec fn debug_text(s: Seq<char>) -> Seq<char>;

/// `format!` of a string with `{:?}`: quotes around it, and its special
/// characters escaped. The result depends on the string alone.
#[verifier::external_body]
fn debug_string(s: &str) -> (r: String)
    ensures
        r@ == debug_text(s@),
{
    format!("{s:?}")
}

/// How a string is written with `{:?}`.
pub fn debug_quote(s: &str) -> (r: String)
    ensures
        r@ == debug_text(s@),
{
    debug_string(s)
}

/// A named block, or a line of project memory.
pub enum Memory {
    /// A block of its own under this title.
    Block(String),
    /// A line of project memory.
    Project(String),
}

/// The title a fact is stored under, if it has one.
pub open spec fn block_title(title: Option<Seq<char>>) -> Option<Seq<char>> {
    match title {
        Some(t) => if trimmed(t).len() > 0 {
            Some(trimmed(t))
        } else {
            None
        },
        None => None,
    }
}

/// True when `m` is where a fact goes.
pub open spec fn goes_to(m: Memory, title: Option<Seq<char>>, note: Seq<char>) -> bool {
    match block_title(title) {
        Some(t) => m matches Memory::Block(b) && b@ == t,
        None => m matches Memory::Project(fact) && fact@ == leading(trimmed(note), 500),
    }
}

/// A fact with a title goes to the block of that title; one without, or with a
/// blank one, to the project, from its own front and no longer than a line may
/// be.
pub proof fn a_fact_goes_where_its_title_says(m: Memory, title: Option<Seq<char>>, note: Seq<char>)
    requires
        goes_to(m, title, note),
    ensures
        m is Block <==> title is Some && trimmed(title.unwrap()).len() > 0,
        m matches Memory::Block(b) ==> b@ == trimmed(title.unwrap()),
        m matches Memory::Project(fact) ==> fact@ == trimmed(note).take(fact@.len() as int)
            && fact@.len() == if trimmed(note).len() <= 500 { trimmed(note).len() } else { 500 },
{
    assert(trimmed(note).take(trimmed(note).len() as int) =~= trimmed(note));
}

/// Where a fact goes: a block under its trimmed title, or the first 500
/// characters of the trimmed note as a line of project memory.
pub fn remember(title: Option<&str>, note: &str) -> (r: Memory)
    ensures
        match block_title(opt_str(title)) {
            Some(t) => r matches Memory::Block(b) && b@ == t,
            None => r matches Memory::Project(fact) && fact@ == leading(trimmed(note@), 500),
        },
        goes_to(r, opt_str(title), note@),
{
    match title {
        Some(t) => {
            let t = trim(t);
            if !t.as_str().is_empty() {
                return Memory::Block(t);
            }
        },
        None => {},
    }
    Memory::Project(take_chars(trim(note).as_str(), 500))
}

/// What is said once a block was stored, given the blocks that say nearly the
/// same.
pub open spec fn remembered_text(title: Seq<char>, same: Seq<Seq<char>>) -> Seq<char> {
    if same.len() == 0 {
        "remembered under \""@ + title + "\""@
    } else {
        "remembered under \""@ + title + "\". "@ + joined(same, " and "@)
            + " already says something similar; \
                 read it and, if it is the same fact, fold this into it and forget the other."@
    }
}

/// What is said once a block was stored.
pub fn remembered(title: &str, same: &Vec<String>) -> (r: String)
    ensures
        r@ == remembered_text(title@, texts(same@)),
{
    if same.len() == 0 {
        return cat3("remembered under \"", title, "\"");
    }
    cat5(
        "remembered under \"",
        title,
        "\". ",
        join(same, " and ").as_str(),
        " already says something similar; \
                 read it and, if it is the same fact, fold this into it and forget the other.",
    )
}

/// What is said once a line of project memory was stored.
pub const PROJECT_REMEMBERED: &'static str = "remembered in project memory";

/// What is said once a fact was stored, given where it went and the blocks that
/// say nearly the same.
pub fn remember_reply(place: &Memory, same: &Vec<String>) -> (r: String)
    ensures
        r@ == match *place {
            Memory::Block(title) => remembered_text(title@, texts(same@)),
            Memory::Project(_) => PROJECT_REMEMBERED@,
        },
{
    match place {
        Memory::Block(title) => remembered(title.as_str(), same),
        Memory::Project(_) => PROJECT_REMEMBERED.to_owned(),
    }
}

/// True when a block mentions the query, upper and lower case alike.
pub open spec fn mentions(block: (Seq<char>, Seq<char>), query: Option<Seq<char>>) -> bool {
    match query {
        Some(q) => holds(lowercase(block.0), lowercase(q)) || holds(
            lowercase(block.1),
            lowercase(q),
        ),
        None => true,
    }
}

/// One block of the list: its name, and its description when it has one.
pub open spec fn block_line(block: (Seq<char>, Seq<char>)) -> Seq<char> {
    if block.1.len() == 0 {
        "- "@ + block.0
    } else {
        "- "@ + block.0 + " — "@ + block.1
    }
}

/// The lines for the blocks that mention the query.
pub open spec fn block_lines(
    blocks: Seq<(Seq<char>, Seq<char>)>,
    query: Option<Seq<char>>,
) -> Seq<Seq<char>>
    decreases blocks.len(),
{
    if blocks.len() == 0 {
        Seq::empty()
    } else if mentions(blocks.last(), query) {
        block_lines(blocks.drop_last(), query).push(block_line(blocks.last()))
    } else {
        block_lines(blocks.drop_last(), query)
    }
}

/// What a list of memory blocks shows.
pub open spec fn recall_text(
    blocks: Seq<(Seq<char>, Seq<char>)>,
    query: Option<Seq<char>>,
) -> Seq<char> {
    let shown = block_lines(blocks, query);
    if shown.len() == 0 {
        match query {
            Some(q) => "no memory block mentions \""@ + q + "\""@,
            None => "no memory blocks yet"@,
        }
    } else {
        dec(shown.len()) + " memory blocks; recall(name) reads one in full:\n"@ + joined(
            shown,
            "\n"@,
        )
    }
}

fn mentioned(block: &(String, String), query: Option<&str>) -> (r: bool)
    ensures
        r == mentions((block.0@, block.1@), opt_str(query)),
{
    match query {
        Some(q) => {
            let needle = q.to_lowercase();
            contains(block.0.as_str().to_lowercase().as_str(), needle.as_str()) || contains(
                block.1.as_str().to_lowercase().as_str(),
                needle.as_str(),
            )
        },
        None => true,
    }
}

/// What a list of memory blocks, each with name and description, shows.
pub fn recall_list(blocks: &Vec<(String, String)>, query: Option<&str>) -> (r: String)
    ensures
        r@ == recall_text(pairs(blocks@), opt_str(query)),
{
    let ghost all = pairs(blocks@);
    let mut out: Vec<String> = Vec::new();
    let mut i: usize = 0;
    assert(texts(out@) =~= block_lines(all.take(0), opt_str(query)));
    while i < blocks.len()
        invariant
            i <= blocks@.len(),
            all == pairs(blocks@),
            texts(out@) == block_lines(all.take(i as int), opt_str(query)),
        decreases blocks.len() - i,
    {
        proof {
            assert(all.take(i + 1).drop_last() =~= all.take(i as int));
            assert(all.take(i + 1).last() == all[i as int]);
        }
        let ghost had = texts(out@);
        if mentioned(&blocks[i], query) {
            let line = if blocks[i].1.as_str().is_empty() {
                cat2("- ", blocks[i].0.as_str())
            } else {
                cat4("- ", blocks[i].0.as_str(), " — ", blocks[i].1.as_str())
            };
            out.push(line);
            assert(texts(out@) =~= had.push(line@));
        }
        i += 1;
    }
    assert(all.take(all.len() as int) =~= all);
    if out.len() == 0 {
        return match query {
            Some(q) => cat3("no memory block mentions \"", q, "\""),
            None => "no memory blocks yet".to_owned(),
        };
    }
    cat3(
        decimal_usize(out.len()).as_str(),
        " memory blocks; recall(name) reads one in full:\n",
        join(&out, "\n").as_str(),
    )
}

/// What forgetting a block is reported as, given whether it was there.
pub fn forget(name: &str, removed: bool) -> (r: Result<String, String>)
    ensures
        removed ==> r is Ok && r->Ok_0@ == "forgot \""@ + name@ + "\""@,
        !removed ==> r is Err && r->Err_0@ == "no memory block named "@ + debug_text(name@)
            + "; see Recallable memory for the list"@,
{
    if removed {
        Ok(cat3("forgot \"", name, "\""))
    } else {
        Err(
            cat3(
                "no memory block named ",
                debug_string(name).as_str(),
                "; see Recallable memory for the list",
            ),
        )
    }
}

/// What is known of a skill that a call names.
#[derive(Clone, Copy, PartialEq, Eq, Structural, Debug)]
pub enum SkillState {
    /// There is none of that name.
    Missing,
    /// Its body is in the system prompt already.
    Always,
    /// Its body is read when asked for.
    OnDemand,
}

/// What is to be done about reading a skill.
pub enum SkillStep {
    /// Load its body.
    Load,
    /// Answer with a text.
    Say(String),
    /// Fail with a reason.
    Fail(String),
}

/// True when `s` is what is done about a skill that is asked for.
pub open spec fn skill_read(s: SkillStep, name: Seq<char>, state: SkillState) -> bool {
    match state {
        SkillState::Missing => s matches SkillStep::Fail(e) && e@ == "no skill named "@ + debug_text(
            name,
        ) + "; check the Skills list"@,
        SkillState::Always => s matches SkillStep::Say(text) && text@ == name
            + " is already in your system prompt in full, under \"Skill: "@ + name + "\". \
             Read it there rather than loading it again."@,
        SkillState::OnDemand => s is Load,
    }
}

/// A skill is loaded exactly where it is there and not in the prompt already.
pub proof fn only_a_skill_on_demand_is_loaded(s: SkillStep, name: Seq<char>, state: SkillState)
    requires
        skill_read(s, name, state),
    ensures
        s is Load <==> state == SkillState::OnDemand,
        s is Fail <==> state == SkillState::Missing,
        s matches SkillStep::Say(text) ==> crate::text::affix::opens(text@, name),
{
    match s {
        SkillStep::Say(text) => {
            assert(text@.take(name.len() as int) =~= name);
        },
        _ => {},
    }
}

/// What is to be done about reading a skill.
pub fn read_skill(name: &str, state: SkillState) -> (r: SkillStep)
    ensures
        match state {
            SkillState::Missing => r matches SkillStep::Fail(e) && e@ == "no skill named "@
                + debug_text(name@) + "; check the Skills list"@,
            SkillState::Always => r matches SkillStep::Say(s) && s@ == name@
                + " is already in your system prompt in full, under \"Skill: "@ + name@ + "\". \
             Read it there rather than loading it again."@,
            SkillState::OnDemand => r is Load,
        },
        skill_read(r, name@, state),
{
    match state {
        SkillState::Missing => SkillStep::Fail(
            cat3("no skill named ", debug_string(name).as_str(), "; check the Skills list"),
        ),
        SkillState::Always => SkillStep::Say(
            cat4(
                name,
                " is already in your system prompt in full, under \"Skill: ",
                name,
                "\". \
             Read it there rather than loading it again.",
            ),
        ),
        SkillState::OnDemand => SkillStep::Load,
    }
}

/// What memory adds to a conversation: nothing where it is blank.
pub fn memory_context(context: &str) -> (r: Option<String>)
    ensures
        opt(r) == (if trimmed(context@).len() > 0 {
            Some(context@)
        } else {
            None
        }),
{
    if is_blank(context) {
        None
    } else {
        Some(context.to_owned())
    }
}

} // verus!
