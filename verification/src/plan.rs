//! The plan of a session: its document, its steps and their progress.

use vstd::prelude::*;

use crate::text::affix::{holds, match_at, stands_at, trim, trimmed};
use crate::text::number::{dec, decimal_usize};
use crate::text::pieces::{join, joined};
use crate::text::{cat2, cat3, cat4, cat5, chars, collect, opt, opt_str, same, texts};

verus! {

/// How far a step of the plan has come.
#[derive(Clone, Copy, PartialEq, Eq, Structural, Debug)]
pub enum PlanStepStatus {
    Pending,
    InProgress,
    Done,
    Skipped,
    Blocked,
}

/// The word for a status, as the model writes it.
pub open spec fn status_of(word: Seq<char>) -> Option<PlanStepStatus> {
    if word == "pending"@ {
        Some(PlanStepStatus::Pending)
    } else if word == "in_progress"@ {
        Some(PlanStepStatus::InProgress)
    } else if word == "done"@ {
        Some(PlanStepStatus::Done)
    } else if word == "skipped"@ {
        Some(PlanStepStatus::Skipped)
    } else if word == "blocked"@ {
        Some(PlanStepStatus::Blocked)
    } else {
        None
    }
}

/// The status an optional word stands for; no word means pending.
pub open spec fn parsed_status(raw: Option<Seq<char>>) -> Result<PlanStepStatus, Seq<char>> {
    let word = match raw {
        Some(w) => w,
        None => "pending"@,
    };
    match status_of(word) {
        Some(s) => Ok(s),
        None => Err(
            "unknown step status `"@ + word
                + "`; use pending, in_progress, done, skipped, or blocked"@,
        ),
    }
}

/// The mark a step is listed with.
pub open spec fn glyph_of(s: PlanStepStatus) -> Seq<char> {
    match s {
        PlanStepStatus::Pending => "◻"@,
        PlanStepStatus::InProgress => "◼"@,
        PlanStepStatus::Done => "✔"@,
        PlanStepStatus::Skipped => "⊘"@,
        PlanStepStatus::Blocked => "✖"@,
    }
}

impl PlanStepStatus {
    /// The status an optional word stands for; no word means pending.
    pub fn parse(raw: Option<&str>) -> (r: Result<PlanStepStatus, String>)
        ensures
            match r {
                Ok(s) => parsed_status(opt_str(raw)) == Ok::<PlanStepStatus, Seq<char>>(s),
                Err(e) => parsed_status(opt_str(raw)) == Err::<PlanStepStatus, Seq<char>>(e@),
            },
    {
        let word = match raw {
            Some(w) => w,
            None => "pending",
        };
        if same(word, "pending") {
            Ok(PlanStepStatus::Pending)
        } else if same(word, "in_progress") {
            Ok(PlanStepStatus::InProgress)
        } else if same(word, "done") {
            Ok(PlanStepStatus::Done)
        } else if same(word, "skipped") {
            Ok(PlanStepStatus::Skipped)
        } else if same(word, "blocked") {
            Ok(PlanStepStatus::Blocked)
        } else {
            Err(
                cat3(
                    "unknown step status `",
                    word,
                    "`; use pending, in_progress, done, skipped, or blocked",
                ),
            )
        }
    }

    /// The mark a step is listed with.
    pub fn glyph(self) -> (r: &'static str)
        ensures
            r@ == glyph_of(self),
    {
        match self {
            PlanStepStatus::Pending => "◻",
            PlanStepStatus::InProgress => "◼",
            PlanStepStatus::Done => "✔",
            PlanStepStatus::Skipped => "⊘",
            PlanStepStatus::Blocked => "✖",
        }
    }
}

/// One step of the plan.
pub struct PlanStep {
    pub label: String,
    pub status: PlanStepStatus,
}

/// The plan document and the progress steps.
pub struct PlanState {
    pub document: String,
    pub steps: Vec<PlanStep>,
    pub approved: bool,
}

/// The models of a list of steps: label and status.
pub open spec fn steps_view(v: Seq<PlanStep>) -> Seq<(Seq<char>, PlanStepStatus)> {
    Seq::new(v.len(), |i: int| (v[i].label@, v[i].status))
}

/// The model of a plan.
#[verifier::ext_equal]
pub struct PlanV {
    pub document: Seq<char>,
    pub steps: Seq<(Seq<char>, PlanStepStatus)>,
    pub approved: bool,
}

impl View for PlanState {
    type V = PlanV;

    open spec fn view(&self) -> PlanV {
        PlanV {
            document: self.document@,
            steps: steps_view(self.steps@),
            approved: self.approved,
        }
    }
}

/// How many steps have the status `want`.
pub open spec fn count_of(steps: Seq<(Seq<char>, PlanStepStatus)>, want: PlanStepStatus) -> nat
    decreases steps.len(),
{
    if steps.len() == 0 {
        0
    } else {
        count_of(steps.drop_last(), want) + if steps.last().1 == want { 1nat } else { 0nat }
    }
}

/// The summary of the steps: how many are done, under way, open, blocked and
/// skipped.
pub open spec fn tally(steps: Seq<(Seq<char>, PlanStepStatus)>) -> Seq<Seq<char>> {
    let done = Seq::empty().push(dec(count_of(steps, PlanStepStatus::Done)) + " done"@);
    let under_way = count_of(steps, PlanStepStatus::InProgress);
    let a = if under_way > 0 {
        done.push(dec(under_way) + " in progress"@)
    } else {
        done
    };
    let b = a.push(dec(count_of(steps, PlanStepStatus::Pending)) + " open"@);
    let blocked = count_of(steps, PlanStepStatus::Blocked);
    let c = if blocked > 0 {
        b.push(dec(blocked) + " blocked"@)
    } else {
        b
    };
    let skipped = count_of(steps, PlanStepStatus::Skipped);
    if skipped > 0 {
        c.push(dec(skipped) + " skipped"@)
    } else {
        c
    }
}

/// One line per step: its mark and its label.
pub open spec fn step_rows(steps: Seq<(Seq<char>, PlanStepStatus)>) -> Seq<Seq<char>> {
    Seq::new(steps.len(), |i: int| "  "@ + glyph_of(steps[i].1) + " "@ + steps[i].0)
}

/// The steps as they are shown.
pub open spec fn rendered(steps: Seq<(Seq<char>, PlanStepStatus)>) -> Seq<char> {
    dec(steps.len()) + (if steps.len() == 1 {
        " task ("@
    } else {
        " tasks ("@
    }) + joined(tally(steps), ", "@) + ")\n"@ + joined(step_rows(steps), "\n"@)
}

fn push_part(parts: &mut Vec<String>, part: String)
    ensures
        texts(final(parts)@) == texts(old(parts)@).push(part@),
{
    parts.push(part);
    assert(texts(parts@) =~= texts(old(parts)@).push(part@));
}

/// What the steps of an `update_plan` call come to: the steps with their labels
/// trimmed, or the complaint about the first one that is wrong.
pub open spec fn parsed_steps(steps: Seq<(Seq<char>, Option<Seq<char>>)>) -> Result<
    Seq<(Seq<char>, PlanStepStatus)>,
    Seq<char>,
>
    decreases steps.len(),
{
    if steps.len() == 0 {
        Ok(seq![])
    } else {
        match parsed_steps(steps.drop_last()) {
            Err(e) => Err(e),
            Ok(head) => {
                let label = trimmed(steps.last().0);
                if label.len() == 0 {
                    Err("every plan step needs a `label`"@)
                } else {
                    match parsed_status(steps.last().1) {
                        Ok(s) => Ok(head.push((label, s))),
                        Err(e) => Err(e),
                    }
                }
            },
        }
    }
}

/// The model of the steps that a call names.
pub open spec fn asked_steps(v: Seq<(String, Option<String>)>) -> Seq<
    (Seq<char>, Option<Seq<char>>),
> {
    Seq::new(v.len(), |i: int| (v[i].0@, opt(v[i].1)))
}

/// What an `update_plan` call with these steps answers.
pub open spec fn plan_update(steps: Seq<(Seq<char>, Option<Seq<char>>)>) -> Result<
    Seq<(Seq<char>, PlanStepStatus)>,
    Seq<char>,
> {
    if steps.len() == 0 {
        Err("update_plan needs a non-empty `steps` list"@)
    } else {
        parsed_steps(steps)
    }
}

/// A complaint about an earlier step is the complaint about the whole list.
proof fn lemma_first_complaint(steps: Seq<(Seq<char>, Option<Seq<char>>)>, n: int)
    requires
        0 <= n <= steps.len(),
        parsed_steps(steps.take(n)) is Err,
    ensures
        parsed_steps(steps) == parsed_steps(steps.take(n)),
    decreases steps.len() - n,
{
    if n < steps.len() {
        assert(steps.drop_last().take(n) =~= steps.take(n));
        lemma_first_complaint(steps.drop_last(), n);
    } else {
        assert(steps.take(n) =~= steps);
    }
}

impl PlanState {
    /// A plan with nothing in it.
    pub fn new() -> (r: PlanState)
        ensures
            r@ == (PlanV {
                document: Seq::empty(),
                steps: Seq::empty(),
                approved: false,
            }),
    {
        let r = PlanState { document: String::new(), steps: Vec::new(), approved: false };
        assert(r@.steps =~= Seq::empty());
        assert(r@.document =~= Seq::empty());
        r
    }

    /// How many steps have the status `want`.
    pub fn count(&self, want: PlanStepStatus) -> (r: usize)
        ensures
            r == count_of(self@.steps, want),
    {
        let mut n: usize = 0;
        let mut i: usize = 0;
        let ghost all = self@.steps;
        assert(count_of(all.take(0), want) == 0);
        while i < self.steps.len()
            invariant
                i <= self.steps@.len(),
                n <= i,
                all == steps_view(self.steps@),
                n == count_of(all.take(i as int), want),
            decreases self.steps.len() - i,
        {
            proof {
                assert(all.take(i + 1).drop_last() =~= all.take(i as int));
                assert(all.take(i + 1).last() == all[i as int]);
            }
            if self.steps[i].status == want {
                n += 1;
            }
            i += 1;
        }
        assert(all.take(all.len() as int) =~= all);
        n
    }

    /// The steps as they are shown.
    pub fn render(&self) -> (r: String)
        ensures
            r@ == rendered(self@.steps),
    {
        let mut parts: Vec<String> = Vec::new();
        assert(texts(parts@) =~= Seq::empty());
        push_part(
            &mut parts,
            cat2(decimal_usize(self.count(PlanStepStatus::Done)).as_str(), " done"),
        );
        let under_way = self.count(PlanStepStatus::InProgress);
        if under_way > 0 {
            push_part(&mut parts, cat2(decimal_usize(under_way).as_str(), " in progress"));
        }
        push_part(
            &mut parts,
            cat2(decimal_usize(self.count(PlanStepStatus::Pending)).as_str(), " open"),
        );
        let blocked = self.count(PlanStepStatus::Blocked);
        if blocked > 0 {
            push_part(&mut parts, cat2(decimal_usize(blocked).as_str(), " blocked"));
        }
        let skipped = self.count(PlanStepStatus::Skipped);
        if skipped > 0 {
            push_part(&mut parts, cat2(decimal_usize(skipped).as_str(), " skipped"));
        }
        let noun = if self.steps.len() == 1 { " task (" } else { " tasks (" };
        let mut rows: Vec<String> = Vec::new();
        let mut i: usize = 0;
        while i < self.steps.len()
            invariant
                i <= self.steps@.len(),
                rows@.len() == i,
                forall|k: int|
                    0 <= k < i ==> #[trigger] rows@[k]@ == "  "@ + glyph_of(self.steps@[k].status)
                        + " "@ + self.steps@[k].label@,
            decreases self.steps.len() - i,
        {
            rows.push(
                cat4("  ", self.steps[i].status.glyph(), " ", self.steps[i].label.as_str()),
            );
            i += 1;
        }
        assert(texts(rows@) =~= step_rows(self@.steps));
        cat5(
            decimal_usize(self.steps.len()).as_str(),
            noun,
            join(&parts, ", ").as_str(),
            ")\n",
            join(&rows, "\n").as_str(),
        )
    }

    /// Replace the steps by the ones a call names, and show them. A call that
    /// is wrong leaves the plan as it was.
    pub fn update_plan(&mut self, steps: &Vec<(String, Option<String>)>) -> (r: Result<
        String,
        String,
    >)
        ensures
            match plan_update(asked_steps(steps@)) {
                Ok(done) => r is Ok && r->Ok_0@ == "plan updated:\n"@ + rendered(done)
                    && final(self)@ == (PlanV { steps: done, ..old(self)@ }),
                Err(e) => r is Err && r->Err_0@ == e && *final(self) == *old(self),
            },
    {
        if steps.len() == 0 {
            return Err("update_plan needs a non-empty `steps` list".to_owned());
        }
        let ghost asked = asked_steps(steps@);
        let mut parsed: Vec<PlanStep> = Vec::new();
        let mut i: usize = 0;
        assert(asked.take(0) =~= Seq::empty());
        assert(steps_view(parsed@) =~= Seq::empty());
        while i < steps.len()
            invariant
                i <= steps@.len(),
                steps@.len() > 0,
                asked == asked_steps(steps@),
                *self == *old(self),
                parsed_steps(asked.take(i as int)) == Ok::<
                    Seq<(Seq<char>, PlanStepStatus)>,
                    Seq<char>,
                >(steps_view(parsed@)),
            decreases steps.len() - i,
        {
            let label = trim(steps[i].0.as_str());
            let ghost had = steps_view(parsed@);
            proof {
                assert(asked.take(i + 1).drop_last() =~= asked.take(i as int));
                assert(asked.take(i + 1).last() == (steps@[i as int].0@, opt(steps@[i as int].1)));
                if parsed_steps(asked.take(i + 1)) is Err {
                    lemma_first_complaint(asked, i + 1);
                }
            }
            if label.as_str().is_empty() {
                return Err("every plan step needs a `label`".to_owned());
            }
            let word = match &steps[i].1 {
                Some(w) => Some(w.as_str()),
                None => None,
            };
            match PlanStepStatus::parse(word) {
                Ok(status) => {
                    parsed.push(PlanStep { label, status });
                    assert(steps_view(parsed@) =~= had.push((label@, status)));
                },
                Err(e) => {
                    return Err(e);
                },
            }
            i += 1;
        }
        assert(asked.take(asked.len() as int) =~= asked);
        self.steps = parsed;
        Ok(cat2("plan updated:\n", self.render().as_str()))
    }
}

/// The steps of a plan that has any.
pub open spec fn snapshot_of(steps: Seq<(Seq<char>, PlanStepStatus)>) -> Option<
    Seq<(Seq<char>, PlanStepStatus)>,
> {
    if steps.len() == 0 {
        None
    } else {
        Some(steps)
    }
}

/// True when some step is still open or under way.
pub open spec fn unfinished(snapshot: Option<Seq<(Seq<char>, PlanStepStatus)>>) -> bool {
    match snapshot {
        Some(steps) => exists|i: int|
            0 <= i < steps.len() && ((#[trigger] steps[i]).1 == PlanStepStatus::Pending
                || steps[i].1 == PlanStepStatus::InProgress),
        None => false,
    }
}

/// The steps of a plan at one moment.
pub struct PlanSnapshot {
    pub steps: Option<Vec<PlanStep>>,
}

impl View for PlanSnapshot {
    type V = Option<Seq<(Seq<char>, PlanStepStatus)>>;

    open spec fn view(&self) -> Option<Seq<(Seq<char>, PlanStepStatus)>> {
        match self.steps {
            Some(v) => Some(steps_view(v@)),
            None => None,
        }
    }
}

/// The steps of a plan that has any.
pub fn plan_snapshot(plan: &PlanState) -> (r: PlanSnapshot)
    ensures
        r@ == snapshot_of(plan@.steps),
{
    if plan.steps.len() == 0 {
        return PlanSnapshot { steps: None };
    }
    let mut out: Vec<PlanStep> = Vec::new();
    let mut i: usize = 0;
    while i < plan.steps.len()
        invariant
            i <= plan.steps@.len(),
            out@.len() == i,
            forall|k: int|
                0 <= k < i ==> (#[trigger] out@[k]).label@ == plan.steps@[k].label@ && out@[k].status
                    == plan.steps@[k].status,
        decreases plan.steps.len() - i,
    {
        out.push(PlanStep { label: plan.steps[i].label.clone(), status: plan.steps[i].status });
        i += 1;
    }
    assert(steps_view(out@) =~= plan@.steps);
    PlanSnapshot { steps: Some(out) }
}

/// Whether some step is still open or under way.
pub fn plan_unfinished(snapshot: &PlanSnapshot) -> (r: bool)
    ensures
        r == unfinished(snapshot@),
{
    match &snapshot.steps {
        None => false,
        Some(v) => {
            let ghost all = steps_view(v@);
            let mut i: usize = 0;
            while i < v.len()
                invariant
                    i <= v@.len(),
                    all == steps_view(v@),
                    snapshot@ == Some(all),
                    forall|k: int|
                        0 <= k < i ==> (#[trigger] all[k]).1 != PlanStepStatus::Pending && all[k].1
                            != PlanStepStatus::InProgress,
                decreases v.len() - i,
            {
                if v[i].status == PlanStepStatus::Pending || v[i].status
                    == PlanStepStatus::InProgress {
                    assert(all[i as int].1 == v@[i as int].status);
                    return true;
                }
                i += 1;
            }
            false
        },
    }
}

/// Whether two snapshots hold the same steps.
pub fn same_snapshot(a: &PlanSnapshot, b: &PlanSnapshot) -> (r: bool)
    ensures
        r == (a@ == b@),
{
    match (&a.steps, &b.steps) {
        (None, None) => true,
        (Some(v), Some(w)) => {
            if v.len() != w.len() {
                assert(steps_view(v@).len() != steps_view(w@).len());
                return false;
            }
            let mut i: usize = 0;
            while i < v.len()
                invariant
                    i <= v@.len(),
                    v@.len() == w@.len(),
                    a@ == Some(steps_view(v@)),
                    b@ == Some(steps_view(w@)),
                    forall|k: int|
                        0 <= k < i ==> (#[trigger] v@[k]).label@ == w@[k].label@ && v@[k].status
                            == w@[k].status,
                decreases v.len() - i,
            {
                if !same(v[i].label.as_str(), w[i].label.as_str()) || v[i].status != w[i].status {
                    assert(steps_view(v@)[i as int] != steps_view(w@)[i as int]);
                    return false;
                }
                i += 1;
            }
            assert(steps_view(v@) =~= steps_view(w@));
            true
        },
        _ => false,
    }
}

/// True when `p` stands in `s` at `i` and nowhere else.
pub open spec fn only_at(s: Seq<char>, p: Seq<char>, i: int) -> bool {
    stands_at(s, p, i) && forall|j: int| #[trigger] stands_at(s, p, j) ==> j == i
}

/// What came of writing the plan document.
#[derive(Clone, Copy, PartialEq, Eq, Structural, Debug)]
pub enum Draft {
    Written,
    /// The text to replace is not in the document.
    Missing,
    /// The text to replace is in it more than once.
    Ambiguous,
    /// Nothing was given to write.
    Nothing,
}

/// True when `r` and `now` are what replacing a passage of a document comes to.
pub open spec fn passage_replaced(
    r: Draft,
    now: Seq<char>,
    was: Seq<char>,
    old_str: Seq<char>,
    new_str: Seq<char>,
) -> bool {
    match r {
        Draft::Written => exists|i: int| #[trigger]
            only_at(was, old_str, i) && now == was.take(i) + new_str + was.skip(
                i + old_str.len(),
            ),
        Draft::Missing => now == was && !holds(was, old_str),
        Draft::Ambiguous => now == was && exists|i: int, j: int|
            i != j && #[trigger] stands_at(was, old_str, i) && #[trigger] stands_at(
                was,
                old_str,
                j,
            ),
        Draft::Nothing => false,
    }
}

fn only_place(v: &Vec<char>, p: &Vec<char>) -> (r: Result<usize, Draft>)
    ensures
        match r {
            Ok(k) => only_at(v@, p@, k as int) && k + p@.len() <= v@.len(),
            Err(d) => d != Draft::Written && passage_replaced(d, v@, v@, p@, Seq::empty()),
        },
{
    if p.len() > v.len() {
        return Err(Draft::Missing);
    }
    let last: usize = v.len() - p.len();
    let mut at: Option<usize> = if match_at(v, p, last) { Some(last) } else { None };
    let mut i: usize = 0;
    while i < last
        invariant
            i <= last,
            last == v@.len() - p@.len(),
            forall|j: int|
                (j < i || j >= last) && #[trigger] stands_at(v@, p@, j) ==> at is Some && at.unwrap()
                    == j,
            at is Some ==> stands_at(v@, p@, at.unwrap() as int) && (at.unwrap() < i
                || at.unwrap() == last),
        decreases last - i,
    {
        if match_at(v, p, i) {
            match at {
                Some(k) => {
                    assert(stands_at(v@, p@, i as int) && stands_at(v@, p@, k as int));
                    return Err(Draft::Ambiguous);
                },
                None => {
                    at = Some(i);
                },
            }
        }
        i += 1;
    }
    match at {
        Some(k) => Ok(k),
        None => Err(Draft::Missing),
    }
}

/// True when a draft of the plan leaves `now` of `was`.
pub open spec fn plan_written(
    r: Draft,
    was: PlanV,
    now: PlanV,
    content: Option<Seq<char>>,
    old_str: Option<Seq<char>>,
    new_str: Option<Seq<char>>,
) -> bool {
    &&& now == (PlanV { document: now.document, ..was })
    &&& match content {
        Some(text) => r == Draft::Written && now.document == text,
        None => match old_str {
            Some(passage) => passage_replaced(
                r,
                now.document,
                was.document,
                passage,
                match new_str {
                    Some(text) => text,
                    None => Seq::empty(),
                },
            ),
            None => r == Draft::Nothing && now == was,
        },
    }
}

/// A draft never touches the steps nor the approval. Whole contents replace the
/// document; a passage is replaced where it stands once, and everything before
/// and behind it stays; where it stands nowhere, or more than once, the document
/// stays.
pub proof fn a_draft_touches_its_passage_alone(
    r: Draft,
    was: PlanV,
    now: PlanV,
    content: Option<Seq<char>>,
    old_str: Option<Seq<char>>,
    new_str: Option<Seq<char>>,
)
    requires
        plan_written(r, was, now, content, old_str, new_str),
    ensures
        now.steps == was.steps && now.approved == was.approved,
        content matches Some(text) ==> now.document == text,
        r != Draft::Written ==> now == was,
        content is None && old_str is Some && r == Draft::Written ==> exists|i: int|
            0 <= i && i + old_str.unwrap().len() <= was.document.len() && #[trigger]
                was.document.take(i) == now.document.take(i) && was.document.subrange(
                i,
                i + old_str.unwrap().len(),
            ) == old_str.unwrap() && now.document.skip(
                i + (if new_str is Some { new_str.unwrap().len() } else { 0 }),
            ) == was.document.skip(i + old_str.unwrap().len()),
        content is None && old_str is None ==> r == Draft::Nothing,
{
    if content is None && old_str is Some && r == Draft::Written {
        let p = old_str.unwrap();
        let text = if new_str is Some { new_str.unwrap() } else { Seq::empty() };
        let i = choose|i: int| #[trigger]
            only_at(was.document, p, i) && now.document == was.document.take(i) + text
                + was.document.skip(i + p.len());
        assert(stands_at(was.document, p, i));
        assert(now.document.take(i) =~= was.document.take(i));
        assert(now.document.skip(i + text.len()) =~= was.document.skip(i + p.len()));
    }
}

impl PlanState {
    /// Write the plan document: whole, or one passage of it, which must appear
    /// exactly once. An empty replacement takes the passage out.
    pub fn write_plan(
        &mut self,
        content: Option<&str>,
        old_str: Option<&str>,
        new_str: Option<&str>,
    ) -> (r: Draft)
        ensures
            final(self)@ == (PlanV { document: final(self)@.document, ..old(self)@ }),
            match opt_str(content) {
                Some(text) => r == Draft::Written && final(self)@.document == text,
                None => match opt_str(old_str) {
                    Some(passage) => passage_replaced(
                        r,
                        final(self)@.document,
                        old(self)@.document,
                        passage,
                        match opt_str(new_str) {
                            Some(text) => text,
                            None => Seq::empty(),
                        },
                    ),
                    None => r == Draft::Nothing && final(self)@ == old(self)@,
                },
            },
            plan_written(
                r,
                old(self)@,
                final(self)@,
                opt_str(content),
                opt_str(old_str),
                opt_str(new_str),
            ),
    {
        match content {
            Some(text) => {
                self.document = text.to_owned();
                return Draft::Written;
            },
            None => {},
        }
        let passage = match old_str {
            Some(passage) => chars(passage),
            None => return Draft::Nothing,
        };
        let text = match new_str {
            Some(text) => text.to_owned(),
            None => {
                let none = String::new();
                assert(none@ =~= Seq::empty());
                none
            },
        };
        let v = chars(self.document.as_str());
        let k: usize = match only_place(&v, &passage) {
            Ok(k) => k,
            Err(d) => return d,
        };
        let head = collect(&v, 0, k);
        let total: usize = v.len();
        let tail = collect(&v, k + passage.len(), total);
        assert(head@ =~= v@.take(k as int));
        assert(tail@ =~= v@.skip(k + passage@.len()));
        self.document = cat3(head.as_str(), text.as_str(), tail.as_str());
        Draft::Written
    }
}

} // verus!
