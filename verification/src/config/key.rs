//! `aster key`: the API keys that are read, and the files they are kept in.

use vstd::prelude::*;

use crate::config::dotenv::{
    file_value, last_assigned, remove_env_key, set_env_key, with_var, without_var,
};
use crate::json::{items, opt_value, text_array, Fields, Json, JsonV};
use crate::text::affix::{lemma_drop_back, lemma_drop_front, space, trim, trimmed};
use crate::text::number::{pad_right, padded_right};
use crate::text::pieces::{contains_char, lines_of};
use crate::text::utf8::{byte_len, utf8_len};
use crate::text::{cat2, cat3, cat4, cat5, chars, collect, contains_text, opt, opt_str, same, texts};

verus! {

/// The flags of `aster key`.
pub struct KeyArgs {
    pub command: Option<KeyCmd>,
}

/// What `aster key` is asked to do.
pub enum KeyCmd {
    List { all: bool },
    Get { var: String },
    Store { var: String, value: Option<String>, stdin: bool, local: bool },
    Clear { var: String, global: bool, local: bool },
    Path,
}

/// The variable that holds Jev's key.
pub const JEV_VAR: &'static str = "ASTER_JEV_API_KEY";

/// Where a key that is in effect came from. The shell outranks both files, so a
/// key written to one can still be shadowed by an export.
#[derive(Clone, Copy, PartialEq, Eq, Structural, Debug)]
pub enum Source {
    Shell,
    Local,
    Global,
    Unset,
}

/// How a source is shown.
pub open spec fn source_label(s: Source) -> Seq<char> {
    match s {
        Source::Shell => "your shell"@,
        Source::Local => "this repo's .env"@,
        Source::Global => "~/.aster/.env"@,
        Source::Unset => "not set"@,
    }
}

/// The word for a source.
pub open spec fn source_word(s: Source) -> Seq<char> {
    match s {
        Source::Shell => "shell"@,
        Source::Local => "local"@,
        Source::Global => "global"@,
        Source::Unset => "unset"@,
    }
}

impl Source {
    /// How a source is shown.
    pub fn label(self) -> (r: &'static str)
        ensures
            r@ == source_label(self),
    {
        match self {
            Source::Shell => "your shell",
            Source::Local => "this repo's .env",
            Source::Global => "~/.aster/.env",
            Source::Unset => "not set",
        }
    }

    /// The word for a source.
    pub fn as_str(self) -> (r: &'static str)
        ensures
            r@ == source_word(self),
    {
        match self {
            Source::Shell => "shell",
            Source::Local => "local",
            Source::Global => "global",
            Source::Unset => "unset",
        }
    }
}

/// Which layer supplies a live value: the repository's file where it holds it,
/// else the global one, else the shell.
pub open spec fn source_of(
    live: Option<Seq<char>>,
    local: Option<Seq<char>>,
    global: Option<Seq<char>>,
) -> Source {
    match live {
        None => Source::Unset,
        Some(v) => if local == Some(v) {
            Source::Local
        } else if global == Some(v) {
            Source::Global
        } else {
            Source::Shell
        },
    }
}

/// The value that a file gives a variable, where there is a file.
pub open spec fn value_in(text: Option<Seq<char>>, var: Seq<char>) -> Option<Seq<char>> {
    match text {
        Some(t) => last_assigned(lines_of(t), var),
        None => None,
    }
}

fn read_value(text: &Option<String>, var: &str) -> (r: Option<String>)
    ensures
        opt(r) == value_in(opt(*text), var@),
{
    match text {
        Some(t) => file_value(t.as_str(), var),
        None => None,
    }
}

/// Which layer supplies a variable right now. `live` is its value, where it is
/// set and not empty; the two texts are those of the `.env` files.
pub fn source(
    var: &str,
    live: &Option<String>,
    local: &Option<String>,
    global: &Option<String>,
) -> (r: Source)
    ensures
        r == source_of(opt(*live), value_in(opt(*local), var@), value_in(opt(*global), var@)),
{
    let value = match live {
        Some(v) => v,
        None => return Source::Unset,
    };
    match read_value(local, var) {
        Some(v) => if same(v.as_str(), value.as_str()) {
            return Source::Local;
        },
        None => {},
    }
    match read_value(global, var) {
        Some(v) => if same(v.as_str(), value.as_str()) {
            return Source::Global;
        },
        None => {},
    }
    Source::Shell
}

/// A secret as it is shown: its last four characters where it is long enough
/// that they say little.
pub open spec fn mask(live: Seq<char>) -> Seq<char> {
    if live.len() <= 8 {
        "••••"@
    } else {
        "…"@ + live.skip(live.len() - 4)
    }
}

/// A secret as it is shown.
pub fn mask_tail(live: &str) -> (r: String)
    ensures
        r@ == mask(live@),
{
    let v = chars(live);
    if v.len() <= 8 {
        return "••••".to_owned();
    }
    let tail = collect(&v, v.len() - 4, v.len());
    assert(tail@ =~= live@.skip(live@.len() - 4));
    cat2("…", tail.as_str())
}

/// What is shown of a secret that may be missing.
pub open spec fn masked_opt(live: Option<Seq<char>>) -> Option<Seq<char>> {
    match live {
        Some(v) => Some(mask(v)),
        None => None,
    }
}

/// What is shown of a secret that may be missing.
pub fn masked(live: &Option<String>) -> (r: Option<String>)
    ensures
        opt(r) == masked_opt(opt(*live)),
{
    match live {
        Some(v) => Some(mask_tail(v.as_str())),
        None => None,
    }
}

/// What is shown of a secret never depends on more than its last four
/// characters, and not at all on a short one.
pub proof fn masks_hide_the_rest(a: Seq<char>, b: Seq<char>)
    requires
        (a.len() <= 8 && b.len() <= 8) || (a.len() > 8 && b.len() > 8 && a.skip(a.len() - 4)
            == b.skip(b.len() - 4)),
    ensures
        mask(a) == mask(b),
{
}

/// The small and capital ASCII letters.
pub open spec fn is_letter(c: char) -> bool {
    ('a' <= c && c <= 'z') || ('A' <= c && c <= 'Z')
}

/// The capital for a small ASCII letter, any other character unchanged.
pub open spec fn upper(c: char) -> char {
    if 'a' <= c && c <= 'z' {
        ((c as u8) - 32) as u8 as char
    } else {
        c
    }
}

/// Each character with the small ASCII letters made capital.
pub open spec fn uppered(s: Seq<char>) -> Seq<char> {
    Seq::new(s.len(), |i: int| upper(s[i]))
}

fn to_upper(s: &str) -> (r: String)
    ensures
        r@ == uppered(s@),
{
    let v = chars(s);
    let mut out = String::new();
    let mut i: usize = 0;
    assert(out@ =~= uppered(v@).take(0));
    while i < v.len()
        invariant
            i <= v@.len(),
            out@ == uppered(v@).take(i as int),
        decreases v.len() - i,
    {
        let c = v[i];
        let u = if 'a' <= c && c <= 'z' { ((c as u8) - 32) as char } else { c };
        out.push(u);
        i += 1;
        assert(out@ =~= uppered(v@).take(i as int));
    }
    assert(uppered(v@).take(v@.len() as int) =~= uppered(v@));
    out
}

/// True when a name is made of letters, digits and underscores and opens with a
/// letter.
pub open spec fn is_shaped(var: Seq<char>) -> bool {
    var.len() > 0 && is_letter(var[0]) && forall|i: int|
        0 <= i < var.len() ==> is_letter(#[trigger] var[i]) || ('0' <= var[i] && var[i] <= '9')
            || var[i] == '_'
}

fn shaped(var: &str) -> (r: bool)
    ensures
        r == is_shaped(var@),
{
    let v = chars(var);
    if v.len() == 0 {
        return false;
    }
    let c = v[0];
    if !(('a' <= c && c <= 'z') || ('A' <= c && c <= 'Z')) {
        return false;
    }
    let mut i: usize = 0;
    while i < v.len()
        invariant
            i <= v@.len(),
            v@ == var@,
            v@.len() > 0,
            is_letter(var@[0]),
            forall|k: int|
                0 <= k < i ==> is_letter(#[trigger] var@[k]) || ('0' <= var@[k] && var@[k] <= '9')
                    || var@[k] == '_',
        decreases v.len() - i,
    {
        let c = v[i];
        if !(('a' <= c && c <= 'z') || ('A' <= c && c <= 'Z') || ('0' <= c && c <= '9') || c
            == '_') {
            assert(!(is_letter(var@[i as int]) || ('0' <= var@[i as int] && var@[i as int] <= '9')
                || var@[i as int] == '_'));
            return false;
        }
        i += 1;
    }
    true
}

/// The name of a variable as it is stored, or what is wrong with it.
pub open spec fn normalized(var: Seq<char>) -> Result<Seq<char>, Seq<char>> {
    let v = uppered(trimmed(var));
    if v.len() == 0 {
        Err("no variable given. `aster key list` spells the ones Aster reads"@)
    } else if !is_shaped(v) {
        Err(
            v
                + " is not a usable variable name: use letters, digits, and underscores, e.g. FIRECRAWL_API_KEY"@,
        )
    } else {
        Ok(v)
    }
}

/// The name of a variable as it is stored, or what is wrong with it.
pub fn normalize(var: &str) -> (r: Result<String, String>)
    ensures
        match normalized(var@) {
            Ok(v) => r is Ok && r->Ok_0@ == v,
            Err(e) => r is Err && r->Err_0@ == e,
        },
{
    let v = to_upper(trim(var).as_str());
    if v.as_str().is_empty() {
        return Err("no variable given. `aster key list` spells the ones Aster reads".to_owned());
    }
    if !shaped(v.as_str()) {
        return Err(
            cat2(
                v.as_str(),
                " is not a usable variable name: use letters, digits, and underscores, e.g. FIRECRAWL_API_KEY",
            ),
        );
    }
    Ok(v)
}

/// A name that is accepted is one that a `.env` file can assign.
pub proof fn normal_names_can_be_assigned(var: Seq<char>)
    requires
        normalized(var) is Ok,
    ensures
        crate::config::dotenv::is_var(normalized(var)->Ok_0),
{
    let v = uppered(trimmed(var));
    assert(is_letter(v[0]));
    if v.contains('\n') {
        let k = choose|k: int| 0 <= k < v.len() && v[k] == '\n';
        assert(is_letter(v[k]) || ('0' <= v[k] && v[k] <= '9') || v[k] == '_');
    }
}

/// A name that was accepted stands for itself.
pub proof fn normal_names_stay(var: Seq<char>)
    requires
        normalized(var) is Ok,
    ensures
        normalized(normalized(var)->Ok_0) == normalized(var),
{
    let v = normalized(var)->Ok_0;
    let n = v.len() as int;
    assert(is_letter(v[0]));
    assert(is_letter(v[n - 1]) || ('0' <= v[n - 1] && v[n - 1] <= '9') || v[n - 1] == '_');
    lemma_drop_front(v, space(), 0);
    assert(v.skip(0) =~= v);
    lemma_drop_back(v, space(), n);
    assert(v.take(n) =~= v);
    let t = trimmed(var);
    assert forall|i: int| 0 <= i < n implies upper(#[trigger] v[i]) == v[i] by {
        assert(v[i] == upper(t[i]));
    }
    assert(uppered(v) =~= v);
}

/// A group of variables that one web provider needs: each with what it buys.
pub struct WebProvider {
    pub name: String,
    pub vars: Vec<(String, String)>,
}

/// One known web key: provider, variable, what it buys.
pub struct WebKey {
    pub provider: String,
    pub var: String,
    pub buys: String,
}

/// The models of the known web keys.
pub open spec fn web_keys(v: Seq<WebKey>) -> Seq<(Seq<char>, Seq<char>, Seq<char>)> {
    Seq::new(v.len(), |i: int| (v[i].provider@, v[i].var@, v[i].buys@))
}

/// The models of the groups.
pub open spec fn groups_view(v: Seq<WebProvider>) -> Seq<
    (Seq<char>, Seq<(Seq<char>, Seq<char>)>),
> {
    Seq::new(v.len(), |i: int| (v[i].name@, crate::text::pairs(v[i].vars@)))
}

/// Neighbouring keys of one provider as one group.
pub open spec fn grouped(v: Seq<(Seq<char>, Seq<char>, Seq<char>)>) -> Seq<
    (Seq<char>, Seq<(Seq<char>, Seq<char>)>),
>
    decreases v.len(),
{
    if v.len() == 0 {
        Seq::empty()
    } else {
        let head = grouped(v.drop_last());
        let k = v.last();
        if head.len() > 0 && head.last().0 == k.0 {
            head.drop_last().push((k.0, head.last().1.push((k.1, k.2))))
        } else {
            head.push((k.0, Seq::empty().push((k.1, k.2))))
        }
    }
}

/// Neighbouring keys of one provider as one group.
pub fn web_providers(keys: &Vec<WebKey>) -> (r: Vec<WebProvider>)
    ensures
        groups_view(r@) == grouped(web_keys(keys@)),
{
    let ghost all = web_keys(keys@);
    let mut out: Vec<WebProvider> = Vec::new();
    let mut i: usize = 0;
    assert(groups_view(out@) =~= grouped(all.take(0)));
    while i < keys.len()
        invariant
            i <= keys@.len(),
            all == web_keys(keys@),
            groups_view(out@) == grouped(all.take(i as int)),
        decreases keys.len() - i,
    {
        proof {
            assert(all.take(i + 1).drop_last() =~= all.take(i as int));
            assert(all.take(i + 1).last() == all[i as int]);
        }
        let ghost had = groups_view(out@);
        let pair = (keys[i].var.clone(), keys[i].buys.clone());
        let joins = out.len() > 0 && same(
            out[out.len() - 1].name.as_str(),
            keys[i].provider.as_str(),
        );
        proof {
            if out@.len() > 0 {
                assert(had.last().0 == out@.last().name@);
            }
        }
        if joins {
            match out.pop() {
                Some(last) => {
                    let ghost before = crate::text::pairs(last.vars@);
                    assert(had.last() == (last.name@, before));
                    let mut vars = last.vars;
                    vars.push(pair);
                    assert(crate::text::pairs(vars@) =~= before.push((pair.0@, pair.1@)));
                    out.push(WebProvider { name: keys[i].provider.clone(), vars });
                    assert(groups_view(out@) =~= had.drop_last().push(
                        (all[i as int].0, before.push((all[i as int].1, all[i as int].2))),
                    ));
                },
                None => {},
            }
        } else {
            let mut vars: Vec<(String, String)> = Vec::new();
            vars.push(pair);
            assert(crate::text::pairs(vars@) =~= Seq::empty().push((pair.0@, pair.1@)));
            out.push(WebProvider { name: keys[i].provider.clone(), vars });
            assert(groups_view(out@) =~= had.push(
                (
                    all[i as int].0,
                    Seq::empty().push((all[i as int].1, all[i as int].2)),
                ),
            ));
        }
        i += 1;
    }
    assert(all.take(all.len() as int) =~= all);
    out
}

/// Whether every variable of a provider is set; `set` says of each whether it
/// is.
pub fn provider_is_set(set: &Vec<bool>) -> (r: bool)
    ensures
        r == (forall|i: int| 0 <= i < set@.len() ==> #[trigger] set@[i]),
{
    let mut i: usize = 0;
    while i < set.len()
        invariant
            i <= set@.len(),
            forall|k: int| 0 <= k < i ==> #[trigger] set@[k],
        decreases set.len() - i,
    {
        if !set[i] {
            assert(!set@[i as int]);
            return false;
        }
        i += 1;
    }
    true
}

/// One key of the list.
pub struct Row {
    pub group: String,
    pub label: String,
    pub var: String,
    pub help: String,
    pub source: Source,
    pub masked: Option<String>,
}

/// The model of one key of the list.
#[verifier::ext_equal]
pub struct RowV {
    pub group: Seq<char>,
    pub label: Seq<char>,
    pub var: Seq<char>,
    pub help: Seq<char>,
    pub source: Source,
    pub masked: Option<Seq<char>>,
}

impl View for Row {
    type V = RowV;

    open spec fn view(&self) -> RowV {
        RowV {
            group: self.group@,
            label: self.label@,
            var: self.var@,
            help: self.help@,
            source: self.source,
            masked: opt(self.masked),
        }
    }
}

/// The models of a list of keys.
pub open spec fn rows_view(v: Seq<Row>) -> Seq<RowV> {
    Seq::new(v.len(), |i: int| v[i]@)
}

/// A variable that is known, and what it is set to.
pub struct Known {
    pub label: String,
    pub var: String,
    pub help: String,
    pub source: Source,
    pub live: Option<String>,
}

/// A key as it is listed.
pub open spec fn row_of(group: Seq<char>, k: Known) -> RowV {
    RowV {
        group,
        label: k.label@,
        var: k.var@,
        help: k.help@,
        source: k.source,
        masked: masked_opt(opt(k.live)),
    }
}

fn make_row(group: &str, k: &Known) -> (r: Row)
    ensures
        r@ == row_of(group@, *k),
{
    Row {
        group: group.to_owned(),
        label: k.label.clone(),
        var: k.var.clone(),
        help: k.help.clone(),
        source: k.source,
        masked: masked(&k.live),
    }
}

/// The rows of the first `n` keys of a group; one that is not set counts only
/// where all are asked for.
pub open spec fn group_rows(group: Seq<char>, v: Seq<Known>, all: bool, n: nat) -> Seq<RowV>
    decreases n,
{
    if n == 0 || n > v.len() {
        Seq::empty()
    } else {
        let head = group_rows(group, v, all, (n - 1) as nat);
        if all || v[n - 1].source != Source::Unset {
            head.push(row_of(group, v[n - 1]))
        } else {
            head
        }
    }
}

fn push_group(out: &mut Vec<Row>, group: &str, v: &Vec<Known>, all: bool)
    ensures
        rows_view(final(out)@) == rows_view(old(out)@) + group_rows(group@, v@, all, v@.len()),
{
    let ghost start = rows_view(out@);
    let mut i: usize = 0;
    assert(start + group_rows(group@, v@, all, 0) =~= start);
    while i < v.len()
        invariant
            i <= v@.len(),
            rows_view(out@) == start + group_rows(group@, v@, all, i as nat),
        decreases v.len() - i,
    {
        let ghost had = rows_view(out@);
        if all || v[i].source != Source::Unset {
            let row = make_row(group, &v[i]);
            out.push(row);
            assert(rows_view(out@) =~= had.push(row@));
            assert(had.push(row@) =~= start + group_rows(group@, v@, all, (i + 1) as nat));
        }
        i += 1;
    }
}

/// What a variable is set to, and where.
pub struct State {
    pub source: Source,
    pub live: Option<String>,
}

/// The row for Jev's key.
pub open spec fn jev_row(state: State) -> RowV {
    RowV {
        group: "Services"@,
        label: "Jev loop check"@,
        var: JEV_VAR@,
        help: "TypeSafe's Jev classifier, advising the agent loop each round"@,
        source: state.source,
        masked: masked_opt(opt(state.live)),
    }
}

/// The row for the key that any endpoint can use.
pub open spec fn shared_row(var: Seq<char>, state: State) -> RowV {
    RowV {
        group: "Model"@,
        label: "Any endpoint"@,
        var,
        help: "used by any endpoint without a var of its own"@,
        source: state.source,
        masked: masked_opt(opt(state.live)),
    }
}

/// The keys as they are listed: the web tools, Jev, the shared key and then the
/// model endpoints. A model endpoint earns a row by holding a key unless every
/// one was asked for.
pub fn rows(
    web: &Vec<Known>,
    jev: &State,
    shared_var: &str,
    shared: &State,
    endpoints: &Vec<Known>,
    all: bool,
) -> (r: Vec<Row>)
    ensures
        rows_view(r@) == group_rows("Web tools"@, web@, true, web@.len()).push(
            jev_row(*jev),
        ).push(shared_row(shared_var@, *shared)) + group_rows(
            "Model"@,
            endpoints@,
            all,
            endpoints@.len(),
        ),
{
    let mut out: Vec<Row> = Vec::new();
    assert(rows_view(out@) =~= Seq::empty());
    push_group(&mut out, "Web tools", web, true);
    let ghost tools = group_rows("Web tools"@, web@, true, web@.len());
    assert(rows_view(out@) =~= tools);
    out.push(
        Row {
            group: "Services".to_owned(),
            label: "Jev loop check".to_owned(),
            var: JEV_VAR.to_owned(),
            help: "TypeSafe's Jev classifier, advising the agent loop each round".to_owned(),
            source: jev.source,
            masked: masked(&jev.live),
        },
    );
    assert(rows_view(out@) =~= tools.push(jev_row(*jev)));
    out.push(
        Row {
            group: "Model".to_owned(),
            label: "Any endpoint".to_owned(),
            var: shared_var.to_owned(),
            help: "used by any endpoint without a var of its own".to_owned(),
            source: shared.source,
            masked: masked(&shared.live),
        },
    );
    assert(rows_view(out@) =~= tools.push(jev_row(*jev)).push(shared_row(shared_var@, *shared)));
    push_group(&mut out, "Model", endpoints, all);
    out
}

/// One key as JSON.
pub open spec fn row_value(r: RowV) -> JsonV {
    JsonV::Obj(
        Seq::empty().push(("var"@, JsonV::Str(r.var))).push(
            ("provider"@, JsonV::Str(r.label)),
        ).push(("group"@, JsonV::Str(r.group))).push(
            ("set"@, JsonV::Bool(r.source != Source::Unset)),
        ).push(("source"@, JsonV::Str(source_word(r.source)))).push(
            ("masked"@, opt_value(r.masked)),
        ).push(("help"@, JsonV::Str(r.help))),
    )
}

/// The list of keys as JSON.
pub open spec fn list_value(v: Seq<RowV>) -> JsonV {
    JsonV::Obj(
        Seq::empty().push(("ok"@, JsonV::Bool(true))).push(
            ("keys"@, JsonV::Arr(Seq::new(v.len(), |i: int| row_value(v[i])))),
        ),
    )
}

/// The list of keys as JSON.
pub fn list_json(v: &Vec<Row>) -> (r: Json)
    ensures
        r@ == list_value(rows_view(v@)),
{
    let ghost all = rows_view(v@);
    let mut out: Vec<Json> = Vec::new();
    let mut i: usize = 0;
    while i < v.len()
        invariant
            i <= v@.len(),
            all == rows_view(v@),
            out@.len() == i,
            forall|k: int| 0 <= k < i ==> #[trigger] out@[k]@ == row_value(all[k]),
        decreases v.len() - i,
    {
        let row = &v[i];
        out.push(
            Fields::new().text("var", row.var.as_str()).text("provider", row.label.as_str()).text(
                "group",
                row.group.as_str(),
            ).with("set", Json::Bool(row.source != Source::Unset)).text(
                "source",
                row.source.as_str(),
            ).with("masked", Json::opt_text(&row.masked)).text("help", row.help.as_str()).json(),
        );
        i += 1;
    }
    assert(items(out@) =~= Seq::new(all.len(), |i: int| row_value(all[i])));
    Fields::new().with("ok", Json::Bool(true)).with("keys", Json::array(out)).json()
}

/// What is noted beside a key.
pub open spec fn row_note(r: RowV) -> Seq<char> {
    if r.source == Source::Unset {
        if r.help.len() == 0 {
            "not set"@
        } else {
            "not set · "@ + r.help
        }
    } else {
        match r.masked {
            Some(tail) => tail + " · "@ + source_label(r.source),
            None => "set · "@ + source_label(r.source),
        }
    }
}

/// What is noted beside a key.
pub fn note_for(row: &Row) -> (r: String)
    ensures
        r@ == row_note(row@),
{
    if row.source == Source::Unset {
        return if row.help.as_str().is_empty() {
            "not set".to_owned()
        } else {
            cat2("not set · ", row.help.as_str())
        };
    }
    match &row.masked {
        Some(tail) => cat3(tail.as_str(), " · ", row.source.label()),
        None => cat2("set · ", row.source.label()),
    }
}

/// The widest variable name of a group, in bytes, among the first `n` rows.
pub open spec fn widest(v: Seq<RowV>, group: Seq<char>, n: nat) -> nat
    decreases n,
{
    if n == 0 || n > v.len() {
        0
    } else {
        let w = widest(v, group, (n - 1) as nat);
        if v[n - 1].group == group && utf8_len(v[n - 1].var) > w {
            utf8_len(v[n - 1].var)
        } else {
            w
        }
    }
}

/// The lines of a group: the variables in a column, and a note beside each.
pub open spec fn group_lines(v: Seq<RowV>, group: Seq<char>, width: nat, n: nat) -> Seq<
    (Seq<char>, Seq<char>),
>
    decreases n,
{
    if n == 0 || n > v.len() {
        Seq::empty()
    } else {
        let head = group_lines(v, group, width, (n - 1) as nat);
        if v[n - 1].group == group {
            head.push(("  "@ + padded_right(v[n - 1].var, width as int) + "  "@, row_note(v[n - 1])))
        } else {
            head
        }
    }
}

/// The lines of a group: each variable in its column, and the note that is
/// shown dimmed beside it.
pub fn list(v: &Vec<Row>, group: &str) -> (r: Vec<(String, String)>)
    ensures
        crate::text::pairs(r@) == group_lines(
            rows_view(v@),
            group@,
            widest(rows_view(v@), group@, v@.len()),
            v@.len(),
        ),
{
    let ghost all = rows_view(v@);
    let mut width: usize = 0;
    let mut i: usize = 0;
    while i < v.len()
        invariant
            i <= v@.len(),
            all == rows_view(v@),
            width == widest(all, group@, i as nat),
        decreases v.len() - i,
    {
        if same(v[i].group.as_str(), group) {
            let w = byte_len(v[i].var.as_str());
            if w > width {
                width = w;
            }
        }
        i += 1;
    }
    let mut out: Vec<(String, String)> = Vec::new();
    let mut j: usize = 0;
    assert(crate::text::pairs(out@) =~= group_lines(all, group@, width as nat, 0));
    while j < v.len()
        invariant
            j <= v@.len(),
            all == rows_view(v@),
            crate::text::pairs(out@) == group_lines(all, group@, width as nat, j as nat),
        decreases v.len() - j,
    {
        let ghost had = crate::text::pairs(out@);
        if same(v[j].group.as_str(), group) {
            let left = cat3("  ", pad_right(v[j].var.as_str(), width).as_str(), "  ");
            let note = note_for(&v[j]);
            out.push((left, note));
            assert(crate::text::pairs(out@) =~= had.push((left@, note@)));
        }
        j += 1;
    }
    out
}

/// One variable as JSON.
pub fn get_json(var: &str, source: Source, value: &Option<String>) -> (r: Json)
    ensures
        r@ == JsonV::Obj(
            Seq::empty().push(("ok"@, JsonV::Bool(true))).push(("var"@, JsonV::Str(var@))).push(
                ("set"@, JsonV::Bool(opt(*value) is Some)),
            ).push(("source"@, JsonV::Str(source_word(source)))).push(
                ("value"@, opt_value(opt(*value))),
            ),
        ),
{
    Fields::new().with("ok", Json::Bool(true)).text("var", var).with(
        "set",
        Json::Bool(value.is_some()),
    ).text("source", source.as_str()).with("value", Json::opt_text(value)).json()
}

/// The value of a variable, or what is said when it has none. `hint` says where
/// the names are listed.
pub fn get(var: &str, value: &Option<String>, hint: &str) -> (r: Result<String, String>)
    ensures
        match opt(*value) {
            Some(v) => r is Ok && r->Ok_0@ == v,
            None => r is Err && r->Err_0@ == var@ + " is not set. "@ + hint@,
        },
{
    match value {
        Some(v) => Ok(v.clone()),
        None => Err(cat3(var, " is not set. ", hint)),
    }
}

/// The line breaks that a value cannot have.
pub open spec fn has_break(s: Seq<char>) -> bool {
    s.contains('\n') || s.contains('\r')
}

/// The value to store, or why it cannot be. `given` is none where it was left
/// off and nobody can be asked for it; `command` is the command that stores it,
/// `what` the thing it is called.
pub open spec fn checked(
    given: Option<Seq<char>>,
    var: Seq<char>,
    command: Seq<char>,
    what: Seq<char>,
) -> Result<Seq<char>, Seq<char>> {
    let usage = "no "@ + what + " given. Pass it as `"@ + command + " set "@;
    match given {
        None => Err(
            usage + (var + " <value>`, or run this in a terminal to be asked for it"@),
        ),
        Some(raw) => {
            let value = trimmed(raw);
            if value.len() == 0 {
                Err(usage + (var + " <value>`, or leave it off to be asked for it"@))
            } else if has_break(value) {
                Err(
                    "that "@ + what
                        + " contains a line break, so it cannot be stored in .env. Check what you pasted"@,
                )
            } else {
                Ok(value)
            }
        },
    }
}

/// The value to store, or why it cannot be.
pub fn check_value(given: Option<&str>, var: &str, command: &str, what: &str) -> (r: Result<
    String,
    String,
>)
    ensures
        match checked(opt_str(given), var@, command@, what@) {
            Ok(v) => r is Ok && r->Ok_0@ == v,
            Err(e) => r is Err && r->Err_0@ == e,
        },
{
    let usage = cat5("no ", what, " given. Pass it as `", command, " set ");
    let value = match given {
        Some(raw) => trim(raw),
        None => {
            let tail = cat2(var, " <value>`, or run this in a terminal to be asked for it");
            return Err(cat2(usage.as_str(), tail.as_str()));
        },
    };
    if value.as_str().is_empty() {
        let tail = cat2(var, " <value>`, or leave it off to be asked for it");
        return Err(cat2(usage.as_str(), tail.as_str()));
    }
    if contains_char(value.as_str(), '\n') || contains_char(value.as_str(), '\r') {
        return Err(
            cat3(
                "that ",
                what,
                " contains a line break, so it cannot be stored in .env. Check what you pasted",
            ),
        );
    }
    Ok(value)
}

/// What is asked for a value that was left off.
pub fn ask(var: &str) -> (r: String)
    ensures
        r@ == var@ + " (nothing is echoed)"@,
{
    cat2(var, " (nothing is echoed)")
}

/// A value that is accepted is what its file then gives, without the quotes
/// around it where it has some.
pub proof fn stored_values_read_back(
    text: Seq<char>,
    var: Seq<char>,
    given: Option<Seq<char>>,
    command: Seq<char>,
    what: Seq<char>,
)
    requires
        normalized(var) is Ok,
        checked(given, normalized(var)->Ok_0, command, what) is Ok,
    ensures
        ({
            let name = normalized(var)->Ok_0;
            let value = checked(given, name, command, what)->Ok_0;
            last_assigned(lines_of(with_var(text, name, value)), name) == Some(
                crate::config::dotenv::unquoted(trimmed(value)),
            )
        }),
{
    let name = normalized(var)->Ok_0;
    normal_names_can_be_assigned(var);
    crate::config::dotenv::a_var_set_reads_back(
        text,
        name,
        checked(given, name, command, what)->Ok_0,
    );
}

/// What storing a variable comes to: its name, the new text of its file, and
/// whether it replaced a value there.
pub struct Stored {
    pub var: String,
    pub text: String,
    pub replaced: bool,
}

/// Store a value in a file, under a name as [`normalize`] gives it; `text` is
/// none where there is no file yet.
pub fn store(text: &Option<String>, var: &str, value: &str) -> (r: Stored)
    ensures
        r.var@ == var@,
        r.text@ == with_var(
            match opt(*text) {
                Some(t) => t,
                None => Seq::empty(),
            },
            var@,
            value@,
        ),
        r.replaced == (value_in(opt(*text), var@) is Some),
{
    let replaced = read_value(text, var).is_some();
    let had = match text {
        Some(t) => t.clone(),
        None => String::new(),
    };
    assert(opt(*text) is None ==> had@ =~= Seq::empty());
    Stored { var: var.to_owned(), text: set_env_key(had.as_str(), var, value), replaced }
}

/// True when a result is what storing a value in a file comes to.
pub open spec fn stored_as(
    r: Result<Stored, String>,
    text: Option<Seq<char>>,
    var: Seq<char>,
    value: Result<Seq<char>, Seq<char>>,
) -> bool {
    match value {
        Err(e) => r is Err && r->Err_0@ == e,
        Ok(v) => r is Ok && r->Ok_0.var@ == var && r->Ok_0.text@ == with_var(
            match text {
                Some(t) => t,
                None => Seq::empty(),
            },
            var,
            v,
        ) && r->Ok_0.replaced == (value_in(text, var) is Some),
    }
}

/// `aster key set`: store a key in a file, or say why it cannot be.
pub fn set(var: &str, given: Option<&str>, text: &Option<String>) -> (r: Result<Stored, String>)
    ensures
        match normalized(var@) {
            Err(e) => r is Err && r->Err_0@ == e,
            Ok(name) => stored_as(
                r,
                opt(*text),
                name,
                checked(opt_str(given), name, "aster key"@, "key"@),
            ),
        },
{
    let name = match normalize(var) {
        Ok(n) => n,
        Err(e) => return Err(e),
    };
    match check_value(given, name.as_str(), "aster key", "key") {
        Ok(v) => Ok(store(text, name.as_str(), v.as_str())),
        Err(e) => Err(e),
    }
}

/// What is said of a variable that nothing reads; `command` is the command that
/// lists those that are.
pub fn unread_note(var: &str, command: &str) -> (r: String)
    ensures
        r@ == "Nothing in Aster reads "@ + var@ + "; `"@ + command@
            + " list` shows the ones that are read."@,
{
    cat5(
        "Nothing in Aster reads ",
        var,
        "; `",
        command,
        " list` shows the ones that are read.",
    )
}

/// What storing a variable is reported as.
pub fn stored_line(replaced: bool, var: &str, path: &str) -> (r: String)
    ensures
        r@ == (if replaced {
            "Replaced "@
        } else {
            "Stored "@
        }) + var@ + " in "@ + path@,
{
    cat4(
        if replaced {
            "Replaced "
        } else {
            "Stored "
        },
        var,
        " in ",
        path,
    )
}

/// What is noted about a layer that outranks the one that was written.
/// `command` is the command that clears the repository's.
pub open spec fn shadow(
    var: Seq<char>,
    before: Source,
    local: bool,
    command: Seq<char>,
) -> Option<Seq<char>> {
    if before == Source::Shell {
        Some(
            "Your shell already exports "@ + var
                + ", and it wins over any .env. Run `unset "@ + var + "` in the shells you use."@,
        )
    } else if before == Source::Local && !local {
        Some(
            "This repo's .env also sets "@ + var + ", and it wins here. Clear it with `"@ + (command
                + " unset --local "@ + var + "`."@),
        )
    } else {
        None
    }
}

/// What is noted about a layer that outranks the one that was written.
pub fn shadow_note(var: &str, before: Source, local: bool, command: &str) -> (r: Option<String>)
    ensures
        opt(r) == shadow(var@, before, local, command@),
{
    match before {
        Source::Shell => Some(
            cat5(
                "Your shell already exports ",
                var,
                ", and it wins over any .env. Run `unset ",
                var,
                "` in the shells you use.",
            ),
        ),
        Source::Local => if !local {
            let tail = cat4(command, " unset --local ", var, "`.");
            Some(
                cat4(
                    "This repo's .env also sets ",
                    var,
                    ", and it wins here. Clear it with `",
                    tail.as_str(),
                ),
            )
        } else {
            None
        },
        _ => None,
    }
}

/// What clearing a variable comes to: its name, and the new text of each file
/// that it was taken out of.
pub struct Cleared {
    pub var: String,
    pub global: Option<String>,
    pub local: Option<String>,
}

/// The new text of a file that a variable is to be taken out of, where that
/// changes it.
pub open spec fn taken_out(text: Option<Seq<char>>, var: Seq<char>, asked: bool) -> Option<
    Seq<char>,
> {
    match text {
        Some(t) => if asked {
            without_var(t, var)
        } else {
            None
        },
        None => None,
    }
}

fn take_out(text: &Option<String>, var: &str, asked: bool) -> (r: Option<String>)
    ensures
        opt(r) == taken_out(opt(*text), var@, asked),
{
    match text {
        Some(t) => if asked {
            remove_env_key(t.as_str(), var)
        } else {
            None
        },
        None => None,
    }
}

/// `aster key unset`: take a variable out of both files, or out of the one that
/// was named. The two texts are none where there is no such file.
pub fn unset(
    var: &str,
    global: bool,
    local: bool,
    global_text: &Option<String>,
    local_text: &Option<String>,
) -> (r: Result<Cleared, String>)
    ensures
        match normalized(var@) {
            Err(e) => r is Err && r->Err_0@ == e,
            Ok(name) => r is Ok && r->Ok_0.var@ == name && opt(r->Ok_0.global) == taken_out(
                opt(*global_text),
                name,
                global || !local,
            ) && opt(r->Ok_0.local) == taken_out(opt(*local_text), name, local || !global),
        },
{
    let name = match normalize(var) {
        Ok(n) => n,
        Err(e) => return Err(e),
    };
    let both = !global && !local;
    let from_global = take_out(global_text, name.as_str(), global || both);
    let from_local = take_out(local_text, name.as_str(), local || both);
    Ok(Cleared { var: name, global: from_global, local: from_local })
}

/// What clearing a variable is reported as, given the files it was in.
pub open spec fn cleared_lines(var: Seq<char>, cleared: Seq<Seq<char>>) -> Seq<Seq<char>> {
    if cleared.len() == 0 {
        Seq::empty().push(
            var + " was not in any .env Aster writes, so nothing changed."@,
        )
    } else {
        Seq::new(cleared.len(), |i: int| "Cleared "@ + var + " from "@ + cleared[i])
    }
}

/// What clearing a variable is reported as, given the files it was in.
pub fn cleared_text(var: &str, cleared: &Vec<String>) -> (r: Vec<String>)
    ensures
        texts(r@) == cleared_lines(var@, texts(cleared@)),
{
    let mut out: Vec<String> = Vec::new();
    if cleared.len() == 0 {
        out.push(cat2(var, " was not in any .env Aster writes, so nothing changed."));
        assert(texts(out@) =~= cleared_lines(var@, texts(cleared@)));
        return out;
    }
    let mut i: usize = 0;
    while i < cleared.len()
        invariant
            i <= cleared@.len(),
            out@.len() == i,
            forall|k: int|
                0 <= k < i ==> #[trigger] out@[k]@ == "Cleared "@ + var@ + " from "@ + cleared@[k]@,
        decreases cleared.len() - i,
    {
        out.push(cat4("Cleared ", var, " from ", cleared[i].as_str()));
        i += 1;
    }
    assert(texts(out@) =~= cleared_lines(var@, texts(cleared@)));
    out
}

/// What is noted when the shell still exports a variable that was cleared.
pub fn still_exported(var: &str) -> (r: String)
    ensures
        r@ == "Your shell still exports "@ + var@ + ". Run `unset "@ + var@
            + "` to drop it here too."@,
{
    cat5(
        "Your shell still exports ",
        var,
        ". Run `unset ",
        var,
        "` to drop it here too.",
    )
}

/// Clearing a variable as JSON.
pub fn cleared_json(var: &str, cleared: &Vec<String>) -> (r: Json)
    ensures
        r@ == JsonV::Obj(
            Seq::empty().push(("ok"@, JsonV::Bool(true))).push(("var"@, JsonV::Str(var@))).push(
                ("cleared"@, text_array(texts(cleared@))),
            ),
        ),
{
    Fields::new().with("ok", Json::Bool(true)).text("var", var).with(
        "cleared",
        Json::texts(cleared),
    ).json()
}

/// Storing a variable as JSON.
pub fn stored_json(var: &str, path: &str, replaced: bool) -> (r: Json)
    ensures
        r@ == JsonV::Obj(
            Seq::empty().push(("ok"@, JsonV::Bool(true))).push(("var"@, JsonV::Str(var@))).push(
                ("path"@, JsonV::Str(path@)),
            ).push(("replaced"@, JsonV::Bool(replaced))),
        ),
{
    Fields::new().with("ok", Json::Bool(true)).text("var", var).text("path", path).with(
        "replaced",
        Json::Bool(replaced),
    ).json()
}

/// Whether a variable is one of the keys that are read: the shared one, Jev's,
/// or one of a web provider or a model endpoint.
pub fn known(var: &str, shared: &str, web: &Vec<String>, endpoints: &Vec<String>) -> (r: bool)
    ensures
        r == (var@ == shared@ || var@ == JEV_VAR@ || texts(web@).contains(var@) || texts(
            endpoints@,
        ).contains(var@)),
{
    same(var, shared) || same(var, JEV_VAR) || contains_text(web, var) || contains_text(
        endpoints,
        var,
    )
}

/// A path as it is shown; `rest` is what follows the home directory, where the
/// path lies under it.
pub fn display(path: &str, rest: &Option<String>) -> (r: String)
    ensures
        r@ == (match opt(*rest) {
            Some(tail) => "~/"@ + tail,
            None => path@,
        }),
{
    match rest {
        Some(tail) => cat2("~/", tail.as_str()),
        None => path.to_owned(),
    }
}

/// One of the files that keys are kept in.
pub struct KeyFile {
    pub scope: String,
    pub path: Option<String>,
    pub exists: bool,
}

/// The files that keys are kept in, as JSON.
pub open spec fn paths_value(v: Seq<KeyFile>) -> JsonV {
    JsonV::Obj(
        Seq::empty().push(("ok"@, JsonV::Bool(true))).push(
            (
                "files"@,
                JsonV::Arr(
                    Seq::new(
                        v.len(),
                        |i: int|
                            JsonV::Obj(
                                Seq::empty().push(("scope"@, JsonV::Str(v[i].scope@))).push(
                                    ("path"@, opt_value(opt(v[i].path))),
                                ).push(("exists"@, JsonV::Bool(v[i].exists))),
                            ),
                    ),
                ),
            ),
        ),
    )
}

/// The files that keys are kept in, as JSON.
pub fn paths_json(v: &Vec<KeyFile>) -> (r: Json)
    ensures
        r@ == paths_value(v@),
{
    let mut out: Vec<Json> = Vec::new();
    let mut i: usize = 0;
    while i < v.len()
        invariant
            i <= v@.len(),
            out@.len() == i,
            forall|k: int|
                0 <= k < i ==> #[trigger] out@[k]@ == JsonV::Obj(
                    Seq::empty().push(("scope"@, JsonV::Str(v@[k].scope@))).push(
                        ("path"@, opt_value(opt(v@[k].path))),
                    ).push(("exists"@, JsonV::Bool(v@[k].exists))),
                ),
        decreases v.len() - i,
    {
        out.push(
            Fields::new().text("scope", v[i].scope.as_str()).with(
                "path",
                Json::opt_text(&v[i].path),
            ).with("exists", Json::Bool(v[i].exists)).json(),
        );
        i += 1;
    }
    assert(items(out@) =~= Seq::new(
        v@.len(),
        |i: int|
            JsonV::Obj(
                Seq::empty().push(("scope"@, JsonV::Str(v@[i].scope@))).push(
                    ("path"@, opt_value(opt(v@[i].path))),
                ).push(("exists"@, JsonV::Bool(v@[i].exists))),
            ),
    ));
    Fields::new().with("ok", Json::Bool(true)).with("files", Json::array(out)).json()
}

/// The line for one of the files that keys are kept in, and the state that is
/// shown dimmed behind it.
pub fn path_line(scope: &str, path: &str, there: bool) -> (r: (String, &'static str))
    ensures
        r.0@ == padded_right(scope@, 7) + " "@ + path@ + "  "@,
        r.1@ == (if there {
            "exists"@
        } else {
            "not created yet"@
        }),
{
    (
        cat4(pad_right(scope, 7).as_str(), " ", path, "  "),
        if there {
            "exists"
        } else {
            "not created yet"
        },
    )
}

} // verus!
