//! The catalog of model providers.

use vstd::prelude::*;

use crate::text::affix::{
    contains, drop_back, holds, one_of, opens, starts_with, trim, trim_end_of, trimmed,
};
use crate::text::case::lowercase;
use crate::text::order::{numbered, order_by_key, placed, sorted_by_key, sorting_orders_and_keeps};
use crate::text::pieces::{
    contains_char, cut_at, first_of, lowered, replace, replaced, split_once, split_once_str,
    to_lower,
};
use crate::text::{cat2, cat3, opt, pairs, same, texts};
use crate::tools::memory::{debug_quote, debug_text};

verus! {

/// One provider of the catalog.
pub struct Provider {
    pub id: String,
    pub name: String,
    pub base_url: String,
    pub example_model: String,
    pub auth: String,
}

/// The variables that fill the placeholders of an address, where they are set
/// and not empty.
pub struct TemplateEnv {
    /// `CLOUDFLARE_ACCOUNT_ID`
    pub cloudflare_account_id: Option<String>,
    /// `CF_ACCOUNT_ID`
    pub cf_account_id: Option<String>,
    /// `AWS_REGION`
    pub aws_region: Option<String>,
    /// `AWS_DEFAULT_REGION`
    pub aws_default_region: Option<String>,
    /// `AZURE_OPENAI_RESOURCE`
    pub azure_openai_resource: Option<String>,
}

/// The first of two values that is there.
pub open spec fn first_set(a: Option<Seq<char>>, b: Option<Seq<char>>) -> Option<Seq<char>> {
    match a {
        Some(v) => Some(v),
        None => b,
    }
}

/// An address with one placeholder filled, none where it is there and nothing
/// fills it.
pub open spec fn filled(
    url: Option<Seq<char>>,
    placeholder: Seq<char>,
    value: Option<Seq<char>>,
) -> Option<Seq<char>> {
    match url {
        None => None,
        Some(u) => if !holds(u, placeholder) {
            Some(u)
        } else {
            match value {
                Some(v) => Some(replaced(u, placeholder, trimmed(v))),
                None => None,
            }
        },
    }
}

fn fill(
    url: Option<String>,
    placeholder: &str,
    first: &Option<String>,
    second: &Option<String>,
) -> (r: Option<String>)
    requires
        placeholder@.len() > 0,
    ensures
        opt(r) == filled(opt(url), placeholder@, first_set(opt(*first), opt(*second))),
{
    let u = match url {
        Some(u) => u,
        None => return None,
    };
    if !contains(u.as_str(), placeholder) {
        return Some(u);
    }
    match first {
        Some(v) => Some(replace(u.as_str(), placeholder, trim(v.as_str()).as_str())),
        None => match second {
            Some(v) => Some(replace(u.as_str(), placeholder, trim(v.as_str()).as_str())),
            None => None,
        },
    }
}

/// An address with every placeholder filled; none when one is still open, which
/// is what keeps a half-formed endpoint out of the pickers.
pub open spec fn resolved_url(base_url: Seq<char>, env: TemplateEnv) -> Option<Seq<char>> {
    let account = filled(
        Some(base_url),
        "{account_id}"@,
        first_set(opt(env.cloudflare_account_id), opt(env.cf_account_id)),
    );
    let region = filled(
        account,
        "{region}"@,
        first_set(opt(env.aws_region), opt(env.aws_default_region)),
    );
    match filled(region, "{resource}"@, opt(env.azure_openai_resource)) {
        Some(url) => if url.contains('{') {
            None
        } else {
            Some(url)
        },
        None => None,
    }
}

impl Provider {
    /// Whether an endpoint of this provider asks for a key.
    pub fn needs_key(&self) -> (r: bool)
        ensures
            r == !(holds(lowered(self.auth@), "none"@) || holds(
                lowered(self.auth@),
                "optional"@,
            )),
    {
        let a = to_lower(self.auth.as_str());
        !(contains(a.as_str(), "none") || contains(a.as_str(), "optional"))
    }

    /// Whether the address has a placeholder.
    pub fn templated(&self) -> (r: bool)
        ensures
            r == self.base_url@.contains('{'),
    {
        contains_char(self.base_url.as_str(), '{')
    }

    /// The address with every placeholder filled; none when one is still open.
    pub fn resolved_base_url(&self, env: &TemplateEnv) -> (r: Option<String>)
        ensures
            opt(r) == resolved_url(self.base_url@, *env),
    {
        proof {
            reveal_strlit("{account_id}");
            reveal_strlit("{region}");
            reveal_strlit("{resource}");
        }
        let start = Some(self.base_url.clone());
        let account = fill(start, "{account_id}", &env.cloudflare_account_id, &env.cf_account_id);
        let region = fill(account, "{region}", &env.aws_region, &env.aws_default_region);
        assert(first_set(opt(env.azure_openai_resource), None) == opt(env.azure_openai_resource));
        match fill(region, "{resource}", &env.azure_openai_resource, &None) {
            Some(url) => if contains_char(url.as_str(), '{') {
                None
            } else {
                Some(url)
            },
            None => None,
        }
    }
}

/// An address that is offered has no open placeholder.
pub proof fn resolved_addresses_are_whole(base_url: Seq<char>, env: TemplateEnv)
    ensures
        resolved_url(base_url, env) is Some ==> !resolved_url(base_url, env)->Some_0.contains('{'),
{
}

proof fn lemma_holds_char(url: Seq<char>, placeholder: Seq<char>)
    requires
        placeholder.len() > 0,
        placeholder[0] == '{',
        holds(url, placeholder),
    ensures
        url.contains('{'),
{
    let i = choose|i: int| crate::text::affix::stands_at(url, placeholder, i);
    assert(url.subrange(i, i + placeholder.len())[0] == url[i]);
    assert(url[i] == '{');
}

/// An address without a placeholder is offered as it is, whatever is set.
pub proof fn plain_addresses_are_kept(base_url: Seq<char>, env: TemplateEnv)
    requires
        !base_url.contains('{'),
    ensures
        resolved_url(base_url, env) == Some(base_url),
{
    reveal_strlit("{account_id}");
    reveal_strlit("{region}");
    reveal_strlit("{resource}");
    if holds(base_url, "{account_id}"@) {
        lemma_holds_char(base_url, "{account_id}"@);
    }
    if holds(base_url, "{region}"@) {
        lemma_holds_char(base_url, "{region}"@);
    }
    if holds(base_url, "{resource}"@) {
        lemma_holds_char(base_url, "{resource}"@);
    }
}

/// The first provider for which something holds.
pub open spec fn first_row(v: Seq<Provider>, p: spec_fn(Provider) -> bool) -> Option<int>
    decreases v.len(),
{
    if v.len() == 0 {
        None
    } else {
        match first_row(v.drop_last(), p) {
            Some(i) => Some(i),
            None => if p(v.last()) {
                Some(v.len() - 1)
            } else {
                None
            },
        }
    }
}

proof fn lemma_first_row(v: Seq<Provider>, p: spec_fn(Provider) -> bool, i: int)
    requires
        0 <= i <= v.len(),
        forall|k: int| 0 <= k < i ==> !p(#[trigger] v[k]),
    ensures
        i == v.len() ==> first_row(v, p) is None,
        i < v.len() && p(v[i]) ==> first_row(v, p) == Some(i),
    decreases v.len(),
{
    if v.len() > 0 {
        let rest = v.drop_last();
        assert forall|k: int| 0 <= k < i && k < rest.len() implies !p(#[trigger] rest[k]) by {
            assert(rest[k] == v[k]);
        }
        if i < v.len() {
            lemma_first_row(rest, p, i);
            if i < rest.len() {
                assert(rest[i] == v[i]);
            } else {
                assert(v.last() == v[i]);
            }
        } else {
            lemma_first_row(rest, p, i - 1);
            assert(v.last() == v[i - 1]);
        }
    }
}

/// The usable rows of the catalog: each provider's id and address.
pub open spec fn base_urls(v: Seq<Provider>, env: TemplateEnv) -> Seq<(Seq<char>, Seq<char>)>
    decreases v.len(),
{
    if v.len() == 0 {
        Seq::empty()
    } else {
        let head = base_urls(v.drop_last(), env);
        match resolved_url(v.last().base_url@, env) {
            Some(url) => head.push((v.last().id@, url)),
            None => head,
        }
    }
}

/// Every usable row of the catalog as an id and an address.
pub fn provider_base_urls(providers: &Vec<Provider>, env: &TemplateEnv) -> (r: Vec<
    (String, String),
>)
    ensures
        pairs(r@) == base_urls(providers@, *env),
{
    let mut out: Vec<(String, String)> = Vec::new();
    let mut i: usize = 0;
    assert(pairs(out@) =~= base_urls(providers@.take(0), *env));
    while i < providers.len()
        invariant
            i <= providers@.len(),
            pairs(out@) == base_urls(providers@.take(i as int), *env),
        decreases providers.len() - i,
    {
        proof {
            assert(providers@.take(i + 1).drop_last() =~= providers@.take(i as int));
            assert(providers@.take(i + 1).last() == providers@[i as int]);
        }
        let ghost had = pairs(out@);
        match providers[i].resolved_base_url(env) {
            Some(url) => {
                let ghost pair = (providers@[i as int].id@, url@);
                out.push((providers[i].id.clone(), url));
                assert(pairs(out@) =~= had.push(pair));
            },
            None => {},
        }
        i += 1;
    }
    assert(providers@.take(providers@.len() as int) =~= providers@);
    out
}

/// An address without the slashes at its end.
pub open spec fn bare(url: Seq<char>) -> Seq<char> {
    drop_back(url, one_of("/"@))
}

/// The host of an address, by its text.
pub open spec fn host_of(url: Seq<char>) -> Seq<char> {
    let rest = match cut_at(url, "://"@) {
        Some(parts) => parts.1,
        None => url,
    };
    rest.take(first_of(rest, '/') as int)
}

/// The host of an address, by its text.
pub fn host_only(url: &str) -> (r: String)
    ensures
        r@ == host_of(url@),
{
    let rest = match split_once_str(url, "://") {
        Some((_, rest)) => rest,
        None => url.to_owned(),
    };
    proof {
        crate::text::pieces::lemma_first_of_meaning(rest@, '/');
    }
    match split_once(rest.as_str(), '/') {
        Some((head, _)) => head,
        None => {
            assert(rest@.take(rest@.len() as int) =~= rest@);
            rest
        },
    }
}

/// The row that serves an address: the one with that address, else the first on
/// its host.
pub open spec fn row_for(v: Seq<Provider>, base_url: Seq<char>) -> Option<int> {
    let want = bare(base_url);
    match first_row(v, |p: Provider| bare(p.base_url@) == want) {
        Some(i) => Some(i),
        None => first_row(v, |p: Provider| host_of(bare(p.base_url@)) == host_of(want)),
    }
}

/// The row that serves an address: the one with that address, else the first on
/// its host.
pub fn lookup(providers: &Vec<Provider>, base_url: &str) -> (r: Option<usize>)
    ensures
        match r {
            Some(i) => i < providers@.len() && row_for(providers@, base_url@) == Some(i as int),
            None => row_for(providers@, base_url@) is None,
        },
{
    let want = trim_end_of(base_url, "/");
    let ghost exact = |p: Provider| bare(p.base_url@) == want@;
    let mut i: usize = 0;
    while i < providers.len()
        invariant
            i <= providers@.len(),
            exact == (|p: Provider| bare(p.base_url@) == want@),
            want@ == bare(base_url@),
            forall|k: int| 0 <= k < i ==> !exact(#[trigger] providers@[k]),
        decreases providers.len() - i,
    {
        if same(trim_end_of(providers[i].base_url.as_str(), "/").as_str(), want.as_str()) {
            proof {
                lemma_first_row(providers@, exact, i as int);
            }
            return Some(i);
        }
        i += 1;
    }
    proof {
        lemma_first_row(providers@, exact, i as int);
    }
    let host = host_only(want.as_str());
    let ghost on_host = |p: Provider| host_of(bare(p.base_url@)) == host_of(want@);
    let mut j: usize = 0;
    while j < providers.len()
        invariant
            j <= providers@.len(),
            on_host == (|p: Provider| host_of(bare(p.base_url@)) == host_of(want@)),
            exact == (|p: Provider| bare(p.base_url@) == want@),
            want@ == bare(base_url@),
            host@ == host_of(want@),
            first_row(providers@, exact) is None,
            forall|k: int| 0 <= k < j ==> !on_host(#[trigger] providers@[k]),
        decreases providers.len() - j,
    {
        let at = host_only(trim_end_of(providers[j].base_url.as_str(), "/").as_str());
        if same(at.as_str(), host.as_str()) {
            proof {
                lemma_first_row(providers@, on_host, j as int);
            }
            return Some(j);
        }
        j += 1;
    }
    proof {
        lemma_first_row(providers@, on_host, j as int);
    }
    None
}

/// What an endpoint is called: its provider's name, else its host.
pub open spec fn label_of(v: Seq<Provider>, base_url: Seq<char>) -> Seq<char> {
    match row_for(v, bare(base_url)) {
        Some(i) => v[i].name@,
        None => host_of(bare(base_url)),
    }
}

/// What an endpoint is called: its provider's name, else its host.
pub fn provider_label(providers: &Vec<Provider>, base_url: &str) -> (r: String)
    ensures
        r@ == label_of(providers@, base_url@),
{
    let want = trim_end_of(base_url, "/");
    match lookup(providers, want.as_str()) {
        Some(i) => providers[i].name.clone(),
        None => host_only(want.as_str()),
    }
}

/// One row of a picker: the name, the address and the model to start from.
pub struct Choice {
    pub name: String,
    pub base_url: String,
    pub model: String,
}

/// The model of one row of a picker.
#[verifier::ext_equal]
pub struct ChoiceV {
    pub name: Seq<char>,
    pub base_url: Seq<char>,
    pub model: Seq<char>,
}

impl View for Choice {
    type V = ChoiceV;

    open spec fn view(&self) -> ChoiceV {
        ChoiceV { name: self.name@, base_url: self.base_url@, model: self.model@ }
    }
}

/// The models of the rows of a picker.
pub open spec fn choices_view(v: Seq<Choice>) -> Seq<ChoiceV> {
    Seq::new(v.len(), |i: int| v[i]@)
}

/// The usable rows in the catalog's own order.
pub open spec fn usable(v: Seq<Provider>, env: TemplateEnv) -> Seq<ChoiceV>
    decreases v.len(),
{
    if v.len() == 0 {
        Seq::empty()
    } else {
        let head = usable(v.drop_last(), env);
        match resolved_url(v.last().base_url@, env) {
            Some(url) => head.push(
                ChoiceV { name: v.last().name@, base_url: url, model: v.last().example_model@ },
            ),
            None => head,
        }
    }
}

/// The names of some rows in lower case, by which they are ordered.
pub open spec fn name_keys(v: Seq<ChoiceV>) -> Seq<Seq<char>> {
    Seq::new(v.len(), |i: int| lowercase(v[i].name))
}

/// Some rows in the order of their names in lower case; rows of one name keep
/// their order.
pub open spec fn by_name(v: Seq<ChoiceV>) -> Seq<ChoiceV> {
    let order = sorted_by_key(numbered(name_keys(v)));
    Seq::new(order.len(), |i: int| v[order[i].1])
}

/// The rows of the provider picker: every endpoint without an open placeholder,
/// by name.
pub fn provider_choices(providers: &Vec<Provider>, env: &TemplateEnv) -> (r: Vec<Choice>)
    ensures
        choices_view(r@) == by_name(usable(providers@, *env)),
{
    let mut rows: Vec<Choice> = Vec::new();
    let mut keys: Vec<String> = Vec::new();
    let mut i: usize = 0;
    assert(choices_view(rows@) =~= usable(providers@.take(0), *env));
    assert(texts(keys@) =~= name_keys(choices_view(rows@)));
    while i < providers.len()
        invariant
            i <= providers@.len(),
            choices_view(rows@) == usable(providers@.take(i as int), *env),
            texts(keys@) == name_keys(choices_view(rows@)),
        decreases providers.len() - i,
    {
        proof {
            assert(providers@.take(i + 1).drop_last() =~= providers@.take(i as int));
            assert(providers@.take(i + 1).last() == providers@[i as int]);
        }
        let ghost had = choices_view(rows@);
        let ghost had_keys = texts(keys@);
        match providers[i].resolved_base_url(env) {
            Some(url) => {
                let row = Choice {
                    name: providers[i].name.clone(),
                    base_url: url,
                    model: providers[i].example_model.clone(),
                };
                keys.push(row.name.as_str().to_lowercase());
                let ghost model = row@;
                rows.push(row);
                assert(choices_view(rows@) =~= had.push(model));
                assert(texts(keys@) =~= had_keys.push(lowercase(model.name)));
                assert(name_keys(had.push(model)) =~= name_keys(had).push(lowercase(model.name)));
            },
            None => {},
        }
        i += 1;
    }
    assert(providers@.take(providers@.len() as int) =~= providers@);
    let ghost all = choices_view(rows@);
    let order = order_by_key(&keys);
    let ghost sorted = sorted_by_key(numbered(name_keys(all)));
    let mut out: Vec<Choice> = Vec::new();
    let mut j: usize = 0;
    proof {
        lemma_positions(name_keys(all));
        assert(placed(order@) == sorted);
        assert(placed(order@).len() == order@.len());
    }
    while j < order.len()
        invariant
            j <= order@.len(),
            placed(order@) == sorted,
            order@.len() == sorted.len(),
            all == choices_view(rows@),
            sorted == sorted_by_key(numbered(name_keys(all))),
            forall|k: int| 0 <= k < sorted.len() ==> 0 <= #[trigger] sorted[k].1 < all.len(),
            out@.len() == j,
            forall|k: int| 0 <= k < j ==> #[trigger] out@[k]@ == all[sorted[k].1],
        decreases order.len() - j,
    {
        assert(placed(order@)[j as int] == sorted[j as int]);
        let at = order[j].1;
        assert(sorted[j as int].1 == at as int);
        assert(all[at as int] == rows@[at as int]@);
        out.push(
            Choice {
                name: rows[at].name.clone(),
                base_url: rows[at].base_url.clone(),
                model: rows[at].model.clone(),
            },
        );
        j += 1;
    }
    assert(choices_view(out@) =~= by_name(all));
    out
}

/// Sorting numbered keys leaves each with a position among them, and no two with
/// the same.
proof fn lemma_positions(keys: Seq<Seq<char>>)
    ensures
        sorted_by_key(numbered(keys)).len() == keys.len(),
        forall|k: int|
            0 <= k < keys.len() ==> 0 <= #[trigger] sorted_by_key(numbered(keys))[k].1 < keys.len()
                && sorted_by_key(numbered(keys))[k].0 == keys[sorted_by_key(numbered(keys))[k].1],
{
    let v = numbered(keys);
    let s = sorted_by_key(v);
    sorting_orders_and_keeps(v);
    broadcast use vstd::seq_lib::group_to_multiset_ensures;

    assert forall|k: int| 0 <= k < keys.len() implies 0 <= #[trigger] s[k].1 < keys.len()
        && s[k].0 == keys[s[k].1] by {
        assert(s.to_multiset().count(s[k]) > 0);
        assert(v.to_multiset().count(s[k]) > 0);
        assert(v.contains(s[k]));
        let m = choose|m: int| 0 <= m < v.len() && v[m] == s[k];
        assert(v[m] == (keys[m], m));
    }
}

/// The picker lists the rows by name: no name in lower case comes after a later
/// one, and there is a row for each usable provider.
pub proof fn choices_are_in_order(v: Seq<Provider>, env: TemplateEnv)
    ensures
        by_name(usable(v, env)).len() == usable(v, env).len(),
        forall|i: int, j: int|
            0 <= i < j < by_name(usable(v, env)).len() ==> !crate::text::order::before(
                lowercase(#[trigger] by_name(usable(v, env))[j].name),
                lowercase(#[trigger] by_name(usable(v, env))[i].name),
            ),
{
    let rows = usable(v, env);
    let keys = name_keys(rows);
    let s = sorted_by_key(numbered(keys));
    lemma_positions(keys);
    sorting_orders_and_keeps(numbered(keys));
    assert forall|i: int, j: int| 0 <= i < j < by_name(rows).len() implies !crate::text::order::before(
        lowercase(#[trigger] by_name(rows)[j].name),
        lowercase(#[trigger] by_name(rows)[i].name),
    ) by {
        assert(s[i].0 == keys[s[i].1]);
        assert(s[j].0 == keys[s[j].1]);
        assert(!crate::text::order::before(s[j].0, s[i].0));
    }
}

/// What the catalog lists of an endpoint's models.
pub struct Listing {
    /// The vetted ones, best first.
    pub shortlist: Vec<String>,
    /// One that works, empty where none is given.
    pub example: String,
}

/// The models that are recommended for an endpoint: its shortlist, else its
/// example; none where the catalog has no row for it.
pub open spec fn recommended(listing: Option<Listing>) -> Seq<Seq<char>> {
    match listing {
        None => Seq::empty(),
        Some(l) => if l.shortlist@.len() > 0 {
            texts(l.shortlist@)
        } else if l.example@.len() > 0 {
            Seq::empty().push(l.example@)
        } else {
            Seq::empty()
        },
    }
}

/// The models that are recommended for an endpoint: its shortlist, else its
/// example; none where the catalog has no row for it.
pub fn provider_recommended(listing: &Option<Listing>) -> (r: Vec<String>)
    ensures
        texts(r@) == recommended(*listing),
{
    let mut out: Vec<String> = Vec::new();
    match listing {
        None => {},
        Some(l) => if l.shortlist.len() > 0 {
            return crate::text::clone_texts(&l.shortlist);
        } else if !l.example.as_str().is_empty() {
            out.push(l.example.clone());
        },
    }
    assert(texts(out@) =~= recommended(*listing));
    out
}

/// The vetted models of an endpoint; none for one that has only an example.
pub fn provider_shortlist(listing: &Option<Listing>) -> (r: Vec<String>)
    ensures
        texts(r@) == (match *listing {
            Some(l) => texts(l.shortlist@),
            None => Seq::empty(),
        }),
{
    match listing {
        Some(l) => crate::text::clone_texts(&l.shortlist),
        None => {
            let out: Vec<String> = Vec::new();
            assert(texts(out@) =~= Seq::empty());
            out
        },
    }
}

/// True when a provider goes by an id, a name or an address, in whatever case.
pub open spec fn goes_by(p: Provider, want: Seq<char>) -> bool {
    lowered(p.id@) == lowered(want) || lowered(p.name@) == lowered(want) || lowered(
        bare(p.base_url@),
    ) == lowered(want)
}

/// Why a row with an open placeholder cannot be used, naming the variable that
/// would fix it.
pub open spec fn unfilled_text(p: Provider) -> Seq<char> {
    let head = p.name@ + " needs an endpoint of its own; "@;
    if holds(p.base_url@, "{account_id}"@) {
        head + "set CLOUDFLARE_ACCOUNT_ID"@ + ", or run `aster init` to type the URL"@
    } else if holds(p.base_url@, "{region}"@) {
        head + "set AWS_REGION"@ + ", or run `aster init` to type the URL"@
    } else if holds(p.base_url@, "{resource}"@) {
        head + "set AZURE_OPENAI_RESOURCE"@ + ", or run `aster init` to type the URL"@
    } else {
        head + "pass the full URL to `aster provider use`"@
    }
}

/// Why a row with an open placeholder cannot be used, naming the variable that
/// would fix it.
pub fn unfilled(p: &Provider) -> (r: String)
    ensures
        r@ == unfilled_text(*p),
{
    let head = cat2(p.name.as_str(), " needs an endpoint of its own; ");
    let url = p.base_url.as_str();
    let var = if contains(url, "{account_id}") {
        "set CLOUDFLARE_ACCOUNT_ID"
    } else if contains(url, "{region}") {
        "set AWS_REGION"
    } else if contains(url, "{resource}") {
        "set AZURE_OPENAI_RESOURCE"
    } else {
        return cat2(head.as_str(), "pass the full URL to `aster provider use`");
    };
    cat3(head.as_str(), var, ", or run `aster init` to type the URL")
}

/// The endpoint that an id, a name or an address stands for. An address that no
/// row has is taken at face value.
pub open spec fn found_provider(v: Seq<Provider>, env: TemplateEnv, target: Seq<char>) -> Result<
    ChoiceV,
    Seq<char>,
> {
    let want = bare(trimmed(target));
    match first_row(v, |p: Provider| goes_by(p, want)) {
        Some(i) => match resolved_url(v[i].base_url@, env) {
            Some(url) => Ok(
                ChoiceV { name: v[i].name@, base_url: url, model: v[i].example_model@ },
            ),
            None => Err(unfilled_text(v[i])),
        },
        None => if opens(want, "http://"@) || opens(want, "https://"@) {
            Ok(ChoiceV { name: label_of(v, want), base_url: want, model: Seq::empty() })
        } else {
            Err(
                "no provider "@ + debug_text(target)
                    + " in the catalog; run `aster provider list` to see the ids"@,
            )
        },
    }
}

/// The endpoint that an id, a name or an address stands for.
pub fn find_provider(providers: &Vec<Provider>, env: &TemplateEnv, target: &str) -> (r: Result<
    Choice,
    String,
>)
    ensures
        match found_provider(providers@, *env, target@) {
            Ok(c) => r is Ok && r->Ok_0@ == c,
            Err(e) => r is Err && r->Err_0@ == e,
        },
{
    let want = trim_end_of(trim(target).as_str(), "/");
    let low = to_lower(want.as_str());
    let ghost named = |p: Provider| goes_by(p, want@);
    let mut i: usize = 0;
    while i < providers.len()
        invariant
            i <= providers@.len(),
            low@ == lowered(want@),
            want@ == bare(trimmed(target@)),
            named == (|p: Provider| goes_by(p, want@)),
            forall|k: int| 0 <= k < i ==> !named(#[trigger] providers@[k]),
        decreases providers.len() - i,
    {
        let p = &providers[i];
        let url = trim_end_of(p.base_url.as_str(), "/");
        if same(to_lower(p.id.as_str()).as_str(), low.as_str()) || same(
            to_lower(p.name.as_str()).as_str(),
            low.as_str(),
        ) || same(to_lower(url.as_str()).as_str(), low.as_str()) {
            proof {
                assert(named(providers@[i as int]));
                lemma_first_row(providers@, named, i as int);
            }
            return match p.resolved_base_url(env) {
                Some(url) => Ok(
                    Choice {
                        name: p.name.clone(),
                        base_url: url,
                        model: p.example_model.clone(),
                    },
                ),
                None => Err(unfilled(p)),
            };
        }
        i += 1;
    }
    proof {
        lemma_first_row(providers@, named, i as int);
    }
    if starts_with(want.as_str(), "http://") || starts_with(want.as_str(), "https://") {
        let name = provider_label(providers, want.as_str());
        let model = String::new();
        assert(model@ =~= Seq::empty());
        return Ok(Choice { name, base_url: want, model });
    }
    Err(
        cat3(
            "no provider ",
            debug_quote(target).as_str(),
            " in the catalog; run `aster provider list` to see the ids",
        ),
    )
}

/// The provider of an id.
pub fn by_id(providers: &Vec<Provider>, id: &str) -> (r: Option<usize>)
    ensures
        match r {
            Some(i) => i < providers@.len() && first_row(providers@, |p: Provider| p.id@ == id@)
                == Some(i as int),
            None => first_row(providers@, |p: Provider| p.id@ == id@) is None,
        },
{
    let ghost named = |p: Provider| p.id@ == id@;
    let mut i: usize = 0;
    while i < providers.len()
        invariant
            i <= providers@.len(),
            named == (|p: Provider| p.id@ == id@),
            forall|k: int| 0 <= k < i ==> !named(#[trigger] providers@[k]),
        decreases providers.len() - i,
    {
        if same(providers[i].id.as_str(), id) {
            proof {
                lemma_first_row(providers@, named, i as int);
            }
            return Some(i);
        }
        i += 1;
    }
    proof {
        lemma_first_row(providers@, named, i as int);
    }
    None
}

/// The provider that a setup without questions takes: OpenRouter where the
/// catalog has it, else the first row.
pub fn default_provider(providers: &Vec<Provider>) -> (r: usize)
    requires
        providers@.len() > 0,
    ensures
        r < providers@.len(),
        r == (match first_row(providers@, |p: Provider| p.id@ == "openrouter"@) {
            Some(i) => i,
            None => 0,
        }),
{
    match by_id(providers, "openrouter") {
        Some(i) => i,
        None => 0,
    }
}

} // verus!
