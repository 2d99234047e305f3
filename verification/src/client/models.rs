//! The models an endpoint lists.

use vstd::prelude::*;

use crate::text::affix::{after_prefix, contains, holds, strip_prefix};
use crate::text::order::{sort_by_key, sorted_by_key};
use crate::text::{pairs, same, texts};

verus! {

/// A model as an endpoint lists it.
pub struct ModelEntry {
    pub id: String,
    /// The kinds of input it declares, if it declares an architecture.
    pub input_modalities: Option<Vec<String>>,
    pub context_length: Option<u32>,
}

/// What is known of a model.
pub struct ModelInfo {
    pub id: String,
    pub takes_images: Option<bool>,
    /// Tokens it reads and writes in one call; none means unknown.
    pub context_window: Option<u32>,
}

/// The model of what is known of a model.
#[verifier::ext_equal]
pub struct InfoV {
    pub id: Seq<char>,
    pub takes_images: Option<bool>,
    pub context_window: Option<u32>,
}

impl View for ModelInfo {
    type V = InfoV;

    open spec fn view(&self) -> InfoV {
        InfoV {
            id: self.id@,
            takes_images: self.takes_images,
            context_window: self.context_window,
        }
    }
}

/// The models of a list.
pub open spec fn infos(v: Seq<ModelInfo>) -> Seq<InfoV> {
    Seq::new(v.len(), |i: int| v[i]@)
}

/// Whether a model takes images: unknown where it declares no kinds of input.
pub open spec fn images_declared(kinds: Option<Seq<Seq<char>>>) -> Option<bool> {
    match kinds {
        Some(v) => if v.len() == 0 {
            None
        } else {
            Some(v.contains("image"@))
        },
        None => None,
    }
}

/// What an entry says of its model.
pub open spec fn info_of(e: ModelEntry) -> InfoV {
    InfoV {
        id: e.id@,
        takes_images: images_declared(crate::tools::offer::opt_texts(e.input_modalities)),
        context_window: e.context_length,
    }
}

impl ModelInfo {
    /// What an entry says of its model.
    pub fn from_entry(entry: ModelEntry) -> (r: ModelInfo)
        ensures
            r@ == info_of(entry),
    {
        let takes_images = match &entry.input_modalities {
            Some(v) => if v.len() == 0 {
                None
            } else {
                Some(crate::text::contains_text(v, "image"))
            },
            None => None,
        };
        ModelInfo { id: entry.id, takes_images, context_window: entry.context_length }
    }
}

/// True when an endpoint lists its models as resource names.
pub open spec fn has_resource_names(base_url: Seq<char>) -> bool {
    holds(base_url, "generativelanguage.googleapis.com"@)
}

/// Whether an endpoint lists its models as resource names.
pub fn lists_resource_names(base_url: &str) -> (r: bool)
    ensures
        r == has_resource_names(base_url@),
{
    contains(base_url, "generativelanguage.googleapis.com")
}

/// The id that a request takes, for one that is listed.
pub open spec fn bare_id(id: Seq<char>, strip: bool) -> Seq<char> {
    if strip {
        match after_prefix(id, "models/"@) {
            Some(rest) => rest,
            None => id,
        }
    } else {
        id
    }
}

/// The catalog an endpoint's list gives.
pub fn catalog(entries: Vec<ModelEntry>, base_url: &str) -> (r: Vec<ModelInfo>)
    ensures
        infos(r@) == Seq::new(
            entries@.len(),
            |i: int|
                (InfoV {
                    id: bare_id(entries@[i].id@, has_resource_names(base_url@)),
                    ..info_of(entries@[i])
                }),
        ),
{
    let strip = lists_resource_names(base_url);
    let mut out: Vec<ModelInfo> = Vec::new();
    let mut rest = entries;
    let ghost all = entries@;
    let mut list: Vec<ModelInfo> = Vec::new();
    while rest.len() > 0
        invariant
            rest@.len() + list@.len() == all.len(),
            rest@ == all.take(rest@.len() as int),
            strip == has_resource_names(base_url@),
            forall|k: int|
                0 <= k < list@.len() ==> #[trigger] list@[k]@ == (InfoV {
                    id: bare_id(all[all.len() - 1 - k].id@, strip),
                    ..info_of(all[all.len() - 1 - k])
                }),
        decreases rest@.len(),
    {
        let ghost n = rest@.len();
        match rest.pop() {
            Some(entry) => {
                assert(entry == all[n - 1]);
                assert(rest@ =~= all.take(n - 1));
                let mut info = ModelInfo::from_entry(entry);
                if strip {
                    match strip_prefix(info.id.as_str(), "models/") {
                        Some(bare) => {
                            info = ModelInfo {
                                id: bare,
                                takes_images: info.takes_images,
                                context_window: info.context_window,
                            };
                        },
                        None => {},
                    }
                }
                list.push(info);
            },
            None => {},
        }
    }
    while list.len() > 0
        invariant
            out@.len() + list@.len() == all.len(),
            strip == has_resource_names(base_url@),
            forall|k: int|
                0 <= k < list@.len() ==> #[trigger] list@[k]@ == (InfoV {
                    id: bare_id(all[all.len() - 1 - k].id@, strip),
                    ..info_of(all[all.len() - 1 - k])
                }),
            forall|k: int|
                0 <= k < out@.len() ==> #[trigger] out@[k]@ == (InfoV {
                    id: bare_id(all[k].id@, strip),
                    ..info_of(all[k])
                }),
        decreases list@.len(),
    {
        let ghost before = list@;
        match list.pop() {
            Some(info) => {
                assert(info == before[before.len() - 1]);
                out.push(info);
            },
            None => {},
        }
    }
    assert(infos(out@) =~= Seq::new(
        all.len(),
        |i: int|
            (InfoV {
                id: bare_id(all[i].id@, has_resource_names(base_url@)),
                ..info_of(all[i])
            }),
    ));
    out
}

/// The ids of a catalog.
pub open spec fn ids(v: Seq<InfoV>) -> Seq<(Seq<char>, Seq<char>)> {
    Seq::new(v.len(), |i: int| (v[i].id, Seq::empty()))
}

/// The ids of a catalog, in order.
pub open spec fn sorted_ids(v: Seq<InfoV>) -> Seq<Seq<char>> {
    let s = sorted_by_key(ids(v));
    Seq::new(s.len(), |i: int| s[i].0)
}

/// The ids of a catalog, sorted.
pub fn fetch_models(v: &Vec<ModelInfo>) -> (r: Vec<String>)
    ensures
        texts(r@) == sorted_ids(infos(v@)),
{
    let mut list: Vec<(String, String)> = Vec::new();
    let mut i: usize = 0;
    while i < v.len()
        invariant
            i <= v@.len(),
            list@.len() == i,
            forall|k: int|
                0 <= k < i ==> (#[trigger] list@[k]).0@ == v@[k].id@ && list@[k].1@ == Seq::<
                    char,
                >::empty(),
        decreases v.len() - i,
    {
        let none = String::new();
        assert(none@ =~= Seq::<char>::empty());
        list.push((v[i].id.clone(), none));
        i += 1;
    }
    assert(pairs(list@) =~= ids(infos(v@)));
    let sorted = sort_by_key(&list);
    let ghost s = pairs(sorted@);
    let mut out: Vec<String> = Vec::new();
    let mut j: usize = 0;
    while j < sorted.len()
        invariant
            j <= sorted@.len(),
            out@.len() == j,
            s == pairs(sorted@),
            forall|k: int| 0 <= k < j ==> #[trigger] out@[k]@ == s[k].0,
        decreases sorted.len() - j,
    {
        assert(s[j as int] == (sorted@[j as int].0@, sorted@[j as int].1@));
        out.push(sorted[j].0.clone());
        j += 1;
    }
    assert(texts(out@) =~= sorted_ids(infos(v@)));
    out
}

/// The first entry of a catalog with this id.
pub open spec fn entry_for(v: Seq<InfoV>, id: Seq<char>) -> Option<InfoV>
    decreases v.len(),
{
    if v.len() == 0 {
        None
    } else if v[0].id == id {
        Some(v[0])
    } else {
        entry_for(v.drop_first(), id)
    }
}

/// What a catalog says of one model.
pub fn model_info(v: &Vec<ModelInfo>, id: &str) -> (r: Option<ModelInfo>)
    ensures
        match r {
            Some(info) => entry_for(infos(v@), id@) == Some(info@),
            None => entry_for(infos(v@), id@) is None,
        },
{
    let ghost all = infos(v@);
    let mut i: usize = 0;
    assert(all.skip(0) =~= all);
    while i < v.len()
        invariant
            i <= v@.len(),
            all == infos(v@),
            entry_for(all.skip(i as int), id@) == entry_for(all, id@),
        decreases v.len() - i,
    {
        assert(all.skip(i as int)[0] == v@[i as int]@);
        if same(v[i].id.as_str(), id) {
            return Some(
                ModelInfo {
                    id: v[i].id.clone(),
                    takes_images: v[i].takes_images,
                    context_window: v[i].context_window,
                },
            );
        }
        assert(all.skip(i as int).drop_first() =~= all.skip(i + 1));
        i += 1;
    }
    None
}

/// Whether a model takes images. Only an endpoint that declares its kinds of
/// input and leaves images out answers no.
pub fn supports_images(info: &Option<ModelInfo>) -> (r: bool)
    ensures
        r == match *info {
            Some(m) => m.takes_images != Some(false),
            None => true,
        },
{
    match info {
        Some(m) => match m.takes_images {
            Some(b) => b,
            None => true,
        },
        None => true,
    }
}

/// Models that are known by their ids alone.
pub fn known_ids(ids: &Vec<String>) -> (r: Vec<ModelInfo>)
    ensures
        infos(r@) == Seq::new(
            ids@.len(),
            |i: int| (InfoV { id: ids@[i]@, takes_images: None, context_window: None }),
        ),
{
    let mut out: Vec<ModelInfo> = Vec::new();
    let mut i: usize = 0;
    while i < ids.len()
        invariant
            i <= ids@.len(),
            out@.len() == i,
            forall|k: int|
                0 <= k < i ==> #[trigger] out@[k]@ == (InfoV {
                    id: ids@[k]@,
                    takes_images: None,
                    context_window: None,
                }),
        decreases ids.len() - i,
    {
        out.push(ModelInfo { id: ids[i].clone(), takes_images: None, context_window: None });
        i += 1;
    }
    assert(infos(out@) =~= Seq::new(
        ids@.len(),
        |i: int| (InfoV { id: ids@[i]@, takes_images: None, context_window: None }),
    ));
    out
}

/// Where an endpoint's list of models comes from.
#[derive(Clone, Copy, PartialEq, Eq, Structural, Debug)]
pub enum CatalogFrom {
    /// The catalog's shortlist: the endpoint has no list to ask for.
    Shortlist,
    /// A list in pages.
    Pages,
    /// The endpoint's list.
    Endpoint,
}

/// Where an endpoint's list of models comes from. `codex` and `workers` say
/// which backend it is.
pub fn fetch_model_catalog(codex: bool, workers: bool) -> (r: CatalogFrom)
    ensures
        r == (if codex {
            CatalogFrom::Shortlist
        } else if workers {
            CatalogFrom::Pages
        } else {
            CatalogFrom::Endpoint
        }),
{
    if codex {
        CatalogFrom::Shortlist
    } else if workers {
        CatalogFrom::Pages
    } else {
        CatalogFrom::Endpoint
    }
}

/// What follows a page of a list of models.
#[derive(Clone, Copy, PartialEq, Eq, Structural, Debug)]
pub enum PageStep {
    /// Ask for this page.
    Ask(u32),
    /// The list is whole.
    Done,
    /// There is no list here: the published one stands in.
    Fallback,
}

/// A list of models that comes in pages.
pub struct ModelPages {
    pub models: Vec<ModelInfo>,
    /// The page that is asked for, counted from one.
    pub page: u32,
    pub max_pages: u32,
    pub per_page: usize,
}

/// True when `now` is the list after one more page, and `step` what follows it.
pub open spec fn page_taken(
    was: ModelPages,
    batch: Option<Seq<InfoV>>,
    now: ModelPages,
    step: PageStep,
) -> bool {
    &&& now.max_pages == was.max_pages
    &&& now.per_page == was.per_page
    &&& match batch {
        None => step == PageStep::Fallback && now == was,
        Some(b) => {
            let all = infos(was.models@) + b;
            &&& infos(now.models@) == all
            &&& if b.len() >= was.per_page && was.page < was.max_pages {
                step == PageStep::Ask((was.page + 1) as u32) && now.page == was.page + 1
            } else {
                now.page == was.page && step == if all.len() == 0 {
                    PageStep::Fallback
                } else {
                    PageStep::Done
                }
            }
        },
    }
}

/// A page adds its models behind those that came before, in order. Another is
/// asked for exactly while pages come full and the limit is not reached; the
/// list is done with what it has, and falls back only where it has nothing or a
/// page failed.
pub proof fn pages_add_up(
    was: ModelPages,
    batch: Option<Seq<InfoV>>,
    now: ModelPages,
    step: PageStep,
)
    requires
        page_taken(was, batch, now, step),
    ensures
        batch matches Some(b) ==> {
            &&& infos(now.models@).len() == was.models@.len() + b.len()
            &&& infos(now.models@).take(was.models@.len() as int) == infos(was.models@)
            &&& infos(now.models@).skip(was.models@.len() as int) == b
            &&& step is Ask <==> b.len() >= was.per_page && was.page < was.max_pages
            &&& step == PageStep::Fallback <==> !(step is Ask) && now.models@.len() == 0
        },
        batch is None ==> step == PageStep::Fallback && infos(now.models@) == infos(was.models@),
        step matches PageStep::Ask(n) ==> n == was.page + 1 && n == now.page && n <= was.max_pages,
{
    match batch {
        Some(b) => {
            let all = infos(now.models@);
            assert(all.len() == now.models@.len());
            assert(all.take(was.models@.len() as int) =~= infos(was.models@));
            assert(all.skip(was.models@.len() as int) =~= b);
        },
        None => {},
    }
}

impl ModelPages {
    /// Before the first page.
    pub fn new(max_pages: u32, per_page: usize) -> (r: ModelPages)
        ensures
            infos(r.models@) == Seq::<InfoV>::empty(),
            r.page == 1,
            r.max_pages == max_pages,
            r.per_page == per_page,
    {
        let models: Vec<ModelInfo> = Vec::new();
        assert(infos(models@) =~= Seq::empty());
        ModelPages { models, page: 1, max_pages, per_page }
    }

    /// A page came, or failed. A short page is the last, and so is the one that
    /// reaches the limit; an empty list and a failed page fall back.
    pub fn take(&mut self, batch: Option<Vec<ModelInfo>>) -> (r: PageStep)
        ensures
            final(self).max_pages == old(self).max_pages,
            final(self).per_page == old(self).per_page,
            match batch {
                None => r == PageStep::Fallback && *final(self) == *old(self),
                Some(b) => {
                    let all = infos(old(self).models@) + infos(b@);
                    &&& infos(final(self).models@) == all
                    &&& if b@.len() >= old(self).per_page && old(self).page < old(self).max_pages {
                        r == PageStep::Ask((old(self).page + 1) as u32) && final(self).page
                            == old(self).page + 1
                    } else {
                        final(self).page == old(self).page && r == if all.len() == 0 {
                            PageStep::Fallback
                        } else {
                            PageStep::Done
                        }
                    }
                },
            },
            page_taken(
                *old(self),
                match batch {
                    Some(b) => Some(infos(b@)),
                    None => None,
                },
                *final(self),
                r,
            ),
    {
        let batch = match batch {
            None => return PageStep::Fallback,
            Some(b) => b,
        };
        let ghost had = infos(self.models@);
        let ghost fresh = infos(batch@);
        let count: usize = batch.len();
        let mut rest = batch;
        self.models.append(&mut rest);
        assert(infos(self.models@) =~= had + fresh);
        let none = self.models.len() == 0;
        if count >= self.per_page && self.page < self.max_pages {
            self.page = self.page + 1;
            return PageStep::Ask(self.page);
        }
        if none {
            PageStep::Fallback
        } else {
            PageStep::Done
        }
    }
}

} // verus!
