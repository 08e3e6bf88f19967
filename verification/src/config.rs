//! The persistent list of known applications and the active one.

use vstd::prelude::*;

use crate::model::opt_view;
use crate::text::{owned, str_eq};

verus! {

/// A saved Spring Boot application entry.
#[derive(Debug)]
pub struct SavedApp {
    pub name: String,
    pub url: String,
}

pub struct SavedAppView {
    pub name: Seq<char>,
    pub url: Seq<char>,
}

impl View for SavedApp {
    type V = SavedAppView;

    open spec fn view(&self) -> SavedAppView {
        SavedAppView { name: self.name@, url: self.url@ }
    }
}

impl Clone for SavedApp {
    fn clone(&self) -> (r: Self)
        ensures
            r == *self,
    {
        SavedApp { name: self.name.clone(), url: self.url.clone() }
    }
}

/// Persistent configuration: the saved applications and the URL of the
/// active one.
#[derive(Debug)]
pub struct TsbConfig {
    pub apps: Vec<SavedApp>,
    pub active_app_url: Option<String>,
}

pub struct TsbConfigView {
    pub apps: Seq<SavedAppView>,
    pub active_app_url: Option<Seq<char>>,
}

/// The views of a sequence of saved apps.
pub open spec fn saved_views(s: Seq<SavedApp>) -> Seq<SavedAppView> {
    s.map_values(|a: SavedApp| a@)
}

impl View for TsbConfig {
    type V = TsbConfigView;

    open spec fn view(&self) -> TsbConfigView {
        TsbConfigView { apps: saved_views(self.apps@), active_app_url: opt_view(self.active_app_url) }
    }
}

impl Default for TsbConfig {
    fn default() -> (r: Self)
        ensures
            r@.apps == Seq::<SavedAppView>::empty(),
            r@.active_app_url is None,
    {
        let r = TsbConfig { apps: Vec::new(), active_app_url: None };
        proof {
            assert(saved_views(r.apps@) =~= Seq::<SavedAppView>::empty());
        }
        r
    }
}

/// The position of the first saved app with the given URL, if any.
pub open spec fn index_of_url(apps: Seq<SavedAppView>, url: Seq<char>) -> Option<int>
    decreases apps.len(),
{
    if apps.len() == 0 {
        None
    } else {
        match index_of_url(apps.drop_last(), url) {
            Some(i) => Some(i),
            None => if apps.last().url == url {
                Some(apps.len() - 1)
            } else {
                None
            },
        }
    }
}

/// What `add_app` makes of a list of saved apps: the first entry with the
/// URL gets the new name, or the entry is appended when none has it.
pub open spec fn with_app(apps: Seq<SavedAppView>, name: Seq<char>, url: Seq<char>) -> Seq<
    SavedAppView,
> {
    match index_of_url(apps, url) {
        Some(i) => apps.update(i, SavedAppView { name, url }),
        None => apps.push(SavedAppView { name, url }),
    }
}

/// The entries whose URL differs from `url`, in their order.
pub open spec fn without_url(apps: Seq<SavedAppView>, url: Seq<char>) -> Seq<SavedAppView>
    decreases apps.len(),
{
    if apps.len() == 0 {
        apps
    } else {
        let rest = without_url(apps.drop_last(), url);
        if apps.last().url == url {
            rest
        } else {
            rest.push(apps.last())
        }
    }
}

/// No two saved apps share a URL.
pub open spec fn urls_unique(apps: Seq<SavedAppView>) -> bool {
    forall|i: int, j: int| 0 <= i < j < apps.len() ==> apps[i].url != apps[j].url
}

/// Some saved app has the URL.
pub open spec fn has_url(apps: Seq<SavedAppView>, url: Seq<char>) -> bool {
    exists|i: int| 0 <= i < apps.len() && apps[i].url == url
}

pub proof fn lemma_index_of_url(apps: Seq<SavedAppView>, url: Seq<char>)
    ensures
        index_of_url(apps, url) matches Some(i) ==> 0 <= i < apps.len() && apps[i].url == url
            && forall|j: int| 0 <= j < i ==> apps[j].url != url,
        index_of_url(apps, url) is None ==> forall|j: int|
            0 <= j < apps.len() ==> apps[j].url != url,
    decreases apps.len(),
{
    if apps.len() > 0 {
        lemma_index_of_url(apps.drop_last(), url);
        assert forall|j: int| 0 <= j < apps.len() - 1 implies apps[j] == apps.drop_last()[j] by {}
    }
}

proof fn lemma_index_of_url_first(apps: Seq<SavedAppView>, url: Seq<char>, i: int)
    requires
        0 <= i < apps.len(),
        apps[i].url == url,
        forall|j: int| 0 <= j < i ==> apps[j].url != url,
    ensures
        index_of_url(apps, url) == Some(i),
    decreases apps.len(),
{
    if i < apps.len() - 1 {
        lemma_index_of_url_first(apps.drop_last(), url, i);
    } else {
        lemma_index_of_url(apps.drop_last(), url);
    }
}

proof fn lemma_index_of_url_none(apps: Seq<SavedAppView>, url: Seq<char>)
    requires
        forall|j: int| 0 <= j < apps.len() ==> apps[j].url != url,
    ensures
        index_of_url(apps, url) is None,
    decreases apps.len(),
{
    if apps.len() > 0 {
        lemma_index_of_url_none(apps.drop_last(), url);
    }
}

pub proof fn lemma_without_url(apps: Seq<SavedAppView>, url: Seq<char>)
    ensures
        forall|i: int|
            0 <= i < without_url(apps, url).len() ==> without_url(apps, url)[i].url != url
                && apps.contains(#[trigger] without_url(apps, url)[i]),
        forall|i: int|
            0 <= i < apps.len() && apps[i].url != url ==> without_url(apps, url).contains(
                #[trigger] apps[i],
            ),
        without_url(apps, url).len() <= apps.len(),
    decreases apps.len(),
{
    if apps.len() > 0 {
        let rest = without_url(apps.drop_last(), url);
        lemma_without_url(apps.drop_last(), url);
        assert forall|i: int| 0 <= i < without_url(apps, url).len() implies without_url(
            apps,
            url,
        )[i].url != url && apps.contains(#[trigger] without_url(apps, url)[i]) by {
            if i < rest.len() {
                assert(without_url(apps, url)[i] == rest[i]);
                assert(apps.drop_last().contains(rest[i]));
                let k = choose|k: int| 0 <= k < apps.drop_last().len() && apps.drop_last()[k] == rest[i];
                assert(apps[k] == rest[i]);
            } else {
                assert(apps[apps.len() - 1] == apps.last());
            }
        }
        assert forall|i: int| 0 <= i < apps.len() && apps[i].url != url implies without_url(
            apps,
            url,
        ).contains(#[trigger] apps[i]) by {
            if i < apps.len() - 1 {
                assert(apps.drop_last()[i] == apps[i]);
                assert(rest.contains(apps[i]));
                let k = choose|k: int| 0 <= k < rest.len() && rest[k] == apps[i];
                assert(without_url(apps, url)[k] == apps[i]);
            } else {
                let w = without_url(apps, url);
                assert(w[w.len() - 1] == apps[i]);
            }
        }
    }
}

/// The position of the first saved app with the URL.
pub fn find_url(apps: &Vec<SavedApp>, url: &str) -> (r: Option<usize>)
    ensures
        r matches Some(i) ==> index_of_url(saved_views(apps@), url@) == Some(i as int),
        r is None ==> index_of_url(saved_views(apps@), url@) is None,
{
    let ghost views = saved_views(apps@);
    let mut i: usize = 0;
    while i < apps.len()
        invariant
            i <= apps.len(),
            views == saved_views(apps@),
            forall|j: int| 0 <= j < i ==> views[j].url != url@,
        decreases apps.len() - i,
    {
        if str_eq(apps[i].url.as_str(), url) {
            proof {
                lemma_index_of_url_first(views, url@, i as int);
            }
            return Some(i);
        }
        i += 1;
    }
    proof {
        lemma_index_of_url_none(views, url@);
    }
    None
}

impl TsbConfig {
    /// Adds a new app, or renames the first one with the same URL.
    pub fn add_app(&mut self, name: String, url: String)
        ensures
            final(self)@.apps == with_app(old(self)@.apps, name@, url@),
            final(self)@.active_app_url == old(self)@.active_app_url,
    {
        let ghost old_apps = saved_views(self.apps@);
        proof {
            lemma_index_of_url(old_apps, url@);
        }
        match find_url(&self.apps, url.as_str()) {
            Some(i) => {
                self.apps.set(i, SavedApp { name, url });
                proof {
                    assert(saved_views(self.apps@) =~= old_apps.update(
                        i as int,
                        SavedAppView { name: self.apps@[i as int].name@, url: self.apps@[i as int].url@ },
                    ));
                }
            },
            None => {
                self.apps.push(SavedApp { name, url });
                proof {
                    assert(saved_views(self.apps@) =~= old_apps.push(
                        SavedAppView { name: self.apps@.last().name@, url: self.apps@.last().url@ },
                    ));
                }
            },
        }
    }

    /// Removes every app with the URL; clears the active URL when it is
    /// that URL.
    pub fn remove_app(&mut self, url: &str)
        ensures
            final(self)@.apps == without_url(old(self)@.apps, url@),
            final(self)@.active_app_url == (if old(self)@.active_app_url == Some(url@) {
                None::<Seq<char>>
            } else {
                old(self)@.active_app_url
            }),
    {
        let ghost old_apps = saved_views(self.apps@);
        let mut kept: Vec<SavedApp> = Vec::new();
        let mut i: usize = 0;
        while i < self.apps.len()
            invariant
                i <= self.apps.len(),
                saved_views(self.apps@) == old_apps,
                saved_views(kept@) == without_url(old_apps.take(i as int), url@),
            decreases self.apps.len() - i,
        {
            proof {
                assert(old_apps.take(i + 1).drop_last() =~= old_apps.take(i as int));
            }
            if !str_eq(self.apps[i].url.as_str(), url) {
                kept.push(self.apps[i].clone());
                proof {
                    assert(saved_views(kept@) =~= saved_views(kept@.drop_last()).push(
                        old_apps[i as int],
                    ));
                }
            }
            i += 1;
        }
        proof {
            assert(old_apps.take(i as int) =~= old_apps);
        }
        self.apps = kept;
        let clear = match &self.active_app_url {
            Some(active) => str_eq(active.as_str(), url),
            None => false,
        };
        if clear {
            self.active_app_url = None;
        }
    }
}

// ---------------------------------------------------------------------------
// Laws
// ---------------------------------------------------------------------------

/// After adding an app, exactly one position holds its URL's first entry,
/// and that entry carries the new name.
pub proof fn law_add_then_lookup(apps: Seq<SavedAppView>, name: Seq<char>, url: Seq<char>)
    ensures
        index_of_url(with_app(apps, name, url), url) matches Some(i) && with_app(
            apps,
            name,
            url,
        )[i] == (SavedAppView { name, url }),
{
    lemma_index_of_url(apps, url);
    let r = with_app(apps, name, url);
    match index_of_url(apps, url) {
        Some(i) => {
            assert forall|j: int| 0 <= j < i implies r[j].url != url by {}
            lemma_index_of_url_first(r, url, i);
        },
        None => {
            assert forall|j: int| 0 <= j < apps.len() implies r[j].url != url by {}
            lemma_index_of_url_first(r, url, apps.len() as int);
        },
    }
}

/// Adding an app never removes one: the list grows by one exactly when no
/// saved app had the URL, and is otherwise as long as before.
pub proof fn law_add_length(apps: Seq<SavedAppView>, name: Seq<char>, url: Seq<char>)
    ensures
        with_app(apps, name, url).len() == (if has_url(apps, url) {
            apps.len()
        } else {
            apps.len() + 1
        }),
{
    lemma_index_of_url(apps, url);
    if has_url(apps, url) {
        let k = choose|k: int| 0 <= k < apps.len() && apps[k].url == url;
        assert(index_of_url(apps, url) is Some);
    }
}

/// Adding and removing apps keep saved URLs free of duplicates.
pub proof fn law_urls_stay_unique(apps: Seq<SavedAppView>, name: Seq<char>, url: Seq<char>, gone: Seq<char>)
    requires
        urls_unique(apps),
    ensures
        urls_unique(with_app(apps, name, url)),
        urls_unique(without_url(apps, gone)),
{
    lemma_index_of_url(apps, url);
    lemma_without_url_unique(apps, gone);
}

proof fn lemma_without_url_unique(apps: Seq<SavedAppView>, url: Seq<char>)
    requires
        urls_unique(apps),
    ensures
        urls_unique(without_url(apps, url)),
        forall|k: int|
            0 <= k < without_url(apps, url).len() ==> has_url(
                apps.drop_last().push(apps.last()),
                #[trigger] without_url(apps, url)[k].url,
            ) || apps.len() == 0,
    decreases apps.len(),
{
    if apps.len() > 0 {
        let rest = without_url(apps.drop_last(), url);
        assert(urls_unique(apps.drop_last()));
        lemma_without_url_unique(apps.drop_last(), url);
        lemma_without_url(apps.drop_last(), url);
        assert(apps.drop_last().push(apps.last()) =~= apps);
        assert forall|k: int| 0 <= k < without_url(apps, url).len() implies has_url(
            apps.drop_last().push(apps.last()),
            #[trigger] without_url(apps, url)[k].url,
        ) by {
            lemma_without_url(apps, url);
            let w = without_url(apps, url);
            assert(apps.contains(w[k]));
            let m = choose|m: int| 0 <= m < apps.len() && apps[m] == w[k];
            assert(apps[m].url == w[k].url);
        }
        if apps.last().url != url {
            assert forall|i: int, j: int|
                0 <= i < j < without_url(apps, url).len() implies without_url(apps, url)[i].url
                != without_url(apps, url)[j].url by {
                let w = without_url(apps, url);
                if j == w.len() - 1 {
                    assert(w[i] == rest[i]);
                    assert(apps.drop_last().contains(rest[i]));
                    let m = choose|m: int|
                        0 <= m < apps.drop_last().len() && apps.drop_last()[m] == rest[i];
                    assert(apps[m] == rest[i]);
                    assert(apps[apps.len() - 1] == apps.last());
                } else {
                    assert(w[i] == rest[i]);
                    assert(w[j] == rest[j]);
                }
            }
        }
    }
}

/// After removing a URL, no saved app has it.
pub proof fn law_remove_removes(apps: Seq<SavedAppView>, url: Seq<char>)
    ensures
        !has_url(without_url(apps, url), url),
{
    lemma_without_url(apps, url);
}

/// Removing a URL that no saved app has changes nothing.
pub proof fn law_remove_absent_is_noop(apps: Seq<SavedAppView>, url: Seq<char>)
    requires
        !has_url(apps, url),
    ensures
        without_url(apps, url) == apps,
    decreases apps.len(),
{
    if apps.len() > 0 {
        assert(!has_url(apps.drop_last(), url)) by {
            if has_url(apps.drop_last(), url) {
                let k = choose|k: int|
                    0 <= k < apps.drop_last().len() && apps.drop_last()[k].url == url;
                assert(apps[k].url == url);
            }
        }
        law_remove_absent_is_noop(apps.drop_last(), url);
        assert(apps[apps.len() - 1].url != url);
        assert(apps.drop_last().push(apps.last()) =~= apps);
    }
}

/// Removing the same URL twice is the same as removing it once.
pub proof fn law_remove_idempotent(apps: Seq<SavedAppView>, url: Seq<char>)
    ensures
        without_url(without_url(apps, url), url) == without_url(apps, url),
{
    law_remove_removes(apps, url);
    law_remove_absent_is_noop(without_url(apps, url), url);
}

/// Removing a URL right after adding it leaves no app with that URL, and
/// keeps every other app of the list.
pub proof fn law_add_then_remove(apps: Seq<SavedAppView>, name: Seq<char>, url: Seq<char>)
    ensures
        !has_url(without_url(with_app(apps, name, url), url), url),
        without_url(with_app(apps, name, url), url) == without_url(apps, url),
{
    law_remove_removes(with_app(apps, name, url), url);
    lemma_index_of_url(apps, url);
    lemma_without_url_update(apps, name, url);
}

proof fn lemma_without_url_update(apps: Seq<SavedAppView>, name: Seq<char>, url: Seq<char>)
    ensures
        without_url(with_app(apps, name, url), url) == without_url(apps, url),
{
    lemma_index_of_url(apps, url);
    match index_of_url(apps, url) {
        Some(i) => lemma_without_url_same_except(apps, apps.update(i, SavedAppView { name, url }), url),
        None => {
            let r = apps.push(SavedAppView { name, url });
            assert(r.drop_last() =~= apps);
        },
    }
}

proof fn lemma_without_url_same_except(a: Seq<SavedAppView>, b: Seq<SavedAppView>, url: Seq<char>)
    requires
        a.len() == b.len(),
        forall|i: int| 0 <= i < a.len() ==> a[i] == b[i] || (a[i].url == url && b[i].url == url),
    ensures
        without_url(a, url) == without_url(b, url),
    decreases a.len(),
{
    if a.len() > 0 {
        lemma_without_url_same_except(a.drop_last(), b.drop_last(), url);
    }
}

} // verus!
