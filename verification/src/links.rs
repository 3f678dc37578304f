//! Checking whether the links in the library still lead somewhere.

use vstd::prelude::*;

use crate::db::{list_entries, list_episodes};
use crate::models::{
    entry_views, episode_views, label_text, Entry, EntryKind, EntryView, Episode, EpisodeView,
};
use crate::state::AppState;
use crate::tables::{Library, Tables};
use crate::text::{blank, concat3, concat5, contains_text, count_text, decimal, is_blank, texts};

verus! {

broadcast use vstd::string::group_string_axioms;

// ---------------------------------------------------------------------
// What there is to check
// ---------------------------------------------------------------------

/// A link, and what it is the link of.
pub struct LinkItem {
    pub label: String,
    pub link: String,
}

#[verifier::ext_equal]
pub struct LinkItemView {
    pub label: Seq<char>,
    pub link: Seq<char>,
}

impl View for LinkItem {
    type V = LinkItemView;

    open spec fn view(&self) -> LinkItemView {
        LinkItemView { label: self.label@, link: self.link@ }
    }
}

pub open spec fn link_item_views(s: Seq<LinkItem>) -> Seq<LinkItemView> {
    s.map_values(|e: LinkItem| e@)
}

pub open spec fn linked_entry() -> spec_fn(EntryView) -> bool {
    |e: EntryView| !blank(e.link_or_path)
}

pub open spec fn linked_episode() -> spec_fn(EpisodeView) -> bool {
    |e: EpisodeView| !blank(e.link_or_path)
}

pub open spec fn movie_link() -> spec_fn(EntryView) -> LinkItemView {
    |e: EntryView| LinkItemView { label: e.title, link: e.link_or_path }
}

pub open spec fn episode_link(series: Seq<char>) -> spec_fn(EpisodeView) -> LinkItemView {
    |e: EpisodeView|
        LinkItemView { label: series + " - "@ + label_text(e), link: e.link_or_path }
}

impl Tables {
    /// The links of a series: those of its episodes, in order.
    pub open spec fn links_of(self, series: EntryView) -> Seq<LinkItemView> {
        self.listed_episodes(series.id).filter(linked_episode()).map_values(
            episode_link(series.title),
        )
    }

    /// The links of some series, one after the other.
    pub open spec fn links_of_all(self, series: Seq<EntryView>) -> Seq<LinkItemView>
        decreases series.len(),
    {
        if series.len() == 0 {
            Seq::empty()
        } else {
            self.links_of_all(series.drop_last()) + self.links_of(series.last())
        }
    }

    /// All links in the library: first those of the movies, then those of the
    /// series. What has no link is left out.
    pub open spec fn all_links(self) -> Seq<LinkItemView> {
        self.listed_entries(EntryKind::Movie).filter(linked_entry()).map_values(movie_link())
            + self.links_of_all(self.listed_entries(EntryKind::Series))
    }
}

fn movie_links(movies: &Vec<Entry>) -> (res: Vec<LinkItem>)
    ensures
        link_item_views(res@) == entry_views(movies@).filter(linked_entry()).map_values(
            movie_link(),
        ),
{
    let ghost all = entry_views(movies@);
    let ghost p = linked_entry();
    let ghost f = movie_link();
    let mut res: Vec<LinkItem> = Vec::new();
    let mut i: usize = 0;
    proof {
        reveal(Seq::filter);
        assert(all.take(0).filter(p).map_values(f) == Seq::<LinkItemView>::empty());
        assert(link_item_views(res@) == Seq::<LinkItemView>::empty());
    }
    while i < movies.len()
        invariant
            i <= movies@.len(),
            all == entry_views(movies@),
            p == linked_entry(),
            f == movie_link(),
            link_item_views(res@) == all.take(i as int).filter(p).map_values(f),
        decreases movies@.len() - i,
    {
        let ghost before = res@;
        proof {
            reveal(Seq::filter);
            let kept = all.take(i as int).filter(p);
            let e = movies@[i as int]@;
            assert(all.take(i + 1).drop_last() == all.take(i as int));
            assert(all.take(i + 1).last() == e);
            assert(kept.push(e).map_values(f) == kept.map_values(f).push(f(e)));
        }
        if !is_blank(movies[i].link_or_path.as_str()) {
            let item = LinkItem {
                label: movies[i].title.clone(),
                link: movies[i].link_or_path.clone(),
            };
            res.push(item);
            assert(link_item_views(res@) == link_item_views(before).push(item@));
        }
        i += 1;
    }
    assert(all.take(all.len() as int) == all);
    res
}

fn push_episode_links(res: &mut Vec<LinkItem>, series: &str, episodes: &Vec<Episode>)
    ensures
        link_item_views(final(res)@) == link_item_views(old(res)@) + episode_views(
            episodes@,
        ).filter(linked_episode()).map_values(episode_link(series@)),
{
    let ghost all = episode_views(episodes@);
    let ghost p = linked_episode();
    let ghost f = episode_link(series@);
    let ghost start = link_item_views(res@);
    let mut i: usize = 0;
    proof {
        reveal(Seq::filter);
        assert(all.take(0).filter(p).map_values(f) == Seq::<LinkItemView>::empty());
        assert(start + Seq::<LinkItemView>::empty() == start);
    }
    while i < episodes.len()
        invariant
            i <= episodes@.len(),
            all == episode_views(episodes@),
            p == linked_episode(),
            f == episode_link(series@),
            link_item_views(res@) == start + all.take(i as int).filter(p).map_values(f),
        decreases episodes@.len() - i,
    {
        let ghost before = res@;
        let ghost kept = all.take(i as int).filter(p);
        proof {
            reveal(Seq::filter);
            let e = episodes@[i as int]@;
            assert(all.take(i + 1).drop_last() == all.take(i as int));
            assert(all.take(i + 1).last() == e);
            assert(kept.push(e).map_values(f) == kept.map_values(f).push(f(e)));
        }
        if !is_blank(episodes[i].link_or_path.as_str()) {
            let label = concat3(series, " - ", episodes[i].label().as_str());
            let item = LinkItem { label, link: episodes[i].link_or_path.clone() };
            res.push(item);
            assert(link_item_views(res@) == link_item_views(before).push(item@));
            assert(link_item_views(res@) == start + all.take(i + 1).filter(p).map_values(f));
        }
        i += 1;
    }
    assert(all.take(all.len() as int) == all);
}

/// All links in the library.
pub fn collect_links(library: &Library) -> (res: Vec<LinkItem>)
    ensures
        link_item_views(res@) == library@.tables.all_links(),
{
    let ghost t = library@.tables;
    let movies = list_entries(library, EntryKind::Movie);
    let series = list_entries(library, EntryKind::Series);
    let mut res = movie_links(&movies);
    let ghost start = link_item_views(res@);
    let ghost all = entry_views(series@);
    let mut i: usize = 0;
    assert(start + t.links_of_all(all.take(0)) == start);
    while i < series.len()
        invariant
            i <= series@.len(),
            t == library@.tables,
            all == entry_views(series@),
            link_item_views(res@) == start + t.links_of_all(all.take(i as int)),
        decreases series@.len() - i,
    {
        let episodes = list_episodes(library, series[i].id);
        proof {
            assert(all.take(i + 1).drop_last() == all.take(i as int));
            assert(all.take(i + 1).last() == series@[i as int]@);
            assert(start + (t.links_of_all(all.take(i as int)) + t.links_of(series@[i as int]@)) == (
            start + t.links_of_all(all.take(i as int))) + t.links_of(series@[i as int]@));
        }
        push_episode_links(&mut res, series[i].title.as_str(), &episodes);
        i += 1;
    }
    assert(all.take(all.len() as int) == all);
    res
}

// ---------------------------------------------------------------------
// Checking
// ---------------------------------------------------------------------

/// A check under way: the links, how many were checked, and what turned out
/// broken.
pub struct LinkCheck {
    items: Vec<LinkItem>,
    done: usize,
    broken: Vec<String>,
}

#[verifier::ext_equal]
pub struct LinkCheckView {
    pub items: Seq<LinkItemView>,
    pub done: int,
    pub broken: Seq<Seq<char>>,
}

impl View for LinkCheck {
    type V = LinkCheckView;

    closed spec fn view(&self) -> LinkCheckView {
        LinkCheckView {
            items: link_item_views(self.items@),
            done: self.done as int,
            broken: texts(self.broken@),
        }
    }
}

/// Texts with a separator between any two.
pub open spec fn joined(parts: Seq<Seq<char>>, separator: Seq<char>) -> Seq<char>
    decreases parts.len(),
{
    if parts.len() == 0 {
        Seq::empty()
    } else if parts.len() == 1 {
        parts[0]
    } else {
        joined(parts.drop_last(), separator) + separator + parts.last()
    }
}

/// How many broken links a report names.
pub const NAMED_LIMIT: usize = 5;

/// What a check found: how many links were checked, and which of them are
/// broken. Of many broken ones it names the first.
pub open spec fn report_text(total: int, broken: Seq<Seq<char>>) -> Seq<char> {
    let count = broken.len() as int;
    if count == 0 {
        "Checked "@ + decimal(total) + " link(s). All resolved fine."@
    } else if count <= NAMED_LIMIT {
        "Checked "@ + decimal(total) + " link(s) - "@ + decimal(count) + " broken: "@ + joined(
            broken,
            ", "@,
        )
    } else {
        "Checked "@ + decimal(total) + " link(s) - "@ + decimal(count) + " broken: "@ + joined(
            broken.take(NAMED_LIMIT as int),
            ", "@,
        ) + (", and "@ + decimal(count - NAMED_LIMIT) + " more."@)
    }
}

impl LinkCheckView {
    pub open spec fn wf(self) -> bool {
        &&& 0 <= self.done <= self.items.len()
        &&& self.broken.len() <= self.done
    }

    /// The check after the next link was tried.
    pub open spec fn after(self, ok: bool) -> LinkCheckView {
        LinkCheckView {
            done: self.done + 1,
            broken: if ok {
                self.broken
            } else {
                self.broken.push(self.items[self.done].label)
            },
            ..self
        }
    }

    /// The check after as many links as there are answers were tried.
    pub open spec fn after_all(self, answers: Seq<bool>) -> LinkCheckView
        decreases answers.len(),
    {
        if answers.len() == 0 {
            self
        } else {
            self.after_all(answers.drop_last()).after(answers.last())
        }
    }

    /// What the user is told after a link was tried: the report after the last,
    /// how far the check is after every fifth, and nothing new in between.
    pub open spec fn told(self) -> Option<Seq<char>> {
        if self.done == self.items.len() {
            Some(report_text(self.items.len() as int, self.broken))
        } else if self.done % 5 == 0 {
            Some(
                "Checking links... "@ + decimal(self.done) + "/"@ + decimal(
                    self.items.len() as int,
                ),
            )
        } else {
            None
        }
    }
}

/// The labels of the links that turned out broken, in order.
pub open spec fn broken_labels(items: Seq<LinkItemView>, answers: Seq<bool>) -> Seq<Seq<char>>
    decreases answers.len(),
{
    if answers.len() == 0 {
        Seq::empty()
    } else {
        let before = broken_labels(items, answers.drop_last());
        if answers.last() {
            before
        } else {
            before.push(items[answers.len() - 1].label)
        }
    }
}

/// Once every link was tried, the check has named exactly the broken ones.
pub proof fn law_check_names_broken(items: Seq<LinkItemView>, answers: Seq<bool>)
    requires
        answers.len() <= items.len(),
    ensures
        (LinkCheckView { items, done: 0, broken: Seq::empty() }).after_all(answers) == (
        LinkCheckView { items, done: answers.len() as int, broken: broken_labels(items, answers) }),
    decreases answers.len(),
{
    if answers.len() > 0 {
        law_check_names_broken(items, answers.drop_last());
    }
}

/// The links that turned out broken are named, each of them and no others.
pub proof fn law_broken_are_named(items: Seq<LinkItemView>, answers: Seq<bool>)
    requires
        answers.len() <= items.len(),
    ensures
        forall|i: int|
            0 <= i < answers.len() && !(#[trigger] answers[i]) ==> broken_labels(
                items,
                answers,
            ).contains(items[i].label),
        forall|k: int|
            0 <= k < broken_labels(items, answers).len() ==> exists|i: int|
                0 <= i < answers.len() && !(#[trigger] answers[i]) && items[i].label
                    == #[trigger] broken_labels(items, answers)[k],
        (forall|i: int| 0 <= i < answers.len() ==> #[trigger] answers[i]) <==> broken_labels(
            items,
            answers,
        ).len() == 0,
        broken_labels(items, answers).len() <= answers.len(),
    decreases answers.len(),
{
    if answers.len() > 0 {
        let rest = answers.drop_last();
        let n = answers.len() - 1;
        let before = broken_labels(items, rest);
        let all = broken_labels(items, answers);
        law_broken_are_named(items, rest);
        assert forall|i: int| 0 <= i < answers.len() && !(#[trigger] answers[i]) implies all.contains(
            items[i].label,
        ) by {
            if i < n {
                assert(!rest[i]);
                let k = choose|k: int| 0 <= k < before.len() && before[k] == items[i].label;
                assert(all[k] == items[i].label);
            } else {
                assert(all[before.len() as int] == items[i].label);
            }
        }
        assert forall|k: int| 0 <= k < all.len() implies exists|i: int|
            0 <= i < answers.len() && !(#[trigger] answers[i]) && items[i].label
                == #[trigger] all[k] by {
            if k < before.len() {
                assert(before[k] == all[k]);
                let i = choose|i: int|
                    0 <= i < rest.len() && !(#[trigger] rest[i]) && items[i].label == before[k];
                assert(!answers[i]);
            } else {
                assert(!answers[n]);
            }
        }
        if forall|i: int| 0 <= i < answers.len() ==> #[trigger] answers[i] {
            assert(answers[n]);
            assert forall|i: int| 0 <= i < rest.len() implies #[trigger] rest[i] by {
                assert(answers[i]);
            }
        }
        if all.len() == 0 {
            assert forall|i: int| 0 <= i < answers.len() implies #[trigger] answers[i] by {
                if i < n {
                    assert(rest[i]);
                }
            }
        }
    }
}

/// A report tells how many links were checked and how many of them are broken, and
/// names the broken ones: the first five, and how many more there are.
pub proof fn law_report_tells(total: int, broken: Seq<Seq<char>>, i: int)
    requires
        0 <= i < broken.len(),
    ensures
        ({
            let head = "Checked "@ + decimal(total) + " link(s) - "@ + decimal(
                broken.len() as int,
            ) + " broken: "@;
            &&& head.is_prefix_of(report_text(total, broken))
            &&& i < 5 ==> contains_text(report_text(total, broken), broken[i])
            &&& broken.len() > 5 ==> (", and "@ + decimal(broken.len() - 5) + " more."@).is_suffix_of(
                report_text(total, broken),
            )
        }),
{
    let head = "Checked "@ + decimal(total) + " link(s) - "@ + decimal(broken.len() as int)
        + " broken: "@;
    let text = report_text(total, broken);
    let named = if broken.len() <= NAMED_LIMIT {
        broken
    } else {
        broken.take(NAMED_LIMIT as int)
    };
    let names = joined(named, ", "@);
    let tail = if broken.len() <= NAMED_LIMIT {
        Seq::empty()
    } else {
        ", and "@ + decimal(broken.len() - NAMED_LIMIT) + " more."@
    };
    assert(text =~= head + names + tail);
    assert(text.subrange(0, head.len() as int) =~= head);
    assert(text.subrange(text.len() - tail.len(), text.len() as int) =~= tail);
    if i < 5 {
        lemma_joined_holds(named, ", "@, i);
        let k = choose|k: int|
            0 <= k <= names.len() - named[i].len() && #[trigger] names.subrange(
                k,
                k + named[i].len(),
            ) == named[i];
        let at = head.len() + k;
        assert(text.subrange(at, at + named[i].len()) =~= names.subrange(k, k + named[i].len()));
        assert(named[i] == broken[i]);
    }
}

proof fn lemma_joined_holds(parts: Seq<Seq<char>>, separator: Seq<char>, i: int)
    requires
        0 <= i < parts.len(),
    ensures
        contains_text(joined(parts, separator), parts[i]),
    decreases parts.len(),
{
    let whole = joined(parts, separator);
    let part = parts[i];
    if parts.len() == 1 {
        let at = 0int;
        assert(whole.subrange(at, at + part.len()) =~= part);
    } else {
        let rest = parts.drop_last();
        let before = joined(rest, separator);
        if i == parts.len() - 1 {
            let at = (before + separator).len() as int;
            assert(whole.subrange(at, at + part.len()) =~= part);
        } else {
            lemma_joined_holds(rest, separator, i);
            let k = choose|k: int|
                0 <= k <= before.len() - part.len() && #[trigger] before.subrange(
                    k,
                    k + part.len(),
                ) == part;
            assert(whole.subrange(k, k + part.len()) =~= before.subrange(k, k + part.len()));
        }
    }
}

/// A check is over once every link was tried, and then says so: that all is well
/// exactly where no answer was bad.
pub proof fn law_check_ends(items: Seq<LinkItemView>, answers: Seq<bool>)
    requires
        answers.len() == items.len(),
    ensures
        ({
            let end = (LinkCheckView { items, done: 0, broken: Seq::empty() }).after_all(answers);
            &&& end.done == items.len()
            &&& end.told() is Some
            &&& (forall|i: int| 0 <= i < answers.len() ==> #[trigger] answers[i])
                ==> end.told() == Some(
                "Checked "@ + decimal(items.len() as int) + " link(s). All resolved fine."@,
            )
            &&& !(forall|i: int| 0 <= i < answers.len() ==> #[trigger] answers[i])
                ==> end.broken.len() > 0 && end.told() == Some(
                report_text(items.len() as int, end.broken),
            )
        }),
{
    law_check_names_broken(items, answers);
    law_broken_are_named(items, answers);
}

fn join_texts(parts: &Vec<String>, count: usize) -> (res: String)
    requires
        count <= parts@.len(),
    ensures
        res@ == joined(texts(parts@).take(count as int), ", "@),
{
    let ghost all = texts(parts@);
    let mut res = String::new();
    let mut i: usize = 0;
    while i < count
        invariant
            i <= count <= parts@.len(),
            all == texts(parts@),
            res@ == joined(all.take(i as int), ", "@),
        decreases count - i,
    {
        let ghost before = res@;
        if i > 0 {
            res.append(", ");
        }
        res.append(parts[i].as_str());
        proof {
            let taken = all.take(i + 1);
            assert(taken.drop_last() == all.take(i as int));
            assert(taken.last() == parts@[i as int]@);
            if i == 0 {
                assert(before == Seq::<char>::empty());
                assert(Seq::<char>::empty() + parts@[0]@ == parts@[0]@);
            }
        }
        i += 1;
    }
    res
}

fn report(total: usize, broken: &Vec<String>) -> (res: String)
    ensures
        res@ == report_text(total as int, texts(broken@)),
{
    let count: usize = broken.len();
    if count == 0 {
        return concat3("Checked ", count_text(total).as_str(), " link(s). All resolved fine.");
    }
    let head = concat5(
        "Checked ",
        count_text(total).as_str(),
        " link(s) - ",
        count_text(count).as_str(),
        " broken: ",
    );
    let named: usize = if count <= NAMED_LIMIT {
        count
    } else {
        NAMED_LIMIT
    };
    let mut res = head;
    res.append(join_texts(broken, named).as_str());
    if count > NAMED_LIMIT {
        res.append(concat3(", and ", count_text(count - NAMED_LIMIT).as_str(), " more.").as_str());
    } else {
        assert(texts(broken@).take(count as int) == texts(broken@));
    }
    res
}

impl LinkCheck {
    pub open spec fn wf(self) -> bool {
        self@.wf()
    }

    /// The link to try next, if one is left.
    pub fn next_link(&self) -> (res: Option<&str>)
        requires
            self.wf(),
        ensures
            match res {
                Some(link) => self@.done < self@.items.len() && link@
                    == self@.items[self@.done].link,
                None => self@.done == self@.items.len(),
            },
    {
        if self.done < self.items.len() {
            Some(self.items[self.done].link.as_str())
        } else {
            None
        }
    }

    /// Takes note of whether the next link led somewhere.
    pub fn record(&mut self, ok: bool)
        requires
            old(self).wf(),
            old(self)@.done < old(self)@.items.len(),
        ensures
            final(self).wf(),
            final(self)@ == old(self)@.after(ok),
    {
        let ghost before = self.broken@;
        let total: usize = self.items.len();
        assert(self.done < total);
        if !ok {
            let label = self.items[self.done].label.clone();
            self.broken.push(label);
            assert(texts(self.broken@) == texts(before).push(label@));
        }
        self.done += 1;
    }

    fn message(&self) -> (res: Option<String>)
        requires
            self.wf(),
        ensures
            crate::tables::text_view(res) == self@.told(),
    {
        if self.done == self.items.len() {
            Some(report(self.items.len(), &self.broken))
        } else if self.done % 5 == 0 {
            let mut res = concat3("Checking links... ", count_text(self.done).as_str(), "/");
            res.append(count_text(self.items.len()).as_str());
            Some(res)
        } else {
            None
        }
    }
}

impl AppState {
    /// Starts to check all links.
    pub fn check_all_links(&mut self) -> (res: LinkCheck)
        requires
            old(self).wf(),
        ensures
            final(self).wf(),
            res.wf(),
            res@ == (LinkCheckView {
                items: old(self)@.library.tables.all_links(),
                done: 0,
                broken: Seq::empty(),
            }),
            final(self)@ == old(self)@.with_status(
                if old(self)@.library.tables.all_links().len() == 0 {
                    "No links to check."@
                } else {
                    "Checking links..."@
                },
            ),
    {
        let items = collect_links(&self.library);
        if items.len() == 0 {
            self.set_status("No links to check.");
        } else {
            self.set_status("Checking links...");
        }
        let res = LinkCheck { items, done: 0, broken: Vec::new() };
        assert(res@.broken == Seq::<Seq<char>>::empty());
        res
    }

    /// Takes note of whether the next link led somewhere, and tells the user.
    pub fn link_checked(&mut self, check: &mut LinkCheck, ok: bool)
        requires
            old(check).wf(),
            old(check)@.done < old(check)@.items.len(),
        ensures
            final(check).wf(),
            final(check)@ == old(check)@.after(ok),
            final(self)@ == (match old(check)@.after(ok).told() {
                Some(message) => old(self)@.with_status(message),
                None => old(self)@,
            }),
    {
        check.record(ok);
        if let Some(message) = check.message() {
            self.set_status(message.as_str());
        }
    }
}

} // verus!
