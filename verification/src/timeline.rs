//! The timeline of a series: its episodes, season by season.

use vstd::prelude::*;

use crate::db::{episode_order, lemma_episode_order, list_episodes};
use crate::models::{episode_views, label_text, Episode, EpisodeView};
use crate::screen::{
    episode_item_views, season_group_views, DetailView, EpisodeItem, EpisodeItemView, SeasonGroup,
    SeasonGroupView,
};
use crate::sorting::{in_order, law_stable_sorted};
use crate::state::{AppState, AppView, Selection};
use crate::tables::Tables;
use crate::text::{concat2, decimal, number_text};

verus! {

broadcast use vstd::string::group_string_axioms;

/// An episode as the timeline shows it.
pub open spec fn item_for(
    e: EpisodeView,
    selected: Option<i64>,
    checked: Seq<i64>,
) -> EpisodeItemView {
    EpisodeItemView {
        id: e.id,
        label: label_text(e),
        selected: selected == Some(e.id),
        finished: e.finished,
        checked: checked.contains(e.id),
    }
}

/// Episodes as the timeline shows them.
pub open spec fn items_for(
    episodes: Seq<EpisodeView>,
    selected: Option<i64>,
    checked: Seq<i64>,
) -> Seq<EpisodeItemView> {
    episodes.map_values(|e: EpisodeView| item_for(e, selected, checked))
}

/// A season in the timeline.
pub open spec fn season_of(season: i32, episodes: Seq<EpisodeItemView>) -> SeasonGroupView {
    SeasonGroupView { season, label: "Season "@ + decimal(season as int), episodes }
}

/// The timeline with one more episode: it goes with the last season, or starts
/// a new one.
pub open spec fn with_item(groups: Seq<SeasonGroupView>, season: i32, item: EpisodeItemView) -> Seq<
    SeasonGroupView,
> {
    if groups.len() > 0 && groups.last().season == season {
        groups.drop_last().push(season_of(season, groups.last().episodes.push(item)))
    } else {
        groups.push(season_of(season, seq![item]))
    }
}

/// Episodes in order, put together by season.
pub open spec fn grouped(
    episodes: Seq<EpisodeView>,
    selected: Option<i64>,
    checked: Seq<i64>,
) -> Seq<SeasonGroupView>
    decreases episodes.len(),
{
    if episodes.len() == 0 {
        Seq::empty()
    } else {
        with_item(
            grouped(episodes.drop_last(), selected, checked),
            episodes.last().season,
            item_for(episodes.last(), selected, checked),
        )
    }
}

pub(crate) fn holds_id(ids: &Vec<i64>, id: i64) -> (res: bool)
    ensures
        res == ids@.contains(id),
{
    let mut i: usize = 0;
    while i < ids.len()
        invariant
            i <= ids@.len(),
            forall|k: int| 0 <= k < i ==> ids@[k] != id,
        decreases ids@.len() - i,
    {
        if ids[i] == id {
            return true;
        }
        i += 1;
    }
    false
}

fn push_item(groups: &mut Vec<SeasonGroup>, season: i32, item: EpisodeItem)
    requires
        forall|i: int|
            0 <= i < old(groups)@.len() ==> (#[trigger] old(groups)@[i])@ == season_of(
                old(groups)@[i].season,
                episode_item_views(old(groups)@[i].episodes@),
            ),
    ensures
        season_group_views(final(groups)@) == with_item(
            season_group_views(old(groups)@),
            season,
            item@,
        ),
        forall|i: int|
            0 <= i < final(groups)@.len() ==> (#[trigger] final(groups)@[i])@ == season_of(
                final(groups)@[i].season,
                episode_item_views(final(groups)@[i].episodes@),
            ),
{
    let ghost before = groups@;
    let count: usize = groups.len();
    if count > 0 && groups[count - 1].season == season {
        if let Some(mut group) = groups.pop() {
            let ghost shown = group.episodes@;
            assert(group@ == before[count - 1]@);
            group.episodes.push(item);
            assert(episode_item_views(group.episodes@) == episode_item_views(shown).push(item@));
            groups.push(group);
            assert(season_group_views(groups@) == with_item(season_group_views(before), season, item@));
        }
    } else {
        let mut episodes: Vec<EpisodeItem> = Vec::new();
        episodes.push(item);
        assert(episode_item_views(episodes@) == seq![item@]);
        let label = concat2("Season ", number_text(season as i64).as_str());
        groups.push(SeasonGroup { season, label, episodes });
        assert(season_group_views(groups@) == with_item(season_group_views(before), season, item@));
    }
}

/// Puts episodes that are in order together by season.
pub fn season_groups(
    episodes: &Vec<Episode>,
    selected: Option<i64>,
    checked: &Vec<i64>,
) -> (res: Vec<SeasonGroup>)
    ensures
        season_group_views(res@) == grouped(episode_views(episodes@), selected, checked@),
{
    let ghost all = episode_views(episodes@);
    let mut groups: Vec<SeasonGroup> = Vec::new();
    let mut i: usize = 0;
    assert(season_group_views(groups@) == Seq::<SeasonGroupView>::empty());
    while i < episodes.len()
        invariant
            i <= episodes@.len(),
            all == episode_views(episodes@),
            season_group_views(groups@) == grouped(all.take(i as int), selected, checked@),
            forall|k: int|
                0 <= k < groups@.len() ==> (#[trigger] groups@[k])@ == season_of(
                    groups@[k].season,
                    episode_item_views(groups@[k].episodes@),
                ),
        decreases episodes@.len() - i,
    {
        let e = &episodes[i];
        let chosen = match selected {
            Some(id) => id == e.id,
            None => false,
        };
        let item = EpisodeItem {
            id: e.id,
            label: e.label(),
            selected: chosen,
            finished: e.finished,
            checked: holds_id(checked, e.id),
        };
        assert(item@ == item_for(e@, selected, checked@));
        proof {
            assert(all.take(i + 1).drop_last() == all.take(i as int));
            assert(all.take(i + 1).last() == e@);
        }
        push_item(&mut groups, e.season, item);
        i += 1;
    }
    assert(all.take(all.len() as int) == all);
    groups
}

impl AppView {
    /// The timeline of a series, with an episode selected.
    pub open spec fn timeline(self, entry_id: i64, episode_id: Option<i64>) -> Seq<SeasonGroupView> {
        grouped(self.library.tables.listed_episodes(entry_id), episode_id, self.bulk.selected)
    }

    /// The state with the timeline of the open series drawn anew.
    pub open spec fn refresh_timeline(self) -> AppView {
        match self.selected {
            Selection::Series { entry_id, episode_id } => AppView {
                detail: DetailView { seasons: self.timeline(entry_id, episode_id), ..self.detail },
                ..self
            },
            _ => self,
        }
    }
}

impl AppState {
    /// Draws the timeline of the open series anew, and nothing else.
    pub fn refresh_current_series_timeline(&mut self)
        ensures
            final(self)@ == old(self)@.refresh_timeline(),
    {
        if let Selection::Series { entry_id, episode_id } = self.selected {
            let episodes = list_episodes(&self.library, entry_id);
            let groups = season_groups(&episodes, episode_id, &self.bulk.selected);
            self.detail.seasons = groups;
        }
    }
}

// ---------------------------------------------------------------------
// What grouping keeps
// ---------------------------------------------------------------------

/// The episodes of a timeline, one after the other.
pub open spec fn flattened(groups: Seq<SeasonGroupView>) -> Seq<EpisodeItemView>
    decreases groups.len(),
{
    if groups.len() == 0 {
        Seq::empty()
    } else {
        flattened(groups.drop_last()) + groups.last().episodes
    }
}

/// The timeline shows every episode once, in the order of the list.
pub proof fn law_timeline_shows_all(
    episodes: Seq<EpisodeView>,
    selected: Option<i64>,
    checked: Seq<i64>,
)
    ensures
        flattened(grouped(episodes, selected, checked)) == items_for(episodes, selected, checked),
    decreases episodes.len(),
{
    if episodes.len() > 0 {
        let rest = episodes.drop_last();
        let groups = grouped(rest, selected, checked);
        let item = item_for(episodes.last(), selected, checked);
        law_timeline_shows_all(rest, selected, checked);
        assert(items_for(episodes, selected, checked) == items_for(rest, selected, checked).push(item));
        let after = with_item(groups, episodes.last().season, item);
        if groups.len() > 0 && groups.last().season == episodes.last().season {
            assert(after.drop_last() == groups.drop_last());
            assert(flattened(after) == flattened(groups).push(item));
        } else {
            assert(after.drop_last() == groups);
            assert(flattened(after) == flattened(groups).push(item));
        }
    } else {
        assert(flattened(grouped(episodes, selected, checked)) == items_for(
            episodes,
            selected,
            checked,
        ));
    }
}

/// In a list in order, each season is one group, none is empty, and the seasons
/// ascend.
pub proof fn law_timeline_seasons(
    episodes: Seq<EpisodeView>,
    selected: Option<i64>,
    checked: Seq<i64>,
)
    requires
        in_order(episodes, episode_order()),
    ensures
        forall|i: int|
            0 <= i < grouped(episodes, selected, checked).len() ==> (#[trigger] grouped(
                episodes,
                selected,
                checked,
            )[i]).episodes.len() > 0,
        forall|i: int, j: int|
            0 <= i < j < grouped(episodes, selected, checked).len() ==> (#[trigger] grouped(
                episodes,
                selected,
                checked,
            )[i]).season < (#[trigger] grouped(episodes, selected, checked)[j]).season,
        episodes.len() > 0 ==> grouped(episodes, selected, checked).len() > 0 && grouped(
            episodes,
            selected,
            checked,
        ).last().season == episodes.last().season,
    decreases episodes.len(),
{
    if episodes.len() > 0 {
        let rest = episodes.drop_last();
        assert(in_order(rest, episode_order())) by {
            assert forall|i: int, j: int| 0 <= i < j < rest.len() implies episode_order()(
                #[trigger] rest[i],
                #[trigger] rest[j],
            ) by {
                assert(episode_order()(episodes[i], episodes[j]));
            }
        }
        law_timeline_seasons(rest, selected, checked);
        let groups = grouped(rest, selected, checked);
        let after = grouped(episodes, selected, checked);
        let item = item_for(episodes.last(), selected, checked);
        assert(after == with_item(groups, episodes.last().season, item));
        if rest.len() > 0 {
            let n = episodes.len() as int;
            assert(rest.last() == episodes[n - 2]);
            assert(episode_order()(episodes[n - 2], episodes[n - 1]));
        }
        assert forall|i: int, j: int| 0 <= i < j < after.len() implies (#[trigger] after[i]).season < (
        #[trigger] after[j]).season by {
            if j < groups.len() {
                assert(groups[i].season < groups[j].season);
            } else if i < groups.len() - 1 {
                assert(groups[i].season < groups[groups.len() - 1].season);
            }
        }
    }
}

/// The timeline of a series shows each of its seasons once, in ascending order.
pub proof fn law_listed_timeline(
    t: Tables,
    entry_id: i64,
    selected: Option<i64>,
    checked: Seq<i64>,
)
    ensures
        forall|i: int, j: int|
            0 <= i < j < grouped(t.listed_episodes(entry_id), selected, checked).len() ==> (
            #[trigger] grouped(t.listed_episodes(entry_id), selected, checked)[i]).season < (
            #[trigger] grouped(t.listed_episodes(entry_id), selected, checked)[j]).season,
{
    lemma_episode_order();
    law_stable_sorted(t.episodes_of(entry_id), episode_order());
    law_timeline_seasons(t.listed_episodes(entry_id), selected, checked);
}

} // verus!
