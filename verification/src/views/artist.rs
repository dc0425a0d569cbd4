//! The page of an artist: its most played tracks, as a list or as a deck, and its releases.

use vstd::prelude::*;

use super::menus::{Origin, OriginKind};
use super::picks::{a_wider_deck_has_more_columns, columns_in, shape_of, Shape};
use crate::lists::seen_places;
use crate::text::{copied, maybe_text, same_maybe};

verus! {

/// How many rows of releases are shown before the rest is asked for.
pub const RELEASE_ROWS: usize = 2;

/// How many tracks are listed.
pub const LISTED: usize = 5;

/// How many tracks are listed once more are asked for.
pub const LISTED_MAX: usize = 10;

/// What kind of release an album is.
#[derive(Clone, Copy, Debug, PartialEq, Eq, Structural)]
pub enum ReleaseType {
    Album,
    Single,
    Ep,
    Other,
}

/// Which releases are shown.
#[derive(Clone, Copy, Debug, PartialEq, Eq, Structural)]
pub enum ReleaseFilter {
    All,
    Albums,
    Singles,
    Eps,
}

/// A list or a deck of cards.
#[derive(Clone, Copy, Debug, PartialEq, Eq, Structural)]
pub enum Mode {
    List,
    Grid,
}

/// The filter lets the release through.
pub open spec fn lets_through(filter: ReleaseFilter, kind: ReleaseType) -> bool {
    match filter {
        ReleaseFilter::All => true,
        ReleaseFilter::Albums => kind == ReleaseType::Album,
        ReleaseFilter::Singles => kind == ReleaseType::Single,
        ReleaseFilter::Eps => kind == ReleaseType::Ep,
    }
}

/// A release stands behind exactly one of the filters that are not for everything, unless it is
/// of no kind a filter is for.
pub proof fn filters_part_the_releases(kind: ReleaseType)
    ensures
        lets_through(ReleaseFilter::All, kind),
        kind != ReleaseType::Other ==> (lets_through(ReleaseFilter::Albums, kind) || lets_through(
            ReleaseFilter::Singles,
            kind,
        ) || lets_through(ReleaseFilter::Eps, kind)),
        !(lets_through(ReleaseFilter::Albums, kind) && lets_through(ReleaseFilter::Singles, kind)),
        !(lets_through(ReleaseFilter::Albums, kind) && lets_through(ReleaseFilter::Eps, kind)),
        !(lets_through(ReleaseFilter::Singles, kind) && lets_through(ReleaseFilter::Eps, kind)),
{
}

impl ReleaseFilter {
    /// The id of the filter's button.
    pub fn id(self) -> (id: &'static str)
        ensures
            id == (match self {
                ReleaseFilter::All => "release-filter-all",
                ReleaseFilter::Albums => "release-filter-albums",
                ReleaseFilter::Singles => "release-filter-singles",
                ReleaseFilter::Eps => "release-filter-eps",
            }),
    {
        match self {
            ReleaseFilter::All => "release-filter-all",
            ReleaseFilter::Albums => "release-filter-albums",
            ReleaseFilter::Singles => "release-filter-singles",
            ReleaseFilter::Eps => "release-filter-eps",
        }
    }

    /// The key of the filter's label.
    pub fn label(self) -> (key: &'static str)
        ensures
            key == (match self {
                ReleaseFilter::All => "artist-filter-all",
                ReleaseFilter::Albums => "artist-filter-albums",
                ReleaseFilter::Singles => "artist-filter-singles",
                ReleaseFilter::Eps => "artist-filter-eps",
            }),
    {
        match self {
            ReleaseFilter::All => "artist-filter-all",
            ReleaseFilter::Albums => "artist-filter-albums",
            ReleaseFilter::Singles => "artist-filter-singles",
            ReleaseFilter::Eps => "artist-filter-eps",
        }
    }

    /// Whether the filter lets the release through.
    pub fn matches(self, kind: ReleaseType) -> (yes: bool)
        ensures
            yes == lets_through(self, kind),
    {
        match self {
            ReleaseFilter::All => true,
            ReleaseFilter::Albums => kind == ReleaseType::Album,
            ReleaseFilter::Singles => kind == ReleaseType::Single,
            ReleaseFilter::Eps => kind == ReleaseType::Ep,
        }
    }
}

/// The filter lets some release through.
pub open spec fn lets_any(filter: ReleaseFilter, releases: Seq<ReleaseType>) -> bool {
    exists|i: int| 0 <= i < releases.len() && lets_through(filter, #[trigger] releases[i])
}

/// The filter, when it lets some release through.
pub open spec fn filter_if(filter: ReleaseFilter, releases: Seq<ReleaseType>) -> Seq<
    ReleaseFilter,
> {
    if lets_any(filter, releases) {
        seq![filter]
    } else {
        Seq::empty()
    }
}

/// The filters that are offered: none for an artist of the machine's own files, and otherwise the
/// one for everything and those that let some release through.
pub open spec fn filters_of(local: bool, releases: Seq<ReleaseType>) -> Seq<ReleaseFilter> {
    if local {
        Seq::empty()
    } else {
        seq![ReleaseFilter::All] + filter_if(ReleaseFilter::Singles, releases) + filter_if(
            ReleaseFilter::Albums,
            releases,
        ) + filter_if(ReleaseFilter::Eps, releases)
    }
}

/// Whether the filter lets some release through.
fn populated(filter: ReleaseFilter, releases: &Vec<ReleaseType>) -> (yes: bool)
    ensures
        yes == lets_any(filter, releases@),
{
    let mut index: usize = 0;
    while index < releases.len()
        invariant
            index <= releases@.len(),
            forall|i: int| 0 <= i < index ==> !lets_through(filter, #[trigger] releases@[i]),
        decreases releases@.len() - index,
    {
        if filter.matches(releases[index]) {
            return true;
        }
        index = index + 1;
    }
    false
}

/// The filters that are offered.
pub fn release_filters(local: bool, releases: &Vec<ReleaseType>) -> (filters: Vec<ReleaseFilter>)
    ensures
        filters@ == filters_of(local, releases@),
{
    let mut filters: Vec<ReleaseFilter> = Vec::new();
    if local {
        return filters;
    }
    filters.push(ReleaseFilter::All);
    if populated(ReleaseFilter::Singles, releases) {
        filters.push(ReleaseFilter::Singles);
    }
    if populated(ReleaseFilter::Albums, releases) {
        filters.push(ReleaseFilter::Albums);
    }
    if populated(ReleaseFilter::Eps, releases) {
        filters.push(ReleaseFilter::Eps);
    }
    assert(filters@ =~= filters_of(local, releases@));
    filters
}

/// The releases the filter lets through, by their place.
pub open spec fn matching_of(filter: ReleaseFilter, releases: Seq<ReleaseType>) -> Seq<int>
    decreases releases.len(),
{
    if releases.len() == 0 {
        Seq::empty()
    } else {
        let before = matching_of(filter, releases.drop_last());
        if lets_through(filter, releases.last()) {
            before.push(releases.len() - 1)
        } else {
            before
        }
    }
}

/// The releases the filter lets through, by their place.
pub fn matching(filter: ReleaseFilter, releases: &Vec<ReleaseType>) -> (places: Vec<usize>)
    ensures
        seen_places(places@) == matching_of(filter, releases@),
        places@.len() <= releases@.len(),
{
    let mut places: Vec<usize> = Vec::new();
    let mut index: usize = 0;
    assert(releases@.take(0) =~= Seq::empty());
    assert(seen_places(places@) =~= Seq::empty());
    while index < releases.len()
        invariant
            index <= releases@.len(),
            places@.len() <= index,
            seen_places(places@) == matching_of(filter, releases@.take(index as int)),
        decreases releases@.len() - index,
    {
        let ghost before = seen_places(places@);
        assert(releases@.take(index + 1).drop_last() =~= releases@.take(index as int));
        if filter.matches(releases[index]) {
            places.push(index);
            assert(seen_places(places@) =~= before.push(index as int));
        }
        index = index + 1;
    }
    assert(releases@.take(index as int) =~= releases@);
    places
}

/// How many of so many releases are shown in so many columns.
pub open spec fn visible_of(count: int, expanded: bool, columns: int) -> int {
    if expanded || count <= columns * RELEASE_ROWS {
        count
    } else {
        columns * RELEASE_ROWS
    }
}

/// How many of so many releases are shown in so many columns.
fn visible(count: usize, expanded: bool, columns: usize) -> (shown: usize)
    ensures
        shown == visible_of(count as int, expanded, columns as int),
{
    if expanded {
        return count;
    }
    match columns.checked_mul(RELEASE_ROWS) {
        Some(limit) => if count <= limit {
            count
        } else {
            limit
        },
        None => count,
    }
}

/// How many rows the releases that are shown take.
pub open spec fn rows_of(count: int, expanded: bool, columns: int) -> int {
    let shown = visible_of(count, expanded, columns);
    let wide = if columns < 1 {
        1
    } else {
        columns
    };
    (shown + wide - 1) / wide
}

/// How many rows the releases that are shown take.
pub fn release_rows(count: usize, expanded: bool, columns: usize) -> (rows: usize)
    ensures
        rows == rows_of(count as int, expanded, columns as int),
{
    let shown = visible(count, expanded, columns);
    let wide: usize = if columns < 1 {
        1
    } else {
        columns
    };
    let whole = shown / wide;
    let rest = shown % wide;
    proof {
        let s = shown as int;
        let w = wide as int;
        let q = whole as int;
        let r = rest as int;
        vstd::arithmetic::div_mod::lemma_fundamental_div_mod(s, w);
        assert(w * q == q * w) by (nonlinear_arith);
        if r == 0 {
            vstd::arithmetic::div_mod::lemma_fundamental_div_mod_converse(s + w - 1, w, q, w - 1);
        } else {
            assert((q + 1) * w == q * w + w) by (nonlinear_arith);
            vstd::arithmetic::div_mod::lemma_fundamental_div_mod_converse(
                s + w - 1,
                w,
                q + 1,
                r - 1,
            );
            assert(q < s) by (nonlinear_arith)
                requires
                    s == q * w + r,
                    r > 0,
                    w >= 1,
                    q >= 0,
            ;
        }
    }
    if rest == 0 {
        whole
    } else {
        whole + 1
    }
}

/// A list cut into rows of so many, the last one with what is left.
pub open spec fn rows_from(shown: Seq<int>, columns: int) -> Seq<Seq<int>>
    decreases shown.len(),
{
    if shown.len() == 0 || columns <= 0 {
        Seq::empty()
    } else if shown.len() <= columns {
        seq![shown]
    } else {
        seq![shown.take(columns)] + rows_from(shown.skip(columns), columns)
    }
}

/// Rows put together again.
pub open spec fn put_together(rows: Seq<Seq<int>>) -> Seq<int>
    decreases rows.len(),
{
    if rows.len() == 0 {
        Seq::empty()
    } else {
        rows[0] + put_together(rows.drop_first())
    }
}

/// Cutting a list into rows loses nothing and keeps its order, and no row is empty or longer than
/// there are columns.
pub proof fn rows_keep_every_release(shown: Seq<int>, columns: int)
    requires
        columns > 0,
    ensures
        put_together(rows_from(shown, columns)) == shown,
        forall|i: int|
            0 <= i < rows_from(shown, columns).len() ==> 0 < (#[trigger] rows_from(
                shown,
                columns,
            )[i]).len() <= columns,
    decreases shown.len(),
{
    let rows = rows_from(shown, columns);
    if shown.len() == 0 {
        assert(put_together(rows) =~= shown);
    } else if shown.len() <= columns {
        assert(rows.drop_first() =~= Seq::empty());
        assert(put_together(rows.drop_first()) =~= Seq::empty());
        assert(put_together(rows) =~= shown);
    } else {
        let rest = shown.skip(columns);
        rows_keep_every_release(rest, columns);
        assert(rows.drop_first() =~= rows_from(rest, columns));
        assert(shown.take(columns) + rest =~= shown);
        assert forall|i: int| 0 <= i < rows.len() implies 0 < (#[trigger] rows[i]).len()
            <= columns by {
            if i > 0 {
                assert(rows[i] == rows_from(rest, columns)[i - 1]);
            }
        }
    }
}

/// Rows as mathematics.
pub open spec fn seen_rows(rows: Seq<Vec<usize>>) -> Seq<Seq<int>> {
    rows.map_values(|row: Vec<usize>| seen_places(row@))
}

/// Cuts a list into rows.
fn cut_rows(shown: &Vec<usize>, columns: usize) -> (rows: Vec<Vec<usize>>)
    requires
        columns > 0,
    ensures
        seen_rows(rows@) == rows_from(seen_places(shown@), columns as int),
{
    let mut rows: Vec<Vec<usize>> = Vec::new();
    let mut start: usize = 0;
    let ghost all = seen_places(shown@);
    assert(all.skip(0) =~= all);
    assert(seen_rows(rows@) + rows_from(all, columns as int) =~= rows_from(all, columns as int));
    while start < shown.len()
        invariant
            columns > 0,
            start <= shown@.len(),
            all == seen_places(shown@),
            seen_rows(rows@) + rows_from(all.skip(start as int), columns as int) == rows_from(
                all,
                columns as int,
            ),
        decreases shown@.len() - start,
    {
        let ghost before = seen_rows(rows@);
        let ghost left = all.skip(start as int);
        let left_count: usize = shown.len() - start;
        let width: usize = if left_count <= columns {
            left_count
        } else {
            columns
        };
        let mut row: Vec<usize> = Vec::new();
        let mut index: usize = 0;
        while index < width
            invariant
                index <= width,
                start + width <= shown.len(),
                all == seen_places(shown@),
                seen_places(row@) == all.subrange(start as int, start + index),
            decreases width - index,
        {
            let ghost cut = seen_places(row@);
            row.push(shown[start + index]);
            assert(seen_places(row@) =~= cut.push(all[start + index]));
            index = index + 1;
            assert(seen_places(row@) =~= all.subrange(start as int, start + index));
        }
        let ghost added = seen_places(row@);
        rows.push(row);
        start = start + width;
        proof {
            assert(seen_rows(rows@) =~= before.push(added));
            let rest = rows_from(all.skip(start as int), columns as int);
            if left_count <= columns {
                assert(added =~= left);
                assert(all.skip(start as int) =~= Seq::empty());
                assert(before + seq![added] =~= before.push(added) + rest);
            } else {
                assert(added =~= left.take(columns as int));
                assert(left.skip(columns as int) =~= all.skip(start as int));
                assert(before + (seq![added] + rest) =~= before.push(added) + rest);
            }
        }
    }
    assert(all.skip(start as int) =~= Seq::empty());
    assert(seen_rows(rows@) + Seq::<Seq<int>>::empty() =~= seen_rows(rows@));
    rows
}

/// What stands under the head of the releases.
#[derive(Clone, Debug, PartialEq, Eq)]
pub enum ReleaseBody {
    /// So many placeholders in a row, in as many rows as are shown at first.
    Skeleton(usize),
    /// Rows of releases, by their place.
    Rows(Vec<Vec<usize>>),
}

/// The section of the releases.
#[derive(Clone, Debug, PartialEq, Eq)]
pub struct Releases {
    pub filters: Vec<ReleaseFilter>,
    pub body: ReleaseBody,
    /// The button that asks for the rest, and whether it was already asked for.
    pub toggle: Option<bool>,
}

/// How many rows stand in for the tracks while they are on their way, below a head.
pub const SKELETON_ROWS: usize = 5;

/// What the tracks are listed in.
#[derive(Clone, Copy, Debug, PartialEq, Eq, Structural)]
pub enum TrackBody {
    /// A head and so many rows of placeholders.
    Skeleton(usize),
    Table,
}

/// The list of tracks.
#[derive(Clone, Copy, Debug, PartialEq, Eq, Structural)]
pub struct Listed {
    pub body: TrackBody,
    /// The button that asks for more tracks, and whether more were already asked for.
    pub more: Option<bool>,
}

/// The list of tracks: a table of them, or placeholders, and a button where there are more than
/// the list shows at first.
pub open spec fn listed_of(page: ArtistModel, loading: bool) -> Listed {
    Listed {
        body: if loading {
            TrackBody::Skeleton(SKELETON_ROWS)
        } else {
            TrackBody::Table
        },
        more: if page.popular > LISTED {
            Some(page.shown > LISTED)
        } else {
            None
        },
    }
}

/// What happens to a row of the table of tracks.
#[derive(Clone, Copy, Debug, PartialEq, Eq, Structural)]
pub enum TableEvent {
    DoubleClicked(usize),
    Activated(usize),
    Removed,
    /// The layout or the order of the table changed.
    Arranged,
}

/// What the page does about it.
#[derive(Clone, Copy, Debug, PartialEq, Eq, Structural)]
pub enum TableAction {
    Play(usize),
    PlayOrToggle(usize),
    Drop,
    Persist,
}

/// What the page does when something happens to a row of the table of tracks.
pub fn table_action(event: TableEvent) -> (action: TableAction)
    ensures
        action == (match event {
            TableEvent::DoubleClicked(row) => TableAction::Play(row),
            TableEvent::Activated(row) => TableAction::PlayOrToggle(row),
            TableEvent::Removed => TableAction::Drop,
            TableEvent::Arranged => TableAction::Persist,
        }),
{
    match event {
        TableEvent::DoubleClicked(row) => TableAction::Play(row),
        TableEvent::Activated(row) => TableAction::PlayOrToggle(row),
        TableEvent::Removed => TableAction::Drop,
        TableEvent::Arranged => TableAction::Persist,
    }
}

/// The page of an artist.
#[derive(Clone, Debug, PartialEq, Eq)]
pub struct ArtistView {
    artist_id: Option<String>,
    release_filter: ReleaseFilter,
    releases_expanded: bool,
    about_open: bool,
    /// How many tracks the list shows at most.
    shown: usize,
    mode: Mode,
    /// How many tracks the artist's most played are.
    popular: usize,
    popular_page: usize,
    popular_columns: usize,
    /// The track whose menu is open, by its place.
    track_context: Option<usize>,
    /// The release whose menu is open, by its id.
    release_menu: Option<String>,
}

/// The page of an artist as mathematics.
#[verifier::ext_equal]
pub struct ArtistModel {
    pub artist_id: Option<Seq<char>>,
    pub release_filter: ReleaseFilter,
    pub releases_expanded: bool,
    pub about_open: bool,
    pub shown: usize,
    pub mode: Mode,
    pub popular: usize,
    pub popular_page: usize,
    pub popular_columns: usize,
    pub track_context: Option<usize>,
    pub release_menu: Option<Seq<char>>,
}

impl View for ArtistView {
    type V = ArtistModel;

    closed spec fn view(&self) -> ArtistModel {
        ArtistModel {
            artist_id: maybe_text(self.artist_id),
            release_filter: self.release_filter,
            releases_expanded: self.releases_expanded,
            about_open: self.about_open,
            shown: self.shown,
            mode: self.mode,
            popular: self.popular,
            popular_page: self.popular_page,
            popular_columns: self.popular_columns,
            track_context: self.track_context,
            release_menu: maybe_text(self.release_menu),
        }
    }
}

/// The page as it comes up for an artist.
pub open spec fn fresh(artist_id: Option<Seq<char>>, mode: Mode, popular: usize) -> ArtistModel {
    ArtistModel {
        artist_id,
        release_filter: ReleaseFilter::All,
        releases_expanded: false,
        about_open: false,
        shown: LISTED,
        mode,
        popular,
        popular_page: 0,
        popular_columns: 0,
        track_context: None,
        release_menu: None,
    }
}

/// The page after what it is about changed. Another artist starts from the top; news about the
/// same one keep the filter, but the deck of tracks goes back to its first page either way.
pub open spec fn followed(page: ArtistModel, artist_id: Option<Seq<char>>, popular: usize) ->
    ArtistModel {
    let kept = ArtistModel { popular, popular_page: 0, track_context: None, ..page };
    if page.artist_id == artist_id {
        kept
    } else {
        ArtistModel {
            artist_id,
            release_filter: ReleaseFilter::All,
            releases_expanded: false,
            about_open: false,
            shown: LISTED,
            ..kept
        }
    }
}

/// The page after a page of so many, which is the last one itself at the end.
pub open spec fn turned_on(page: int, pages: int) -> int {
    if page + 1 < pages {
        page + 1
    } else {
        pages - 1
    }
}

/// The page before a page, which is the first one itself at the start.
pub open spec fn turned_back(page: int) -> int {
    if page == 0 {
        0
    } else {
        page - 1
    }
}

impl ArtistView {
    /// The page as it comes up for an artist.
    pub fn new(artist_id: Option<String>, mode: Mode, popular: usize) -> (page: Self)
        ensures
            page@ == fresh(maybe_text(artist_id), mode, popular),
    {
        ArtistView {
            artist_id,
            release_filter: ReleaseFilter::All,
            releases_expanded: false,
            about_open: false,
            shown: LISTED,
            mode,
            popular,
            popular_page: 0,
            popular_columns: 0,
            track_context: None,
            release_menu: None,
        }
    }

    /// What the page is about changed. The answer is whether it is another artist, so that the
    /// page scrolls to its top.
    pub fn follow(&mut self, artist_id: Option<String>, popular: usize) -> (rewinds: bool)
        ensures
            final(self)@ == followed(old(self)@, maybe_text(artist_id), popular),
            rewinds == (old(self)@.artist_id != maybe_text(artist_id)),
    {
        let rewinds = !same_maybe(&self.artist_id, &artist_id);
        if rewinds {
            self.artist_id = artist_id;
            self.release_filter = ReleaseFilter::All;
            self.releases_expanded = false;
            self.about_open = false;
            self.shown = LISTED;
        }
        self.popular = popular;
        self.popular_page = 0;
        self.track_context = None;
        rewinds
    }

    /// Shows the tracks as a list or as a deck.
    pub fn set_mode(&mut self, mode: Mode)
        ensures
            final(self)@ == (ArtistModel { mode, track_context: None, ..old(self)@ }),
    {
        self.mode = mode;
        self.track_context = None;
    }

    /// A filter was clicked: another one than the one in use folds the releases up again. The
    /// answer is whether anything changed.
    pub fn pick_filter(&mut self, filter: ReleaseFilter) -> (changed: bool)
        ensures
            changed == (old(self)@.release_filter != filter),
            final(self)@ == (if changed {
                ArtistModel { release_filter: filter, releases_expanded: false, ..old(self)@ }
            } else {
                old(self)@
            }),
    {
        if self.release_filter == filter {
            return false;
        }
        self.release_filter = filter;
        self.releases_expanded = false;
        true
    }

    /// Unfolds the releases, or folds them up again.
    pub fn toggle_releases(&mut self)
        ensures
            final(self)@ == (ArtistModel {
                releases_expanded: !old(self)@.releases_expanded,
                ..old(self)@
            }),
    {
        self.releases_expanded = !self.releases_expanded;
    }

    /// The section of the releases at a width of so many columns. There is none when the artist
    /// has no release and none is on its way.
    pub fn releases(
        &self,
        releases: &Vec<ReleaseType>,
        loading: bool,
        local: bool,
        columns: usize,
    ) -> (section: Option<Releases>)
        ensures
            section is None <==> releases@.len() == 0 && !loading,
            section matches Some(section) ==> {
                let matching = matching_of(self@.release_filter, releases@);
                let shown = matching.take(
                    visible_of(matching.len() as int, self@.releases_expanded, columns as int),
                );
                let wide = if columns < 1 {
                    1
                } else {
                    columns as int
                };
                &&& section.filters@ == (if loading {
                    Seq::empty()
                } else {
                    filters_of(local, releases@)
                })
                &&& match section.body {
                    ReleaseBody::Skeleton(row) => loading && row == columns,
                    ReleaseBody::Rows(rows) => !loading && seen_rows(rows@) == rows_from(
                        shown,
                        wide,
                    ),
                }
                &&& section.toggle == (if matching.len() > columns * RELEASE_ROWS {
                    Some(self@.releases_expanded)
                } else {
                    None
                })
            },
    {
        if releases.len() == 0 && !loading {
            return None;
        }
        let mut places = matching(self.release_filter, releases);
        let count = places.len();
        let ghost all = seen_places(places@);
        let filters = if loading {
            Vec::new()
        } else {
            release_filters(local, releases)
        };
        let shown = visible(count, self.releases_expanded, columns);
        let folded = visible(count, false, columns);
        let toggle = if folded < count {
            Some(self.releases_expanded)
        } else {
            None
        };
        let body = if loading {
            ReleaseBody::Skeleton(columns)
        } else {
            let wide: usize = if columns < 1 {
                1
            } else {
                columns
            };
            places.truncate(shown);
            assert(seen_places(places@) =~= all.take(shown as int));
            ReleaseBody::Rows(cut_rows(&places, wide))
        };
        Some(Releases { filters, body, toggle })
    }

    /// How many of the tracks the list shows.
    pub fn listed_count(&self, tracks: usize) -> (count: usize)
        ensures
            count == (if self@.shown < tracks {
                self@.shown
            } else {
                tracks
            }),
    {
        if self.shown < tracks {
            self.shown
        } else {
            tracks
        }
    }

    /// The list of tracks. While they are on their way placeholders stand in for the table.
    pub fn listed(&self, loading: bool) -> (list: Listed)
        ensures
            list == listed_of(self@, loading),
    {
        Listed {
            body: if loading {
                TrackBody::Skeleton(SKELETON_ROWS)
            } else {
                TrackBody::Table
            },
            more: if self.popular > LISTED {
                Some(self.shown > LISTED)
            } else {
                None
            },
        }
    }

    /// Lists more tracks, or fewer again.
    pub fn toggle_listed(&mut self)
        ensures
            final(self)@ == (ArtistModel {
                shown: if old(self)@.shown > LISTED {
                    LISTED
                } else {
                    LISTED_MAX
                },
                ..old(self)@
            }),
    {
        self.shown = if self.shown > LISTED {
            LISTED
        } else {
            LISTED_MAX
        };
    }

    /// The width of the page, in whole pixels. A deck that lays out in another number of columns
    /// goes back to its first page.
    pub fn resize(&mut self, width: u32)
        ensures
            final(self)@ == ({
                let columns = columns_in(width as nat) as usize;
                if old(self)@.popular_columns == columns {
                    old(self)@
                } else {
                    ArtistModel { popular_columns: columns, popular_page: 0, ..old(self)@ }
                }
            }),
    {
        let columns = Shape::new(width, self.popular).columns;
        if self.popular_columns != columns {
            self.popular_columns = columns;
            self.popular_page = 0;
        }
    }

    /// Turns the deck back a page.
    pub fn previous_page(&mut self)
        ensures
            final(self)@ == (ArtistModel {
                popular_page: turned_back(old(self)@.popular_page as int) as usize,
                track_context: None,
                ..old(self)@
            }),
    {
        if self.popular_page > 0 {
            self.popular_page = self.popular_page - 1;
        }
        self.track_context = None;
    }

    /// Turns the deck on a page, no further than its last one at a width in whole pixels.
    pub fn next_page(&mut self, width: u32)
        ensures
            final(self)@ == ({
                let pages = shape_of(width as nat, old(self)@.popular as nat).pages;
                ArtistModel {
                    popular_page: turned_on(old(self)@.popular_page as int, pages as int) as usize,
                    track_context: None,
                    ..old(self)@
                }
            }),
    {
        let pages = Shape::new(width, self.popular).pages;
        self.popular_page = if self.popular_page < pages - 1 {
            self.popular_page + 1
        } else {
            pages - 1
        };
        self.track_context = None;
    }

    /// Opens the menu of a track.
    pub fn open_menu(&mut self, place: usize)
        ensures
            final(self)@ == (ArtistModel { track_context: Some(place), ..old(self)@ }),
    {
        self.track_context = Some(place);
    }

    /// The track whose menu is open, unless it is gone.
    pub fn menu_track(&self) -> (place: Option<usize>)
        ensures
            place == (match self@.track_context {
                Some(place) => if place < self@.popular {
                    Some(place)
                } else {
                    None
                },
                None => None,
            }),
    {
        match self.track_context {
            Some(place) => if place < self.popular {
                Some(place)
            } else {
                None
            },
            None => None,
        }
    }

    /// Closes the menu of a track.
    pub fn close_menu(&mut self)
        ensures
            final(self)@ == (ArtistModel { track_context: None, ..old(self)@ }),
    {
        self.track_context = None;
    }

    /// Opens the menu of a release.
    pub fn open_release_menu(&mut self, release: String)
        ensures
            final(self)@ == (ArtistModel { release_menu: Some(release@), ..old(self)@ }),
    {
        self.release_menu = Some(release);
    }

    /// Closes the menu of a release.
    pub fn close_release_menu(&mut self)
        ensures
            final(self)@ == (ArtistModel { release_menu: None, ..old(self)@ }),
    {
        self.release_menu = None;
    }

    /// The release whose menu is open. It was taken along when the menu opened, so news about the
    /// artist leave it open.
    pub fn menu_release(&self) -> (release: Option<String>)
        ensures
            maybe_text(release) == self@.release_menu,
    {
        copied(&self.release_menu)
    }

    /// Opens or closes the biography.
    pub fn show_about(&mut self, open: bool)
        ensures
            final(self)@ == (ArtistModel { about_open: open, ..old(self)@ }),
    {
        self.about_open = open;
    }

    /// Whether the biography is up. There is nothing to show before the artist is known.
    pub fn about_dialog(&self, known: bool) -> (up: bool)
        ensures
            up == (self@.about_open && known),
    {
        self.about_open && known
    }
}

/// Turning the deck stays on its pages, and turning back after turning on leads to where it was,
/// unless it was at the end.
pub proof fn turning_stays_on_the_pages(page: int, pages: int)
    requires
        0 <= page < pages,
    ensures
        0 <= turned_on(page, pages) < pages,
        0 <= turned_back(page) < pages,
        page + 1 < pages ==> turned_back(turned_on(page, pages)) == page,
        page > 0 ==> turned_on(turned_back(page), pages) == page,
{
}

/// A part of the page, from its top down.
#[derive(Clone, Copy, Debug, PartialEq, Eq, Structural)]
pub enum Section {
    Header,
    Failure,
    /// The title over the list of tracks; the deck has its own.
    Title,
    List,
    Deck,
    Releases,
    About,
}

/// The section, when it is there.
pub open spec fn section_if(there: bool, section: Section) -> Seq<Section> {
    if there {
        seq![section]
    } else {
        Seq::empty()
    }
}

/// What the page reads of the artist it is about.
#[derive(Clone, Copy, Debug, PartialEq, Eq, Structural)]
pub struct Known {
    /// The artist is known.
    pub artist: bool,
    pub failed: bool,
    /// There is a section of releases.
    pub releases: bool,
}

/// The parts of the page, from its top down.
pub open spec fn sections_of(mode: Mode, known: Known) -> Seq<Section> {
    seq![Section::Header] + section_if(known.failed, Section::Failure) + (match mode {
        Mode::List => seq![Section::Title, Section::List],
        Mode::Grid => seq![Section::Deck],
    }) + section_if(known.releases, Section::Releases) + section_if(known.artist, Section::About)
}

/// The parts of the page, from its top down.
pub fn sections(mode: Mode, known: Known) -> (parts: Vec<Section>)
    ensures
        parts@ == sections_of(mode, known),
{
    let mut parts: Vec<Section> = Vec::new();
    parts.push(Section::Header);
    if known.failed {
        parts.push(Section::Failure);
    }
    match mode {
        Mode::List => {
            parts.push(Section::Title);
            parts.push(Section::List);
        },
        Mode::Grid => {
            parts.push(Section::Deck);
        },
    }
    if known.releases {
        parts.push(Section::Releases);
    }
    if known.artist {
        parts.push(Section::About);
    }
    assert(parts@ =~= sections_of(mode, known));
    parts
}

/// A button at the head of the page.
#[derive(Clone, Copy, Debug, PartialEq, Eq, Structural)]
pub enum HeadButton {
    Play,
    Shuffle,
    Follow,
    More,
}

/// The buttons at the head of the page. An artist that is known by its id can be followed, unless
/// it is one of the machine's own files, and has a menu.
pub open spec fn head_of(artist: bool, id: bool, local: bool) -> Seq<HeadButton> {
    let start = seq![HeadButton::Play, HeadButton::Shuffle];
    if artist && id {
        if local {
            start.push(HeadButton::More)
        } else {
            start.push(HeadButton::Follow).push(HeadButton::More)
        }
    } else {
        start
    }
}

/// The buttons at the head of the page.
pub fn header(artist: bool, id: bool, local: bool) -> (buttons: Vec<HeadButton>)
    ensures
        buttons@ == head_of(artist, id, local),
{
    let mut buttons: Vec<HeadButton> = Vec::new();
    buttons.push(HeadButton::Play);
    buttons.push(HeadButton::Shuffle);
    if artist && id {
        if !local {
            buttons.push(HeadButton::Follow);
        }
        buttons.push(HeadButton::More);
    }
    assert(buttons@ =~= head_of(artist, id, local));
    buttons
}

/// What the tracks of the page are played from, named as the artist.
pub open spec fn plays_from(
    origin: Option<Origin>,
    id: Option<Seq<char>>,
    name: Option<Seq<char>>,
) -> bool {
    match origin {
        Some(origin) => {
            &&& origin.kind == OriginKind::Artist
            &&& id == Some(origin.id@)
            &&& name == Some(origin.name@)
        },
        None => id is None || name is None,
    }
}

/// What the tracks of the page are played from. Nothing is known of that before the artist is.
pub fn playing_from(id: &Option<String>, name: &Option<String>) -> (origin: Option<Origin>)
    ensures
        plays_from(origin, maybe_text(*id), maybe_text(*name)),
{
    match (id, name) {
        (Some(id), Some(name)) => Some(
            Origin {
                kind: OriginKind::Artist,
                id: id.as_str().to_owned(),
                name: name.as_str().to_owned(),
            },
        ),
        _ => None,
    }
}

/// The button that follows an artist.
#[derive(Clone, Copy, Debug, PartialEq, Eq)]
pub struct Follow {
    pub icon: &'static str,
    pub tooltip: &'static str,
    pub disabled: bool,
    /// It is drawn in the accent colour.
    pub tinted: bool,
    pub press: FollowPress,
}

/// What pressing the button that follows an artist does.
#[derive(Clone, Copy, Debug, PartialEq, Eq, Structural)]
pub enum FollowPress {
    /// It asks before the artist is no longer followed.
    Confirm,
    /// The artist is followed at once.
    Toggle,
}

/// The button that follows an artist. There is none before the artist is known, and none for an
/// artist of the machine's own files.
pub fn follow_button(known: bool, local: bool, followed: bool, pending: bool) -> (button: Option<
    Follow,
>)
    ensures
        button == (if known && !local {
            Some(
                (Follow {
                    icon: if followed {
                        "icons/heart-filled.svg"
                    } else {
                        "icons/heart.svg"
                    },
                    tooltip: if followed {
                        "artist-unfollow"
                    } else {
                        "artist-follow"
                    },
                    disabled: pending,
                    tinted: followed,
                    press: if followed {
                        FollowPress::Confirm
                    } else {
                        FollowPress::Toggle
                    },
                }),
            )
        } else {
            None
        }),
{
    if !known || local {
        return None;
    }
    Some(
        Follow {
            icon: if followed {
                "icons/heart-filled.svg"
            } else {
                "icons/heart.svg"
            },
            tooltip: if followed {
                "artist-unfollow"
            } else {
                "artist-follow"
            },
            disabled: pending,
            tinted: followed,
            press: if followed {
                FollowPress::Confirm
            } else {
                FollowPress::Toggle
            },
        },
    )
}

/// The arrow on a button that unfolds something.
pub fn chevron(expanded: bool) -> (icon: &'static str)
    ensures
        icon == (if expanded {
            "icons/chevron-up.svg"
        } else {
            "icons/chevron-down.svg"
        }),
{
    if expanded {
        "icons/chevron-up.svg"
    } else {
        "icons/chevron-down.svg"
    }
}

/// Each filter lets through its own kind of release, and the first lets through all.
pub proof fn a_filter_lets_its_own_kind_through(kind: ReleaseType)
    ensures
        lets_through(ReleaseFilter::All, kind),
        lets_through(ReleaseFilter::Albums, kind) <==> kind is Album,
        lets_through(ReleaseFilter::Singles, kind) <==> kind is Single,
        lets_through(ReleaseFilter::Eps, kind) <==> kind is Ep,
{
}

/// The words of every filter.
pub proof fn a_filter_has_its_words(filter: ReleaseFilter, id: &'static str, label: &'static str)
    requires
        call_ensures(ReleaseFilter::id, (filter,), id),
        call_ensures(ReleaseFilter::label, (filter,), label),
    ensures
        filter is All ==> id == "release-filter-all" && label == "artist-filter-all",
        filter is Albums ==> id == "release-filter-albums" && label == "artist-filter-albums",
        filter is Singles ==> id == "release-filter-singles" && label == "artist-filter-singles",
        filter is Eps ==> id == "release-filter-eps" && label == "artist-filter-eps",
{
}

/// A filter is offered exactly when a release of its kind is there; that for all is always
/// offered first, and an artist of this machine has no filters.
pub proof fn a_filter_is_offered_where_it_finds_any(releases: Seq<ReleaseType>)
    ensures
        filters_of(true, releases).len() == 0,
        filters_of(false, releases)[0] is All,
        filters_of(false, releases).contains(ReleaseFilter::Albums) <==> releases.contains(
            ReleaseType::Album,
        ),
        filters_of(false, releases).contains(ReleaseFilter::Singles) <==> releases.contains(
            ReleaseType::Single,
        ),
        filters_of(false, releases).contains(ReleaseFilter::Eps) <==> releases.contains(
            ReleaseType::Ep,
        ),
        filters_of(false, releases).len() <= 4,
{
    let singles = filter_if(ReleaseFilter::Singles, releases);
    let albums = filter_if(ReleaseFilter::Albums, releases);
    let eps = filter_if(ReleaseFilter::Eps, releases);
    let all = filters_of(false, releases);
    lemma_any(ReleaseFilter::Singles, ReleaseType::Single, releases);
    lemma_any(ReleaseFilter::Albums, ReleaseType::Album, releases);
    lemma_any(ReleaseFilter::Eps, ReleaseType::Ep, releases);
    if singles.len() > 0 {
        assert(all[1] == ReleaseFilter::Singles);
    }
    if albums.len() > 0 {
        assert(all[1 + singles.len() as int] == ReleaseFilter::Albums);
    }
    if eps.len() > 0 {
        assert(all[1 + singles.len() + albums.len() as int] == ReleaseFilter::Eps);
    }
    assert forall|i: int| 0 <= i < all.len() implies (all[i] == ReleaseFilter::Singles
        ==> singles.len() > 0) && (all[i] == ReleaseFilter::Albums ==> albums.len() > 0) && (all[i]
        == ReleaseFilter::Eps ==> eps.len() > 0) by {}
}

proof fn lemma_any(filter: ReleaseFilter, kind: ReleaseType, releases: Seq<ReleaseType>)
    requires
        forall|other: ReleaseType| #[trigger] lets_through(filter, other) <==> other == kind,
    ensures
        lets_any(filter, releases) <==> releases.contains(kind),
{
    if lets_any(filter, releases) {
        let i = choose|i: int| 0 <= i < releases.len() && lets_through(filter, #[trigger] releases[i]);
        assert(releases[i] == kind);
    }
    if releases.contains(kind) {
        let i = choose|i: int| 0 <= i < releases.len() && releases[i] == kind;
        assert(lets_through(filter, releases[i]));
    }
}

/// The releases that are shown are exactly those the filter lets through, in their order.
pub proof fn what_a_filter_lets_through_is_shown(filter: ReleaseFilter, releases: Seq<ReleaseType>)
    ensures
        forall|i: int|
            0 <= i < releases.len() ==> (#[trigger] matching_of(filter, releases).contains(i)
                <==> lets_through(filter, releases[i])),
        forall|k: int|
            0 <= k < matching_of(filter, releases).len() ==> 0 <= #[trigger] matching_of(
                filter,
                releases,
            )[k] < releases.len(),
        forall|j: int, k: int|
            0 <= j < k < matching_of(filter, releases).len() ==> #[trigger] matching_of(
                filter,
                releases,
            )[j] < #[trigger] matching_of(filter, releases)[k],
    decreases releases.len(),
{
    if releases.len() > 0 {
        let fewer = releases.drop_last();
        what_a_filter_lets_through_is_shown(filter, fewer);
        let before = matching_of(filter, fewer);
        let after = matching_of(filter, releases);
        assert forall|i: int| 0 <= i < releases.len() implies (#[trigger] after.contains(i)
            <==> lets_through(filter, releases[i])) by {
            if i < fewer.len() {
                assert(before.contains(i) <==> lets_through(filter, fewer[i]));
                if before.contains(i) {
                    let k = choose|k: int| 0 <= k < before.len() && before[k] == i;
                    assert(after[k] == i);
                }
                if after.contains(i) {
                    let k = choose|k: int| 0 <= k < after.len() && after[k] == i;
                    assert(before[k] == i);
                }
            } else if lets_through(filter, releases[i]) {
                assert(after[before.len() as int] == i);
            } else if after.contains(i) {
                let k = choose|k: int| 0 <= k < after.len() && after[k] == i;
                assert(before[k] == i);
            }
        }
    }
}

/// Two rows of releases are shown until the rest is asked for, and then all.
pub proof fn two_rows_until_more_is_asked(count: int, columns: int)
    requires
        0 <= count,
        0 <= columns,
    ensures
        visible_of(count, true, columns) == count,
        count <= 2 * columns ==> visible_of(count, false, columns) == count,
        count > 2 * columns ==> visible_of(count, false, columns) == 2 * columns,
        columns > 0 && count > 2 * columns ==> rows_of(count, false, columns) == 2,
        columns > 0 && 0 < count <= columns ==> rows_of(count, false, columns) == 1 && rows_of(
            count,
            true,
            columns,
        ) == 1,
        count == 0 && columns > 0 ==> rows_of(count, false, columns) == 0,
{
    assert(columns * RELEASE_ROWS == 2 * columns) by (nonlinear_arith)
        requires
            RELEASE_ROWS == 2,
    ;
    if columns > 0 {
        if count > 2 * columns {
            assert((2 * columns + columns - 1) / columns == 2) by (nonlinear_arith)
                requires
                    columns > 0,
            ;
        } else if 0 < count <= columns {
            assert((count + columns - 1) / columns == 1) by (nonlinear_arith)
                requires
                    0 < count <= columns,
            ;
        } else if count == 0 {
            assert((columns - 1) / columns == 0) by (nonlinear_arith)
                requires
                    columns > 0,
            ;
        }
    }
}

/// Rows are filled before a new one is begun.
pub proof fn rows_are_filled_in_order(shown: Seq<int>, columns: int, row: int)
    requires
        columns > 0,
        0 <= row < rows_from(shown, columns).len() - 1,
    ensures
        rows_from(shown, columns)[row].len() == columns,
    decreases shown.len(),
{
    if row > 0 {
        rows_are_filled_in_order(shown.skip(columns), columns, row - 1);
        assert(rows_from(shown, columns)[row] == rows_from(shown.skip(columns), columns)[row - 1]);
    }
}

/// Following another artist starts its page anew, and staying on the same one keeps what was
/// picked; either way the deck starts at its first page and no menu is left open.
pub proof fn another_artist_starts_anew(
    page: ArtistModel,
    artist_id: Option<Seq<char>>,
    popular: usize,
)
    ensures
        ({
            let after = followed(page, artist_id, popular);
            &&& after.artist_id == artist_id
            &&& after.popular == popular
            &&& after.popular_page == 0
            &&& after.track_context is None
            &&& after.mode == page.mode
            &&& page.artist_id == artist_id ==> after.release_filter == page.release_filter
                && after.releases_expanded == page.releases_expanded && after.about_open
                == page.about_open && after.shown == page.shown
            &&& page.artist_id != artist_id ==> after.release_filter is All
                && !after.releases_expanded && !after.about_open && after.shown == 5
        }),
        fresh(artist_id, page.mode, popular).shown == 5,
        fresh(artist_id, page.mode, popular).release_filter is All,
        !fresh(artist_id, page.mode, popular).releases_expanded,
        !fresh(artist_id, page.mode, popular).about_open,
        fresh(artist_id, page.mode, popular).artist_id == artist_id,
        fresh(artist_id, page.mode, popular).popular == popular,
        fresh(artist_id, page.mode, popular).mode == page.mode,
{
}

/// More tracks can be asked for exactly when there are more than five, and fewer again once more
/// are shown; while they load there are five rows in their stead.
pub proof fn more_tracks_where_there_are_any(page: ArtistModel, loading: bool)
    ensures
        listed_of(page, loading).more is Some <==> page.popular > 5,
        page.popular > 5 ==> listed_of(page, loading).more == Some(page.shown > 5),
        loading ==> listed_of(page, loading).body == TrackBody::Skeleton(5),
        !loading ==> listed_of(page, loading).body is Table,
{
}

/// The page shows the tracks as the mode has it, what went wrong where something did, the releases
/// where there are any and the biography where the artist is known, in that order.
pub proof fn the_page_shows_what_is_known(mode: Mode, known: Known)
    ensures
        ({
            let parts = sections_of(mode, known);
            let lead = 1 + (if known.failed {
                1int
            } else {
                0
            });
            let tracks = if mode is List {
                2int
            } else {
                1
            };
            &&& parts.len() == lead + tracks + (if known.releases {
                1int
            } else {
                0
            }) + (if known.artist {
                1int
            } else {
                0
            })
            &&& parts[0] is Header
            &&& known.failed ==> parts[1] is Failure
            &&& mode is List ==> parts[lead] is Title && parts[lead + 1] is List
            &&& mode is Grid ==> parts[lead] is Deck
            &&& known.releases ==> parts[lead + tracks] is Releases
            &&& known.artist ==> parts.last() is About
        }),
{
}

/// An artist can always be played and shuffled; one that is known has a menu, and is followed
/// unless it is of this machine.
pub proof fn a_known_artist_has_a_menu(artist: bool, id: bool, local: bool)
    ensures
        ({
            let buttons = head_of(artist, id, local);
            &&& buttons[0] is Play && buttons[1] is Shuffle
            &&& artist && id && local ==> buttons.len() == 3 && buttons[2] is More
            &&& artist && id && !local ==> buttons.len() == 4 && buttons[2] is Follow
                && buttons[3] is More
            &&& !(artist && id) ==> buttons.len() == 2
        }),
{
}

/// What is played from an artist's page is that artist's.
pub proof fn what_is_played_is_the_artists(
    origin: Option<Origin>,
    id: Seq<char>,
    name: Seq<char>,
)
    ensures
        plays_from(origin, Some(id), Some(name)) ==> (origin matches Some(origin) && origin.kind
            is Artist && origin.id@ == id && origin.name@ == name),
        plays_from(origin, None, Some(name)) ==> origin is None,
        plays_from(origin, Some(id), None) ==> origin is None,
{
}

/// An artist that is followed is left only after a question; one that is not is followed at once.
pub proof fn leaving_an_artist_takes_a_question(
    known: bool,
    local: bool,
    followed: bool,
    pending: bool,
    button: Option<Follow>,
)
    requires
        call_ensures(follow_button, (known, local, followed, pending), button),
    ensures
        button is Some <==> known && !local,
        button matches Some(button) ==> {
            &&& button.press is Confirm <==> followed
            &&& button.press is Toggle <==> !followed
            &&& button.tinted == followed
            &&& button.disabled == pending
            &&& followed ==> button.icon == "icons/heart-filled.svg" && button.tooltip
                == "artist-unfollow"
            &&& !followed ==> button.icon == "icons/heart.svg" && button.tooltip == "artist-follow"
        },
{
}

/// A row that is clicked twice is played, one that is activated is played or stopped, the
/// selection that is removed is dropped, and what was arranged is kept.
pub proof fn a_row_is_played_or_dropped(event: TableEvent, action: TableAction)
    requires
        call_ensures(table_action, (event,), action),
    ensures
        event matches TableEvent::DoubleClicked(row) ==> action == TableAction::Play(row),
        event matches TableEvent::Activated(row) ==> action == TableAction::PlayOrToggle(row),
        event is Removed ==> action is Drop,
        event is Arranged ==> action is Persist,
{
}

/// Picking another filter shows two rows of it again, and picking the same changes nothing.
pub proof fn another_filter_starts_short(page: &mut ArtistView, filter: ReleaseFilter, changed: bool)
    requires
        call_ensures(ArtistView::pick_filter, (page, filter), changed),
    ensures
        final(page)@.release_filter == filter,
        changed <==> old(page)@.release_filter != filter,
        changed ==> !final(page)@.releases_expanded,
        !changed ==> final(page)@ == old(page)@,
        final(page)@.shown == old(page)@.shown && final(page)@.popular_page
            == old(page)@.popular_page,
{
}

/// Asking for more tracks lists ten, and asking again lists five.
pub proof fn five_tracks_or_ten(page: &mut ArtistView, done: (), after: &mut ArtistView, again: ())
    requires
        call_ensures(ArtistView::toggle_listed, (page,), done),
        call_ensures(ArtistView::toggle_listed, (after,), again),
        old(after)@ == final(page)@,
    ensures
        old(page)@.shown <= 5 ==> final(page)@.shown == 10 && final(after)@.shown == 5,
        old(page)@.shown > 5 ==> final(page)@.shown == 5 && final(after)@.shown == 10,
        final(page)@.popular == old(page)@.popular,
{
}

/// Turning a page goes to the next or back to the one before, stays on the pages there are, and
/// closes the menu.
pub proof fn a_page_turns_on_and_back(
    page: &mut ArtistView,
    width: u32,
    done: (),
    after: &mut ArtistView,
    back: (),
)
    requires
        call_ensures(ArtistView::next_page, (page, width), done),
        call_ensures(ArtistView::previous_page, (after,), back),
        old(after)@ == final(page)@,
        old(page)@.popular_page + 1 < shape_of(width as nat, old(page)@.popular as nat).pages,
    ensures
        final(page)@.popular_page == old(page)@.popular_page + 1,
        final(after)@.popular_page == old(page)@.popular_page,
        final(page)@.track_context is None && final(after)@.track_context is None,
{
}

/// A page that gets more or fewer columns starts at its first page, and any other change of its
/// width changes nothing.
pub proof fn other_columns_start_at_the_first_page(page: &mut ArtistView, width: u32, done: ())
    requires
        call_ensures(ArtistView::resize, (page, width), done),
    ensures
        final(page)@.popular_columns == columns_in(width as nat),
        old(page)@.popular_columns == columns_in(width as nat) ==> final(page)@ == old(page)@,
        old(page)@.popular_columns != columns_in(width as nat) ==> final(page)@.popular_page == 0,
{
    a_wider_deck_has_more_columns(width as nat);
}

/// A menu is about the track it was opened on as long as that is there, and as many tracks are
/// listed as there are, up to as many as are shown.
pub proof fn a_menu_is_about_a_track_that_is_there(
    page: ArtistView,
    place: Option<usize>,
    tracks: usize,
    count: usize,
)
    requires
        call_ensures(ArtistView::menu_track, (&page,), place),
        call_ensures(ArtistView::listed_count, (&page, tracks), count),
    ensures
        page@.track_context is None ==> place is None,
        page@.track_context matches Some(at) ==> (at < page@.popular ==> place == Some(at)) && (at
            >= page@.popular ==> place is None),
        tracks <= page@.shown ==> count == tracks,
        tracks > page@.shown ==> count == page@.shown,
{
}

/// The releases are shown where there are any or they load; while they load there is one row of
/// skeletons and no filter, and more can be asked for exactly where two rows do not hold all that
/// the filter lets through.
pub proof fn releases_are_shown_where_there_are_any(
    page: ArtistView,
    releases: Vec<ReleaseType>,
    loading: bool,
    local: bool,
    columns: usize,
    section: Option<Releases>,
)
    requires
        call_ensures(ArtistView::releases, (&page, &releases, loading, local, columns), section),
    ensures
        section is None <==> releases@.len() == 0 && !loading,
        section matches Some(section) ==> {
            let matching = matching_of(page@.release_filter, releases@);
            &&& loading <==> section.body is Skeleton
            &&& loading ==> section.filters@.len() == 0 && section.body == ReleaseBody::Skeleton(
                columns,
            )
            &&& section.toggle is Some <==> matching.len() > 2 * columns
            &&& section.toggle matches Some(open) ==> open == page@.releases_expanded
            &&& section.body matches ReleaseBody::Rows(rows) ==> columns > 0 ==> put_together(
                seen_rows(rows@),
            ) == (if page@.releases_expanded || matching.len() <= 2 * columns {
                matching
            } else {
                matching.take(2 * columns)
            })
        },
{
    if let Some(section) = section {
        let matching = matching_of(page@.release_filter, releases@);
        assert(columns * RELEASE_ROWS == 2 * columns) by (nonlinear_arith)
            requires
                RELEASE_ROWS == 2,
        ;
        let shown = matching.take(
            visible_of(matching.len() as int, page@.releases_expanded, columns as int),
        );
        if columns > 0 {
            rows_keep_every_release(shown, columns as int);
        }
        assert(matching.take(matching.len() as int) =~= matching);
    }
}

/// Asking for more releases and asking again leaves the page as it was.
pub proof fn asking_twice_changes_nothing(
    page: &mut ArtistView,
    done: (),
    after: &mut ArtistView,
    again: (),
)
    requires
        call_ensures(ArtistView::toggle_releases, (page,), done),
        call_ensures(ArtistView::toggle_releases, (after,), again),
        old(after)@ == final(page)@,
    ensures
        final(page)@.releases_expanded != old(page)@.releases_expanded,
        final(after)@ == old(page)@,
{
}

/// A menu that was opened on a track is about that track until it is closed, and changing how the
/// tracks are shown closes it.
pub proof fn a_menu_is_open_until_it_is_closed(
    page: &mut ArtistView,
    place: usize,
    opened: (),
    after: &mut ArtistView,
    closed: (),
    other: &mut ArtistView,
    mode: Mode,
    set: (),
)
    requires
        call_ensures(ArtistView::open_menu, (page, place), opened),
        call_ensures(ArtistView::close_menu, (after,), closed),
        call_ensures(ArtistView::set_mode, (other, mode), set),
    ensures
        final(page)@ == (ArtistModel { track_context: Some(place), ..old(page)@ }),
        final(after)@ == (ArtistModel { track_context: None, ..old(after)@ }),
        final(other)@.mode == mode && final(other)@.track_context is None,
        final(other)@.popular_page == old(other)@.popular_page,
{
}

/// The biography is shown once it was asked for, of an artist that is known.
pub proof fn the_biography_is_shown_when_asked(page: ArtistView, known: bool, up: bool)
    requires
        call_ensures(ArtistView::about_dialog, (&page, known), up),
    ensures
        up <==> page@.about_open && known,
{
}

/// The arrow says what a press does: up takes the rest away, down asks for it.
pub proof fn an_arrow_says_what_a_press_does(expanded: bool, icon: &'static str)
    requires
        call_ensures(chevron, (expanded,), icon),
    ensures
        expanded ==> icon == "icons/chevron-up.svg",
        !expanded ==> icon == "icons/chevron-down.svg",
{
}

} // verus!
