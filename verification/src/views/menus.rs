//! The context menus: which entries a track, an album, an artist, a playlist or a pin offers, in
//! which sections, and what pressing one comes down to.
//!
//! A track, a playlist and an artist are known here by what the menus ask about them; where a
//! press names one of several, it does so by its place in the list that was handed in.

use vstd::prelude::*;

use crate::lists::{places_set, seen_places, set_places};
use crate::text::{joined_pair, maybe_text, same};

pub mod laws;

verus! {

/// A text to be looked up: its key, and the count it is about when it speaks of several things.
#[derive(Clone, Copy, Debug, PartialEq, Eq)]
pub struct Label {
    pub key: &'static str,
    pub count: Option<usize>,
}

/// What an entry does.
#[derive(Clone, Copy, Debug, PartialEq, Eq, Structural)]
pub enum Opens {
    /// The entry is disabled.
    Nothing,
    /// The entry can be pressed.
    Press,
    /// The entry opens a menu of its own.
    Submenu,
}

/// One entry of a menu.
#[derive(Clone, Copy, Debug, PartialEq, Eq)]
pub struct Item {
    pub id: &'static str,
    pub label: Label,
    pub icon: &'static str,
    pub opens: Opens,
}

/// One line of a menu.
#[derive(Clone, Copy, Debug, PartialEq, Eq)]
pub enum Line {
    Item(Item),
    /// The separator in front of the section of that number.
    Separator(usize),
}

/// An entry whose label counts nothing.
pub open spec fn item_of(
    id: &'static str,
    key: &'static str,
    icon: &'static str,
    opens: Opens,
) -> Item {
    Item { id, label: Label { key, count: None }, icon, opens }
}

/// Press when the entry has something to act on.
pub open spec fn press_if(able: bool) -> Opens {
    if able {
        Opens::Press
    } else {
        Opens::Nothing
    }
}

/// The label for one thing, or for a number of them.
pub open spec fn counted_of(one: &'static str, many: &'static str, count: nat) -> Label {
    if count <= 1 {
        Label { key: one, count: None }
    } else {
        Label { key: many, count: Some(count as usize) }
    }
}

/// An entry that may not be there.
pub open spec fn if_some(item: Option<Item>) -> Seq<Item> {
    match item {
        Some(item) => seq![item],
        None => Seq::empty(),
    }
}

/// How many of the groups have an entry.
pub open spec fn filled(groups: Seq<Seq<Item>>) -> nat
    decreases groups.len(),
{
    if groups.len() == 0 {
        0
    } else {
        filled(groups.drop_last()) + (if groups.last().len() > 0 {
            1nat
        } else {
            0nat
        })
    }
}

/// The entries of a group as lines.
pub open spec fn lines_of(items: Seq<Item>) -> Seq<Line> {
    items.map_values(|item: Item| Line::Item(item))
}

/// The groups one under the other, with a separator in front of each that has an entry but the
/// first.
pub open spec fn sections_of(groups: Seq<Seq<Item>>) -> Seq<Line>
    decreases groups.len(),
{
    if groups.len() == 0 {
        Seq::empty()
    } else {
        let before = sections_of(groups.drop_last());
        let index = filled(groups.drop_last());
        if groups.last().len() == 0 {
            before
        } else if index == 0 {
            before + lines_of(groups.last())
        } else {
            before.push(Line::Separator(index as usize)) + lines_of(groups.last())
        }
    }
}

/// Groups as mathematics.
pub open spec fn seen_groups(groups: Seq<Vec<Item>>) -> Seq<Seq<Item>> {
    groups.map_values(|group: Vec<Item>| group@)
}

/// An entry whose label counts nothing.
pub fn item(id: &'static str, key: &'static str, icon: &'static str, opens: Opens) -> (made: Item)
    ensures
        made == item_of(id, key, icon, opens),
{
    Item { id, label: Label { key, count: None }, icon, opens }
}

/// Press when the entry has something to act on.
pub fn enabled(able: bool) -> (opens: Opens)
    ensures
        opens == press_if(able),
{
    if able {
        Opens::Press
    } else {
        Opens::Nothing
    }
}

/// The label for one thing, or for a number of them.
pub fn counted(one: &'static str, many: &'static str, count: usize) -> (label: Label)
    ensures
        label == counted_of(one, many, count as nat),
{
    if count <= 1 {
        Label { key: one, count: None }
    } else {
        Label { key: many, count: Some(count) }
    }
}

/// A group of at most one entry.
fn group_if(item: Option<Item>) -> (group: Vec<Item>)
    ensures
        group@ == if_some(item),
{
    let mut group: Vec<Item> = Vec::new();
    if let Some(item) = item {
        group.push(item);
    }
    group
}

/// Adds an entry to a group, if there is one.
fn push_if(group: &mut Vec<Item>, item: Option<Item>)
    ensures
        final(group)@ == old(group)@ + if_some(item),
{
    if let Some(item) = item {
        group.push(item);
    }
    assert(group@ =~= old(group)@ + if_some(item));
}

/// Lays the groups out one under the other, separated.
pub fn sections(groups: &Vec<Vec<Item>>) -> (menu: Vec<Line>)
    ensures
        menu@ == sections_of(seen_groups(groups@)),
{
    let mut menu: Vec<Line> = Vec::new();
    let mut shown: usize = 0;
    let mut index: usize = 0;
    let ghost all = seen_groups(groups@);
    assert(all.take(0) =~= Seq::empty());
    while index < groups.len()
        invariant
            index <= groups@.len(),
            all == seen_groups(groups@),
            shown == filled(all.take(index as int)),
            shown <= index,
            menu@ == sections_of(all.take(index as int)),
        decreases groups@.len() - index,
    {
        let group = &groups[index];
        assert(all.take(index + 1).drop_last() =~= all.take(index as int));
        assert(all.take(index + 1).last() == group@);
        if group.len() > 0 {
            if shown > 0 {
                menu.push(Line::Separator(shown));
            }
            let ghost before = menu@;
            let mut place: usize = 0;
            while place < group.len()
                invariant
                    place <= group@.len(),
                    menu@ == before + lines_of(group@.take(place as int)),
                decreases group@.len() - place,
            {
                menu.push(Line::Item(group[place]));
                place = place + 1;
                assert(menu@ =~= before + lines_of(group@.take(place as int)));
            }
            assert(group@.take(place as int) =~= group@);
            shown = shown + 1;
        }
        index = index + 1;
    }
    assert(all.take(index as int) =~= all);
    menu
}

/// The entries of a menu without its separators.
pub open spec fn entries_of(lines: Seq<Line>) -> Seq<Item>
    decreases lines.len(),
{
    if lines.len() == 0 {
        Seq::empty()
    } else {
        let before = entries_of(lines.drop_last());
        match lines.last() {
            Line::Item(item) => before.push(item),
            Line::Separator(_) => before,
        }
    }
}

/// All the entries of the groups in order.
pub open spec fn all_entries(groups: Seq<Seq<Item>>) -> Seq<Item>
    decreases groups.len(),
{
    if groups.len() == 0 {
        Seq::empty()
    } else {
        all_entries(groups.drop_last()) + groups.last()
    }
}

/// Separators stand only between entries: none comes first or last, and no two stand together.
pub open spec fn well_separated(lines: Seq<Line>) -> bool {
    &&& lines.len() > 0 ==> lines[0] is Item && lines.last() is Item
    &&& forall|i: int|
        0 < i < lines.len() && (#[trigger] lines[i]) is Separator ==> lines[i - 1] is Item
}

proof fn lemma_entries_add(lines: Seq<Line>, items: Seq<Item>)
    ensures
        entries_of(lines + lines_of(items)) == entries_of(lines) + items,
    decreases items.len(),
{
    let whole = lines + lines_of(items);
    if items.len() == 0 {
        assert(whole =~= lines);
        assert(entries_of(lines) + items =~= entries_of(lines));
    } else {
        lemma_entries_add(lines, items.drop_last());
        assert(whole.drop_last() =~= lines + lines_of(items.drop_last()));
        assert(whole.last() == Line::Item(items.last()));
        assert(entries_of(lines) + items =~= (entries_of(lines) + items.drop_last()).push(
            items.last(),
        ));
    }
}

/// Laying groups out in sections loses no entry, adds none and keeps their order, and separates
/// only entries from entries.
pub proof fn sections_keep_every_entry(groups: Seq<Seq<Item>>)
    ensures
        entries_of(sections_of(groups)) == all_entries(groups),
        well_separated(sections_of(groups)),
        sections_of(groups).len() == 0 <==> filled(groups) == 0,
    decreases groups.len(),
{
    if groups.len() > 0 {
        let fewer = groups.drop_last();
        let before = sections_of(fewer);
        sections_keep_every_entry(fewer);
        if groups.last().len() == 0 {
            assert(all_entries(fewer) + groups.last() =~= all_entries(fewer));
        } else if filled(fewer) == 0 {
            lemma_entries_add(before, groups.last());
        } else {
            let split = before.push(Line::Separator(filled(fewer) as usize));
            assert(split.drop_last() =~= before);
            lemma_entries_add(split, groups.last());
        }
    }
}

/// What the menus ask about a track's id.
#[derive(Clone, Copy, Debug, PartialEq, Eq, Structural)]
pub enum Known {
    /// The track has none.
    No,
    /// The track was imported from the machine.
    Imported,
    /// The track is streamed.
    Streamed,
}

/// Whether something can be pinned by the provider it is from, and whether it is.
#[derive(Clone, Copy, Debug, PartialEq, Eq, Structural)]
pub struct Pinning {
    pub known: bool,
    pub pinned: bool,
}

/// One artist of a track. Some have no page of their own.
#[derive(Clone, Debug, PartialEq, Eq)]
pub struct ArtistRef {
    pub name: String,
    pub id: Option<String>,
}

/// What the menus ask about a track.
#[derive(Clone, Debug, PartialEq, Eq)]
pub struct Track {
    pub id: Known,
    pub playable: bool,
    pub album_id: Option<String>,
    pub artists: Vec<ArtistRef>,
    /// The library is still working on a change to it.
    pub pending: bool,
    /// The library holds it.
    pub saved: bool,
    /// What there is to say about pinning it, for a track that can be pinned at all.
    pub pin: Option<Pinning>,
}

/// Which columns the table around a menu already shows.
#[derive(Clone, Copy, Debug, PartialEq, Eq, Structural)]
pub struct TrackColumns {
    pub album: bool,
    pub artists: bool,
}

impl Default for TrackColumns {
    fn default() -> (columns: Self)
        ensures
            columns == (TrackColumns { album: false, artists: false }),
    {
        TrackColumns { album: false, artists: false }
    }
}

/// Which shelf of the library tracks belong on.
#[derive(Clone, Copy, Debug, PartialEq, Eq, Structural)]
pub enum Shelf {
    Local,
    Streaming,
}

/// Every track that has an id was imported, and there is one.
pub open spec fn all_imported(tracks: Seq<Track>) -> bool {
    &&& exists|i: int| 0 <= i < tracks.len() && (#[trigger] tracks[i]).id != Known::No
    &&& forall|i: int|
        0 <= i < tracks.len() ==> (#[trigger] tracks[i]).id != Known::Streamed
}

/// Which of the tracks a playlist can take: the imported ones when there are no others,
/// otherwise the streamed ones.
pub open spec fn takeable(tracks: Seq<Track>) -> Seq<bool> {
    Seq::new(
        tracks.len(),
        |i: int|
            if all_imported(tracks) {
                tracks[i].id == Known::Imported
            } else {
                tracks[i].id == Known::Streamed
            },
    )
}

/// Whether every track that has an id was imported.
pub fn imported(tracks: &Vec<Track>) -> (yes: bool)
    ensures
        yes == all_imported(tracks@),
{
    let mut any = false;
    let mut index: usize = 0;
    while index < tracks.len()
        invariant
            index <= tracks@.len(),
            forall|i: int| 0 <= i < index ==> (#[trigger] tracks@[i]).id != Known::Streamed,
            any == exists|i: int| 0 <= i < index && (#[trigger] tracks@[i]).id != Known::No,
        decreases tracks@.len() - index,
    {
        if tracks[index].id == Known::Streamed {
            return false;
        }
        if tracks[index].id != Known::No {
            any = true;
        }
        index = index + 1;
    }
    any
}

/// The shelf whose playlists the tracks can go into.
pub fn shelf_for(tracks: &Vec<Track>) -> (shelf: Shelf)
    ensures
        shelf == (if all_imported(tracks@) {
            Shelf::Local
        } else {
            Shelf::Streaming
        }),
{
    if imported(tracks) {
        Shelf::Local
    } else {
        Shelf::Streaming
    }
}

/// Which of the tracks a playlist can take.
pub fn playlist_tracks(tracks: &Vec<Track>) -> (places: Vec<usize>)
    ensures
        seen_places(places@) == places_set(takeable(tracks@)),
        forall|i: int| 0 <= i < places@.len() ==> #[trigger] places@[i] < tracks@.len(),
{
    let wanted = if imported(tracks) {
        Known::Imported
    } else {
        Known::Streamed
    };
    let mut flags: Vec<bool> = Vec::new();
    let mut index: usize = 0;
    while index < tracks.len()
        invariant
            index <= tracks@.len(),
            wanted == (if all_imported(tracks@) {
                Known::Imported
            } else {
                Known::Streamed
            }),
            flags@ == takeable(tracks@).take(index as int),
        decreases tracks@.len() - index,
    {
        flags.push(tracks[index].id == wanted);
        index = index + 1;
        assert(flags@ =~= takeable(tracks@).take(index as int));
    }
    assert(flags@ =~= takeable(tracks@));
    set_places(&flags)
}

/// Which of the tracks can be played.
pub open spec fn playable(tracks: Seq<Track>) -> Seq<bool> {
    Seq::new(tracks.len(), |i: int| tracks[i].playable)
}

/// The tracks that go into the queue together.
pub fn queued(tracks: &Vec<Track>) -> (places: Vec<usize>)
    ensures
        seen_places(places@) == places_set(playable(tracks@)),
{
    let mut flags: Vec<bool> = Vec::new();
    let mut index: usize = 0;
    while index < tracks.len()
        invariant
            index <= tracks@.len(),
            flags@ == playable(tracks@).take(index as int),
        decreases tracks@.len() - index,
    {
        flags.push(tracks[index].playable);
        index = index + 1;
        assert(flags@ =~= playable(tracks@).take(index as int));
    }
    assert(flags@ =~= playable(tracks@));
    set_places(&flags)
}

/// What is handed to the player when tracks are to be played next, or put at the end of the
/// queue: one on its own, or several together.
#[derive(Clone, Debug, PartialEq, Eq)]
pub enum Queueing {
    Nothing,
    One(usize),
    All(Vec<usize>),
}

/// What is handed to the player: the tracks that can be played, in their order.
pub open spec fn hands_over(press: Queueing, tracks: Seq<Track>) -> bool {
    let places = places_set(playable(tracks));
    match press {
        Queueing::Nothing => places.len() == 0,
        Queueing::One(place) => places == seq![place as int],
        Queueing::All(all) => places.len() > 1 && seen_places(all@) == places,
    }
}

/// What is handed to the player when tracks are to be played next, or put at the end of the
/// queue. Of many tracks only one may be playable, which then goes on its own.
pub fn queue_press(tracks: &Vec<Track>) -> (press: Queueing)
    ensures
        hands_over(press, tracks@),
{
    let places = queued(tracks);
    assert(seen_places(places@).len() == places@.len());
    match places.len() {
        0 => Queueing::Nothing,
        1 => {
            assert(seen_places(places@) =~= seq![places@[0] as int]);
            Queueing::One(places[0])
        },
        _ => Queueing::All(places),
    }
}

/// Which of the tracks the library can act on: those it knows and is not busy with.
pub open spec fn actionable(tracks: Seq<Track>) -> Seq<bool> {
    Seq::new(tracks.len(), |i: int| tracks[i].id != Known::No && !tracks[i].pending)
}

/// There is a track the library can act on, and it holds every one of those.
pub open spec fn all_saved(tracks: Seq<Track>) -> bool {
    &&& exists|i: int| 0 <= i < tracks.len() && #[trigger] actionable(tracks)[i]
    &&& forall|i: int|
        0 <= i < tracks.len() && #[trigger] actionable(tracks)[i] ==> tracks[i].saved
}

/// There is a track the library can act on.
pub open spec fn any_actionable(tracks: Seq<Track>) -> bool {
    exists|i: int| 0 <= i < tracks.len() && #[trigger] actionable(tracks)[i]
}

/// What pressing the library entry does with the tracks: those already held are taken out, after
/// a question, and otherwise those that are not yet held are put in.
#[derive(Clone, Debug, PartialEq, Eq)]
pub enum Toggle {
    Ask(Vec<usize>),
    Save(Vec<usize>),
}

/// The entry that puts tracks into the library or takes them out.
pub open spec fn toggle_item(tracks: Seq<Track>) -> Item {
    let saved = all_saved(tracks);
    Item {
        id: "toggle-library",
        label: if saved {
            counted_of(
                "menu-remove-from-library",
                "menu-remove-tracks-from-library",
                tracks.len(),
            )
        } else {
            counted_of("menu-add-to-library", "menu-add-tracks-to-library", tracks.len())
        },
        icon: if saved {
            "icons/heart-off.svg"
        } else {
            "icons/heart.svg"
        },
        opens: press_if(any_actionable(tracks)),
    }
}

/// Whether the library holds every track it can act on, and whether it can act on any.
fn library_state(tracks: &Vec<Track>) -> (state: (bool, bool))
    ensures
        state.0 == all_saved(tracks@),
        state.1 == any_actionable(tracks@),
{
    let mut any = false;
    let mut all = true;
    let mut index: usize = 0;
    while index < tracks.len()
        invariant
            index <= tracks@.len(),
            any == exists|i: int| 0 <= i < index && #[trigger] actionable(tracks@)[i],
            all == forall|i: int|
                0 <= i < index && #[trigger] actionable(tracks@)[i] ==> tracks@[i].saved,
        decreases tracks@.len() - index,
    {
        let track = &tracks[index];
        assert(actionable(tracks@)[index as int] == (track.id != Known::No && !track.pending));
        if track.id != Known::No && !track.pending {
            any = true;
            if !track.saved {
                all = false;
            }
        }
        index = index + 1;
    }
    (any && all, any)
}

/// The entry that puts tracks into the library or takes them out.
pub fn library_toggle(tracks: &Vec<Track>) -> (made: Item)
    ensures
        made == toggle_item(tracks@),
{
    let (saved, any) = library_state(tracks);
    let count = tracks.len();
    Item {
        id: "toggle-library",
        label: if saved {
            counted("menu-remove-from-library", "menu-remove-tracks-from-library", count)
        } else {
            counted("menu-add-to-library", "menu-add-tracks-to-library", count)
        },
        icon: if saved {
            "icons/heart-off.svg"
        } else {
            "icons/heart.svg"
        },
        opens: enabled(any),
    }
}

/// Which of the tracks are put into the library when they are not all in it.
pub open spec fn savable(tracks: Seq<Track>) -> Seq<bool> {
    Seq::new(tracks.len(), |i: int| actionable(tracks)[i] && !tracks[i].saved)
}

/// What pressing the library entry does with the tracks.
pub fn library_press(tracks: &Vec<Track>) -> (toggle: Toggle)
    ensures
        match toggle {
            Toggle::Ask(places) => all_saved(tracks@) && seen_places(places@) == places_set(
                actionable(tracks@),
            ),
            Toggle::Save(places) => !all_saved(tracks@) && seen_places(places@) == places_set(
                savable(tracks@),
            ),
        },
{
    let (saved, _) = library_state(tracks);
    let mut flags: Vec<bool> = Vec::new();
    let mut index: usize = 0;
    let ghost wanted = if saved {
        actionable(tracks@)
    } else {
        savable(tracks@)
    };
    while index < tracks.len()
        invariant
            index <= tracks@.len(),
            wanted == (if saved {
                actionable(tracks@)
            } else {
                savable(tracks@)
            }),
            flags@ == wanted.take(index as int),
        decreases tracks@.len() - index,
    {
        let track = &tracks[index];
        flags.push(track.id != Known::No && !track.pending && (saved || !track.saved));
        index = index + 1;
        assert(flags@ =~= wanted.take(index as int));
    }
    assert(flags@ =~= wanted);
    let places = set_places(&flags);
    if saved {
        Toggle::Ask(places)
    } else {
        Toggle::Save(places)
    }
}

/// Which of a track's artists have a page.
pub open spec fn with_pages(artists: Seq<ArtistRef>) -> Seq<bool> {
    Seq::new(artists.len(), |i: int| artists[i].id is Some)
}

/// Which of a track's artists have a page, by their place in its list.
pub fn artist_pages(artists: &Vec<ArtistRef>) -> (places: Vec<usize>)
    ensures
        seen_places(places@) == places_set(with_pages(artists@)),
{
    let mut flags: Vec<bool> = Vec::new();
    let mut index: usize = 0;
    while index < artists.len()
        invariant
            index <= artists@.len(),
            flags@ == with_pages(artists@).take(index as int),
        decreases artists@.len() - index,
    {
        flags.push(artists[index].id.is_some());
        index = index + 1;
        assert(flags@ =~= with_pages(artists@).take(index as int));
    }
    assert(flags@ =~= with_pages(artists@));
    set_places(&flags)
}

/// One line of the menu of a track's artists.
#[derive(Clone, Debug, PartialEq, Eq)]
pub struct ArtistLine {
    pub id: String,
    pub name: String,
    /// The artist whose page it opens, by its id.
    pub opens: String,
}

/// One line of the menu of a track's artists as mathematics.
pub struct ArtistLineModel {
    pub id: Seq<char>,
    pub name: Seq<char>,
    pub opens: Seq<char>,
}

impl View for ArtistLine {
    type V = ArtistLineModel;

    open spec fn view(&self) -> ArtistLineModel {
        ArtistLineModel { id: self.id@, name: self.name@, opens: self.opens@ }
    }
}

/// Lines as mathematics.
pub open spec fn seen_artists(lines: Seq<ArtistLine>) -> Seq<ArtistLineModel> {
    lines.map_values(|line: ArtistLine| line@)
}

/// The artists of a track that have a page, in their order, each with the page it opens.
pub open spec fn artist_lines(artists: Seq<ArtistRef>) -> Seq<ArtistLineModel>
    decreases artists.len(),
{
    if artists.len() == 0 {
        Seq::empty()
    } else {
        let before = artist_lines(artists.drop_last());
        match artists.last().id {
            Some(id) => before.push(
                ArtistLineModel { id: "artist-"@ + id@, name: artists.last().name@, opens: id@ },
            ),
            None => before,
        }
    }
}

/// What the entry that goes to a track's artist does.
#[derive(Clone, Debug, PartialEq, Eq)]
pub enum ArtistPress {
    Nothing,
    /// It opens the page of that artist.
    Open(String),
    /// It opens a menu of the artists.
    Choose(Vec<ArtistLine>),
}

/// What the entry that goes to a track's artist does: with one page to go to it goes there, and
/// with several it asks which.
pub open spec fn goes_to(press: ArtistPress, artists: Seq<ArtistRef>) -> bool {
    let lines = artist_lines(artists);
    match press {
        ArtistPress::Nothing => lines.len() == 0,
        ArtistPress::Open(id) => lines.len() == 1 && lines[0].opens == id@,
        ArtistPress::Choose(menu) => lines.len() > 1 && seen_artists(menu@) == lines,
    }
}

/// There is a line for each artist with a page, so the entry does what it says it does.
pub proof fn artists_have_a_line_each(artists: Seq<ArtistRef>)
    ensures
        artist_lines(artists).len() == places_set(with_pages(artists)).len(),
    decreases artists.len(),
{
    if artists.len() > 0 {
        artists_have_a_line_each(artists.drop_last());
        assert(with_pages(artists).drop_last() =~= with_pages(artists.drop_last()));
    } else {
        assert(with_pages(artists) =~= Seq::empty());
    }
}

/// What the entry that goes to a track's artist does.
pub fn artist_press(artists: &Vec<ArtistRef>) -> (press: ArtistPress)
    ensures
        goes_to(press, artists@),
{
    let mut menu: Vec<ArtistLine> = Vec::new();
    let mut index: usize = 0;
    assert(artists@.take(0) =~= Seq::empty());
    assert(seen_artists(menu@) =~= Seq::empty());
    while index < artists.len()
        invariant
            index <= artists@.len(),
            seen_artists(menu@) == artist_lines(artists@.take(index as int)),
        decreases artists@.len() - index,
    {
        let artist = &artists[index];
        let ghost before = seen_artists(menu@);
        assert(artists@.take(index + 1).drop_last() =~= artists@.take(index as int));
        if let Some(id) = &artist.id {
            let line = ArtistLine {
                id: joined_pair("artist-", id.as_str()),
                name: artist.name.as_str().to_owned(),
                opens: id.as_str().to_owned(),
            };
            let ghost seen = line@;
            menu.push(line);
            assert(seen_artists(menu@) =~= before.push(seen));
        }
        index = index + 1;
    }
    assert(artists@.take(index as int) =~= artists@);
    assert(seen_artists(menu@).len() == menu@.len());
    match menu.len() {
        0 => ArtistPress::Nothing,
        1 => {
            assert(seen_artists(menu@)[0] == menu@[0]@);
            ArtistPress::Open(menu[0].opens.as_str().to_owned())
        },
        _ => ArtistPress::Choose(menu),
    }
}

/// The entry that pins something or takes its pin away.
pub open spec fn pin_item(pinning: Pinning) -> Item {
    item_of(
        "pin",
        if pinning.pinned {
            "nav-unpin"
        } else {
            "nav-pin"
        },
        "icons/pin.svg",
        press_if(pinning.known),
    )
}

/// Pins or unpins anything the app can open. Every context menu carries it, and the provider
/// that keeps pins of its own is told alongside the local list.
pub fn pin_action(pinning: Pinning) -> (made: Item)
    ensures
        made == pin_item(pinning),
{
    item(
        "pin",
        if pinning.pinned {
            "nav-unpin"
        } else {
            "nav-pin"
        },
        "icons/pin.svg",
        enabled(pinning.known),
    )
}

/// The entry for pinning, for what can be pinned at all.
pub open spec fn pin_group(pin: Option<Pinning>) -> Seq<Item> {
    match pin {
        Some(pinning) => seq![pin_item(pinning)],
        None => Seq::empty(),
    }
}

/// The entry for pinning, for what can be pinned at all.
fn pin_entries(pin: Option<Pinning>) -> (group: Vec<Item>)
    ensures
        group@ == pin_group(pin),
{
    let mut group: Vec<Item> = Vec::new();
    if let Some(pinning) = pin {
        group.push(pin_action(pinning));
    }
    group
}

/// The entry that goes to a track's album: none for several tracks, where the table shows albums
/// or on the album's own page, and a disabled one for a track that names no album.
pub open spec fn album_item(
    many: bool,
    columns: TrackColumns,
    album: Option<Seq<char>>,
    current: Option<Seq<char>>,
) -> Option<Item> {
    if many || columns.album || (album is Some && album == current) {
        None
    } else {
        Some(
            item_of(
                "go-to-album",
                "menu-go-to-album",
                "icons/disc-3.svg",
                press_if(album is Some),
            ),
        )
    }
}

/// The entry that goes to a track's artist, or to a menu of its artists when several have pages.
pub open spec fn artist_item(many: bool, columns: TrackColumns, pages: nat) -> Option<Item> {
    if many || columns.artists {
        None
    } else {
        Some(
            item_of(
                "go-to-artist",
                "menu-go-to-artist",
                "icons/user.svg",
                if pages == 0 {
                    Opens::Nothing
                } else if pages == 1 {
                    Opens::Press
                } else {
                    Opens::Submenu
                },
            ),
        )
    }
}

/// The sections of a menu about tracks. The entries that are about one track are left out for
/// several, and those that change the library or the queue count them.
pub open spec fn track_groups(
    tracks: Seq<Track>,
    action: Option<Item>,
    trailing: Option<Item>,
    current: Option<Seq<char>>,
    columns: TrackColumns,
) -> Seq<Seq<Item>> {
    let track = tracks[0];
    let count = tracks.len();
    let many = count > 1;
    let known = track.id != Known::No;
    let queue = press_if(places_set(playable(tracks)).len() > 0);
    let add = if places_set(takeable(tracks)).len() > 0 {
        Some(
            Item {
                id: "add-to-playlist",
                label: counted_of("menu-add-to-playlist", "menu-add-tracks-to-playlist", count),
                icon: "icons/list-plus.svg",
                opens: Opens::Submenu,
            },
        )
    } else {
        None
    };
    let toggle = match action {
        Some(action) => action,
        None => toggle_item(tracks),
    };
    let next = Item {
        id: "play-next",
        label: counted_of("menu-play-next", "menu-play-tracks-next", count),
        icon: "icons/list-plus.svg",
        opens: queue,
    };
    let enqueue = Item {
        id: "add-to-queue",
        label: counted_of("menu-add-to-queue", "menu-add-tracks-to-queue", count),
        icon: "icons/list-end.svg",
        opens: queue,
    };
    let radio = if many {
        None
    } else {
        Some(
            item_of(
                "song-radio",
                "menu-song-radio",
                "icons/radio.svg",
                press_if(known && track.playable),
            ),
        )
    };
    let details = if many {
        None
    } else {
        Some(item_of("view-details", "menu-view-details", "icons/info.svg", press_if(known)))
    };
    let edit = if !many && all_imported(tracks) {
        Some(item_of("edit-tags", "menu-edit-tags", "icons/pencil.svg", Opens::Press))
    } else {
        None
    };
    let copy = if many {
        None
    } else {
        Some(item_of("copy-track-link", "menu-copy-link", "icons/link.svg", press_if(known)))
    };
    seq![
        if_some(add).push(toggle),
        seq![next, enqueue] + if_some(radio),
        if_some(album_item(many, columns, maybe_text(track.album_id), current)) + if_some(
            artist_item(many, columns, places_set(with_pages(track.artists@)).len()),
        ),
        if_some(details) + if_some(edit) + if_some(copy),
        if many {
            Seq::empty()
        } else {
            pin_group(track.pin)
        },
        if_some(trailing),
    ]
}

/// The menu about tracks, empty when there are none.
pub open spec fn track_menu(
    tracks: Seq<Track>,
    action: Option<Item>,
    trailing: Option<Item>,
    current: Option<Seq<char>>,
    columns: TrackColumns,
) -> Seq<Line> {
    if tracks.len() == 0 {
        Seq::empty()
    } else {
        sections_of(track_groups(tracks, action, trailing, current, columns))
    }
}

/// A text behind a reference that may not be there, as mathematics.
pub open spec fn maybe_str(one: Option<&str>) -> Option<Seq<char>> {
    match one {
        Some(text) => Some(text@),
        None => None,
    }
}

/// Whether two texts are both there and the same.
fn both_same(left: &Option<String>, right: Option<&str>) -> (yes: bool)
    ensures
        yes == (left is Some && maybe_text(*left) == maybe_str(right)),
{
    match (left, right) {
        (Some(left), Some(right)) => same(left.as_str(), right),
        _ => false,
    }
}

/// The menus about tracks.
#[derive(Clone, Copy, Debug, PartialEq, Eq, Structural)]
pub struct ItemMenu;

impl ItemMenu {
    /// The menu of one track.
    pub fn for_track(&self, track: Track) -> (menu: Vec<Line>)
        ensures
            menu@ == track_menu(
                seq![track],
                None,
                None,
                None,
                (TrackColumns { album: false, artists: false }),
            ),
    {
        let mut tracks: Vec<Track> = Vec::new();
        tracks.push(track);
        assert(tracks@ =~= seq![track]);
        self.build(&tracks, None, None, None, TrackColumns { album: false, artists: false })
    }

    /// The menu of tracks in a table.
    pub fn for_table_tracks(&self, tracks: &Vec<Track>, columns: TrackColumns) -> (menu: Vec<Line>)
        ensures
            menu@ == track_menu(tracks@, None, None, None, columns),
    {
        self.build(tracks, None, None, None, columns)
    }

    /// The menu of tracks on an album's page.
    pub fn for_album_tracks(
        &self,
        tracks: &Vec<Track>,
        album_id: &str,
        columns: TrackColumns,
    ) -> (menu: Vec<Line>)
        ensures
            menu@ == track_menu(tracks@, None, None, Some(album_id@), columns),
    {
        self.build(tracks, None, None, Some(album_id), columns)
    }

    /// The menu of tracks on a playlist's page, which can be taken off it.
    pub fn for_playlist_tracks(&self, tracks: &Vec<Track>, columns: TrackColumns) -> (menu: Vec<
        Line,
    >)
        ensures
            menu@ == track_menu(
                tracks@,
                Some(
                    (Item {
                        id: "remove-from-playlist",
                        label: counted_of(
                            "menu-remove-from-playlist",
                            "menu-remove-tracks-from-playlist",
                            tracks@.len(),
                        ),
                        icon: "icons/x.svg",
                        opens: press_if(
                            exists|i: int|
                                0 <= i < tracks@.len() && (#[trigger] tracks@[i]).id
                                    != Known::No,
                        ),
                    }),
                ),
                None,
                None,
                columns,
            ),
    {
        let mut any = false;
        let mut index: usize = 0;
        while index < tracks.len()
            invariant
                index <= tracks@.len(),
                any == exists|i: int| 0 <= i < index && (#[trigger] tracks@[i]).id != Known::No,
            decreases tracks@.len() - index,
        {
            if tracks[index].id != Known::No {
                any = true;
            }
            index = index + 1;
        }
        let remove = Item {
            id: "remove-from-playlist",
            label: counted(
                "menu-remove-from-playlist",
                "menu-remove-tracks-from-playlist",
                tracks.len(),
            ),
            icon: "icons/x.svg",
            opens: enabled(any),
        };
        self.build(tracks, Some(remove), None, None, columns)
    }

    /// The menu of tracks in the history, which can be forgotten.
    pub fn for_history_tracks(&self, tracks: &Vec<Track>, columns: TrackColumns) -> (menu: Vec<
        Line,
    >)
        ensures
            menu@ == track_menu(
                tracks@,
                None,
                Some(
                    (Item {
                        id: "remove-from-history",
                        label: counted_of(
                            "menu-remove-from-history",
                            "menu-remove-tracks-from-history",
                            tracks@.len(),
                        ),
                        icon: "icons/trash-2.svg",
                        opens: Opens::Press,
                    }),
                ),
                None,
                columns,
            ),
    {
        let forget = Item {
            id: "remove-from-history",
            label: counted(
                "menu-remove-from-history",
                "menu-remove-tracks-from-history",
                tracks.len(),
            ),
            icon: "icons/trash-2.svg",
            opens: Opens::Press,
        };
        self.build(tracks, None, Some(forget), None, columns)
    }

    /// The menu about tracks: what is offered for them, in sections. `action` stands in for the
    /// library entry where the page has one of its own, and `trailing` closes the menu.
    pub fn build(
        &self,
        tracks: &Vec<Track>,
        action: Option<Item>,
        trailing: Option<Item>,
        current_album: Option<&str>,
        columns: TrackColumns,
    ) -> (menu: Vec<Line>)
        ensures
            menu@ == track_menu(tracks@, action, trailing, maybe_str(current_album), columns),
    {
        if tracks.len() == 0 {
            return Vec::new();
        }
        let track = &tracks[0];
        let count = tracks.len();
        let many = count > 1;
        let known = track.id != Known::No;
        let takes = playlist_tracks(tracks);
        let plays = queued(tracks);
        let pages = artist_pages(&track.artists);
        assert(takes@.len() == seen_places(takes@).len());
        assert(plays@.len() == seen_places(plays@).len());
        assert(pages@.len() == seen_places(pages@).len());
        let queue = enabled(plays.len() > 0);

        let mut first: Vec<Item> = Vec::new();
        if takes.len() > 0 {
            first.push(
                Item {
                    id: "add-to-playlist",
                    label: counted("menu-add-to-playlist", "menu-add-tracks-to-playlist", count),
                    icon: "icons/list-plus.svg",
                    opens: Opens::Submenu,
                },
            );
        }
        first.push(
            match action {
                Some(action) => action,
                None => library_toggle(tracks),
            },
        );

        let mut second: Vec<Item> = Vec::new();
        second.push(
            Item {
                id: "play-next",
                label: counted("menu-play-next", "menu-play-tracks-next", count),
                icon: "icons/list-plus.svg",
                opens: queue,
            },
        );
        second.push(
            Item {
                id: "add-to-queue",
                label: counted("menu-add-to-queue", "menu-add-tracks-to-queue", count),
                icon: "icons/list-end.svg",
                opens: queue,
            },
        );
        if !many {
            second.push(
                item(
                    "song-radio",
                    "menu-song-radio",
                    "icons/radio.svg",
                    enabled(known && track.playable),
                ),
            );
        }
        let mut third: Vec<Item> = Vec::new();
        if !(many || columns.album || both_same(&track.album_id, current_album)) {
            third.push(
                item(
                    "go-to-album",
                    "menu-go-to-album",
                    "icons/disc-3.svg",
                    enabled(track.album_id.is_some()),
                ),
            );
        }
        if !(many || columns.artists) {
            let opens = match pages.len() {
                0 => Opens::Nothing,
                1 => Opens::Press,
                _ => Opens::Submenu,
            };
            third.push(item("go-to-artist", "menu-go-to-artist", "icons/user.svg", opens));
        }
        let mut fourth: Vec<Item> = Vec::new();
        if !many {
            fourth.push(
                item("view-details", "menu-view-details", "icons/info.svg", enabled(known)),
            );
            if imported(tracks) {
                fourth.push(
                    item("edit-tags", "menu-edit-tags", "icons/pencil.svg", Opens::Press),
                );
            }
            fourth.push(
                item("copy-track-link", "menu-copy-link", "icons/link.svg", enabled(known)),
            );
        }
        let fifth = if many {
            Vec::new()
        } else {
            pin_entries(track.pin)
        };
        let sixth = group_if(trailing);

        let ghost wanted = track_groups(
            tracks@,
            action,
            trailing,
            maybe_str(current_album),
            columns,
        );
        assert(first@ =~= wanted[0]);
        assert(second@ =~= wanted[1]);
        assert(third@ =~= wanted[2]);
        assert(fourth@ =~= wanted[3]);
        assert(fifth@ =~= wanted[4]);
        assert(sixth@ =~= wanted[5]);
        let mut groups: Vec<Vec<Item>> = Vec::new();
        groups.push(first);
        groups.push(second);
        groups.push(third);
        groups.push(fourth);
        groups.push(fifth);
        groups.push(sixth);
        assert(seen_groups(groups@) =~= wanted);
        sections(&groups)
    }
}

/// What the menu of playlists asks about one: whether tracks can be put into it, and which of
/// the tracks at hand it is known to hold.
#[derive(Clone, Debug, PartialEq, Eq)]
pub struct Playlist {
    pub owned: bool,
    pub collaborative: bool,
    pub holds: Vec<bool>,
}

/// One line of the menu of playlists that tracks can be put into.
#[derive(Clone, Copy, Debug, PartialEq, Eq, Structural)]
pub enum Shelved {
    /// Makes a new playlist of the tracks.
    New,
    /// The line under that.
    Separator,
    /// There is no playlist to put them into.
    Empty,
    /// The playlist at that place in the list, checked when it holds every one of the tracks.
    Playlist { place: usize, checked: bool, enabled: bool },
}

/// The playlist is known to hold the track at that place.
pub open spec fn holds_at(playlist: Playlist, place: int) -> bool {
    0 <= place < playlist.holds@.len() && playlist.holds@[place]
}

/// The playlist holds every one of the tracks, and there is one.
pub open spec fn holds_all(playlist: Playlist, places: Seq<int>) -> bool {
    places.len() > 0 && forall|i: int|
        0 <= i < places.len() ==> holds_at(playlist, #[trigger] places[i])
}

/// The lines of the playlists that can be written to.
pub open spec fn playlist_lines(playlists: Seq<Playlist>, places: Seq<int>) -> Seq<Shelved>
    decreases playlists.len(),
{
    if playlists.len() == 0 {
        Seq::empty()
    } else {
        let before = playlist_lines(playlists.drop_last(), places);
        let last = playlists.last();
        if last.owned || last.collaborative {
            before.push(
                Shelved::Playlist {
                    place: (playlists.len() - 1) as usize,
                    checked: holds_all(last, places),
                    enabled: places.len() > 0,
                },
            )
        } else {
            before
        }
    }
}

/// The menu of playlists: a new one first, then those that can be written to.
pub open spec fn playlist_submenu_of(playlists: Seq<Playlist>, places: Seq<int>) -> Seq<Shelved> {
    let lines = playlist_lines(playlists, places);
    if lines.len() == 0 {
        seq![Shelved::New, Shelved::Separator, Shelved::Empty]
    } else {
        seq![Shelved::New, Shelved::Separator] + lines
    }
}

/// Whether the playlist is known to hold the track at that place.
fn holds(playlist: &Playlist, place: usize) -> (yes: bool)
    ensures
        yes == holds_at(*playlist, place as int),
{
    place < playlist.holds.len() && playlist.holds[place]
}

/// Whether the playlist holds every one of the tracks.
pub fn held(playlist: &Playlist, places: &Vec<usize>) -> (yes: bool)
    ensures
        yes == holds_all(*playlist, seen_places(places@)),
{
    let mut index: usize = 0;
    while index < places.len()
        invariant
            index <= places@.len(),
            forall|i: int|
                0 <= i < index ==> holds_at(*playlist, #[trigger] seen_places(places@)[i]),
        decreases places@.len() - index,
    {
        if !holds(playlist, places[index]) {
            assert(!holds_at(*playlist, seen_places(places@)[index as int]));
            return false;
        }
        index = index + 1;
    }
    places.len() > 0
}

/// The menu of playlists the tracks at `places` can be put into.
pub fn playlist_submenu(playlists: &Vec<Playlist>, places: &Vec<usize>) -> (menu: Vec<Shelved>)
    ensures
        menu@ == playlist_submenu_of(playlists@, seen_places(places@)),
{
    let mut menu: Vec<Shelved> = Vec::new();
    menu.push(Shelved::New);
    menu.push(Shelved::Separator);
    let ghost all = seen_places(places@);
    let mut index: usize = 0;
    assert(playlists@.take(0) =~= Seq::empty());
    assert(menu@ =~= seq![Shelved::New, Shelved::Separator] + playlist_lines(
        playlists@.take(0),
        all,
    ));
    while index < playlists.len()
        invariant
            index <= playlists@.len(),
            all == seen_places(places@),
            menu@ == seq![Shelved::New, Shelved::Separator] + playlist_lines(
                playlists@.take(index as int),
                all,
            ),
        decreases playlists@.len() - index,
    {
        let playlist = &playlists[index];
        let ghost before = playlist_lines(playlists@.take(index as int), all);
        assert(playlists@.take(index + 1).drop_last() =~= playlists@.take(index as int));
        assert(playlists@.take(index + 1).last() == *playlist);
        if playlist.owned || playlist.collaborative {
            let line = Shelved::Playlist {
                place: index,
                checked: held(playlist, places),
                enabled: places.len() > 0,
            };
            menu.push(line);
            assert(menu@ =~= seq![Shelved::New, Shelved::Separator] + before.push(line));
        }
        index = index + 1;
    }
    assert(playlists@.take(index as int) =~= playlists@);
    if menu.len() == 2 {
        menu.push(Shelved::Empty);
        assert(menu@ =~= playlist_submenu_of(playlists@, all));
    }
    menu
}

/// What pressing a playlist does with the tracks.
#[derive(Clone, Debug, PartialEq, Eq)]
pub enum Putting {
    /// Nothing.
    Nothing,
    /// The one track is in it already, so putting it in again takes a question.
    Again(usize),
    /// The tracks that are not in it yet are put in.
    Put(Vec<usize>),
}

/// Those of the tracks the playlist does not hold.
pub open spec fn missing_from(playlist: Playlist, places: Seq<int>) -> Seq<int>
    decreases places.len(),
{
    if places.len() == 0 {
        Seq::empty()
    } else {
        let before = missing_from(playlist, places.drop_last());
        if holds_at(playlist, places.last()) {
            before
        } else {
            before.push(places.last())
        }
    }
}

proof fn lemma_nothing_missing(playlist: Playlist, places: Seq<int>)
    ensures
        missing_from(playlist, places).len() == 0 <==> forall|i: int|
            0 <= i < places.len() ==> holds_at(playlist, #[trigger] places[i]),
    decreases places.len(),
{
    if places.len() > 0 {
        lemma_nothing_missing(playlist, places.drop_last());
        let fewer = places.drop_last();
        assert(forall|i: int| 0 <= i < fewer.len() ==> fewer[i] == places[i]);
        assert(places[places.len() - 1] == places.last());
    }
}

/// What pressing a playlist does with the tracks at `places`, of which `many` says whether the
/// menu was opened on several.
pub fn playlist_press(playlist: &Playlist, places: &Vec<usize>, many: bool) -> (press: Putting)
    ensures
        match press {
            Putting::Again(place) => holds_all(*playlist, seen_places(places@)) && !many && place
                == places@[0],
            Putting::Put(missing) => seen_places(missing@) == missing_from(
                *playlist,
                seen_places(places@),
            ) && missing@.len() > 0,
            Putting::Nothing => places@.len() == 0 || (many && holds_all(
                *playlist,
                seen_places(places@),
            )),
        },
{
    if held(playlist, places) {
        if many {
            return Putting::Nothing;
        }
        return Putting::Again(places[0]);
    }
    let mut missing: Vec<usize> = Vec::new();
    let mut index: usize = 0;
    let ghost all = seen_places(places@);
    assert(all.take(0) =~= Seq::empty());
    assert(seen_places(missing@) =~= Seq::empty());
    while index < places.len()
        invariant
            index <= places@.len(),
            all == seen_places(places@),
            seen_places(missing@) == missing_from(*playlist, all.take(index as int)),
        decreases places@.len() - index,
    {
        let ghost before = seen_places(missing@);
        assert(all.take(index + 1).drop_last() =~= all.take(index as int));
        assert(all.take(index + 1).last() == places@[index as int] as int);
        if !holds(playlist, places[index]) {
            missing.push(places[index]);
            assert(seen_places(missing@) =~= before.push(places@[index as int] as int));
        }
        index = index + 1;
    }
    assert(all.take(index as int) =~= all);
    assert(missing@.len() == seen_places(missing@).len());
    proof {
        lemma_nothing_missing(*playlist, all);
    }
    if missing.len() == 0 {
        return Putting::Nothing;
    }
    Putting::Put(missing)
}

/// What an album, an artist or a playlist is to its menu: whether the page it opens is the one
/// the menu is on, whether the library holds it or is busy with it, and its pin.
#[derive(Clone, Copy, Debug, PartialEq, Eq, Structural)]
pub struct Opened {
    pub here: bool,
    pub saved: bool,
    pub pending: bool,
    pub pin: Option<Pinning>,
}

/// The entry that puts something other than a track into the library or takes it out.
pub open spec fn keep_item(id: &'static str, opened: Opened) -> Item {
    item_of(
        id,
        if opened.saved {
            "menu-remove-from-library"
        } else {
            "menu-add-to-library"
        },
        if opened.saved {
            "icons/heart-off.svg"
        } else {
            "icons/heart.svg"
        },
        press_if(!opened.pending),
    )
}

/// The entry that puts something other than a track into the library or takes it out.
fn keep(id: &'static str, opened: Opened) -> (made: Item)
    ensures
        made == keep_item(id, opened),
{
    item(
        id,
        if opened.saved {
            "menu-remove-from-library"
        } else {
            "menu-add-to-library"
        },
        if opened.saved {
            "icons/heart-off.svg"
        } else {
            "icons/heart.svg"
        },
        enabled(!opened.pending),
    )
}

/// The entry that opens something's own page, left out on that page.
pub open spec fn open_group(here: bool, id: &'static str, key: &'static str) -> Seq<Item> {
    if here {
        Seq::empty()
    } else {
        seq![item_of(id, key, "icons/info.svg", Opens::Press)]
    }
}

/// The three entries that play something: now, next, or at the end of the queue.
pub open spec fn transport_group(
    play: &'static str,
    key: &'static str,
    next: &'static str,
    enqueue: &'static str,
) -> Seq<Item> {
    seq![
        item_of(play, key, "icons/play.svg", Opens::Press),
        item_of(next, "menu-play-next", "icons/list-plus.svg", Opens::Press),
        item_of(enqueue, "menu-add-to-queue", "icons/list-end.svg", Opens::Press),
    ]
}

/// The entry that copies a link.
pub open spec fn link_item(id: &'static str) -> Item {
    item_of(id, "menu-copy-link", "icons/link.svg", Opens::Press)
}

/// The entry that opens something's own page, left out on that page.
fn opening(here: bool, id: &'static str, key: &'static str) -> (group: Vec<Item>)
    ensures
        group@ == open_group(here, id, key),
{
    let mut group: Vec<Item> = Vec::new();
    if !here {
        group.push(item(id, key, "icons/info.svg", Opens::Press));
    }
    group
}

/// The three entries that play something.
fn playing(
    play: &'static str,
    key: &'static str,
    next: &'static str,
    enqueue: &'static str,
) -> (group: Vec<Item>)
    ensures
        group@ == transport_group(play, key, next, enqueue),
{
    let mut group: Vec<Item> = Vec::new();
    group.push(item(play, key, "icons/play.svg", Opens::Press));
    group.push(item(next, "menu-play-next", "icons/list-plus.svg", Opens::Press));
    group.push(item(enqueue, "menu-add-to-queue", "icons/list-end.svg", Opens::Press));
    assert(group@ =~= transport_group(play, key, next, enqueue));
    group
}

/// A group of one entry.
fn alone(item: Item) -> (group: Vec<Item>)
    ensures
        group@ == seq![item],
{
    let mut group: Vec<Item> = Vec::new();
    group.push(item);
    assert(group@ =~= seq![item]);
    group
}

/// Five groups laid out in sections.
fn five(
    first: Vec<Item>,
    second: Vec<Item>,
    third: Vec<Item>,
    fourth: Vec<Item>,
    fifth: Vec<Item>,
) -> (menu: Vec<Line>)
    ensures
        menu@ == sections_of(seq![first@, second@, third@, fourth@, fifth@]),
{
    let ghost wanted = seq![first@, second@, third@, fourth@, fifth@];
    let mut groups: Vec<Vec<Item>> = Vec::new();
    groups.push(first);
    groups.push(second);
    groups.push(third);
    groups.push(fourth);
    groups.push(fifth);
    assert(seen_groups(groups@) =~= wanted);
    sections(&groups)
}

/// What something is played from: what it is, its id, and the name it is shown under.
#[derive(Clone, Debug, PartialEq, Eq)]
pub struct Origin {
    pub kind: OriginKind,
    pub id: String,
    pub name: String,
}

/// What tracks are played from.
#[derive(Clone, Copy, Debug, PartialEq, Eq, Structural)]
pub enum OriginKind {
    Album,
    Artist,
    Playlist,
}

/// What pressing an entry that plays an album, an artist or a playlist asks of the player.
#[derive(Clone, Debug, PartialEq, Eq)]
pub enum Played {
    /// It is played, and named as what plays.
    Now(Origin),
    /// Its tracks are played next.
    Next(OriginKind, String),
    /// Its tracks are put at the end of the queue.
    Last(OriginKind, String),
}

/// One of the three entries that play something.
#[derive(Clone, Copy, Debug, PartialEq, Eq, Structural)]
pub enum Transport {
    Play,
    Next,
    Enqueue,
}

/// Pressing the entry asks this of the player. What is played now goes by its name; what waits
/// needs none.
pub open spec fn plays(
    played: Played,
    entry: Transport,
    kind: OriginKind,
    id: Seq<char>,
    name: Seq<char>,
) -> bool {
    match played {
        Played::Now(origin) => {
            &&& entry == Transport::Play
            &&& origin.kind == kind
            &&& origin.id@ == id
            &&& origin.name@ == name
        },
        Played::Next(of, from) => entry == Transport::Next && of == kind && from@ == id,
        Played::Last(of, from) => entry == Transport::Enqueue && of == kind && from@ == id,
    }
}

/// What pressing one of the three entries that play something asks of the player.
pub fn transport_press(entry: Transport, kind: OriginKind, id: &str, name: &str) -> (played: Played)
    ensures
        plays(played, entry, kind, id@, name@),
{
    match entry {
        Transport::Play => Played::Now(Origin { kind, id: id.to_owned(), name: name.to_owned() }),
        Transport::Next => Played::Next(kind, id.to_owned()),
        Transport::Enqueue => Played::Last(kind, id.to_owned()),
    }
}

/// The menu of an album.
pub fn album_menu(album: Opened) -> (menu: Vec<Line>)
    ensures
        menu@ == sections_of(
            seq![
                open_group(album.here, "open-album", "menu-open-album"),
                transport_group(
                    "play-album",
                    "menu-play-album",
                    "play-album-next",
                    "enqueue-album",
                ),
                seq![keep_item("toggle-album-library", album)],
                seq![link_item("copy-album-link")],
                pin_group(album.pin),
            ],
        ),
{
    five(
        opening(album.here, "open-album", "menu-open-album"),
        playing("play-album", "menu-play-album", "play-album-next", "enqueue-album"),
        alone(keep("toggle-album-library", album)),
        alone(item("copy-album-link", "menu-copy-link", "icons/link.svg", Opens::Press)),
        pin_entries(album.pin),
    )
}

/// The menu of an artist.
pub fn artist_menu(artist: Opened) -> (menu: Vec<Line>)
    ensures
        menu@ == sections_of(
            seq![
                open_group(artist.here, "open-artist", "menu-go-to-artist"),
                transport_group(
                    "play-artist",
                    "menu-play-artist",
                    "play-artist-next",
                    "enqueue-artist",
                ),
                seq![keep_item("toggle-artist-library", artist)],
                seq![link_item("copy-artist-link")],
                pin_group(artist.pin),
            ],
        ),
{
    five(
        opening(artist.here, "open-artist", "menu-go-to-artist"),
        playing("play-artist", "menu-play-artist", "play-artist-next", "enqueue-artist"),
        alone(keep("toggle-artist-library", artist)),
        alone(item("copy-artist-link", "menu-copy-link", "icons/link.svg", Opens::Press)),
        pin_entries(artist.pin),
    )
}

/// What pressing the library entry of an album, an artist or a playlist does: what is held is
/// taken out after a question, what is not is put in.
#[derive(Clone, Copy, Debug, PartialEq, Eq, Structural)]
pub enum Keeping {
    Ask,
    Put,
}

/// What pressing the library entry of an album, an artist or a playlist does.
pub fn keep_press(saved: bool) -> (press: Keeping)
    ensures
        press == (if saved {
            Keeping::Ask
        } else {
            Keeping::Put
        }),
{
    if saved {
        Keeping::Ask
    } else {
        Keeping::Put
    }
}

/// What a playlist is to its own menu.
#[derive(Clone, Copy, Debug, PartialEq, Eq, Structural)]
pub struct OpenedPlaylist {
    pub here: bool,
    pub owned: bool,
    pub public: bool,
    /// It was imported from the machine.
    pub imported: bool,
    /// The library lists it.
    pub saved: bool,
    pub pin: Option<Pinning>,
}

/// What can be done to a playlist itself: one's own is made public or private, unless it was
/// imported, renamed and deleted; someone else's is followed or left.
pub open spec fn playlist_actions(playlist: OpenedPlaylist) -> Seq<Item> {
    if playlist.owned {
        (if playlist.imported {
            Seq::empty()
        } else {
            seq![
                item_of(
                    "playlist-visibility",
                    if playlist.public {
                        "menu-make-playlist-private"
                    } else {
                        "menu-make-playlist-public"
                    },
                    "icons/user.svg",
                    Opens::Press,
                ),
            ]
        }) + seq![
            item_of("rename-playlist", "menu-rename-playlist", "icons/pencil.svg", Opens::Press),
            item_of("delete-playlist", "menu-delete-playlist", "icons/trash-2.svg", Opens::Press),
        ]
    } else {
        seq![playlist_library_item_of(playlist.saved)]
    }
}

/// The entry that follows a playlist or leaves it.
pub open spec fn playlist_library_item_of(saved: bool) -> Item {
    if saved {
        item_of(
            "leave-playlist",
            "menu-remove-playlist-from-library",
            "icons/heart-off.svg",
            Opens::Press,
        )
    } else {
        item_of(
            "join-playlist",
            "menu-add-playlist-to-library",
            "icons/heart.svg",
            Opens::Press,
        )
    }
}

/// The entry that follows a playlist or leaves it.
pub fn playlist_library_item(saved: bool) -> (made: Item)
    ensures
        made == playlist_library_item_of(saved),
{
    if saved {
        item(
            "leave-playlist",
            "menu-remove-playlist-from-library",
            "icons/heart-off.svg",
            Opens::Press,
        )
    } else {
        item("join-playlist", "menu-add-playlist-to-library", "icons/heart.svg", Opens::Press)
    }
}

/// The menu of a playlist. An imported one has no link to copy.
pub fn playlist_menu(playlist: OpenedPlaylist) -> (menu: Vec<Line>)
    ensures
        menu@ == sections_of(
            seq![
                open_group(playlist.here, "open-playlist", "menu-open-playlist"),
                transport_group(
                    "play-playlist",
                    "menu-play-playlist",
                    "play-playlist-next",
                    "enqueue-playlist",
                ),
                playlist_actions(playlist),
                if playlist.imported {
                    Seq::empty()
                } else {
                    seq![link_item("copy-playlist-link")]
                },
                pin_group(playlist.pin),
            ],
        ),
{
    let mut actions: Vec<Item> = Vec::new();
    if playlist.owned {
        if !playlist.imported {
            actions.push(
                item(
                    "playlist-visibility",
                    if playlist.public {
                        "menu-make-playlist-private"
                    } else {
                        "menu-make-playlist-public"
                    },
                    "icons/user.svg",
                    Opens::Press,
                ),
            );
        }
        actions.push(
            item("rename-playlist", "menu-rename-playlist", "icons/pencil.svg", Opens::Press),
        );
        actions.push(
            item("delete-playlist", "menu-delete-playlist", "icons/trash-2.svg", Opens::Press),
        );
    } else {
        actions.push(playlist_library_item(playlist.saved));
    }
    assert(actions@ =~= playlist_actions(playlist));
    let link = if playlist.imported {
        Vec::new()
    } else {
        alone(item("copy-playlist-link", "menu-copy-link", "icons/link.svg", Opens::Press))
    };
    five(
        opening(playlist.here, "open-playlist", "menu-open-playlist"),
        playing(
            "play-playlist",
            "menu-play-playlist",
            "play-playlist-next",
            "enqueue-playlist",
        ),
        actions,
        link,
        pin_entries(playlist.pin),
    )
}

/// What a pin points at.
#[derive(Clone, Copy, Debug, PartialEq, Eq, Structural)]
pub enum PinKind {
    Album,
    Artist,
    Playlist,
    Folder,
    Song,
}

/// What can be shared as a link.
#[derive(Clone, Copy, Debug, PartialEq, Eq, Structural)]
pub enum MediaKind {
    Album,
    Artist,
    Playlist,
    Track,
}

/// The key of the entry that opens a pin.
pub open spec fn open_key_of(kind: PinKind) -> &'static str {
    match kind {
        PinKind::Album => "menu-open-album",
        PinKind::Artist => "menu-go-to-artist",
        PinKind::Playlist => "menu-open-playlist",
        PinKind::Folder => "menu-open-folder",
        PinKind::Song => "menu-view-details",
    }
}

/// The key of the entry that opens a pin.
pub fn open_key(kind: PinKind) -> (key: &'static str)
    ensures
        key == open_key_of(kind),
{
    match kind {
        PinKind::Album => "menu-open-album",
        PinKind::Artist => "menu-go-to-artist",
        PinKind::Playlist => "menu-open-playlist",
        PinKind::Folder => "menu-open-folder",
        PinKind::Song => "menu-view-details",
    }
}

/// What a pin shares as a link.
pub open spec fn media_kind_of(kind: PinKind) -> Option<MediaKind> {
    match kind {
        PinKind::Album => Some(MediaKind::Album),
        PinKind::Artist => Some(MediaKind::Artist),
        PinKind::Playlist => Some(MediaKind::Playlist),
        PinKind::Song => Some(MediaKind::Track),
        PinKind::Folder => None,
    }
}

/// What a pin shares as a link, or `None` for one with no page of its own on the provider: a
/// folder only exists inside the library that lists it.
pub fn media_kind(kind: PinKind) -> (shared: Option<MediaKind>)
    ensures
        shared == media_kind_of(kind),
{
    match kind {
        PinKind::Album => Some(MediaKind::Album),
        PinKind::Artist => Some(MediaKind::Artist),
        PinKind::Playlist => Some(MediaKind::Playlist),
        PinKind::Song => Some(MediaKind::Track),
        PinKind::Folder => None,
    }
}

/// What plays a pin. A folder holds playlists rather than tracks, so it has no transport at all,
/// and a song is played by its radio.
pub open spec fn pin_transport(kind: PinKind) -> Seq<Item> {
    match kind {
        PinKind::Album => transport_group(
            "play-pin",
            "menu-play-album",
            "play-pin-next",
            "enqueue-pin",
        ),
        PinKind::Playlist => transport_group(
            "play-pin",
            "menu-play-playlist",
            "play-pin-next",
            "enqueue-pin",
        ),
        PinKind::Artist => transport_group(
            "play-pin",
            "menu-play-artist",
            "play-pin-next",
            "enqueue-pin",
        ),
        PinKind::Song => seq![
            item_of("play-pin", "menu-song-radio", "icons/radio.svg", Opens::Press),
        ],
        PinKind::Folder => Seq::empty(),
    }
}

/// What plays a pin.
pub fn transport_items(kind: PinKind) -> (group: Vec<Item>)
    ensures
        group@ == pin_transport(kind),
{
    match kind {
        PinKind::Album => playing("play-pin", "menu-play-album", "play-pin-next", "enqueue-pin"),
        PinKind::Playlist => playing(
            "play-pin",
            "menu-play-playlist",
            "play-pin-next",
            "enqueue-pin",
        ),
        PinKind::Artist => playing("play-pin", "menu-play-artist", "play-pin-next", "enqueue-pin"),
        PinKind::Song => alone(item("play-pin", "menu-song-radio", "icons/radio.svg", Opens::Press)),
        PinKind::Folder => Vec::new(),
    }
}

/// The menu of a pin that nothing more is known about: it opens, plays, shares and unpins.
pub open spec fn sparse_menu_of(kind: PinKind, pinning: Pinning) -> Seq<Line> {
    sections_of(
        seq![
            seq![item_of("open-pin", open_key_of(kind), "icons/info.svg", Opens::Press)],
            pin_transport(kind),
            if media_kind_of(kind) is Some {
                seq![link_item("copy-pin-link")]
            } else {
                Seq::empty()
            },
            seq![pin_item(pinning)],
        ],
    )
}

/// The menu of a pin that nothing more is known about.
pub fn sparse_menu(kind: PinKind, pinning: Pinning) -> (menu: Vec<Line>)
    ensures
        menu@ == sparse_menu_of(kind, pinning),
{
    let open = alone(item("open-pin", open_key(kind), "icons/info.svg", Opens::Press));
    let transport = transport_items(kind);
    let link = if media_kind(kind).is_some() {
        alone(item("copy-pin-link", "menu-copy-link", "icons/link.svg", Opens::Press))
    } else {
        Vec::new()
    };
    let pin = alone(pin_action(pinning));
    let ghost wanted = seq![open@, transport@, link@, pin@];
    let mut groups: Vec<Vec<Item>> = Vec::new();
    groups.push(open);
    groups.push(transport);
    groups.push(link);
    groups.push(pin);
    assert(seen_groups(groups@) =~= wanted);
    sections(&groups)
}

/// The menu of a folder of playlists, wherever one is listed.
pub fn folder_menu(pinning: Pinning) -> (menu: Vec<Line>)
    ensures
        menu@ == sparse_menu_of(PinKind::Folder, pinning),
{
    sparse_menu(PinKind::Folder, pinning)
}

/// What the library knows of what a pin points at.
#[derive(Clone, Copy, Debug, PartialEq, Eq, Structural)]
pub enum Pointed {
    /// Nothing.
    Unknown,
    /// The thing itself.
    Listed,
}

/// Which menu a pin gets: that of the thing it points at where the library lists it, and the
/// sparse one otherwise. An artist always gets its own, made up from the pin if need be, and
/// nothing but the sparse menu fits a folder: it opens, and it pins.
#[derive(Clone, Copy, Debug, PartialEq, Eq, Structural)]
pub enum PinMenu {
    Album,
    Artist,
    Playlist,
    Track,
    Sparse,
}

/// Which menu a pin gets.
pub fn item_menu(kind: PinKind, pointed: Pointed) -> (menu: PinMenu)
    ensures
        menu == (match (kind, pointed) {
            (PinKind::Artist, _) => PinMenu::Artist,
            (PinKind::Album, Pointed::Listed) => PinMenu::Album,
            (PinKind::Playlist, Pointed::Listed) => PinMenu::Playlist,
            (PinKind::Song, Pointed::Listed) => PinMenu::Track,
            _ => PinMenu::Sparse,
        }),
{
    match (kind, pointed) {
        (PinKind::Artist, _) => PinMenu::Artist,
        (PinKind::Album, Pointed::Listed) => PinMenu::Album,
        (PinKind::Playlist, Pointed::Listed) => PinMenu::Playlist,
        (PinKind::Song, Pointed::Listed) => PinMenu::Track,
        _ => PinMenu::Sparse,
    }
}

/// The link to something, asked of the machine's own provider for an imported id and of the
/// session's for a streamed one. `None` when there is no such provider or it has no link.
pub fn shared_link(
    imported: bool,
    local: Option<Option<String>>,
    streaming: Option<Option<String>>,
) -> (link: Option<String>)
    ensures
        link == (match (if imported {
            local
        } else {
            streaming
        }) {
            Some(link) => link,
            None => None,
        }),
{
    let answer = if imported {
        local
    } else {
        streaming
    };
    match answer {
        Some(link) => link,
        None => None,
    }
}

/// The menu on the empty part of a page of playlists.
pub fn new_playlist_menu() -> (menu: Vec<Line>)
    ensures
        menu@ == seq![
            Line::Item(
                item_of("create-playlist", "menu-new-playlist", "icons/plus.svg", Opens::Press),
            ),
        ],
{
    let mut menu: Vec<Line> = Vec::new();
    menu.push(
        Line::Item(item("create-playlist", "menu-new-playlist", "icons/plus.svg", Opens::Press)),
    );
    assert(menu@ =~= seq![
        Line::Item(
            item_of("create-playlist", "menu-new-playlist", "icons/plus.svg", Opens::Press),
        ),
    ]);
    menu
}

} // verus!
