//! The playlists of the library and the folders they lie in.

use vstd::prelude::*;

use super::{
    maybe_order,
    number_order,
    order_maybe,
    order_numbers,
    order_rows,
    row_order,
    seen_row,
    seen_value,
    settled,
    turned,
    Order,
};
use crate::text::same;

verus! {

/// A column of the table.
#[derive(Clone, Copy, Debug, PartialEq, Eq, Structural)]
pub enum PlaylistField {
    Index,
    Cover,
    Name,
    Owner,
    TrackCount,
    Modified,
}

/// What the table reads of a playlist, and whether its texts hold what is searched for.
#[derive(Clone, Copy, Debug, PartialEq, Eq, Structural)]
pub struct PlaylistFacts {
    pub owned: bool,
    pub track_count: u32,
    pub modified_at: Option<i64>,
    pub name_holds: bool,
    pub owner_holds: bool,
    /// The owner has a page of their own.
    pub owner_known: bool,
}

/// What the table reads of a folder.
#[derive(Clone, Debug, PartialEq, Eq)]
pub struct FolderFacts {
    /// How many playlists sit directly inside it.
    pub playlists: usize,
    pub name_holds: bool,
    /// Every playlist inside it, however deep.
    pub held: Vec<PlaylistFacts>,
}

/// The playlist's own texts hold what is searched for.
pub open spec fn found(playlist: PlaylistFacts) -> bool {
    playlist.name_holds || playlist.owner_holds
}

/// Some playlist inside the folder is what is searched for.
pub open spec fn holds_found(held: Seq<PlaylistFacts>) -> bool {
    exists|i: int| 0 <= i < held.len() && found(#[trigger] held[i])
}

/// A playlist is shown, in a table of only the user's own or of all of them.
pub open spec fn playlist_shown(playlist: PlaylistFacts, owned: bool) -> bool {
    (!owned || playlist.owned) && found(playlist)
}

/// A folder is shown. It answers for itself and for everything it holds, and gives way where only
/// the user's own playlists are asked for.
pub open spec fn folder_shown(folder: FolderFacts, owned: bool) -> bool {
    !owned && (folder.name_holds || holds_found(folder.held@))
}

/// A search never hides a match behind a folder: whatever the search would show of what lies in a
/// folder, it shows the folder.
pub proof fn a_folder_hides_no_match(folder: FolderFacts, place: int)
    requires
        0 <= place < folder.held@.len(),
        playlist_shown(folder.held@[place], false),
    ensures
        folder_shown(folder, false),
{
}

/// A change to how the table is narrowed.
#[derive(Clone, Copy, Debug, PartialEq, Eq)]
pub enum FilterChange {
    Range(&'static str),
    Flag(&'static str, bool),
    Reset,
}

/// The playlists of a shelf, all of them or only the user's own.
#[derive(Clone, Copy, Debug, PartialEq, Eq, Structural)]
pub struct PlaylistSource {
    pub owned: bool,
}

impl PlaylistSource {
    /// All playlists.
    pub fn shelved() -> (source: Self)
        ensures
            !source.owned,
    {
        PlaylistSource { owned: false }
    }

    /// Whether a playlist is shown.
    pub fn matches_playlist(&self, playlist: &PlaylistFacts) -> (yes: bool)
        ensures
            yes == playlist_shown(*playlist, self.owned),
    {
        (!self.owned || playlist.owned) && (playlist.name_holds || playlist.owner_holds)
    }

    /// Whether a folder is shown.
    pub fn matches_folder(&self, folder: &FolderFacts) -> (yes: bool)
        ensures
            yes == folder_shown(*folder, self.owned),
    {
        if self.owned {
            return false;
        }
        if folder.name_holds {
            return true;
        }
        let mut index: usize = 0;
        while index < folder.held.len()
            invariant
                !self.owned,
                index <= folder.held@.len(),
                forall|i: int| 0 <= i < index ==> !found(#[trigger] folder.held@[i]),
            decreases folder.held@.len() - index,
        {
            let playlist = folder.held[index];
            if playlist.name_holds || playlist.owner_holds {
                assert(found(folder.held@[index as int]));
                return true;
            }
            index = index + 1;
        }
        false
    }

    /// Narrows the table, or shows all of it again. The answer is whether the change was one of
    /// this table's.
    pub fn filter(&mut self, change: FilterChange) -> (taken: bool)
        ensures
            match change {
                FilterChange::Flag(key, on) => if key@ == "filter-owned"@ {
                    taken && final(self).owned == on
                } else {
                    !taken && *final(self) == *old(self)
                },
                FilterChange::Range(_) => !taken && *final(self) == *old(self),
                FilterChange::Reset => taken && !final(self).owned,
            },
    {
        match change {
            FilterChange::Flag(key, on) => {
                if same(key, "filter-owned") {
                    self.owned = on;
                    true
                } else {
                    false
                }
            },
            FilterChange::Range(_) => false,
            FilterChange::Reset => {
                self.owned = false;
                true
            },
        }
    }

    /// Whether the table is narrowed.
    pub fn filtered(&self) -> (yes: bool)
        ensures
            yes == self.owned,
    {
        self.owned
    }
}

/// The tracks that playlists add up to.
pub open spec fn tracks_in(held: Seq<PlaylistFacts>) -> int
    decreases held.len(),
{
    if held.len() == 0 {
        0
    } else {
        tracks_in(held.drop_last()) + held.last().track_count
    }
}

/// The tracks that playlists add up to.
fn tracks(held: &Vec<PlaylistFacts>) -> (sum: u128)
    ensures
        sum == tracks_in(held@),
{
    let mut sum: u128 = 0;
    let mut index: usize = 0;
    assert(held@.take(0) =~= Seq::empty());
    while index < held.len()
        invariant
            index <= held@.len(),
            sum == tracks_in(held@.take(index as int)),
            sum <= index * 0xffff_ffff,
        decreases held@.len() - index,
    {
        assert(held@.take(index + 1).drop_last() =~= held@.take(index as int));
        sum = sum + held[index].track_count as u128;
        index = index + 1;
    }
    assert(held@.take(index as int) =~= held@);
    sum
}

/// The newest change among playlists, where any is known.
pub open spec fn touched_in(held: Seq<PlaylistFacts>) -> Option<int>
    decreases held.len(),
{
    if held.len() == 0 {
        None
    } else {
        let before = touched_in(held.drop_last());
        match (before, held.last().modified_at) {
            (Some(newest), Some(at)) => if newest < at {
                Some(at as int)
            } else {
                Some(newest)
            },
            (None, Some(at)) => Some(at as int),
            (newest, None) => newest,
        }
    }
}

/// The newest change among playlists, where any is known.
fn touched(held: &Vec<PlaylistFacts>) -> (newest: Option<i64>)
    ensures
        seen_value(newest) == touched_in(held@),
{
    let mut newest: Option<i64> = None;
    let mut index: usize = 0;
    assert(held@.take(0) =~= Seq::empty());
    while index < held.len()
        invariant
            index <= held@.len(),
            seen_value(newest) == touched_in(held@.take(index as int)),
        decreases held@.len() - index,
    {
        assert(held@.take(index + 1).drop_last() =~= held@.take(index as int));
        if let Some(at) = held[index].modified_at {
            newest = match newest {
                Some(before) => if before < at {
                    Some(at)
                } else {
                    Some(before)
                },
                None => Some(at),
            };
        }
        index = index + 1;
    }
    assert(held@.take(index as int) =~= held@);
    newest
}

/// What is newest is the change of one of the playlists, and none of them changed later.
pub proof fn the_newest_is_the_newest(held: Seq<PlaylistFacts>)
    ensures
        match touched_in(held) {
            Some(newest) => (exists|i: int|
                0 <= i < held.len() && seen_value((#[trigger] held[i]).modified_at) == Some(newest))
                && (forall|i: int|
                0 <= i < held.len() && (#[trigger] held[i]).modified_at is Some
                    ==> held[i].modified_at->0 <= newest),
            None => forall|i: int| 0 <= i < held.len() ==> (#[trigger] held[i]).modified_at is None,
        },
    decreases held.len(),
{
    if held.len() > 0 {
        let before = held.drop_last();
        the_newest_is_the_newest(before);
        assert(forall|i: int| 0 <= i < before.len() ==> before[i] == held[i]);
        match touched_in(before) {
            Some(newest) => {
                let i = choose|i: int|
                    0 <= i < before.len() && seen_value((#[trigger] before[i]).modified_at) == Some(
                        newest,
                    );
                assert(seen_value(held[i].modified_at) == Some(newest));
            },
            None => {},
        }
        assert(held[held.len() - 1] == held.last());
    }
}

/// How one folder stands to another in a column, before their names settle it. A folder has none
/// of a playlist's fields, so it borrows them from what it holds.
pub open spec fn folders_compared(field: PlaylistField, a: FolderFacts, b: FolderFacts) -> Order {
    match field {
        PlaylistField::Name | PlaylistField::Index | PlaylistField::Cover => Order::Equal,
        PlaylistField::Owner => number_order(a.playlists as int, b.playlists as int),
        PlaylistField::TrackCount => number_order(tracks_in(a.held@), tracks_in(b.held@)),
        PlaylistField::Modified => maybe_order(touched_in(a.held@), touched_in(b.held@)),
    }
}

/// How one folder stands to another in a column, before their names settle it.
pub fn compare_folders(field: PlaylistField, a: &FolderFacts, b: &FolderFacts) -> (order: Order)
    ensures
        order == folders_compared(field, *a, *b),
{
    match field {
        PlaylistField::Name | PlaylistField::Index | PlaylistField::Cover => Order::Equal,
        PlaylistField::Owner => order_numbers(a.playlists as u128, b.playlists as u128),
        PlaylistField::TrackCount => order_numbers(tracks(&a.held), tracks(&b.held)),
        PlaylistField::Modified => order_maybe(touched(&a.held), touched(&b.held)),
    }
}

/// A playlist of the list, where there is one at the place.
pub open spec fn playlist_at(playlists: Seq<PlaylistFacts>, place: int) -> Option<PlaylistFacts> {
    if 0 <= place < playlists.len() {
        Some(playlists[place])
    } else {
        None
    }
}

/// The value by which a playlist is put in order in a column of numbers.
pub open spec fn playlist_value(playlist: Option<PlaylistFacts>, field: PlaylistField) -> Option<
    Option<int>,
> {
    match playlist {
        Some(playlist) => Some(
            match field {
                PlaylistField::TrackCount => Some(playlist.track_count as int),
                PlaylistField::Modified => seen_value(playlist.modified_at),
                _ => None,
            },
        ),
        None => None,
    }
}

/// How one playlist stands to another in a column, given how their texts do. The columns that
/// hold nothing to compare keep the order of the list.
pub open spec fn playlists_compared(
    playlists: Seq<PlaylistFacts>,
    field: PlaylistField,
    a: usize,
    b: usize,
    text: Order,
) -> Order {
    match field {
        PlaylistField::Name | PlaylistField::Owner => text,
        PlaylistField::Index | PlaylistField::Cover => number_order(a as int, b as int),
        _ => row_order(
            playlist_value(playlist_at(playlists, a as int), field),
            playlist_value(playlist_at(playlists, b as int), field),
        ),
    }
}

/// The value by which a playlist is put in order in a column of numbers.
fn value_at(playlists: &Vec<PlaylistFacts>, place: usize, field: PlaylistField) -> (value: Option<
    Option<i64>,
>)
    ensures
        seen_row(value) == playlist_value(playlist_at(playlists@, place as int), field),
{
    if place < playlists.len() {
        Some(
            match field {
                PlaylistField::TrackCount => Some(playlists[place].track_count as i64),
                PlaylistField::Modified => playlists[place].modified_at,
                _ => None,
            },
        )
    } else {
        None
    }
}

/// How one playlist stands to another in a column, given how their texts do.
pub fn compare_playlists(
    playlists: &Vec<PlaylistFacts>,
    field: PlaylistField,
    a: usize,
    b: usize,
    text: Order,
) -> (order: Order)
    ensures
        order == playlists_compared(playlists@, field, a, b, text),
{
    match field {
        PlaylistField::Name | PlaylistField::Owner => text,
        PlaylistField::Index | PlaylistField::Cover => order_numbers(a as u128, b as u128),
        _ => order_rows(value_at(playlists, a, field), value_at(playlists, b, field)),
    }
}

/// A row of the table: its number, and what stands there. A playlist stands there by its place in
/// the library, and a row that leads nowhere has none.
#[derive(Clone, Debug, PartialEq, Eq)]
pub enum Row {
    Folder(FolderFacts),
    Playlist(Option<usize>),
}

/// How one row stands to another in a column, given how their texts do. Folders come first
/// whatever the column.
pub open spec fn rows_compared(
    playlists: Seq<PlaylistFacts>,
    field: PlaylistField,
    a: (usize, Row),
    b: (usize, Row),
    text: Order,
) -> Order {
    match (a.1, b.1) {
        (Row::Folder(p), Row::Folder(q)) => settled(folders_compared(field, p, q), text),
        (Row::Folder(_), Row::Playlist(_)) => Order::Less,
        (Row::Playlist(_), Row::Folder(_)) => Order::Greater,
        (Row::Playlist(Some(i)), Row::Playlist(Some(j))) => playlists_compared(
            playlists,
            field,
            i,
            j,
            text,
        ),
        (Row::Playlist(_), Row::Playlist(_)) => number_order(a.0 as int, b.0 as int),
    }
}

/// How one row stands to another in a column, given how their texts do.
pub fn compare(
    playlists: &Vec<PlaylistFacts>,
    field: PlaylistField,
    a: (usize, &Row),
    b: (usize, &Row),
    text: Order,
) -> (order: Order)
    ensures
        order == rows_compared(playlists@, field, (a.0, *a.1), (b.0, *b.1), text),
{
    match (a.1, b.1) {
        (Row::Folder(p), Row::Folder(q)) => {
            let order = compare_folders(field, p, q);
            match order {
                Order::Equal => text,
                _ => order,
            }
        },
        (Row::Folder(_), Row::Playlist(_)) => Order::Less,
        (Row::Playlist(_), Row::Folder(_)) => Order::Greater,
        (Row::Playlist(i), Row::Playlist(j)) => match (i, j) {
            (Some(i), Some(j)) => compare_playlists(playlists, field, *i, *j, text),
            _ => order_numbers(a.0 as u128, b.0 as u128),
        },
    }
}

/// The order of two rows is the same from either side, as long as that of their texts is, and a
/// folder comes before a playlist in every column.
pub proof fn rows_compare(
    playlists: Seq<PlaylistFacts>,
    field: PlaylistField,
    a: (usize, Row),
    b: (usize, Row),
    text: Order,
)
    ensures
        rows_compared(playlists, field, b, a, turned(text)) == turned(
            rows_compared(playlists, field, a, b, text),
        ),
        a.1 is Folder && b.1 is Playlist ==> rows_compared(playlists, field, a, b, text)
            == Order::Less,
{
}

/// What a cell shows.
#[derive(Clone, Copy, Debug, PartialEq, Eq, Structural)]
pub enum PlaylistCell {
    /// The playlist's number, or what it is doing.
    Index,
    Cover,
    Symbol,
    Name,
    Owner,
    /// The owner, leading to their page.
    OwnerLink,
    /// What the folder holds.
    Holding,
    TrackCount,
    Modified,
    Blank,
}

/// What a cell shows of a folder: a glyph where the cover goes, what it holds where the owner
/// goes, and nothing in the columns that only a playlist can answer.
pub open spec fn folder_cell_of(field: PlaylistField) -> PlaylistCell {
    match field {
        PlaylistField::Cover => PlaylistCell::Symbol,
        PlaylistField::Name => PlaylistCell::Name,
        PlaylistField::Owner => PlaylistCell::Holding,
        PlaylistField::Index | PlaylistField::TrackCount | PlaylistField::Modified
            => PlaylistCell::Blank,
    }
}

/// What a cell shows of a folder.
pub fn folder_cell(field: PlaylistField) -> (shown: PlaylistCell)
    ensures
        shown == folder_cell_of(field),
{
    match field {
        PlaylistField::Cover => PlaylistCell::Symbol,
        PlaylistField::Name => PlaylistCell::Name,
        PlaylistField::Owner => PlaylistCell::Holding,
        PlaylistField::Index | PlaylistField::TrackCount | PlaylistField::Modified
            => PlaylistCell::Blank,
    }
}

/// What a cell shows of a playlist.
pub fn playlist_cell(field: PlaylistField, owner_known: bool) -> (shown: PlaylistCell)
    ensures
        shown == (match field {
            PlaylistField::Index => PlaylistCell::Index,
            PlaylistField::Cover => PlaylistCell::Cover,
            PlaylistField::Name => PlaylistCell::Name,
            PlaylistField::Owner => if owner_known {
                PlaylistCell::OwnerLink
            } else {
                PlaylistCell::Owner
            },
            PlaylistField::TrackCount => PlaylistCell::TrackCount,
            PlaylistField::Modified => PlaylistCell::Modified,
        }),
{
    match field {
        PlaylistField::Index => PlaylistCell::Index,
        PlaylistField::Cover => PlaylistCell::Cover,
        PlaylistField::Name => PlaylistCell::Name,
        PlaylistField::Owner => if owner_known {
            PlaylistCell::OwnerLink
        } else {
            PlaylistCell::Owner
        },
        PlaylistField::TrackCount => PlaylistCell::TrackCount,
        PlaylistField::Modified => PlaylistCell::Modified,
    }
}

/// What a cell shows of a row, which is nothing where the row leads nowhere.
pub fn cell(field: PlaylistField, row: &Row, playlists: &Vec<PlaylistFacts>) -> (shown:
    PlaylistCell)
    ensures
        shown == (match *row {
            Row::Folder(_) => folder_cell_of(field),
            Row::Playlist(Some(place)) => if place >= playlists@.len() {
                PlaylistCell::Blank
            } else {
                match field {
                    PlaylistField::Index => PlaylistCell::Index,
                    PlaylistField::Cover => PlaylistCell::Cover,
                    PlaylistField::Name => PlaylistCell::Name,
                    PlaylistField::Owner => if playlists@[place as int].owner_known {
                        PlaylistCell::OwnerLink
                    } else {
                        PlaylistCell::Owner
                    },
                    PlaylistField::TrackCount => PlaylistCell::TrackCount,
                    PlaylistField::Modified => PlaylistCell::Modified,
                }
            },
            Row::Playlist(None) => PlaylistCell::Blank,
        }),
{
    match row {
        Row::Folder(_) => folder_cell(field),
        Row::Playlist(place) => match place {
            Some(place) => if *place < playlists.len() {
                playlist_cell(field, playlists[*place].owner_known)
            } else {
                PlaylistCell::Blank
            },
            None => PlaylistCell::Blank,
        },
    }
}

/// A search finds a playlist whenever its name or its owner holds what is searched for: either
/// alone is enough. The table narrowed to one's own playlists shows no others.
pub proof fn a_search_finds_by_name_or_owner(playlist: PlaylistFacts)
    ensures
        playlist.name_holds ==> playlist_shown(playlist, false),
        playlist.owner_holds ==> playlist_shown(playlist, false),
        !playlist.name_holds && !playlist.owner_holds ==> !playlist_shown(playlist, false)
            && !playlist_shown(playlist, true),
        playlist.owned ==> playlist_shown(playlist, true) == playlist_shown(playlist, false),
        !playlist.owned ==> !playlist_shown(playlist, true),
{
}

/// A folder is shown for its own name or for any playlist in it that is found by name or owner,
/// and for nothing else; the table narrowed to one's own playlists shows none.
pub proof fn a_folder_is_found_by_what_it_holds(folder: FolderFacts, place: int)
    ensures
        folder.name_holds ==> folder_shown(folder, false),
        0 <= place < folder.held@.len() && folder.held@[place].name_holds ==> folder_shown(
            folder,
            false,
        ),
        0 <= place < folder.held@.len() && folder.held@[place].owner_holds ==> folder_shown(
            folder,
            false,
        ),
        folder_shown(folder, false) ==> folder.name_holds || exists|i: int|
            0 <= i < folder.held@.len() && ((#[trigger] folder.held@[i]).name_holds
                || folder.held@[i].owner_holds),
        !folder_shown(folder, true),
{
    if 0 <= place < folder.held@.len() {
        assert(found(folder.held@[place]) ==> holds_found(folder.held@));
    }
}

/// The tracks of a folder are those of all its playlists together.
pub proof fn a_folder_counts_every_track(held: Seq<PlaylistFacts>, more: Seq<PlaylistFacts>)
    ensures
        tracks_in(held + more) == tracks_in(held) + tracks_in(more),
        more.len() == 1 ==> tracks_in(more) == more[0].track_count,
        tracks_in(Seq::empty()) == 0,
    decreases more.len(),
{
    if more.len() == 0 {
        assert(held + more =~= held);
    } else {
        a_folder_counts_every_track(held, more.drop_last());
        assert((held + more).drop_last() =~= held + more.drop_last());
        assert((held + more).last() == more.last());
        if more.len() == 1 {
            assert(more.drop_last() =~= Seq::empty());
            assert(tracks_in(more.drop_last()) == 0);
        }
    }
}

/// Folders stand in order by what a column shows of them: how many playlists they hold, how many
/// tracks, or when one of their playlists was last changed. Where the column shows nothing of
/// them, or the same, their names decide.
pub proof fn folders_stand_by_their_column(
    playlists: Seq<PlaylistFacts>,
    a: (usize, Row),
    b: (usize, Row),
    text: Order,
)
    ensures
        (a.1 matches Row::Folder(p) && b.1 matches Row::Folder(q)) ==> {
            let p = a.1->Folder_0;
            let q = b.1->Folder_0;
            &&& rows_compared(playlists, PlaylistField::Name, a, b, text) == text
            &&& rows_compared(playlists, PlaylistField::Index, a, b, text) == text
            &&& rows_compared(playlists, PlaylistField::Cover, a, b, text) == text
            &&& p.playlists < q.playlists ==> rows_compared(
                playlists,
                PlaylistField::Owner,
                a,
                b,
                text,
            ) is Less
            &&& p.playlists == q.playlists ==> rows_compared(
                playlists,
                PlaylistField::Owner,
                a,
                b,
                text,
            ) == text
            &&& tracks_in(p.held@) < tracks_in(q.held@) ==> rows_compared(
                playlists,
                PlaylistField::TrackCount,
                a,
                b,
                text,
            ) is Less
            &&& tracks_in(p.held@) == tracks_in(q.held@) ==> rows_compared(
                playlists,
                PlaylistField::TrackCount,
                a,
                b,
                text,
            ) == text
            &&& (touched_in(p.held@) matches Some(one) && touched_in(q.held@) matches Some(other)
                && one < other) ==> rows_compared(
                playlists,
                PlaylistField::Modified,
                a,
                b,
                text,
            ) is Less
            &&& touched_in(p.held@) is None && touched_in(q.held@) is Some ==> rows_compared(
                playlists,
                PlaylistField::Modified,
                a,
                b,
                text,
            ) is Less
        },
{
}

/// Playlists stand in order by their own value in a column of numbers, by their texts in a column
/// of texts, and as they are listed in the rest; one that is not known keeps its row.
pub proof fn playlists_stand_by_their_column(
    playlists: Seq<PlaylistFacts>,
    a: usize,
    b: usize,
    rows: (usize, usize),
    text: Order,
)
    requires
        a < playlists.len(),
        b < playlists.len(),
    ensures
        ({
            let one = (rows.0, Row::Playlist(Some(a)));
            let other = (rows.1, Row::Playlist(Some(b)));
            let p = playlists[a as int];
            let q = playlists[b as int];
            &&& rows_compared(playlists, PlaylistField::Name, one, other, text) == text
            &&& rows_compared(playlists, PlaylistField::Owner, one, other, text) == text
            &&& a < b ==> rows_compared(playlists, PlaylistField::Index, one, other, text) is Less
            &&& a < b ==> rows_compared(playlists, PlaylistField::Cover, one, other, text) is Less
            &&& p.track_count < q.track_count ==> rows_compared(
                playlists,
                PlaylistField::TrackCount,
                one,
                other,
                text,
            ) is Less
            &&& p.track_count == q.track_count ==> rows_compared(
                playlists,
                PlaylistField::TrackCount,
                one,
                other,
                text,
            ) is Equal
            &&& (p.modified_at matches Some(then) && q.modified_at matches Some(since) && then
                < since) ==> rows_compared(
                playlists,
                PlaylistField::Modified,
                one,
                other,
                text,
            ) is Less
            &&& p.modified_at is None && q.modified_at is Some ==> rows_compared(
                playlists,
                PlaylistField::Modified,
                one,
                other,
                text,
            ) is Less
            &&& p.modified_at == q.modified_at ==> rows_compared(
                playlists,
                PlaylistField::Modified,
                one,
                other,
                text,
            ) is Equal
            &&& rows.0 < rows.1 ==> rows_compared(
                playlists,
                PlaylistField::Name,
                (rows.0, Row::Playlist(None)),
                other,
                text,
            ) is Less
        }),
{
}

/// A cell shows what its column is about: of a folder its symbol, its name and what it holds, of
/// a playlist everything, and its owner as a link exactly where the owner is known.
pub proof fn a_cell_shows_its_column(
    field: PlaylistField,
    row: Row,
    playlists: Vec<PlaylistFacts>,
    shown: PlaylistCell,
)
    requires
        call_ensures(cell, (field, &row, &playlists), shown),
    ensures
        row is Folder && field is Cover ==> shown is Symbol,
        row is Folder && field is Name ==> shown is Name,
        row is Folder && field is Owner ==> shown is Holding,
        row is Folder && (field is Index || field is TrackCount || field is Modified) ==> shown
            is Blank,
        row matches Row::Playlist(None) ==> shown is Blank,
        row matches Row::Playlist(Some(place)) ==> {
            let playlist = playlists@[place as int];
            &&& place >= playlists@.len() ==> shown is Blank
            &&& place < playlists@.len() ==> {
                &&& field is Index <==> shown is Index
                &&& field is Cover <==> shown is Cover
                &&& field is Name <==> shown is Name
                &&& field is Owner && playlist.owner_known <==> shown is OwnerLink
                &&& field is Owner && !playlist.owner_known <==> shown is Owner
                &&& field is TrackCount <==> shown is TrackCount
                &&& field is Modified <==> shown is Modified
            }
        },
{
}

/// The table is narrowed to one's own playlists by its flag, and by nothing else.
pub proof fn the_table_is_narrowed_by_its_flag(
    source: &mut PlaylistSource,
    change: FilterChange,
    taken: bool,
)
    requires
        call_ensures(PlaylistSource::filter, (source, change), taken),
    ensures
        change matches FilterChange::Flag(key, on) ==> {
            &&& key@ == "filter-owned"@ ==> taken && final(source).owned == on
            &&& key@ != "filter-owned"@ ==> !taken && final(source).owned == old(source).owned
        },
        change is Range ==> !taken && final(source).owned == old(source).owned,
        change is Reset ==> taken && !final(source).owned,
{
}

} // verus!
