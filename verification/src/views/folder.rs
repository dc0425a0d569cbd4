//! The page of a folder of playlists: what sits directly inside it, and a shuffle over everything
//! below it.

use vstd::prelude::*;

use crate::lists::seen_places;
use crate::text::{maybe_text, same};

verus! {

/// What the menu of the page was opened on, by its place.
#[derive(Clone, Copy, Debug, PartialEq, Eq, Structural)]
pub enum Summoned {
    Playlist(usize),
    Folder(usize),
}

/// One entry of a folder: another folder, a playlist of the library by its place there, or
/// neither.
#[derive(Clone, Copy, Debug, PartialEq, Eq, Structural)]
pub enum Entry {
    Folder(usize),
    Playlist(usize),
    Neither,
}

/// The folders among the entries.
pub open spec fn folders_in(entries: Seq<Entry>) -> Seq<int>
    decreases entries.len(),
{
    if entries.len() == 0 {
        Seq::empty()
    } else {
        let before = folders_in(entries.drop_last());
        match entries.last() {
            Entry::Folder(at) => before.push(at as int),
            _ => before,
        }
    }
}

/// The playlists among the entries that the library holds.
pub open spec fn playlists_in(entries: Seq<Entry>, held: nat) -> Seq<int>
    decreases entries.len(),
{
    if entries.len() == 0 {
        Seq::empty()
    } else {
        let before = playlists_in(entries.drop_last(), held);
        match entries.last() {
            Entry::Playlist(at) => if at < held {
                before.push(at as int)
            } else {
                before
            },
            _ => before,
        }
    }
}

/// The folders and the playlists directly inside, when the library holds so many playlists.
pub fn contents(entries: &Vec<Entry>, held: usize) -> (inside: (Vec<usize>, Vec<usize>))
    ensures
        seen_places(inside.0@) == folders_in(entries@),
        seen_places(inside.1@) == playlists_in(entries@, held as nat),
{
    let mut folders: Vec<usize> = Vec::new();
    let mut listed: Vec<usize> = Vec::new();
    let mut index: usize = 0;
    assert(entries@.take(0) =~= Seq::empty());
    assert(seen_places(folders@) =~= Seq::empty());
    assert(seen_places(listed@) =~= Seq::empty());
    while index < entries.len()
        invariant
            index <= entries@.len(),
            seen_places(folders@) == folders_in(entries@.take(index as int)),
            seen_places(listed@) == playlists_in(entries@.take(index as int), held as nat),
        decreases entries@.len() - index,
    {
        let ghost before = (seen_places(folders@), seen_places(listed@));
        assert(entries@.take(index + 1).drop_last() =~= entries@.take(index as int));
        match entries[index] {
            Entry::Folder(at) => {
                folders.push(at);
                assert(seen_places(folders@) =~= before.0.push(at as int));
            },
            Entry::Playlist(at) => {
                if at < held {
                    listed.push(at);
                    assert(seen_places(listed@) =~= before.1.push(at as int));
                }
            },
            Entry::Neither => {},
        }
        index = index + 1;
    }
    assert(entries@.take(index as int) =~= entries@);
    (folders, listed)
}

/// How many entries are shown.
pub open spec fn shown_count(entries: Seq<Entry>, held: nat) -> nat
    decreases entries.len(),
{
    if entries.len() == 0 {
        0
    } else {
        let shows = match entries.last() {
            Entry::Folder(_) => true,
            Entry::Playlist(at) => at < held,
            Entry::Neither => false,
        };
        shown_count(entries.drop_last(), held) + if shows {
            1nat
        } else {
            0
        }
    }
}

/// Every entry that names a folder or a playlist the library holds is shown once, as the one or
/// the other.
pub proof fn every_entry_is_shown_once(entries: Seq<Entry>, held: nat)
    ensures
        folders_in(entries).len() + playlists_in(entries, held).len() == shown_count(entries, held),
        forall|place: int| #[trigger]
            playlists_in(entries, held).contains(place) ==> 0 <= place < held,
    decreases entries.len(),
{
    if entries.len() > 0 {
        every_entry_is_shown_once(entries.drop_last(), held);
        let before = playlists_in(entries.drop_last(), held);
        let after = playlists_in(entries, held);
        assert forall|place: int| #[trigger] after.contains(place) implies 0 <= place < held by {
            let i = choose|i: int| 0 <= i < after.len() && after[i] == place;
            if i < before.len() {
                assert(before[i] == place);
                assert(before.contains(place));
            }
        }
    }
}

/// The playlists to shuffle of those inside, by their place: the ones the library holds.
pub open spec fn playable(inside: Seq<usize>, held: nat) -> Seq<int>
    decreases inside.len(),
{
    if inside.len() == 0 {
        Seq::empty()
    } else {
        let before = playable(inside.drop_last(), held);
        if inside.last() < held {
            before.push(inside.last() as int)
        } else {
            before
        }
    }
}

/// The button that shuffles everything below the folder.
#[derive(Clone, Debug, PartialEq, Eq)]
pub struct ShuffleButton {
    pub label: &'static str,
    pub disabled: bool,
    /// The playlists that are shuffled, by their place.
    pub playlists: Vec<usize>,
}

/// The button that shuffles everything below the folder. It does nothing while the tracks are
/// still being gathered, and when there is nothing to shuffle.
pub fn shuffle_button(inside: &Vec<usize>, held: usize, gathering: bool) -> (button: ShuffleButton)
    ensures
        seen_places(button.playlists@) == playable(inside@, held as nat),
        button.label == (if gathering {
            "play-loading"
        } else {
            "play-shuffle"
        }),
        button.disabled == (gathering || playable(inside@, held as nat).len() == 0),
{
    let mut playlists: Vec<usize> = Vec::new();
    let mut index: usize = 0;
    assert(inside@.take(0) =~= Seq::empty());
    assert(seen_places(playlists@) =~= Seq::empty());
    while index < inside.len()
        invariant
            index <= inside@.len(),
            seen_places(playlists@) == playable(inside@.take(index as int), held as nat),
        decreases inside@.len() - index,
    {
        let ghost before = seen_places(playlists@);
        assert(inside@.take(index + 1).drop_last() =~= inside@.take(index as int));
        let place = inside[index];
        if place < held {
            playlists.push(place);
            assert(seen_places(playlists@) =~= before.push(place as int));
        }
        index = index + 1;
    }
    assert(inside@.take(index as int) =~= inside@);
    let label = if gathering {
        "play-loading"
    } else {
        "play-shuffle"
    };
    let disabled = gathering || playlists.len() == 0;
    ShuffleButton { label, disabled, playlists }
}

/// A step of the way up to the shelf.
#[derive(Clone, Copy, Debug, PartialEq, Eq, Structural)]
pub struct TrailStep {
    /// The folder, by its place on the path.
    pub folder: usize,
    /// A slash stands in front of it.
    pub slash: bool,
}

/// The folders that one sits in, when the path to it has so many folders, itself among them.
pub open spec fn trail_of(length: nat) -> Seq<TrailStep> {
    Seq::new(
        if length > 1 {
            (length - 1) as nat
        } else {
            0
        },
        |i: int| TrailStep { folder: i as usize, slash: i > 0 },
    )
}

/// The folders that one sits in, when the path to it has so many folders, itself among them.
pub fn trail(length: usize) -> (steps: Vec<TrailStep>)
    ensures
        steps@ == trail_of(length as nat),
{
    let mut steps: Vec<TrailStep> = Vec::new();
    let mut place: usize = 0;
    while length > 1 && place < length - 1
        invariant
            length > 1 ==> place <= length - 1,
            length <= 1 ==> place == 0,
            steps@.len() == place,
            forall|i: int|
                0 <= i < place ==> #[trigger] steps@[i] == (TrailStep {
                    folder: i as usize,
                    slash: i > 0,
                }),
        decreases length - place,
    {
        steps.push(TrailStep { folder: place, slash: place > 0 });
        place = place + 1;
    }
    assert(steps@ =~= trail_of(length as nat));
    steps
}

/// What the page shows below its head.
#[derive(Clone, Copy, Debug, PartialEq, Eq, Structural)]
pub struct FolderShown {
    /// The head of the folder.
    pub header: bool,
    /// The page says that there is no such folder.
    pub missing: bool,
    /// The page says that the folder holds nothing.
    pub vacant: bool,
    pub cards: bool,
}

/// The page of a folder.
#[derive(Clone, Debug, PartialEq, Eq)]
pub struct FolderView {
    pub id: Option<String>,
    pub menu: Option<Summoned>,
}

impl FolderView {
    /// A page that no folder was opened on.
    pub fn new() -> (view: Self)
        ensures
            view.id is None,
            view.menu is None,
    {
        FolderView { id: None, menu: None }
    }

    /// Opens the page on a folder. The answer is whether it is another one, so that the page
    /// scrolls to its top.
    pub fn open(&mut self, id: &str) -> (changed: bool)
        ensures
            maybe_text(final(self).id) == Some(id@),
            changed == (maybe_text(old(self).id) != Some(id@)),
            final(self).menu == (if changed {
                None
            } else {
                old(self).menu
            }),
    {
        if let Some(open) = &self.id {
            if same(open.as_str(), id) {
                return false;
            }
        }
        self.id = Some(id.to_owned());
        self.menu = None;
        true
    }

    /// What the page shows, when the folder is known or not and so much is inside it.
    pub fn render(&self, known: bool, folders: usize, playlists: usize) -> (shown: FolderShown)
        ensures
            shown == (FolderShown {
                header: known,
                missing: !known,
                vacant: known && folders == 0 && playlists == 0,
                cards: folders != 0 || playlists != 0,
            }),
    {
        let empty = folders == 0 && playlists == 0;
        FolderShown { header: known, missing: !known, vacant: known && empty, cards: !empty }
    }
}

/// The folders inside are exactly those that are listed, and the playlists exactly those that are
/// listed and held.
pub proof fn what_is_listed_is_inside(entries: Seq<Entry>, held: nat)
    ensures
        forall|i: int|
            0 <= i < entries.len() ==> (#[trigger] entries[i] matches Entry::Folder(at)
                ==> folders_in(entries).contains(at as int)),
        forall|i: int|
            0 <= i < entries.len() ==> (#[trigger] entries[i] matches Entry::Playlist(at)
                ==> at < held ==> playlists_in(entries, held).contains(at as int)),
        forall|k: int|
            0 <= k < folders_in(entries).len() ==> has_folder(
                entries,
                #[trigger] folders_in(entries)[k],
            ),
        forall|k: int|
            0 <= k < playlists_in(entries, held).len() ==> has_playlist(
                entries,
                #[trigger] playlists_in(entries, held)[k],
            ) && playlists_in(entries, held)[k] < held,
    decreases entries.len(),
{
    if entries.len() > 0 {
        let fewer = entries.drop_last();
        what_is_listed_is_inside(fewer, held);
        let folders = folders_in(entries);
        let before = folders_in(fewer);
        let playlists = playlists_in(entries, held);
        let earlier = playlists_in(fewer, held);
        assert forall|i: int| 0 <= i < entries.len() implies (
        #[trigger] entries[i] matches Entry::Folder(at) ==> folders.contains(at as int)) by {
            if let Entry::Folder(at) = entries[i] {
                if i < fewer.len() {
                    assert(fewer[i] == entries[i]);
                    let k = choose|k: int| 0 <= k < before.len() && before[k] == at;
                    assert(folders[k] == at);
                } else {
                    assert(folders[before.len() as int] == at);
                }
            }
        }
        assert forall|i: int| 0 <= i < entries.len() implies (
        #[trigger] entries[i] matches Entry::Playlist(at) ==> at < held ==> playlists.contains(
            at as int,
        )) by {
            if let Entry::Playlist(at) = entries[i] {
                if at < held {
                    if i < fewer.len() {
                        assert(fewer[i] == entries[i]);
                        let k = choose|k: int| 0 <= k < earlier.len() && earlier[k] == at;
                        assert(playlists[k] == at);
                    } else {
                        assert(playlists[earlier.len() as int] == at);
                    }
                }
            }
        }
        assert forall|k: int| 0 <= k < folders.len() implies has_folder(
            entries,
            #[trigger] folders[k],
        ) by {
            if k < before.len() {
                assert(folders[k] == before[k]);
                assert(has_folder(fewer, before[k]));
                let i = choose|i: int|
                    0 <= i < fewer.len() && (#[trigger] fewer[i] matches Entry::Folder(at) && at
                        == before[k]);
                assert(entries[i] == fewer[i]);
            } else {
                assert(entries[entries.len() - 1] is Folder);
            }
        }
        assert forall|k: int| 0 <= k < playlists.len() implies has_playlist(
            entries,
            #[trigger] playlists[k],
        ) && playlists[k] < held by {
            if k < earlier.len() {
                assert(playlists[k] == earlier[k]);
                assert(has_playlist(fewer, earlier[k]));
                let i = choose|i: int|
                    0 <= i < fewer.len() && (#[trigger] fewer[i] matches Entry::Playlist(at) && at
                        == earlier[k]);
                assert(entries[i] == fewer[i]);
            } else {
                assert(entries[entries.len() - 1] is Playlist);
            }
        }
    }
}

/// The folder at this place is listed.
pub open spec fn has_folder(entries: Seq<Entry>, place: int) -> bool {
    exists|i: int|
        0 <= i < entries.len() && (#[trigger] entries[i] matches Entry::Folder(at) && at == place)
}

/// The playlist at this place is listed.
pub open spec fn has_playlist(entries: Seq<Entry>, place: int) -> bool {
    exists|i: int|
        0 <= i < entries.len() && (#[trigger] entries[i] matches Entry::Playlist(at) && at == place)
}

/// What is inside stays in the order in which it is listed: what is listed later comes later.
pub proof fn what_is_listed_later_comes_later(first: Seq<Entry>, second: Seq<Entry>, held: nat)
    ensures
        folders_in(first + second) == folders_in(first) + folders_in(second),
        playlists_in(first + second, held) == playlists_in(first, held) + playlists_in(
            second,
            held,
        ),
    decreases second.len(),
{
    if second.len() == 0 {
        assert(first + second =~= first);
        assert(folders_in(first) + folders_in(second) =~= folders_in(first));
        assert(playlists_in(first, held) + playlists_in(second, held) =~= playlists_in(
            first,
            held,
        ));
    } else {
        what_is_listed_later_comes_later(first, second.drop_last(), held);
        assert((first + second).drop_last() =~= first + second.drop_last());
        assert(folders_in(first + second) =~= folders_in(first) + folders_in(second));
        assert(playlists_in(first + second, held) =~= playlists_in(first, held) + playlists_in(
            second,
            held,
        ));
    }
}

/// Shuffling a folder plays exactly the playlists inside it that are held.
pub proof fn a_shuffle_plays_what_is_held(inside: Seq<usize>, held: nat)
    ensures
        forall|i: int|
            0 <= i < inside.len() && #[trigger] inside[i] < held ==> playable(
                inside,
                held,
            ).contains(inside[i] as int),
        forall|k: int|
            0 <= k < playable(inside, held).len() ==> #[trigger] playable(inside, held)[k] < held
                && seen_places(inside).contains(playable(inside, held)[k]),
        playable(inside, held).len() <= inside.len(),
    decreases inside.len(),
{
    if inside.len() > 0 {
        let fewer = inside.drop_last();
        a_shuffle_plays_what_is_held(fewer, held);
        let before = playable(fewer, held);
        let after = playable(inside, held);
        assert forall|i: int| 0 <= i < inside.len() && #[trigger] inside[i]
            < held implies after.contains(inside[i] as int) by {
            if i < fewer.len() {
                assert(fewer[i] == inside[i]);
                let k = choose|k: int| 0 <= k < before.len() && before[k] == fewer[i];
                assert(after[k] == inside[i]);
            } else {
                assert(after[before.len() as int] == inside[i]);
            }
        }
        assert forall|k: int| 0 <= k < after.len() implies #[trigger] after[k] < held
            && seen_places(inside).contains(after[k]) by {
            if k < before.len() {
                assert(after[k] == before[k]);
                let i = choose|i: int|
                    0 <= i < seen_places(fewer).len() && seen_places(fewer)[i] == before[k];
                assert(seen_places(inside)[i] == after[k]);
            } else {
                assert(seen_places(inside)[inside.len() - 1] == after[k]);
            }
        }
    }
}

/// The trail names every folder above the one that is open, from the outermost, with a slash in
/// front of all but the first.
pub proof fn the_trail_names_what_is_above(length: nat, place: int)
    requires
        length <= usize::MAX,
    ensures
        length > 0 ==> trail_of(length).len() == length - 1,
        length == 0 ==> trail_of(length).len() == 0,
        0 <= place < length - 1 ==> trail_of(length)[place].folder == place && (trail_of(
            length,
        )[place].slash <==> place > 0),
{
}

/// Opening another folder closes its menu, and opening the same one again keeps it.
pub proof fn another_folder_closes_the_menu(view: &mut FolderView, id: &str, changed: bool)
    requires
        call_ensures(FolderView::open, (view, id), changed),
    ensures
        final(view).id matches Some(now) && now@ == id@,
        old(view).id matches Some(before) ==> (changed <==> before@ != id@),
        old(view).id is None ==> changed,
        changed ==> final(view).menu is None,
        !changed ==> final(view).menu == old(view).menu,
{
}

/// The page has its header where the folder is known and says that it is missing where it is not,
/// shows cards where there is anything to show, and says that it is empty where it is known and
/// there is not.
pub proof fn a_folder_is_shown_or_missing(
    view: FolderView,
    known: bool,
    folders: usize,
    playlists: usize,
    shown: FolderShown,
)
    requires
        call_ensures(FolderView::render, (&view, known, folders, playlists), shown),
    ensures
        shown.header == known,
        shown.missing == !known,
        shown.cards <==> folders > 0 || playlists > 0,
        shown.vacant <==> known && !shown.cards,
{
}

/// A folder can be shuffled exactly when a playlist inside it is held and nothing is being
/// gathered, and says that it loads exactly while it gathers.
pub proof fn a_folder_can_be_shuffled(
    inside: Vec<usize>,
    held: usize,
    gathering: bool,
    button: ShuffleButton,
)
    requires
        call_ensures(shuffle_button, (&inside, held, gathering), button),
    ensures
        gathering ==> button.disabled && button.label == "play-loading",
        !gathering ==> button.label == "play-shuffle" && (button.disabled <==> forall|i: int|
            0 <= i < inside@.len() ==> #[trigger] inside@[i] >= held),
{
    a_shuffle_plays_what_is_held(inside@, held as nat);
    let played = playable(inside@, held as nat);
    if played.len() > 0 {
        let first = played[0];
        assert(first < held && seen_places(inside@).contains(first));
        let i = choose|i: int|
            0 <= i < seen_places(inside@).len() && seen_places(inside@)[i] == first;
        assert(inside@[i] < held);
    } else {
        assert forall|i: int| 0 <= i < inside@.len() implies #[trigger] inside@[i] >= held by {
            if inside@[i] < held {
                assert(played.contains(inside@[i] as int));
            }
        }
    }
}

} // verus!
