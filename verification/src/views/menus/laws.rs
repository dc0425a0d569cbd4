//! What holds of the menus: which entries are offered when, and what pressing one comes down to.

use vstd::prelude::*;

use super::{
    actionable, album_item, album_menu, all_entries, all_imported, all_saved, any_actionable,
    artist_item, artist_lines, artist_menu, artist_press, entries_of, filled, holds_all, holds_at,
    if_some, item_menu, item_of, keep_item, keep_press, library_press, lines_of, link_item,
    media_kind_of, missing_from, new_playlist_menu, open_group, open_key_of, pin_group, pin_item,
    pin_transport, playable, playlist_actions, playlist_lines, playlist_menu, playlist_press,
    playlist_submenu_of, playlist_tracks, plays, queue_press, savable, sections_keep_every_entry,
    sections_of, shared_link, shelf_for, sparse_menu_of, takeable, toggle_item, track_groups,
    track_menu, transport_group, with_pages, ArtistLineModel, ArtistPress, ArtistRef, Item, Keeping,
    Known, Label, Line, MediaKind, Opened, OpenedPlaylist, Opens, OriginKind, PinKind, PinMenu,
    Pinning, Played, Playlist, Pointed, Putting, Queueing, Shelf, Shelved, Toggle, Track,
    TrackColumns, Transport,
};
use crate::lists::{places_set, seen_places, set_places_are_those_set};
use crate::text::maybe_text;

verus! {

/// The menu has a line for the playlist at this place.
pub open spec fn lists_playlist(menu: Seq<Shelved>, place: int) -> bool {
    exists|k: int|
        0 <= k < menu.len() && (#[trigger] menu[k] matches Shelved::Playlist { place: at, .. } && at
            == place)
}

/// The playlist can be written to.
pub open spec fn can_be_written(playlist: Playlist) -> bool {
    ||| playlist.owned
    ||| playlist.collaborative
}

proof fn lemma_playlist_lines(playlists: Seq<Playlist>, places: Seq<int>)
    requires
        playlists.len() <= usize::MAX,
    ensures
        forall|k: int|
            0 <= k < playlist_lines(playlists, places).len() ==> (#[trigger] playlist_lines(
                playlists,
                places,
            )[k] matches Shelved::Playlist { place, checked, enabled } && {
                &&& place < playlists.len()
                &&& can_be_written(playlists[place as int])
                &&& checked == holds_all(playlists[place as int], places)
                &&& enabled == (places.len() > 0)
            }),
        forall|j: int, k: int|
            0 <= j < k < playlist_lines(playlists, places).len() ==> (#[trigger] playlist_lines(
                playlists,
                places,
            )[j])->place < (#[trigger] playlist_lines(playlists, places)[k])->place,
        forall|i: int|
            0 <= i < playlists.len() && can_be_written(#[trigger] playlists[i]) ==> lists_playlist(
                playlist_lines(playlists, places),
                i,
            ),
    decreases playlists.len(),
{
    if playlists.len() > 0 {
        let fewer = playlists.drop_last();
        lemma_playlist_lines(fewer, places);
        let before = playlist_lines(fewer, places);
        let lines = playlist_lines(playlists, places);
        assert forall|k: int| 0 <= k < lines.len() implies (
        #[trigger] lines[k] matches Shelved::Playlist { place, checked, enabled } && {
            &&& place < playlists.len()
            &&& can_be_written(playlists[place as int])
            &&& checked == holds_all(playlists[place as int], places)
            &&& enabled == (places.len() > 0)
        }) by {
            if k < before.len() {
                assert(lines[k] == before[k]);
                let place = before[k]->place;
                assert(fewer[place as int] == playlists[place as int]);
            }
        }
        assert forall|j: int, k: int| 0 <= j < k < lines.len() implies (#[trigger] lines[j])->place
            < (#[trigger] lines[k])->place by {
            assert(lines[j] == before[j]);
            if k < before.len() {
                assert(lines[k] == before[k]);
            }
        }
        assert forall|i: int|
            0 <= i < playlists.len() && can_be_written(
                #[trigger] playlists[i],
            ) implies lists_playlist(lines, i) by {
            if i < fewer.len() {
                assert(fewer[i] == playlists[i]);
                assert(lists_playlist(before, i));
                let k = choose|k: int|
                    0 <= k < before.len() && (#[trigger] before[k] matches Shelved::Playlist {
                        place: at,
                        ..
                    } && at == i);
                assert(lines[k] == before[k]);
            } else {
                assert(lines[before.len() as int]->place == i);
            }
        }
    }
}

/// A playlist is among the lines of the menu exactly when it is one's own or collaborative.
pub proof fn what_can_be_written_is_listed(playlists: Seq<Playlist>, places: Seq<int>, i: int)
    requires
        playlists.len() <= usize::MAX,
        0 <= i < playlists.len(),
    ensures
        playlists[i].owned ==> lists_playlist(playlist_submenu_of(playlists, places), i),
        playlists[i].collaborative ==> lists_playlist(playlist_submenu_of(playlists, places), i),
        lists_playlist(playlist_submenu_of(playlists, places), i) ==> playlists[i].owned
            || playlists[i].collaborative,
{
    lemma_playlist_lines(playlists, places);
    let lines = playlist_lines(playlists, places);
    let menu = playlist_submenu_of(playlists, places);
    if can_be_written(playlists[i]) {
        assert(lists_playlist(lines, i));
        let k = choose|k: int|
            0 <= k < lines.len() && (#[trigger] lines[k] matches Shelved::Playlist { place: at, .. }
                && at == i);
        assert(menu[k + 2] == lines[k]);
    }
    if lists_playlist(menu, i) {
        let k = choose|k: int|
            0 <= k < menu.len() && (#[trigger] menu[k] matches Shelved::Playlist { place: at, .. }
                && at == i);
        assert(k >= 2);
        assert(lines.len() > 0);
        assert(menu[k] == lines[k - 2]);
    }
}

/// The menu starts with making a new playlist, then lists the playlists in their order, each
/// once. It says that there is none exactly when none can be written to.
pub proof fn playlists_are_listed_in_order(playlists: Seq<Playlist>, places: Seq<int>)
    requires
        playlists.len() <= usize::MAX,
    ensures
        ({
            let menu = playlist_submenu_of(playlists, places);
            &&& menu.len() >= 3
            &&& menu[0] is New
            &&& menu[1] is Separator
            &&& forall|k: int| 2 < k < menu.len() ==> (#[trigger] menu[k]) is Playlist
            &&& menu[2] is Empty || menu[2] is Playlist
            &&& forall|j: int, k: int|
                2 <= j < k < menu.len() ==> (#[trigger] menu[j])->place < (
                #[trigger] menu[k])->place
            &&& menu[2] is Empty <==> forall|i: int|
                0 <= i < playlists.len() ==> !(#[trigger] playlists[i]).owned
                    && !playlists[i].collaborative
        }),
{
    lemma_playlist_lines(playlists, places);
    let lines = playlist_lines(playlists, places);
    let menu = playlist_submenu_of(playlists, places);
    if lines.len() > 0 {
        assert forall|k: int| 2 <= k < menu.len() implies (#[trigger] menu[k]) is Playlist
            && menu[k] == lines[k - 2] by {
            assert(menu[k] == lines[k - 2]);
        }
        assert forall|j: int, k: int| 2 <= j < k < menu.len() implies (#[trigger] menu[j])->place
            < (#[trigger] menu[k])->place by {
            assert(lines[j - 2]->place < lines[k - 2]->place);
        }
        let place = lines[0]->place;
        assert(can_be_written(playlists[place as int]));
    } else {
        assert forall|i: int| 0 <= i < playlists.len() implies !(#[trigger] playlists[i]).owned
            && !playlists[i].collaborative by {
            if can_be_written(playlists[i]) {
                assert(lists_playlist(lines, i));
            }
        }
    }
}

/// A line is checked exactly when its playlist holds every one of the tracks and there is one,
/// and can be pressed exactly when there is one.
pub proof fn a_line_is_checked_when_all_are_held(
    playlists: Seq<Playlist>,
    places: Seq<int>,
    k: int,
)
    requires
        playlists.len() <= usize::MAX,
        0 <= k < playlist_submenu_of(playlists, places).len(),
    ensures
        playlist_submenu_of(playlists, places)[k] matches Shelved::Playlist {
            place,
            checked,
            enabled,
        } ==> {
            &&& place < playlists.len()
            &&& enabled <==> places.len() > 0
            &&& places.len() == 0 ==> !checked
            &&& forall|i: int|
                0 <= i < places.len() && checked ==> 0 <= #[trigger] places[i]
                    < playlists[place as int].holds@.len()
                    && playlists[place as int].holds@[places[i]]
            &&& places.len() > 0 && !checked ==> exists|i: int|
                0 <= i < places.len() && !(0 <= #[trigger] places[i]
                    < playlists[place as int].holds@.len()
                    && playlists[place as int].holds@[places[i]])
        },
{
    lemma_playlist_lines(playlists, places);
    let lines = playlist_lines(playlists, places);
    let menu = playlist_submenu_of(playlists, places);
    if menu[k] is Playlist {
        assert(k >= 2 && lines.len() > 0);
        assert(menu[k] == lines[k - 2]);
        let place = menu[k]->place;
        let playlist = playlists[place as int];
        if menu[k]->checked {
            assert forall|i: int| 0 <= i < places.len() implies 0 <= #[trigger] places[i]
                < playlist.holds@.len() && playlist.holds@[places[i]] by {
                assert(holds_at(playlist, places[i]));
            }
        } else if places.len() > 0 {
            let i = choose|i: int| 0 <= i < places.len() && !holds_at(playlist, #[trigger] places[i]);
            assert(!(0 <= places[i] < playlist.holds@.len() && playlist.holds@[places[i]]));
        }
    }
}

proof fn lemma_missing(playlist: Playlist, places: Seq<int>)
    ensures
        forall|i: int|
            0 <= i < places.len() ==> (missing_from(playlist, places).contains(#[trigger] places[i])
                <==> !holds_at(playlist, places[i])),
        forall|k: int|
            0 <= k < missing_from(playlist, places).len() ==> places.contains(
                #[trigger] missing_from(playlist, places)[k],
            ),
        (forall|i: int, j: int| 0 <= i < j < places.len() ==> places[i] < places[j]) ==> forall|
            i: int,
            j: int,
        |
            0 <= i < j < missing_from(playlist, places).len() ==> missing_from(playlist, places)[i]
                < missing_from(playlist, places)[j],
    decreases places.len(),
{
    if places.len() > 0 {
        let fewer = places.drop_last();
        lemma_missing(playlist, fewer);
        let before = missing_from(playlist, fewer);
        let after = missing_from(playlist, places);
        assert forall|k: int| 0 <= k < after.len() implies places.contains(
            #[trigger] after[k],
        ) by {
            if k < before.len() {
                assert(after[k] == before[k]);
                let i = choose|i: int| 0 <= i < fewer.len() && fewer[i] == before[k];
                assert(places[i] == after[k]);
            } else {
                assert(places[places.len() - 1] == after[k]);
            }
        }
        assert forall|i: int| 0 <= i < places.len() implies (after.contains(#[trigger] places[i])
            <==> !holds_at(playlist, places[i])) by {
            if !holds_at(playlist, places[i]) {
                if i < fewer.len() {
                    assert(fewer[i] == places[i]);
                    let k = choose|k: int| 0 <= k < before.len() && before[k] == places[i];
                    assert(after[k] == places[i]);
                } else {
                    assert(after[before.len() as int] == places[i]);
                }
            } else if after.contains(places[i]) {
                let k = choose|k: int| 0 <= k < after.len() && after[k] == places[i];
                if k < before.len() {
                    assert(before[k] == places[i]);
                    let j = choose|j: int| 0 <= j < fewer.len() && fewer[j] == before[k];
                    assert(before.contains(fewer[j]));
                }
            }
        }
        if forall|i: int, j: int| 0 <= i < j < places.len() ==> places[i] < places[j] {
            assert forall|i: int, j: int| 0 <= i < j < fewer.len() implies fewer[i] < fewer[j] by {
                assert(places[i] < places[j]);
            }
            assert forall|i: int, j: int| 0 <= i < j < after.len() implies after[i] < after[j] by {
                assert(after[i] == before[i]);
                if j < before.len() {
                    assert(after[j] == before[j]);
                } else {
                    let at = choose|at: int| 0 <= at < fewer.len() && fewer[at] == before[i];
                    assert(places[at] < places[places.len() - 1]);
                }
            }
        }
    }
}

/// Pressing a playlist puts into it exactly those of the tracks that it does not hold, in their
/// order. Where it holds them all, one track takes a question and several do nothing.
pub proof fn only_missing_tracks_are_put(
    playlist: Playlist,
    places: Vec<usize>,
    many: bool,
    press: Putting,
    i: int,
)
    requires
        call_ensures(playlist_press, (&playlist, &places, many), press),
        0 <= i < places@.len(),
    ensures
        press matches Putting::Put(missing) ==> {
            &&& seen_places(missing@).contains(places@[i] as int) <==> !(places@[i]
                < playlist.holds@.len() && playlist.holds@[places@[i] as int])
            &&& forall|k: int|
                0 <= k < missing@.len() ==> seen_places(places@).contains(
                    #[trigger] missing@[k] as int,
                )
            &&& (forall|j: int, k: int| 0 <= j < k < places@.len() ==> places@[j] < places@[k])
                ==> forall|j: int, k: int|
                0 <= j < k < missing@.len() ==> missing@[j] < missing@[k]
        },
        !(places@[i] < playlist.holds@.len() && playlist.holds@[places@[i] as int]) ==> press is Put,
        press is Nothing ==> many,
        press matches Putting::Again(place) ==> !many && place == places@[0],
        (forall|j: int|
            0 <= j < places@.len() ==> (#[trigger] places@[j]) < playlist.holds@.len()
                && playlist.holds@[places@[j] as int]) ==> (if many {
            press is Nothing
        } else {
            press is Again
        }),
{
    let all = seen_places(places@);
    lemma_missing(playlist, all);
    assert(all[i] == places@[i]);
    if !holds_at(playlist, all[i]) {
        assert(!holds_all(playlist, all));
    }
    if forall|j: int|
        0 <= j < places@.len() ==> (#[trigger] places@[j]) < playlist.holds@.len()
            && playlist.holds@[places@[j] as int] {
        assert forall|j: int| 0 <= j < all.len() implies holds_at(playlist, #[trigger] all[j]) by {
            assert(all[j] == places@[j]);
        }
        assert(holds_all(playlist, all));
    }
    if let Putting::Put(missing) = press {
        let seen = seen_places(missing@);
        assert(seen.contains(all[i]) <==> !holds_at(playlist, all[i]));
        assert forall|k: int| 0 <= k < missing@.len() implies all.contains(
            #[trigger] missing@[k] as int,
        ) by {
            assert(seen[k] == missing@[k]);
        }
        if forall|j: int, k: int| 0 <= j < k < places@.len() ==> places@[j] < places@[k] {
            assert forall|j: int, k: int| 0 <= j < k < all.len() implies all[j] < all[k] by {
                assert(all[j] == places@[j] && all[k] == places@[k]);
            }
            assert forall|j: int, k: int| 0 <= j < k < missing@.len() implies missing@[j]
                < missing@[k] by {
                assert(seen[j] == missing@[j] && seen[k] == missing@[k]);
                assert(seen[j] < seen[k]);
            }
        }
        // some track is missing
        assert(seen[0] == missing@[0]);
        let first = choose|j: int| 0 <= j < all.len() && all[j] == seen[0];
        assert(seen.contains(all[first]));
    }
}

/// Of several tracks a playlist takes the imported ones when no track is streamed and one is
/// imported, and otherwise the streamed ones; nothing else goes in.
pub proof fn a_playlist_takes_one_sort_of_tracks(tracks: Vec<Track>, places: Vec<usize>, i: int)
    requires
        call_ensures(playlist_tracks, (&tracks,), places),
        0 <= i < tracks@.len(),
    ensures
        seen_places(places@).contains(i) <==> (tracks@[i].id is Streamed || (tracks@[i].id
            is Imported && forall|j: int|
            0 <= j < tracks@.len() ==> !((#[trigger] tracks@[j]).id is Streamed))),
        forall|j: int, k: int| 0 <= j < k < places@.len() ==> places@[j] < places@[k],
{
    let flags = takeable(tracks@);
    set_places_are_those_set(flags);
    assert(flags[i] <==> seen_places(places@).contains(i));
    assert forall|j: int, k: int| 0 <= j < k < places@.len() implies places@[j] < places@[k] by {
        assert(seen_places(places@)[j] == places@[j] && seen_places(places@)[k] == places@[k]);
    }
    if tracks@[i].id is Imported {
        assert(tracks@[i].id != Known::No);
    }
}

/// Tracks go on the local shelf exactly when one was imported and none is streamed.
pub proof fn imported_tracks_go_on_the_local_shelf(tracks: Vec<Track>, shelf: Shelf)
    requires
        call_ensures(shelf_for, (&tracks,), shelf),
    ensures
        shelf is Local <==> (exists|i: int|
            0 <= i < tracks@.len() && (#[trigger] tracks@[i]).id is Imported) && (forall|i: int|
            0 <= i < tracks@.len() ==> !((#[trigger] tracks@[i]).id is Streamed)),
{
    if all_imported(tracks@) {
        let i = choose|i: int| 0 <= i < tracks@.len() && (#[trigger] tracks@[i]).id != Known::No;
        assert(tracks@[i].id is Imported);
    }
    if exists|i: int| 0 <= i < tracks@.len() && (#[trigger] tracks@[i]).id is Imported {
        let i = choose|i: int| 0 <= i < tracks@.len() && (#[trigger] tracks@[i]).id is Imported;
        assert(tracks@[i].id != Known::No);
    }
}

/// What is handed to the player is every track that can be played and no other, in their order:
/// nothing where none can, one on its own, several together.
pub proof fn what_can_be_played_is_handed_over(tracks: Vec<Track>, press: Queueing, i: int)
    requires
        call_ensures(queue_press, (&tracks,), press),
        0 <= i < tracks@.len(),
    ensures
        match press {
            Queueing::Nothing => !tracks@[i].playable,
            Queueing::One(place) => tracks@[i].playable <==> i == place,
            Queueing::All(places) => {
                &&& tracks@[i].playable <==> seen_places(places@).contains(i)
                &&& places@.len() > 1
                &&& forall|j: int, k: int| 0 <= j < k < places@.len() ==> places@[j] < places@[k]
            },
        },
{
    let flags = playable(tracks@);
    set_places_are_those_set(flags);
    let set = places_set(flags);
    assert(flags[i] <==> set.contains(i));
    match press {
        Queueing::Nothing => {},
        Queueing::One(place) => {
            assert(set[0] == place);
        },
        Queueing::All(places) => {
            assert(seen_places(places@).len() == places@.len());
            assert forall|j: int, k: int| 0 <= j < k < places@.len() implies places@[j]
                < places@[k] by {
                assert(set[j] == places@[j] && set[k] == places@[k]);
            }
        },
    }
}

/// The library acts on a track exactly when it knows it and is not busy with it.
pub open spec fn acts_on(track: Track) -> bool {
    !(track.id is No) && !track.pending
}

/// Pressing the library entry asks about taking tracks out exactly when there is one the library
/// acts on and it holds all of those; then it is about all of those, and otherwise about those
/// that it does not hold.
pub proof fn the_library_entry_takes_out_what_is_held(tracks: Vec<Track>, toggle: Toggle, i: int)
    requires
        call_ensures(library_press, (&tracks,), toggle),
        0 <= i < tracks@.len(),
    ensures
        toggle is Ask <==> (exists|j: int| 0 <= j < tracks@.len() && acts_on(#[trigger] tracks@[j]))
            && (forall|j: int|
            0 <= j < tracks@.len() && acts_on(#[trigger] tracks@[j]) ==> tracks@[j].saved),
        toggle matches Toggle::Ask(places) ==> (seen_places(places@).contains(i) <==> acts_on(
            tracks@[i],
        )),
        toggle matches Toggle::Save(places) ==> (seen_places(places@).contains(i) <==> acts_on(
            tracks@[i],
        ) && !tracks@[i].saved),
{
    lemma_acting(tracks@);
    set_places_are_those_set(actionable(tracks@));
    set_places_are_those_set(savable(tracks@));
    assert(actionable(tracks@)[i] <==> places_set(actionable(tracks@)).contains(i));
    assert(savable(tracks@)[i] <==> places_set(savable(tracks@)).contains(i));
}

proof fn lemma_acting(tracks: Seq<Track>)
    ensures
        forall|i: int| 0 <= i < tracks.len() ==> #[trigger] actionable(tracks)[i] == acts_on(tracks[i]),
        all_saved(tracks) <==> (exists|j: int| 0 <= j < tracks.len() && acts_on(#[trigger] tracks[j]))
            && (forall|j: int|
            0 <= j < tracks.len() && acts_on(#[trigger] tracks[j]) ==> tracks[j].saved),
        any_actionable(tracks) <==> exists|j: int|
            0 <= j < tracks.len() && acts_on(#[trigger] tracks[j]),
{
    if exists|j: int| 0 <= j < tracks.len() && acts_on(#[trigger] tracks[j]) {
        let j = choose|j: int| 0 <= j < tracks.len() && acts_on(#[trigger] tracks[j]);
        assert(actionable(tracks)[j]);
    }
    if any_actionable(tracks) {
        let j = choose|j: int| 0 <= j < tracks.len() && #[trigger] actionable(tracks)[j];
        assert(acts_on(tracks[j]));
    }
    if all_saved(tracks) {
        assert forall|j: int| 0 <= j < tracks.len() && acts_on(#[trigger] tracks[j]) implies
            tracks[j].saved by {
            assert(actionable(tracks)[j]);
        }
    } else if forall|j: int|
        0 <= j < tracks.len() && acts_on(#[trigger] tracks[j]) ==> tracks[j].saved {
        assert forall|j: int| 0 <= j < tracks.len() && #[trigger] actionable(tracks)[j] implies
            tracks[j].saved by {
            assert(acts_on(tracks[j]));
        }
    }
}

/// The library entry says what pressing it does: it speaks of taking out exactly when all that
/// the library acts on is held, counts the tracks when there are several, and can be pressed
/// exactly when the library acts on one.
pub proof fn the_library_entry_says_what_it_does(tracks: Seq<Track>)
    requires
        tracks.len() <= usize::MAX,
    ensures
        ({
            let entry = toggle_item(tracks);
            let any = exists|j: int| 0 <= j < tracks.len() && acts_on(#[trigger] tracks[j]);
            let held = any && forall|j: int|
                0 <= j < tracks.len() && acts_on(#[trigger] tracks[j]) ==> tracks[j].saved;
            &&& entry.id == "toggle-library"
            &&& entry.opens == (if any {
                Opens::Press
            } else {
                Opens::Nothing
            })
            &&& held ==> entry.icon == "icons/heart-off.svg"
            &&& !held ==> entry.icon == "icons/heart.svg"
            &&& held && tracks.len() == 1 ==> entry.label.key == "menu-remove-from-library"
            &&& held && tracks.len() > 1 ==> entry.label.key == "menu-remove-tracks-from-library"
            &&& !held && tracks.len() <= 1 ==> entry.label.key == "menu-add-to-library"
            &&& !held && tracks.len() > 1 ==> entry.label.key == "menu-add-tracks-to-library"
            &&& tracks.len() <= 1 ==> entry.label.count is None
            &&& tracks.len() > 1 ==> entry.label.count == Some(tracks.len() as usize)
        }),
{
    lemma_acting(tracks);
}

/// The line is that of the artist: it has the artist's name and opens the artist's page.
pub open spec fn is_line_of(line: ArtistLineModel, artist: ArtistRef) -> bool {
    artist.id matches Some(id) && line.opens == id@ && line.name == artist.name@ && line.id
        == "artist-"@ + id@
}

/// The line is that of one of the artists.
pub open spec fn is_line_of_some(line: ArtistLineModel, artists: Seq<ArtistRef>) -> bool {
    exists|i: int| 0 <= i < artists.len() && #[trigger] is_line_of(line, artists[i])
}

/// There is a line for every artist that has a page and for no other.
pub proof fn an_artist_with_a_page_has_a_line(artists: Seq<ArtistRef>)
    ensures
        forall|i: int|
            0 <= i < artists.len() && (#[trigger] artists[i]).id is Some ==> exists|k: int|
                0 <= k < artist_lines(artists).len() && #[trigger] is_line_of(
                    artist_lines(artists)[k],
                    artists[i],
                ),
        forall|k: int|
            0 <= k < artist_lines(artists).len() ==> is_line_of_some(
                #[trigger] artist_lines(artists)[k],
                artists,
            ),
    decreases artists.len(),
{
    if artists.len() > 0 {
        let fewer = artists.drop_last();
        an_artist_with_a_page_has_a_line(fewer);
        let before = artist_lines(fewer);
        let after = artist_lines(artists);
        assert forall|i: int|
            0 <= i < artists.len() && (#[trigger] artists[i]).id is Some implies exists|k: int|
            0 <= k < after.len() && #[trigger] is_line_of(after[k], artists[i]) by {
            if i < fewer.len() {
                assert(fewer[i] == artists[i]);
                let k = choose|k: int|
                    0 <= k < before.len() && #[trigger] is_line_of(before[k], fewer[i]);
                assert(after[k] == before[k]);
                assert(is_line_of(after[k], artists[i]));
            } else {
                assert(is_line_of(after[before.len() as int], artists[i]));
            }
        }
        assert forall|k: int| 0 <= k < after.len() implies is_line_of_some(
            #[trigger] after[k],
            artists,
        ) by {
            if k < before.len() {
                assert(after[k] == before[k]);
                assert(is_line_of_some(before[k], fewer));
                let i = choose|i: int|
                    0 <= i < fewer.len() && #[trigger] is_line_of(before[k], fewer[i]);
                assert(artists[i] == fewer[i]);
                assert(is_line_of(after[k], artists[i]));
            } else {
                assert(is_line_of(after[k], artists[artists.len() - 1]));
            }
        }
    }
}

/// The entries of a few groups are those of each, one group behind the other.
proof fn lemma_six(
    a: Seq<Item>,
    b: Seq<Item>,
    c: Seq<Item>,
    d: Seq<Item>,
    e: Seq<Item>,
    f: Seq<Item>,
)
    ensures
        all_entries(seq![a, b, c, d, e, f]) == a + b + c + d + e + f,
        all_entries(seq![a, b, c, d, e]) == a + b + c + d + e,
        all_entries(seq![a, b, c, d]) == a + b + c + d,
{
    assert(seq![a, b, c, d, e, f].drop_last() =~= seq![a, b, c, d, e]);
    assert(seq![a, b, c, d, e].drop_last() =~= seq![a, b, c, d]);
    assert(seq![a, b, c, d].drop_last() =~= seq![a, b, c]);
    assert(seq![a, b, c].drop_last() =~= seq![a, b]);
    assert(seq![a, b].drop_last() =~= seq![a]);
    assert(seq![a].drop_last() =~= Seq::<Seq<Item>>::empty());
    assert(all_entries(Seq::<Seq<Item>>::empty()) =~= Seq::<Item>::empty());
    assert(all_entries(seq![a]) =~= a);
    assert(all_entries(seq![a, b]) =~= a + b);
    assert(all_entries(seq![a, b, c]) =~= a + b + c);
    assert(all_entries(seq![a, b, c, d]) =~= a + b + c + d);
    assert(all_entries(seq![a, b, c, d, e]) =~= a + b + c + d + e);
}

/// Separators stand only between sections: with the entries they make up the menu, one fewer
/// than there are sections with an entry.
pub proof fn a_separator_between_any_two_sections(groups: Seq<Seq<Item>>)
    ensures
        sections_of(groups).len() == all_entries(groups).len() + (if filled(groups) > 0 {
            filled(groups) - 1
        } else {
            0
        }),
        filled(groups) == groups.filter(|group: Seq<Item>| group.len() > 0).len(),
    decreases groups.len(),
{
    reveal(Seq::filter);
    if groups.len() > 0 {
        a_separator_between_any_two_sections(groups.drop_last());
    }
}

/// One, where something holds.
pub open spec fn one_if(holds: bool) -> nat {
    if holds {
        1
    } else {
        0
    }
}

/// Some of the tracks can be played.
pub open spec fn some_playable(tracks: Seq<Track>) -> bool {
    exists|i: int| 0 <= i < tracks.len() && (#[trigger] tracks[i]).playable
}

/// Some of the tracks are streamed, or some were imported: a playlist can take one.
pub open spec fn some_known(tracks: Seq<Track>) -> bool {
    exists|i: int| 0 <= i < tracks.len() && !((#[trigger] tracks[i]).id is No)
}

proof fn lemma_some(tracks: Seq<Track>)
    ensures
        places_set(playable(tracks)).len() > 0 <==> some_playable(tracks),
        places_set(takeable(tracks)).len() > 0 <==> some_known(tracks),
{
    let flags = playable(tracks);
    set_places_are_those_set(flags);
    if places_set(flags).len() > 0 {
        let i = places_set(flags)[0];
        assert(places_set(flags).contains(i));
        assert(tracks[i].playable);
    }
    if some_playable(tracks) {
        let i = choose|i: int| 0 <= i < tracks.len() && (#[trigger] tracks[i]).playable;
        assert(flags[i]);
        assert(places_set(flags).contains(i));
    }
    let taken = takeable(tracks);
    set_places_are_those_set(taken);
    if places_set(taken).len() > 0 {
        let i = places_set(taken)[0];
        assert(places_set(taken).contains(i));
        assert(taken[i]);
        assert(!(tracks[i].id is No));
    }
    if some_known(tracks) {
        let known = choose|i: int| 0 <= i < tracks.len() && !((#[trigger] tracks[i]).id is No);
        let i = if all_imported(tracks) {
            known
        } else {
            choose|i: int| 0 <= i < tracks.len() && (#[trigger] tracks[i]).id == Known::Streamed
        };
        assert(tracks[known].id != Known::No);
        assert(taken[i]);
        assert(places_set(taken).contains(i));
    }
}

/// How many of a track's artists have a page.
pub open spec fn pages_of(artists: Seq<ArtistRef>) -> nat {
    artists.filter(|artist: ArtistRef| artist.id is Some).len()
}

proof fn lemma_pages(artists: Seq<ArtistRef>)
    ensures
        places_set(with_pages(artists)).len() == pages_of(artists),
    decreases artists.len(),
{
    reveal(Seq::filter);
    if artists.len() > 0 {
        lemma_pages(artists.drop_last());
        assert(with_pages(artists).drop_last() =~= with_pages(artists.drop_last()));
    } else {
        assert(with_pages(artists) =~= Seq::empty());
    }
}

/// The entry that goes to an album is offered for one track alone, off the album's own page and
/// outside tables that show albums.
pub open spec fn offers_album(
    tracks: Seq<Track>,
    current: Option<Seq<char>>,
    columns: TrackColumns,
) -> bool {
    &&& tracks.len() == 1
    &&& !columns.album
    &&& !(tracks[0].album_id matches Some(album) && current == Some(album@))
}

/// An entry that can be pressed exactly when there is something to act on.
pub open spec fn pressed(
    id: &'static str,
    key: &'static str,
    count: Option<usize>,
    icon: &'static str,
    able: bool,
) -> Item {
    Item {
        id,
        label: Label { key, count },
        icon,
        opens: if able {
            Opens::Press
        } else {
            Opens::Nothing
        },
    }
}

/// Where the parts stand in their sum.
proof fn lemma_parts_stand(
    a: Seq<Item>,
    b: Seq<Item>,
    c: Seq<Item>,
    d: Seq<Item>,
    e: Seq<Item>,
    f: Seq<Item>,
)
    ensures
        ({
            let whole = a + b + c + d + e + f;
            &&& whole.len() == a.len() + b.len() + c.len() + d.len() + e.len() + f.len()
            &&& forall|i: int| 0 <= i < a.len() ==> whole[i] == #[trigger] a[i]
            &&& forall|i: int| 0 <= i < b.len() ==> whole[a.len() + i] == #[trigger] b[i]
            &&& forall|i: int|
                0 <= i < c.len() ==> whole[a.len() + b.len() + i] == #[trigger] c[i]
            &&& forall|i: int|
                0 <= i < d.len() ==> whole[a.len() + b.len() + c.len() + i] == #[trigger] d[i]
            &&& forall|i: int|
                0 <= i < e.len() ==> whole[a.len() + b.len() + c.len() + d.len() + i]
                    == #[trigger] e[i]
            &&& forall|i: int|
                0 <= i < f.len() ==> whole[a.len() + b.len() + c.len() + d.len() + e.len() + i]
                    == #[trigger] f[i]
        }),
{
}

/// What the menu of one track offers: to put a track that is known into a playlist, to play a
/// playable one next or at the end of the queue, its radio, its album and its artists off their
/// own columns and page, its details, the tags of an imported one, its link, and to pin what can
/// be pinned. Nothing else is offered but what was handed in.
#[verifier::spinoff_prover]
#[verifier::rlimit(60)]
pub proof fn one_track_offers(
    track: Track,
    action: Option<Item>,
    trailing: Option<Item>,
    current: Option<Seq<char>>,
    columns: TrackColumns,
)
    ensures
        ({
            let tracks = seq![track];
            let entries = entries_of(track_menu(tracks, action, trailing, current, columns));
            let known = !(track.id is No);
            let pages = pages_of(track.artists@);
            let lists = one_if(known) as int;
            let album = lists + 4;
            let artist = album + one_if(offers_album(tracks, current, columns));
            let details = artist + one_if(!columns.artists);
            let link = details + 1 + one_if(track.id is Imported);
            &&& entries.len() == link + 1 + one_if(track.pin is Some) + one_if(trailing is Some)
            &&& known ==> entries[0] == (Item {
                id: "add-to-playlist",
                label: Label { key: "menu-add-to-playlist", count: None },
                icon: "icons/list-plus.svg",
                opens: Opens::Submenu,
            })
            &&& entries[lists] == (match action {
                Some(action) => action,
                None => toggle_item(tracks),
            })
            &&& entries[lists + 1] == pressed(
                "play-next",
                "menu-play-next",
                None,
                "icons/list-plus.svg",
                track.playable,
            )
            &&& entries[lists + 2] == pressed(
                "add-to-queue",
                "menu-add-to-queue",
                None,
                "icons/list-end.svg",
                track.playable,
            )
            &&& entries[lists + 3] == pressed(
                "song-radio",
                "menu-song-radio",
                None,
                "icons/radio.svg",
                known && track.playable,
            )
            &&& offers_album(tracks, current, columns) ==> entries[album] == pressed(
                "go-to-album",
                "menu-go-to-album",
                None,
                "icons/disc-3.svg",
                track.album_id is Some,
            )
            &&& !columns.artists ==> entries[artist] == (Item {
                id: "go-to-artist",
                label: Label { key: "menu-go-to-artist", count: None },
                icon: "icons/user.svg",
                opens: if pages == 0 {
                    Opens::Nothing
                } else if pages == 1 {
                    Opens::Press
                } else {
                    Opens::Submenu
                },
            })
            &&& entries[details] == pressed(
                "view-details",
                "menu-view-details",
                None,
                "icons/info.svg",
                known,
            )
            &&& track.id is Imported ==> entries[details + 1] == pressed(
                "edit-tags",
                "menu-edit-tags",
                None,
                "icons/pencil.svg",
                true,
            )
            &&& entries[link] == pressed(
                "copy-track-link",
                "menu-copy-link",
                None,
                "icons/link.svg",
                known,
            )
            &&& track.pin matches Some(pin) ==> entries[link + 1] == pressed(
                "pin",
                if pin.pinned {
                    "nav-unpin"
                } else {
                    "nav-pin"
                },
                None,
                "icons/pin.svg",
                pin.known,
            )
            &&& trailing matches Some(trailing) ==> entries.last() == trailing
        }),
{
    let tracks = seq![track];
    let groups = track_groups(tracks, action, trailing, current, columns);
    let (a, b, c, d, e, f) = (
        groups[0],
        groups[1],
        groups[2],
        groups[3],
        groups[4],
        groups[5],
    );
    assert(groups =~= seq![a, b, c, d, e, f]);
    lemma_six(a, b, c, d, e, f);
    sections_keep_every_entry(groups);
    lemma_some(tracks);
    lemma_pages(track.artists@);
    assert(tracks[0] == track);
    assert(some_playable(tracks) <==> track.playable);
    assert(some_known(tracks) <==> !(track.id is No));
    assert(all_imported(tracks) <==> track.id is Imported) by {
        if track.id is Imported {
            assert(tracks[0].id != Known::No);
        }
    }
    let entries = entries_of(track_menu(tracks, action, trailing, current, columns));
    assert(entries == a + b + c + d + e + f);
    lemma_parts_stand(a, b, c, d, e, f);
    let pages = places_set(with_pages(track.artists@)).len();
    let to_album = album_item(false, columns, maybe_text(track.album_id), current);
    let to_artist = artist_item(false, columns, pages);
    assert(c == if_some(to_album) + if_some(to_artist));
    assert(to_album is Some <==> offers_album(tracks, current, columns));
    assert(a.last() == a[a.len() - 1]);
    assert(a.len() == 1 + one_if(!(track.id is No)));
    assert(b.len() == 3 && b[0].id == "play-next" && b[1].id == "add-to-queue" && b[2].id
        == "song-radio");
    assert(c.len() == if_some(to_album).len() + if_some(to_artist).len());
    if to_album is Some {
        assert(c[0] == to_album->0);
    }
    if to_artist is Some {
        assert(c[c.len() - 1] == to_artist->0);
    }
    assert(d.len() == 2 + one_if(track.id is Imported));
    assert(d[0].id == "view-details" && d[d.len() - 1].id == "copy-track-link");
    if track.id is Imported {
        assert(d[1].id == "edit-tags");
    }
    if track.pin is Some {
        assert(e[0].id == "pin");
    }
    if trailing is Some {
        assert(f[0] == trailing->0);
    }
}

proof fn lemma_parts_contain(
    a: Seq<Item>,
    b: Seq<Item>,
    c: Seq<Item>,
    d: Seq<Item>,
    e: Seq<Item>,
    f: Seq<Item>,
)
    ensures
        forall|item: Item|
            #[trigger] (a + b + c + d + e + f).contains(item) <==> a.contains(item) || b.contains(
                item,
            ) || c.contains(item) || d.contains(item) || e.contains(item) || f.contains(item),
{
    lemma_sum_contains(a, b);
    lemma_sum_contains(a + b, c);
    lemma_sum_contains(a + b + c, d);
    lemma_sum_contains(a + b + c + d, e);
    lemma_sum_contains(a + b + c + d + e, f);
    assert forall|item: Item|
        #[trigger] (a + b + c + d + e + f).contains(item) <==> a.contains(item) || b.contains(item)
            || c.contains(item) || d.contains(item) || e.contains(item) || f.contains(item) by {
        assert((a + b).contains(item) <==> a.contains(item) || b.contains(item));
        assert((a + b + c).contains(item) <==> (a + b).contains(item) || c.contains(item));
        assert((a + b + c + d).contains(item) <==> (a + b + c).contains(item) || d.contains(item));
        assert((a + b + c + d + e).contains(item) <==> (a + b + c + d).contains(item)
            || e.contains(item));
    }
}

proof fn lemma_sum_contains(a: Seq<Item>, b: Seq<Item>)
    ensures
        forall|item: Item| #[trigger]
            (a + b).contains(item) <==> a.contains(item) || b.contains(item),
{
    assert forall|item: Item| #[trigger] (a + b).contains(item) <==> a.contains(item) || b.contains(
        item,
    ) by {
        if a.contains(item) {
            let i = choose|i: int| 0 <= i < a.len() && a[i] == item;
            assert((a + b)[i] == item);
        }
        if b.contains(item) {
            let i = choose|i: int| 0 <= i < b.len() && b[i] == item;
            assert((a + b)[a.len() + i] == item);
        }
    }
}

/// What the menu of several tracks offers: to put those a playlist takes into one, to keep them
/// in the library, and to play those that can be played next or last. What is about one track
/// alone is not offered, and every entry counts the tracks.
pub proof fn several_tracks_offer(
    tracks: Seq<Track>,
    action: Option<Item>,
    trailing: Option<Item>,
    current: Option<Seq<char>>,
    columns: TrackColumns,
)
    requires
        1 < tracks.len() <= usize::MAX,
    ensures
        ({
            let entries = entries_of(track_menu(tracks, action, trailing, current, columns));
            let count = Some(tracks.len() as usize);
            &&& entries.len() == 3 + one_if(some_known(tracks)) + one_if(trailing is Some)
            &&& some_known(tracks) ==> entries[0] == (Item {
                id: "add-to-playlist",
                label: Label { key: "menu-add-tracks-to-playlist", count },
                icon: "icons/list-plus.svg",
                opens: Opens::Submenu,
            })
            &&& entries[one_if(some_known(tracks)) as int] == (match action {
                Some(action) => action,
                None => toggle_item(tracks),
            })
            &&& entries.contains(
                pressed(
                    "play-next",
                    "menu-play-tracks-next",
                    count,
                    "icons/list-plus.svg",
                    some_playable(tracks),
                ),
            )
            &&& entries.contains(
                pressed(
                    "add-to-queue",
                    "menu-add-tracks-to-queue",
                    count,
                    "icons/list-end.svg",
                    some_playable(tracks),
                ),
            )
            &&& trailing matches Some(trailing) ==> entries.last() == trailing
        }),
{
    let groups = track_groups(tracks, action, trailing, current, columns);
    let (a, b, c, d, e, f) = (
        groups[0],
        groups[1],
        groups[2],
        groups[3],
        groups[4],
        groups[5],
    );
    assert(groups =~= seq![a, b, c, d, e, f]);
    lemma_six(a, b, c, d, e, f);
    sections_keep_every_entry(groups);
    lemma_some(tracks);
    let entries = entries_of(track_menu(tracks, action, trailing, current, columns));
    assert(entries == a + b + c + d + e + f);
    lemma_parts_contain(a, b, c, d, e, f);
    assert(b.contains(b[0]) && b.contains(b[1]));
}

/// No tracks have no menu.
pub proof fn no_track_offers_nothing(
    action: Option<Item>,
    trailing: Option<Item>,
    current: Option<Seq<char>>,
    columns: TrackColumns,
)
    ensures
        track_menu(Seq::empty(), action, trailing, current, columns).len() == 0,
{
}

/// The menu of an album, an artist or a playlist: it opens the thing off its own page, plays it
/// now, next or last, keeps it, links to it and pins it where it can be pinned.
pub open spec fn offers_thing(
    entries: Seq<Item>,
    thing: Opened,
    ids: (&'static str, &'static str, &'static str, &'static str, &'static str, &'static str),
    open: &'static str,
    play: &'static str,
) -> bool {
    let shift = one_if(!thing.here) as int;
    &&& entries.len() == 5 + one_if(!thing.here) + one_if(thing.pin is Some)
    &&& !thing.here ==> entries[0] == pressed(ids.0, open, None, "icons/info.svg", true)
    &&& entries[shift] == pressed(ids.1, play, None, "icons/play.svg", true)
    &&& entries[shift + 1] == pressed(ids.2, "menu-play-next", None, "icons/list-plus.svg", true)
    &&& entries[shift + 2] == pressed(ids.3, "menu-add-to-queue", None, "icons/list-end.svg", true)
    &&& thing.saved ==> entries[shift + 3] == pressed(
        ids.4,
        "menu-remove-from-library",
        None,
        "icons/heart-off.svg",
        !thing.pending,
    )
    &&& !thing.saved ==> entries[shift + 3] == pressed(
        ids.4,
        "menu-add-to-library",
        None,
        "icons/heart.svg",
        !thing.pending,
    )
    &&& entries[shift + 4] == pressed(ids.5, "menu-copy-link", None, "icons/link.svg", true)
    &&& thing.pin matches Some(pin) ==> {
        &&& pin.pinned ==> entries[shift + 5] == pressed(
            "pin",
            "nav-unpin",
            None,
            "icons/pin.svg",
            pin.known,
        )
        &&& !pin.pinned ==> entries[shift + 5] == pressed(
            "pin",
            "nav-pin",
            None,
            "icons/pin.svg",
            pin.known,
        )
    }
}

/// What the menu of an album offers.
pub proof fn an_album_offers(album: Opened, menu: Vec<Line>)
    requires
        call_ensures(album_menu, (album,), menu),
    ensures
        offers_thing(
            entries_of(menu@),
            album,
            (
                "open-album",
                "play-album",
                "play-album-next",
                "enqueue-album",
                "toggle-album-library",
                "copy-album-link",
            ),
            "menu-open-album",
            "menu-play-album",
        ),
{
    let groups = seq![
        open_group(album.here, "open-album", "menu-open-album"),
        transport_group("play-album", "menu-play-album", "play-album-next", "enqueue-album"),
        seq![keep_item("toggle-album-library", album)],
        seq![link_item("copy-album-link")],
        pin_group(album.pin),
    ];
    sections_keep_every_entry(groups);
    lemma_six(groups[0], groups[1], groups[2], groups[3], groups[4], Seq::empty());
}

/// What the menu of an artist offers.
pub proof fn an_artist_offers(artist: Opened, menu: Vec<Line>)
    requires
        call_ensures(artist_menu, (artist,), menu),
    ensures
        offers_thing(
            entries_of(menu@),
            artist,
            (
                "open-artist",
                "play-artist",
                "play-artist-next",
                "enqueue-artist",
                "toggle-artist-library",
                "copy-artist-link",
            ),
            "menu-go-to-artist",
            "menu-play-artist",
        ),
{
    let groups = seq![
        open_group(artist.here, "open-artist", "menu-go-to-artist"),
        transport_group("play-artist", "menu-play-artist", "play-artist-next", "enqueue-artist"),
        seq![keep_item("toggle-artist-library", artist)],
        seq![link_item("copy-artist-link")],
        pin_group(artist.pin),
    ];
    sections_keep_every_entry(groups);
    lemma_six(groups[0], groups[1], groups[2], groups[3], groups[4], Seq::empty());
}

/// What the menu of a playlist offers: one's own can be renamed and deleted and, unless it was
/// imported, made public when it is private and private when it is public; someone else's can
/// be left when the library lists it and joined when it does not. An imported one has no link.
pub proof fn a_playlist_offers(playlist: OpenedPlaylist, menu: Vec<Line>)
    requires
        call_ensures(playlist_menu, (playlist,), menu),
    ensures
        ({
            let entries = entries_of(menu@);
            &&& entries.len() == 3 + one_if(!playlist.here) + (if playlist.owned {
                2 + one_if(!playlist.imported)
            } else {
                1
            }) + one_if(!playlist.imported) + one_if(playlist.pin is Some)
            &&& !playlist.here ==> entries.contains(
                pressed("open-playlist", "menu-open-playlist", None, "icons/info.svg", true),
            )
            &&& entries.contains(
                pressed("play-playlist", "menu-play-playlist", None, "icons/play.svg", true),
            )
            &&& entries.contains(
                pressed("play-playlist-next", "menu-play-next", None, "icons/list-plus.svg", true),
            )
            &&& entries.contains(
                pressed("enqueue-playlist", "menu-add-to-queue", None, "icons/list-end.svg", true),
            )
            &&& playlist.owned && !playlist.imported && playlist.public ==> entries.contains(
                pressed(
                    "playlist-visibility",
                    "menu-make-playlist-private",
                    None,
                    "icons/user.svg",
                    true,
                ),
            )
            &&& playlist.owned && !playlist.imported && !playlist.public ==> entries.contains(
                pressed(
                    "playlist-visibility",
                    "menu-make-playlist-public",
                    None,
                    "icons/user.svg",
                    true,
                ),
            )
            &&& playlist.owned ==> entries.contains(
                pressed("rename-playlist", "menu-rename-playlist", None, "icons/pencil.svg", true),
            )
            &&& playlist.owned ==> entries.contains(
                pressed("delete-playlist", "menu-delete-playlist", None, "icons/trash-2.svg", true),
            )
            &&& !playlist.owned && playlist.saved ==> entries.contains(
                pressed(
                    "leave-playlist",
                    "menu-remove-playlist-from-library",
                    None,
                    "icons/heart-off.svg",
                    true,
                ),
            )
            &&& !playlist.owned && !playlist.saved ==> entries.contains(
                pressed(
                    "join-playlist",
                    "menu-add-playlist-to-library",
                    None,
                    "icons/heart.svg",
                    true,
                ),
            )
            &&& !playlist.imported ==> entries.contains(
                pressed("copy-playlist-link", "menu-copy-link", None, "icons/link.svg", true),
            )
            &&& playlist.pin matches Some(pin) ==> entries.contains(
                pressed(
                    "pin",
                    if pin.pinned {
                        "nav-unpin"
                    } else {
                        "nav-pin"
                    },
                    None,
                    "icons/pin.svg",
                    pin.known,
                ),
            )
        }),
{
    let groups = seq![
        open_group(playlist.here, "open-playlist", "menu-open-playlist"),
        transport_group(
            "play-playlist",
            "menu-play-playlist",
            "play-playlist-next",
            "enqueue-playlist",
        ),
        playlist_actions(playlist),
        if playlist.imported {
            Seq::empty()
        } else {
            seq![link_item("copy-playlist-link")]
        },
        pin_group(playlist.pin),
    ];
    sections_keep_every_entry(groups);
    let (a, b, c, d, e) = (groups[0], groups[1], groups[2], groups[3], groups[4]);
    lemma_six(a, b, c, d, e, Seq::empty());
    lemma_parts_contain(a, b, c, d, e, Seq::empty());
    assert(a + b + c + d + e + Seq::<Item>::empty() =~= a + b + c + d + e);
    if !playlist.here {
        assert(a.contains(a[0]));
    }
    assert(b.contains(b[0]) && b.contains(b[1]) && b.contains(b[2]));
    assert(c.contains(c[0]));
    if playlist.owned {
        assert(c.contains(c[c.len() - 1]) && c.contains(c[c.len() - 2]));
    }
    if !playlist.imported {
        assert(d.contains(d[0]));
    }
    if playlist.pin is Some {
        assert(e.contains(e[0]));
    }
}

/// What the menu of a pin offers when nothing more is known about it: it opens, plays what has
/// tracks, links to what has a page, and unpins.
pub proof fn a_pin_offers(kind: PinKind, pinning: Pinning)
    ensures
        ({
            let entries = entries_of(sparse_menu_of(kind, pinning));
            let plays = if kind is Folder {
                0int
            } else if kind is Song {
                1
            } else {
                3
            };
            &&& entries.len() == 2 + plays + one_if(!(kind is Folder))
            &&& kind is Album ==> entries[0].label.key == "menu-open-album"
            &&& kind is Artist ==> entries[0].label.key == "menu-go-to-artist"
            &&& kind is Playlist ==> entries[0].label.key == "menu-open-playlist"
            &&& kind is Folder ==> entries[0].label.key == "menu-open-folder"
            &&& kind is Song ==> entries[0].label.key == "menu-view-details"
            &&& entries[0].id == "open-pin" && entries[0].icon == "icons/info.svg" && entries[0].opens
                is Press && entries[0].label.count is None
            &&& kind is Song ==> entries[1] == pressed(
                "play-pin",
                "menu-song-radio",
                None,
                "icons/radio.svg",
                true,
            )
            &&& kind is Album ==> entries[1] == pressed(
                "play-pin",
                "menu-play-album",
                None,
                "icons/play.svg",
                true,
            )
            &&& kind is Artist ==> entries[1] == pressed(
                "play-pin",
                "menu-play-artist",
                None,
                "icons/play.svg",
                true,
            )
            &&& kind is Playlist ==> entries[1] == pressed(
                "play-pin",
                "menu-play-playlist",
                None,
                "icons/play.svg",
                true,
            )
            &&& plays == 3 ==> entries[2] == pressed(
                "play-pin-next",
                "menu-play-next",
                None,
                "icons/list-plus.svg",
                true,
            ) && entries[3] == pressed(
                "enqueue-pin",
                "menu-add-to-queue",
                None,
                "icons/list-end.svg",
                true,
            )
            &&& !(kind is Folder) ==> entries[1 + plays] == pressed(
                "copy-pin-link",
                "menu-copy-link",
                None,
                "icons/link.svg",
                true,
            )
            &&& entries.last() == pressed(
                "pin",
                if pinning.pinned {
                    "nav-unpin"
                } else {
                    "nav-pin"
                },
                None,
                "icons/pin.svg",
                pinning.known,
            )
        }),
{
    let groups = seq![
        seq![item_of("open-pin", open_key_of(kind), "icons/info.svg", Opens::Press)],
        pin_transport(kind),
        if media_kind_of(kind) is Some {
            seq![link_item("copy-pin-link")]
        } else {
            Seq::empty()
        },
        seq![pin_item(pinning)],
    ];
    sections_keep_every_entry(groups);
    lemma_six(groups[0], groups[1], groups[2], groups[3], Seq::empty(), Seq::empty());
}

/// A pin shares a link to its own kind of thing, and a folder shares none.
pub proof fn a_pin_shares_its_own_kind(kind: PinKind)
    ensures
        media_kind_of(kind) == Some(MediaKind::Album) <==> kind is Album,
        media_kind_of(kind) == Some(MediaKind::Artist) <==> kind is Artist,
        media_kind_of(kind) == Some(MediaKind::Playlist) <==> kind is Playlist,
        media_kind_of(kind) == Some(MediaKind::Track) <==> kind is Song,
        media_kind_of(kind) is None <==> kind is Folder,
{
}

/// A pin gets the menu of its own kind of thing where the library lists that, and the sparse one
/// otherwise; an artist always gets its own, and a folder never does.
pub proof fn a_pin_gets_its_own_menu(kind: PinKind, pointed: Pointed, menu: PinMenu)
    requires
        call_ensures(item_menu, (kind, pointed), menu),
    ensures
        menu is Artist <==> kind is Artist,
        menu is Album <==> kind is Album && pointed is Listed,
        menu is Playlist <==> kind is Playlist && pointed is Listed,
        menu is Track <==> kind is Song && pointed is Listed,
        menu is Sparse <==> kind is Folder || (pointed is Unknown && !(kind is Artist)),
{
}

/// Pressing an entry that plays something asks for that thing and no other: now under its name,
/// next, or last.
pub proof fn a_press_plays_its_own_thing(
    played: Played,
    entry: Transport,
    kind: OriginKind,
    id: Seq<char>,
    name: Seq<char>,
)
    requires
        plays(played, entry, kind, id, name),
    ensures
        entry is Play ==> (played matches Played::Now(origin) && origin.kind == kind && origin.id@
            == id && origin.name@ == name),
        entry is Next ==> (played matches Played::Next(of, from) && of == kind && from@ == id),
        entry is Enqueue ==> (played matches Played::Last(of, from) && of == kind && from@ == id),
{
}

/// What is held is taken out after a question, and what is not is put in.
pub proof fn what_is_held_is_asked_about(saved: bool, press: Keeping)
    requires
        call_ensures(keep_press, (saved,), press),
    ensures
        saved ==> press is Ask,
        !saved ==> press is Put,
{
}

/// The link to something imported comes from the machine's own provider, and to something
/// streamed from the session's; the other provider's answer makes no difference.
pub proof fn a_link_comes_from_its_own_provider(
    imported: bool,
    local: Option<Option<String>>,
    streaming: Option<Option<String>>,
    link: Option<String>,
)
    requires
        call_ensures(shared_link, (imported, local, streaming), link),
    ensures
        imported && local is Some ==> link == local->0,
        !imported && streaming is Some ==> link == streaming->0,
        imported && local is None ==> link is None,
        !imported && streaming is None ==> link is None,
{
}

/// The entry that goes to an artist goes to the one page there is, asks where there are several,
/// and does nothing where there is none.
pub proof fn an_artist_entry_goes_where_it_can(artists: Vec<ArtistRef>, press: ArtistPress)
    requires
        call_ensures(artist_press, (&artists,), press),
    ensures
        press is Nothing <==> pages_of(artists@) == 0,
        press is Open <==> pages_of(artists@) == 1,
        press is Choose <==> pages_of(artists@) > 1,
        press matches ArtistPress::Open(id) ==> exists|i: int|
            0 <= i < artists@.len() && ((#[trigger] artists@[i]).id matches Some(page) && page@
                == id@),
        press matches ArtistPress::Choose(menu) ==> menu@.len() == pages_of(artists@),
{
    super::artists_have_a_line_each(artists@);
    lemma_pages(artists@);
    an_artist_with_a_page_has_a_line(artists@);
    let lines = artist_lines(artists@);
    if let ArtistPress::Open(id) = press {
        assert(is_line_of_some(lines[0], artists@));
        let i = choose|i: int| 0 <= i < artists@.len() && #[trigger] is_line_of(lines[0], artists@[i]);
        assert(artists@[i].id is Some);
    }
    if let ArtistPress::Choose(menu) = press {
        assert(super::seen_artists(menu@).len() == menu@.len());
    }
}

/// How many separators there are.
pub open spec fn separators(lines: Seq<Line>) -> nat {
    lines.filter(|line: Line| line is Separator).len()
}

proof fn lemma_separators_add(lines: Seq<Line>, items: Seq<Item>)
    ensures
        separators(lines + lines_of(items)) == separators(lines),
    decreases items.len(),
{
    let whole = lines + lines_of(items);
    reveal(Seq::filter);
    if items.len() == 0 {
        assert(whole =~= lines);
    } else {
        lemma_separators_add(lines, items.drop_last());
        assert(whole.drop_last() =~= lines + lines_of(items.drop_last()));
        assert(whole.last() == Line::Item(items.last()));
    }
}

/// The separators are numbered as the sections they stand in front of: the first one, in front of
/// the second section, is one.
pub proof fn separators_are_numbered(groups: Seq<Seq<Item>>, at: int)
    requires
        groups.len() <= usize::MAX,
        0 <= at < sections_of(groups).len(),
    ensures
        sections_of(groups)[at] matches Line::Separator(number) ==> number == separators(
            sections_of(groups).take(at),
        ) + 1,
    decreases groups.len(),
{
    lemma_numbered(groups);
    let lines = sections_of(groups);
    let fewer = groups.drop_last();
    let before = sections_of(fewer);
    if groups.len() > 0 {
        if at < before.len() {
            separators_are_numbered(fewer, at);
            assert(lines[at] == before[at]);
            assert(lines.take(at) =~= before.take(at));
        } else if lines[at] is Separator {
            lemma_numbered(fewer);
            assert(at == before.len());
            assert(lines.take(at) =~= before);
        }
    }
}

proof fn lemma_numbered(groups: Seq<Seq<Item>>)
    ensures
        separators(sections_of(groups)) + one_if(filled(groups) > 0) == filled(groups),
        filled(groups) <= groups.len(),
    decreases groups.len(),
{
    reveal(Seq::filter);
    if groups.len() > 0 {
        let fewer = groups.drop_last();
        let before = sections_of(fewer);
        lemma_numbered(fewer);
        if groups.last().len() > 0 {
            if filled(fewer) == 0 {
                lemma_separators_add(before, groups.last());
            } else {
                let split = before.push(Line::Separator(filled(fewer) as usize));
                assert(split.drop_last() =~= before);
                lemma_separators_add(split, groups.last());
            }
        }
    }
}

/// The empty part of a page of playlists offers to make a new one, and nothing else.
pub proof fn an_empty_page_offers_a_new_playlist(menu: Vec<Line>)
    requires
        call_ensures(new_playlist_menu, (), menu),
    ensures
        menu@.len() == 1,
        menu@[0] == Line::Item(
            pressed("create-playlist", "menu-new-playlist", None, "icons/plus.svg", true),
        ),
{
}

} // verus!
