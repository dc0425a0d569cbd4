use sonora::views::menus::{
    album_menu, artist_press, counted, folder_menu, item_menu, keep_press, library_press, library_toggle,
    media_kind, new_playlist_menu, open_key, pin_action, playlist_menu, playlist_press,
    playlist_submenu, queue_press, sections, shared_link, sparse_menu, transport_press,
    ArtistPress, ArtistRef, Item, ItemMenu, Keeping, Known, Line, MediaKind, Opened,
    OpenedPlaylist, Opens, Origin, OriginKind, PinKind, PinMenu, Pinning, Played, Playlist,
    Pointed, Putting, Queueing, Shelved, Toggle, Track, TrackColumns, Transport,
};

fn ids(menu: &[Line]) -> Vec<String> {
    menu.iter()
        .map(|line| match line {
            Line::Item(item) => item.id.to_string(),
            Line::Separator(_) => "-".to_string(),
        })
        .collect()
}

fn track(id: Known) -> Track {
    Track {
        id,
        playable: true,
        album_id: Some("al".to_string()),
        artists: vec![ArtistRef {
            name: "A".to_string(),
            id: Some("ar".to_string()),
        }],
        pending: false,
        saved: false,
        pin: None,
    }
}

fn some_item(id: &'static str) -> Item {
    Item {
        id,
        label: counted(id, id, 1),
        icon: "icons/play.svg",
        opens: Opens::Press,
    }
}

#[test]
fn a_separator_stands_between_sections() {
    let menu = sections(&vec![
        vec![some_item("a"), some_item("b")],
        Vec::new(),
        vec![some_item("c")],
    ]);
    assert_eq!(ids(&menu), vec!["a", "b", "-", "c"]);
    assert_eq!(sections(&vec![Vec::new()]), Vec::new());
}

#[test]
fn one_track_is_not_counted() {
    assert_eq!(counted("one", "many", 1).key, "one");
    assert_eq!(counted("one", "many", 3).key, "many");
    assert_eq!(counted("one", "many", 3).count, Some(3));
}

#[test]
fn a_menu_starts_and_ends_with_entries() {
    let menus = [
        ItemMenu.for_track(track(Known::Streamed)),
        ItemMenu.for_track(track(Known::No)),
        ItemMenu.for_table_tracks(
            &vec![track(Known::Streamed), track(Known::Imported)],
            TrackColumns::default(),
        ),
        ItemMenu.for_playlist_tracks(&vec![track(Known::Streamed)], TrackColumns::default()),
        ItemMenu.for_history_tracks(&vec![track(Known::Streamed)], TrackColumns::default()),
        ItemMenu.for_album_tracks(
            &vec![track(Known::Streamed)],
            "al",
            TrackColumns::default(),
        ),
    ];
    for menu in menus {
        assert!(matches!(menu.first(), Some(Line::Item(_))));
        assert!(matches!(menu.last(), Some(Line::Item(_))));
        for pair in menu.windows(2) {
            assert!(!matches!(
                pair,
                [Line::Separator(_), Line::Separator(_)]
            ));
        }
    }
}

#[test]
fn the_page_one_is_on_is_not_offered() {
    let from_table = ids(&ItemMenu.for_table_tracks(
        &vec![track(Known::Streamed)],
        TrackColumns::default(),
    ));
    let from_album = ids(&ItemMenu.for_album_tracks(
        &vec![track(Known::Streamed)],
        "al",
        TrackColumns::default(),
    ));
    assert!(from_album.len() < from_table.len());
}

#[test]
fn the_library_keeps_what_is_missing() {
    let mut kept = track(Known::Streamed);
    kept.saved = true;
    let tracks = vec![kept.clone(), track(Known::Streamed), track(Known::No)];
    assert_eq!(library_press(&tracks), Toggle::Save(vec![1]));
    assert_eq!(library_press(&vec![kept.clone()]), Toggle::Ask(vec![0]));
    assert_ne!(
        library_toggle(&vec![kept]).icon,
        library_toggle(&tracks).icon
    );
    assert_eq!(keep_press(true), Keeping::Ask);
    assert_eq!(keep_press(false), Keeping::Put);
}

fn playlist(owned: bool, holds: &[bool]) -> Playlist {
    Playlist {
        owned,
        collaborative: false,
        holds: holds.to_vec(),
    }
}

#[test]
fn playlists_take_what_they_lack() {
    let places = vec![0, 1];
    let half = playlist(true, &[true, false]);
    let whole = playlist(true, &[true, true]);
    assert_eq!(
        playlist_press(&half, &places, true),
        Putting::Put(vec![1])
    );
    assert_eq!(playlist_press(&whole, &places, true), Putting::Nothing);
    assert_eq!(
        playlist_press(&whole, &vec![0], false),
        Putting::Again(0)
    );
    assert_eq!(
        playlist_submenu(&Vec::new(), &places),
        vec![Shelved::New, Shelved::Separator, Shelved::Empty]
    );
    let listed = playlist_submenu(&vec![half, whole], &places);
    assert_eq!(listed[0], Shelved::New);
    assert!(listed.iter().any(|line| matches!(
        line,
        Shelved::Playlist {
            place: 1,
            checked: true,
            ..
        }
    )));
}

#[test]
fn a_pin_can_be_taken_off() {
    let off = pin_action(Pinning {
        known: true,
        pinned: false,
    });
    let on = pin_action(Pinning {
        known: true,
        pinned: true,
    });
    assert_ne!(off.label.key, on.label.key);
}

#[test]
fn pinned_things_have_menus() {
    assert_eq!(item_menu(PinKind::Album, Pointed::Listed), PinMenu::Album);
    assert_eq!(
        item_menu(PinKind::Album, Pointed::Unknown),
        PinMenu::Sparse
    );
    assert_eq!(media_kind(PinKind::Folder), None);
    assert_eq!(media_kind(PinKind::Song), Some(MediaKind::Track));
    assert_eq!(open_key(PinKind::Album), open_key(PinKind::Album));
    let pinning = Pinning {
        known: true,
        pinned: true,
    };
    assert!(!folder_menu(pinning).is_empty());
    assert!(!sparse_menu(PinKind::Artist, pinning).is_empty());
    assert!(!new_playlist_menu().is_empty());
    let opened = Opened {
        here: false,
        saved: false,
        pending: false,
        pin: None,
    };
    let here = Opened {
        here: true,
        ..opened
    };
    assert!(album_menu(here).len() < album_menu(opened).len());
    let mine = OpenedPlaylist {
        here: false,
        owned: true,
        public: true,
        imported: false,
        saved: true,
        pin: None,
    };
    let theirs = OpenedPlaylist {
        owned: false,
        ..mine
    };
    assert_ne!(ids(&playlist_menu(mine)), ids(&playlist_menu(theirs)));
}

#[test]
fn a_link_comes_from_its_own_provider() {
    assert_eq!(
        shared_link(
            true,
            Some(Some("local".to_string())),
            Some(Some("stream".to_string()))
        ),
        Some("local".to_string())
    );
    assert_eq!(
        shared_link(false, None, Some(Some("stream".to_string()))),
        Some("stream".to_string())
    );
    assert_eq!(shared_link(false, None, None), None);
}

#[test]
fn the_menu_of_a_track_is_laid_out() {
    assert_eq!(
        ids(&ItemMenu.for_track(track(Known::Streamed))),
        vec![
            "add-to-playlist",
            "toggle-library",
            "-",
            "play-next",
            "add-to-queue",
            "song-radio",
            "-",
            "go-to-album",
            "go-to-artist",
            "-",
            "view-details",
            "copy-track-link",
        ]
    );
    assert_eq!(
        ids(&ItemMenu.for_track(track(Known::Imported)))[9..],
        ["-", "view-details", "edit-tags", "copy-track-link"]
    );
    assert_eq!(ids(&ItemMenu.for_track(track(Known::No)))[0], "toggle-library");
}

#[test]
fn many_tracks_share_a_shorter_menu() {
    let tracks = vec![track(Known::Streamed), track(Known::Streamed)];
    assert_eq!(
        ids(&ItemMenu.for_history_tracks(&tracks, TrackColumns::default())),
        vec![
            "add-to-playlist",
            "toggle-library",
            "-",
            "play-next",
            "add-to-queue",
            "-",
            "remove-from-history",
        ]
    );
    assert_eq!(
        ids(&ItemMenu.for_playlist_tracks(&tracks, TrackColumns::default()))[1],
        "remove-from-playlist"
    );
    assert_eq!(
        ItemMenu.for_table_tracks(&Vec::new(), TrackColumns::default()),
        Vec::new()
    );
}

#[test]
fn what_cannot_be_done_is_disabled() {
    let mut silent = track(Known::No);
    silent.playable = false;
    silent.album_id = None;
    silent.artists = Vec::new();
    for line in ItemMenu.for_track(silent) {
        if let Line::Item(item) = line {
            assert_eq!(item.opens, Opens::Nothing, "{}", item.id);
        }
    }
    let mut band = track(Known::Streamed);
    band.artists.push(ArtistRef {
        name: "B".to_string(),
        id: Some("b".to_string()),
    });
    let menu = ItemMenu.for_track(band);
    assert!(menu.iter().any(|line| matches!(
        line,
        Line::Item(item) if item.id == "go-to-artist" && item.opens == Opens::Submenu
    )));
}

#[test]
fn the_menus_of_pages_are_laid_out() {
    let opened = Opened {
        here: false,
        saved: true,
        pending: false,
        pin: Some(Pinning {
            known: true,
            pinned: false,
        }),
    };
    let album = ids(&album_menu(opened));
    assert_eq!(
        album[..album.len() - 1],
        [
            "open-album",
            "-",
            "play-album",
            "play-album-next",
            "enqueue-album",
            "-",
            "toggle-album-library",
            "-",
            "copy-album-link",
            "-",
        ]
    );
    let mine = OpenedPlaylist {
        here: true,
        owned: true,
        public: true,
        imported: false,
        saved: true,
        pin: None,
    };
    assert_eq!(
        ids(&playlist_menu(mine)),
        vec![
            "play-playlist",
            "play-playlist-next",
            "enqueue-playlist",
            "-",
            "playlist-visibility",
            "rename-playlist",
            "delete-playlist",
            "-",
            "copy-playlist-link",
        ]
    );
    let local = OpenedPlaylist {
        imported: true,
        ..mine
    };
    assert_eq!(
        ids(&playlist_menu(local)),
        vec![
            "play-playlist",
            "play-playlist-next",
            "enqueue-playlist",
            "-",
            "rename-playlist",
            "delete-playlist",
        ]
    );
}

#[test]
fn one_track_is_queued_alone_and_several_together() {
    let mut mute = track(Known::Streamed);
    mute.playable = false;
    let one = track(Known::Streamed);
    assert_eq!(queue_press(&vec![mute.clone()]), Queueing::Nothing);
    assert_eq!(
        queue_press(&vec![mute.clone(), one.clone()]),
        Queueing::One(1)
    );
    assert_eq!(
        queue_press(&vec![one.clone(), mute, one]),
        Queueing::All(vec![0, 2])
    );
}

#[test]
fn the_artist_with_a_page_opens() {
    let named = |name: &str, id: Option<&str>| ArtistRef {
        name: name.to_string(),
        id: id.map(|id| id.to_string()),
    };
    assert_eq!(artist_press(&vec![named("A", None)]), ArtistPress::Nothing);
    assert_eq!(
        artist_press(&vec![named("A", None), named("B", Some("b"))]),
        ArtistPress::Open("b".to_string())
    );
    let ArtistPress::Choose(menu) =
        artist_press(&vec![named("A", Some("a")), named("B", Some("b"))])
    else {
        panic!("there are two pages");
    };
    assert_eq!(menu.len(), 2);
    assert_eq!(menu[1].id, "artist-b");
    assert_eq!(menu[1].name, "B");
    assert_eq!(menu[1].opens, "b");
}

#[test]
fn what_is_played_is_named() {
    assert_eq!(
        transport_press(Transport::Play, OriginKind::Album, "al", "Waterloo"),
        Played::Now(Origin {
            kind: OriginKind::Album,
            id: "al".to_string(),
            name: "Waterloo".to_string(),
        })
    );
    assert_eq!(
        transport_press(Transport::Next, OriginKind::Artist, "ar", "ABBA"),
        Played::Next(OriginKind::Artist, "ar".to_string())
    );
    assert_eq!(
        transport_press(Transport::Enqueue, OriginKind::Playlist, "p", "Mix"),
        Played::Last(OriginKind::Playlist, "p".to_string())
    );
}
