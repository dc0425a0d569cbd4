use sonora::platform::Os;
use sonora::views::chrome::{
    sidebar_icon, sidebar_right_icon, window_radius, Buttons, Frame, SideEffect, SidebarRight,
    TitleBar, TitleBarOptions, WindowAction, INSET, INSET_MACOS,
};
use sonora::views::fullscreen::{
    artwork_plan, pill, Autohide, Drawn, FullscreenView, LargeCover, Rested, Scene, Sleeve, Stance,
    REST, WAKE_DEBOUNCE,
};
use sonora::views::player_bar::{
    layout, long_clock, now_playing, side_buttons, volume_hint, Around, Part, PlayerBar, Playing,
    SideTab, Toggle, Wanted, VOLUME_TIGHT, VOLUME_WIDTH,
};
use sonora::views::transport::{like, repeat, transport, PlaybackState, Player, Repeat, Tint};
use sonora::views::visuals::{around, frame_glow, post_band, scatter, Drive, GRACE};

#[test]
fn the_panel_shows_what_is_asked_for() {
    let mut panel = SidebarRight::new(false, SideTab::Queue);
    assert_eq!(
        panel.show(SideTab::Lyrics),
        vec![
            SideEffect::SaveTab(SideTab::Lyrics),
            SideEffect::Show(SideTab::Lyrics),
            SideEffect::Show(SideTab::Lyrics),
            SideEffect::Slide,
            SideEffect::SaveOpen(true),
        ]
    );
    assert_eq!(
        panel.show(SideTab::Queue),
        vec![
            SideEffect::SaveTab(SideTab::Queue),
            SideEffect::Show(SideTab::Queue),
            SideEffect::SaveOpen(true),
        ]
    );
    assert_eq!(
        panel.show(SideTab::Queue),
        vec![
            SideEffect::Dismiss,
            SideEffect::Slide,
            SideEffect::SaveOpen(false),
        ]
    );
    assert!(!panel.open);
    assert_eq!(panel.close(), Vec::new());
}

#[test]
fn toggling_the_panel_twice_leaves_it() {
    let mut panel = SidebarRight::new(true, SideTab::Lyrics);
    assert_eq!(
        panel.toggle(),
        vec![SideEffect::Slide, SideEffect::SaveOpen(false)]
    );
    assert_eq!(
        panel.toggle(),
        vec![
            SideEffect::Show(SideTab::Lyrics),
            SideEffect::Slide,
            SideEffect::SaveOpen(true),
        ]
    );
    assert_eq!(panel, SidebarRight::new(true, SideTab::Lyrics));
    assert_eq!(panel.occupied_width(true, 300), 300);
    assert_eq!(panel.occupied_width(false, 300), 0);
}

#[test]
fn only_a_plain_window_rounds_its_corners() {
    assert_eq!(window_radius(Os::Linux, false, false, Some(8)), Some(8));
    assert_eq!(window_radius(Os::Linux, true, false, Some(8)), None);
    assert_eq!(window_radius(Os::Linux, false, true, Some(8)), None);
    assert_eq!(window_radius(Os::Freebsd, false, false, None), None);
    assert_eq!(window_radius(Os::Windows, false, false, Some(8)), None);
}

fn frame(os: Os) -> Frame {
    Frame {
        os,
        client_decorations: true,
        window_controls: true,
        controls_on_left: false,
        wide: true,
        can_back: true,
        can_forward: false,
    }
}

#[test]
fn a_press_moves_the_window_once() {
    let mut bar = TitleBar::new();
    assert_eq!(bar.drag(), WindowAction::Stay);
    assert_eq!(bar.press(1, Os::Linux), WindowAction::Stay);
    assert_eq!(bar.drag(), WindowAction::Move);
    assert_eq!(bar.drag(), WindowAction::Stay);
    assert_eq!(bar.press(2, Os::Linux), WindowAction::Zoom);
    assert_eq!(bar.press(2, Os::Windows), WindowAction::Stay);
    bar.press(1, Os::Linux);
    bar.release();
    assert_eq!(bar.drag(), WindowAction::Stay);
}

#[test]
fn the_title_bar_shows_what_it_is_told() {
    let mut bar = TitleBar::new();
    let told = TitleBarOptions {
        navigation: true,
        sidebar_open: true,
        sidebar_right: Some(false),
        offset: 220,
        border: true,
        content: Some(4),
    };
    assert!(bar.set_options(told));
    assert!(!bar.set_options(told));
    assert!(bar.set_options(TitleBarOptions {
        content: Some(5),
        ..told
    }));
    let shown = bar.render(frame(Os::Linux));
    assert_eq!(shown.buttons, Buttons::Trailing);
    assert_eq!(shown.inset, Some(INSET));
    assert_eq!(shown.leading_width, Some(220));
    assert_eq!(shown.sidebar, Some(true));
    assert_eq!(shown.history, Some((true, false)));
    assert_eq!(shown.sidebar_right, Some(false));
    assert_eq!(shown.content, Some(5));
    let mac = bar.render(frame(Os::Macos));
    assert_eq!(mac.buttons, Buttons::Absent);
    assert_eq!(mac.inset, Some(INSET_MACOS));
    let left = bar.render(Frame {
        controls_on_left: true,
        wide: false,
        ..frame(Os::Windows)
    });
    assert_eq!(left.buttons, Buttons::Leading);
    assert_eq!(left.inset, None);
    assert_eq!(left.sidebar_right, None);
    let plain = TitleBar::new().render(frame(Os::Linux));
    assert_eq!(plain.sidebar, None);
    assert_eq!(plain.history, None);
    assert_eq!(sidebar_icon(true), "icons/panel-left-close.svg");
    assert_eq!(sidebar_right_icon(false), "icons/panel-right-open.svg");
}

#[test]
fn one_side_button_is_lit() {
    let open = side_buttons(true, SideTab::Queue);
    assert_eq!(open[0].id, "player-lyrics");
    assert!(!open[0].selected);
    assert!(open[1].selected);
    assert_eq!(open[1].press, Toggle::Queue);
    assert!(side_buttons(false, SideTab::Queue)
        .iter()
        .all(|button| !button.selected));
}

#[test]
fn the_bar_stacks_where_there_is_no_room() {
    assert_eq!(
        layout(false, true),
        vec![
            vec![Part::NowPlaying, Part::Transport],
            vec![
                Part::Seek,
                Part::Sides,
                Part::Volume(VOLUME_TIGHT),
                Part::Fullscreen,
            ],
        ]
    );
    assert_eq!(
        layout(true, false),
        vec![
            vec![Part::NowPlaying],
            vec![Part::Transport, Part::Seek],
            vec![Part::Volume(VOLUME_WIDTH), Part::Fullscreen],
        ]
    );
    assert!(long_clock(3600));
    assert!(!long_clock(3599));
}

#[test]
fn the_bar_says_what_is_playing() {
    let track = Some(Playing {
        name: "Song".to_string(),
        album_id: Some("al".to_string()),
        explicit: true,
        seconds: 200,
    });
    let shown = now_playing(&track, true);
    assert_eq!(shown.artwork_link, Some("al".to_string()));
    assert!(shown.menu);
    let caption = shown.caption.unwrap();
    assert_eq!(caption.id, "now-playing-track");
    assert_eq!(caption.name, Some("Song".to_string()));
    assert!(caption.explicit && caption.artists);
    assert!(now_playing(&track, false).caption.is_none());
    let nothing = now_playing(&None, true);
    assert!(!nothing.menu);
    assert_eq!(nothing.caption.unwrap().name, None);
}

#[test]
fn the_bar_is_drawn_from_what_is_around_it() {
    let mut bar: PlayerBar<u32> = PlayerBar::new();
    let mut around = Around {
        track: None,
        played: 7,
        snug: true,
        roomy: true,
        wide: false,
        panel_open: true,
        tab: SideTab::Lyrics,
        os: Os::Linux,
        fullscreen: false,
        server_side: false,
        rounding: Some(10),
    };
    let idle = bar.render(&around);
    assert!(!idle.seekable && !idle.long_clock && !idle.volume_bubble);
    assert_eq!(idle.progress, 7);
    assert_eq!(idle.radius, Some(10));
    assert!(idle.sides.is_empty());
    assert_eq!(idle.groups, layout(true, false));
    around.track = Some(Playing {
        name: "Song".to_string(),
        album_id: None,
        explicit: false,
        seconds: 4_000,
    });
    around.wide = true;
    around.fullscreen = true;
    bar.seek.drag(3);
    let playing = bar.render(&around);
    assert!(playing.seekable && playing.long_clock);
    assert_eq!(playing.progress, 3);
    assert_eq!(playing.seek_bubble, Some(3));
    assert_eq!(playing.sides.len(), 2);
    assert_eq!(playing.radius, None);
}

#[test]
fn the_menu_of_the_bar_stays_with_its_track() {
    let mut bar: PlayerBar<u32> = PlayerBar::new();
    assert_eq!(bar.context_menu, None);
    let track = Playing {
        name: "Song".to_string(),
        album_id: None,
        explicit: false,
        seconds: 4,
    };
    bar.open_context_menu(track.clone());
    bar.seek.drag(3);
    assert_eq!(bar.context_menu, Some(track));
    bar.close_context_menu();
    assert_eq!(bar.context_menu, None);
}

#[test]
fn a_dragged_slider_seeks_once() {
    let mut bar: PlayerBar<u32> = PlayerBar::new();
    assert_eq!(bar.seek.commit_seek(), None);
    bar.seek.drag(40);
    assert_eq!(bar.seek.progress(10), 40);
    assert_eq!(bar.seek.bubble(), Some(40));
    assert_eq!(bar.seek.commit_seek(), Some(40));
    assert_eq!(bar.seek.commit_seek(), None);
    assert_eq!(bar.seek.progress(10), 10);
    assert!(bar.hover(Some(5), None, true, false));
    assert_eq!(bar.seek.bubble(), Some(5));
    assert!(!bar.hover(Some(6), Some(1), false, false));
    assert_eq!(bar.seek.bubble(), Some(5));
    assert!(!bar.volume_bubble());
}

#[test]
fn silence_is_undone_by_the_same_button() {
    let mut bar: PlayerBar<u32> = PlayerBar::new();
    assert_eq!(bar.volume.press(true, 0), Wanted::Usual);
    assert_eq!(bar.volume.press(false, 62), Wanted::Silence);
    assert_eq!(bar.volume.press(true, 0), Wanted::Back(62));
    assert_eq!(bar.volume.press(false, 62), Wanted::Silence);
    bar.volume.drag();
    assert!(bar.volume_bubble());
    assert_eq!(bar.volume.press(true, 0), Wanted::Usual);
    bar.volume.release();
    assert!(!bar.volume_bubble());
    bar.volume.press(false, 9);
    bar.volume.turn();
    assert_eq!(bar.volume.press(true, 0), Wanted::Usual);
    assert_eq!(volume_hint(true), "player-unmute");
    assert_eq!(volume_hint(false), "player-mute");
}

#[test]
fn a_loading_track_sounds_but_does_not_play() {
    assert!(PlaybackState::Playing.plays() && PlaybackState::Playing.sounds());
    assert!(!PlaybackState::Loading.plays() && PlaybackState::Loading.sounds());
    assert!(!PlaybackState::Silent.plays() && !PlaybackState::Silent.sounds());
    assert_eq!(
        sonora::views::transport::toggle(PlaybackState::Loading, false).id,
        "play"
    );
}

#[test]
fn the_buttons_stand_in_a_row() {
    let row = transport(Player {
        state: PlaybackState::Playing,
        idle: false,
        shuffled: true,
        repeat: Repeat::One,
        has_previous: false,
        has_next: true,
    });
    let ids: Vec<&str> = row.iter().map(|button| button.id).collect();
    assert_eq!(
        ids,
        vec![
            "shuffle",
            "previous",
            "seek-back",
            "pause",
            "seek-forward",
            "next",
            "repeat",
        ]
    );
    assert_eq!(row[0].tint, Tint::Accent);
    assert!(row[1].disabled);
    assert!(!row[5].disabled);
    assert_eq!(row[6].icon, "icons/repeat-one.svg");
    assert_eq!(repeat(Repeat::Off).tint, Tint::Muted);
    assert_eq!(repeat(Repeat::All).tooltip, "player-repeat-all");
}

#[test]
fn a_track_without_an_id_cannot_be_liked() {
    assert!(like(true, false).disabled);
    assert_eq!(like(true, false).icon, "icons/heart.svg");
    assert_eq!(like(true, true).tooltip, "menu-remove-from-library");
    assert_eq!(like(false, true).tooltip, "menu-add-to-library");
}

#[test]
fn the_controls_rest_after_a_while() {
    let mut view: FullscreenView<u32> = FullscreenView::new(1_000);
    assert_eq!(view.rested(1_000 + REST - 1, false), Rested::Moved);
    assert_eq!(view.rested(1_000 + REST, false), Rested::Asleep);
    assert!(!view.awake);
    view.poke(9_000);
    assert!(view.awake);
    assert_eq!(view.last_moved, 9_000);
    view.poke(9_000 + WAKE_DEBOUNCE - 1);
    assert_eq!(view.last_moved, 9_000);
    view.poke(9_000 + WAKE_DEBOUNCE);
    assert_eq!(view.last_moved, 9_000 + WAKE_DEBOUNCE);
}

#[test]
fn what_is_under_the_pointer_holds_the_controls() {
    let mut view: FullscreenView<u32> = FullscreenView::new(0);
    view.hover_pill(true, 500);
    assert_eq!(view.rested(5_000, false), Rested::Held);
    assert_eq!(view.last_moved, 5_000);
    view.over.volume = true;
    assert!(view.volume_open());
    view.watch(false, 6_000);
    assert!(!view.volume_open());
    assert_eq!(view.rested(6_000 + REST, true), Rested::Asleep);
    view.volume.drag();
    assert!(view.busy(false));
    assert!(view.volume_open());
    assert!(view.volume_bubble());
}

#[test]
fn the_scrollbar_counts_with_a_panel() {
    let mut view: FullscreenView<u32> = FullscreenView::new(0);
    assert!(view.busy(true));
    view.show(None, 10);
    assert!(!view.busy(true));
    assert_eq!(view.last_moved, 10);
}

#[test]
fn leaving_the_window_leaves_the_slider() {
    let mut view: FullscreenView<u32> = FullscreenView::new(0);
    assert!(view.hover(Some(3), true, 1_000));
    assert_eq!(view.seek.over, Some(3));
    assert!(!view.hover(Some(4), false, 1_000));
    assert_eq!(view.seek.over, Some(3));
    view.watch(false, 2_000);
    assert_eq!(view.seek.over, None);
    assert_eq!(view.last_moved, 2_000);
}

fn scene() -> Scene {
    Scene {
        wide: true,
        autohide: Autohide::Automatic,
        sunk: false,
        stage_on: true,
        visualizer_on: true,
        animates: true,
        stage_moving: true,
        effects: true,
    }
}

#[test]
fn the_window_has_one_place_for_everything() {
    let mut view: FullscreenView<u32> = FullscreenView::new(0);
    let split = view.render(scene());
    assert!(split.split && split.staged && split.inner_dock && split.floating_pill);
    assert!(!split.strip && !split.outer_dock && !split.visualizer);
    assert!(split.starry && split.spectrum && split.stage_runs);
    let narrow = view.render(Scene {
        wide: false,
        ..scene()
    });
    assert!(narrow.strip && narrow.outer_dock && !narrow.staged && !narrow.starry);
    view.show(None, 1);
    let alone = view.render(Scene {
        autohide: Autohide::AlwaysHidden,
        ..scene()
    });
    assert!(alone.visualizer && !alone.veil && !alone.controls && alone.leave && alone.inline_pill);
    let asleep = view.render(Scene {
        sunk: true,
        autohide: Autohide::AlwaysShown,
        ..scene()
    });
    assert!(asleep.controls && asleep.veil && !asleep.leave);
}

#[test]
fn one_tab_is_the_one_shown() {
    let tabs = pill(Some(SideTab::Queue));
    let lit: Vec<bool> = tabs.iter().map(|tab| tab.selected).collect();
    assert_eq!(lit, vec![false, false, true]);
    assert!(pill(None)[0].selected);
    assert_eq!(tabs[1].tooltip, "lyrics-title");
}

#[test]
fn a_new_large_cover_fades_in() {
    let mut cover = LargeCover::new();
    let waiting = Sleeve {
        small: Some("s".to_string()),
        large: None,
        local_id: false,
        album: Some("al".to_string()),
    };
    assert!(cover.artwork(&waiting));
    assert_eq!(cover.revision, 0);
    let there = Sleeve {
        large: Some("l".to_string()),
        ..waiting.clone()
    };
    assert!(!cover.artwork(&there));
    assert_eq!(cover.revision, 1);
    assert_eq!(cover.large, Some("l".to_string()));
    cover.artwork(&there);
    assert_eq!(cover.revision, 1);
    let same = Sleeve {
        large: Some("s".to_string()),
        ..waiting.clone()
    };
    cover.artwork(&same);
    assert_eq!(cover.large, None);
    assert_eq!(cover.revision, 2);
    let file = Sleeve {
        small: Some("file:///a.png".to_string()),
        ..waiting
    };
    assert!(!cover.artwork(&file));
}

#[test]
fn the_artwork_is_planned() {
    let sleeve = Sleeve {
        small: Some("s".to_string()),
        large: Some("l".to_string()),
        local_id: false,
        album: Some("al".to_string()),
    };
    let plain = artwork_plan(false, true, PlaybackState::Loading, &sleeve);
    assert_eq!(
        plain.drawn,
        Drawn::Plain {
            cover: Some("s".to_string()),
            soft: false,
            over: Some("l".to_string()),
        }
    );
    assert_eq!(plain.opens, Some("al".to_string()));
    assert_eq!(plain.stance, Stance::Resting { present: true });
    let awaited = Sleeve {
        large: None,
        ..sleeve
    };
    let staged = artwork_plan(true, true, PlaybackState::Silent, &awaited);
    assert_eq!(
        staged.drawn,
        Drawn::Stage {
            cover: Some("s".to_string()),
            soft: true,
        }
    );
    assert_eq!(staged.stance, Stance::Moving);
    let still = artwork_plan(true, false, PlaybackState::Silent, &awaited);
    assert_eq!(still.stance, Stance::Resting { present: false });
    let loose = Sleeve {
        album: None,
        ..awaited
    };
    let alone = artwork_plan(false, true, PlaybackState::Silent, &loose);
    assert_eq!(
        alone.drawn,
        Drawn::Plain {
            cover: Some("s".to_string()),
            soft: false,
            over: None,
        }
    );
    assert_eq!(alone.opens, None);
}

#[test]
fn the_loop_winds_down() {
    let mut drive = Drive::default();
    assert!(drive.run(true));
    assert!(!drive.run(true));
    for _ in 0..GRACE {
        assert!(drive.step());
    }
    assert!(!drive.step());
    assert!(!drive.armed);
    assert!(drive.run(true));
    assert!(!drive.run(false));
    assert!(!drive.step());
    assert!(!drive.armed);
}

#[test]
fn the_scatter_is_fixed_and_bounded() {
    let mixed = 0x85EB_CA6Bu32;
    let mixed = mixed ^ (mixed >> 13);
    let mixed = mixed.wrapping_mul(0xC2B2_AE35);
    let mixed = mixed ^ (mixed >> 16);
    assert_eq!(scatter(0), mixed >> 8);
    for seed in 0..1_000 {
        assert!(scatter(seed) < 1 << 24);
    }
    assert_ne!(scatter(1), scatter(2));
}

#[test]
fn the_ring_reads_the_bands_twice() {
    let seen: Vec<usize> = (0..6).map(|post| post_band(post, 3)).collect();
    assert_eq!(seen, vec![0, 1, 2, 2, 1, 0]);
    assert_eq!(around(0, 4), (3, 1, 2));
    assert_eq!(around(3, 4), (2, 0, 1));
}

#[test]
fn the_glow_fades_out() {
    let fading = frame_glow(true, true, PlaybackState::Loading, true);
    assert!(!fading.follows && fading.frames && fading.drawn);
    let dark = frame_glow(true, true, PlaybackState::Silent, false);
    assert!(!dark.frames && !dark.drawn);
    let off = frame_glow(true, false, PlaybackState::Playing, true);
    assert!(!off.follows && !off.frames && !off.drawn);
}
