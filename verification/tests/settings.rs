use sonora::platform::Os;
use sonora::views::login::{
    option_buttons, Effect as LoginEffect, LoginAction, LoginView, OptionLabel, Situation,
    Status,
};
use sonora::views::settings::accounts::{
    account, account_card, account_words, choice_buttons, guest, guest_card, method_buttons,
    method_count, methods, offered, providers, start_sign_in, trailing, Press, Pressed, Session, Start, Trailing,
};
use sonora::views::popups::{SearchPopup, Synced};
use sonora::views::settings::page::{
    Choices, Effect, SettingsHeader, SettingsView, Surroundings, LANGUAGES, TYPEFACES,
};
use sonora::views::settings::rows::{
    language_entries, language_row, language_selected, lyrics_enabled, lyrics_providers,
    lyrics_providers_row, members, pick_language, preset_key, romanization_script_copy,
    scan_note, step_particles, switch_adaptive, theme_enabled, Preset, Role, Scan, ScanNote,
    ThemeKind, WritingSystem,
};
use sonora::views::settings::scrobble::{
    link_scrobble, open_scrobble, scrobble_modal, scrobble_row, Link, Offer, Opened, Secret, Stored,
};
use sonora::views::settings::sleep::{
    minute_slot, sleep_at_slot, sleep_label, sleep_slot, slot_minute, switch_sleep, Dial, Sleep,
    SLEEP_LAST,
};
use sonora::views::settings::search::{ranked, whole_text, words, Panel, WordScore};
use sonora::views::settings::slots::{
    decoration_slots, drawn, every_slot, found, parted, scrobble_detail, slot_meta, slot_score,
    tab_slots, widevine_copy, widevine_offers, CdmState, Facts, Sayings, ScrobbleState, Service,
    SettingsTab, Slot, Wording,
};
use sonora::views::settings::typefaces::{
    faces, list_note, previewed, typeface_entries, usable_fonts, Current, FontChoice, ListNote,
    TYPEFACE_BATCH,
};
use sonora::views::sign_in::{
    blank, complete, guest_place, waiting, Provider, SessionState, SignIn, SignInPrompt,
};

#[test]
fn a_magnet_takes_four_slots() {
    assert_eq!(minute_slot(1), 1);
    assert_eq!(minute_slot(14), 14);
    assert_eq!(minute_slot(15), 16);
    assert_eq!(minute_slot(16), 19);
    assert_eq!(minute_slot(30), 34);
    assert_eq!(minute_slot(0), 1);
    assert_eq!(minute_slot(500), minute_slot(120));
    assert_eq!(slot_minute(15), 15);
    assert_eq!(slot_minute(18), 15);
    assert_eq!(slot_minute(19), 16);
}

#[test]
fn every_minute_reads_back() {
    for minute in 1..=120 {
        assert_eq!(slot_minute(minute_slot(minute)), minute);
        let timer = Some(Sleep::After(minute * 60));
        assert_eq!(sleep_at_slot(sleep_slot(timer)), timer);
    }
    assert_eq!(sleep_slot(None), 0);
    assert_eq!(sleep_at_slot(0), None);
    assert_eq!(sleep_slot(Some(Sleep::EndOfTrack)), SLEEP_LAST);
    assert_eq!(sleep_at_slot(SLEEP_LAST), Some(Sleep::EndOfTrack));
    assert_eq!(SLEEP_LAST, 133);
}

#[test]
fn the_dial_counts_once_it_is_let_go() {
    let mut dial = Dial { pending: None };
    let running = Some(Sleep::After(600));
    assert_eq!(dial.current(running), running);
    dial.turn(0);
    assert_eq!(dial.current(running), None);
    assert_eq!(dial.release(), Some(None));
    assert_eq!(dial.release(), None);
    assert_eq!(sleep_label(running).key, "settings-sleep-minutes");
    assert_eq!(sleep_label(running).count, Some(10));
    assert_eq!(sleep_label(None).key, "settings-sleep-off");
    assert!(switch_sleep(true).disarm);
    assert!(!switch_sleep(false).disarm);
}

fn facts(os: Os) -> Facts {
    Facts {
        os,
        window_blur: false,
        ambient: true,
        fielded: false,
        server_side: false,
        drm: false,
        equalizer: false,
        local_lyrics: false,
        discord: false,
        services: 2,
    }
}

#[test]
fn the_frame_is_the_systems_own() {
    assert_eq!(decoration_slots(&facts(Os::Macos)), Vec::new());
    assert_eq!(
        decoration_slots(&facts(Os::Linux)),
        vec![
            Slot::Title("settings-group-window-style"),
            Slot::ServerSideDecorations,
            Slot::Side,
            Slot::TrafficLights,
            Slot::WindowRounding,
        ]
    );
    let drawn_by_it = Facts {
        server_side: true,
        ..facts(Os::Linux)
    };
    assert!(!decoration_slots(&drawn_by_it).contains(&Slot::WindowRounding));
    assert_eq!(decoration_slots(&facts(Os::Windows))[1], Slot::Decorations);
}

#[test]
fn rows_come_with_what_they_depend_on() {
    let bare = tab_slots(SettingsTab::Playback, &facts(Os::Linux));
    assert!(!bare.contains(&Slot::EqualizerBands));
    assert!(!bare.contains(&Slot::Widevine));
    let full = Facts {
        equalizer: true,
        drm: true,
        ..facts(Os::Linux)
    };
    let more = tab_slots(SettingsTab::Playback, &full);
    assert!(more.contains(&Slot::EqualizerBands));
    assert!(more.contains(&Slot::Widevine));
    assert_eq!(
        tab_slots(SettingsTab::Integrations, &facts(Os::Linux)),
        vec![
            Slot::Title("settings-group-discord"),
            Slot::Discord,
            Slot::Title("settings-group-scrobbling"),
            Slot::Scrobble(0),
            Slot::Scrobble(1),
        ]
    );
    assert!(every_slot(&facts(Os::Linux)).contains(&Slot::Accounts));
    assert!(drawn(Slot::Scrobble(1), 2));
    assert!(!drawn(Slot::Scrobble(2), 2));
    assert!(drawn(Slot::Theme, 0));
}

#[test]
fn separators_part_rows_only() {
    assert_eq!(
        parted(&vec![
            Slot::Startup,
            Slot::Entries,
            Slot::Title("x"),
            Slot::Tray,
        ]),
        vec![
            Slot::Startup,
            Slot::Sep,
            Slot::Entries,
            Slot::Title("x"),
            Slot::Tray,
        ]
    );
}

#[test]
fn a_search_lists_the_best_rows_first() {
    assert_eq!(
        found(&vec![Some(3), None, Some(9), Some(3), Some(4)]),
        vec![2, 4, 0, 3]
    );
    assert_eq!(slot_score(Some(3), Some(2)), Some(7));
    assert_eq!(slot_score(Some(3), None), Some(3));
    assert_eq!(slot_score(None, Some(2)), None);
}

fn sayings() -> Sayings {
    Sayings {
        accounts: "Spotify Guest".to_string(),
        folders: true,
        cdm: CdmState::Fetched,
        services: vec![Service {
            id: "lastfm".to_string(),
            state: ScrobbleState::On("me".to_string()),
        }],
    }
}

#[test]
fn every_row_has_words() {
    assert_eq!(slot_meta(Slot::Title("x"), &sayings()), None);
    assert_eq!(slot_meta(Slot::Sep, &sayings()), None);
    assert_eq!(
        slot_meta(Slot::Startup, &sayings()),
        Some((
            Wording::Key("settings-startup"),
            Wording::Key("settings-startup-detail")
        ))
    );
    assert_eq!(slot_meta(Slot::Scrobble(7), &sayings()), None);
    assert!(slot_meta(Slot::Scrobble(0), &sayings()).is_some());
    assert_eq!(
        scrobble_detail(&ScrobbleState::On(String::new())),
        Wording::Key("settings-scrobble-on")
    );
    assert_eq!(
        scrobble_detail(&ScrobbleState::On("me".to_string())),
        Wording::Naming("settings-scrobble-as", "me".to_string())
    );
    assert_eq!(
        widevine_copy(CdmState::Declined),
        ("settings-widevine-none", "settings-widevine-missing")
    );
    assert_eq!(widevine_offers(CdmState::Fetched), (false, true));
    assert_eq!(widevine_offers(CdmState::Missing), (true, false));
}

fn texts(names: &[&str]) -> Vec<String> {
    names.iter().map(|name| name.to_string()).collect()
}

#[test]
fn a_frame_loads_a_few_faces() {
    let names = texts(&["System", "A", "B", "C", "D", "E"]);
    let first = faces(&names, "System", 0, 6, &Vec::new());
    assert_eq!(first.faced.len(), TYPEFACE_BATCH);
    assert!(first.waiting);
    let second = faces(&names, "System", 0, 6, &first.faced);
    assert!(!second.waiting);
    assert_eq!(second.faced.len(), 5);
    assert_eq!(
        second.shows,
        vec![false, true, true, true, true, true]
    );
    let scrolled = faces(&names, "System", 4, 6, &second.faced);
    assert_eq!(scrolled.shows, vec![false, false, false, false, true, true]);
}

#[test]
fn fonts_are_sorted_and_distinct() {
    assert_eq!(
        usable_fonts(&texts(&["Verdana", ".Hidden", "Arial", "Verdana"])),
        texts(&["Arial", "Verdana"])
    );
    assert_eq!(
        typeface_entries("system", "System default", &texts(&["Arial", "Syslog"]), "sys"),
        vec![0, 2]
    );
    assert_eq!(previewed(Some((1, 10)), 0), (0, 13));
    assert_eq!(previewed(None, 8), (6, 34));
    assert_eq!(list_note(true, 0, false), ListNote::Note("typeface-empty", "settings-typeface-none"));
    assert_eq!(list_note(false, 0, false), ListNote::Nothing);
}

#[test]
fn rows_step_and_switch() {
    let (more, changed) = step_particles(0, true, 1_000);
    assert!(more > 0 && changed);
    assert_eq!(step_particles(0, false, 1_000), (0, false));
    assert_eq!(step_particles(1_000, true, 1_000), (1_000, false));
    assert_eq!(step_particles(more, false, 1_000).0, 0);
    assert!(theme_enabled(ThemeKind::Other(3), false));
    assert!(!theme_enabled(ThemeKind::Other(3), true));
    assert_eq!(
        switch_adaptive(false, ThemeKind::Other(3)),
        (true, ThemeKind::Dark)
    );
    assert_eq!(
        switch_adaptive(true, ThemeKind::Other(3)),
        (false, ThemeKind::Other(3))
    );
    assert_eq!(
        switch_adaptive(false, ThemeKind::Light),
        (true, ThemeKind::Light)
    );
    assert_eq!(
        scan_note(Scan::Reading(40), 1),
        (ScanNote::Percent("settings-scan-progress", 40), Some(false))
    );
    assert_eq!(scan_note(Scan::Idle, 0), (ScanNote::Nothing, None));
    assert_eq!(
        scan_note(Scan::Done("3.2".to_string()), 2),
        (
            ScanNote::Took("settings-scan-done", "3.2".to_string()),
            Some(true)
        )
    );
    assert_eq!(lyrics_enabled(&vec![true, false, true]), 2);
    assert_eq!(language_selected(None), 0);
    assert_eq!(language_selected(Some(3)), 4);
    assert_eq!(
        language_entries(&texts(&["de", "pl"]), &texts(&["Deutsch", "Polski"]), "pol"),
        vec![1]
    );
    assert_eq!(
        romanization_script_copy(WritingSystem::Greek).1,
        "settings-romanization-greek"
    );
    assert!(preset_key(Preset::Rock).contains("rock"));
    assert_eq!(Role::Maintainer.label(), "settings-role-maintainer");
}

fn stored() -> Stored {
    Stored {
        key: "k".to_string(),
        secret: "s".to_string(),
        session: "t".to_string(),
        server: "u".to_string(),
    }
}

#[test]
fn a_service_asks_for_what_it_needs() {
    assert_eq!(open_scrobble(Link::Browser, &stored()), Opened::Connect);
    let Opened::Dialog { first, second } = open_scrobble(Link::Keys, &stored()) else {
        panic!("keys are typed");
    };
    assert_eq!((first.hint, first.masked), ("settings-scrobble-key", false));
    assert_eq!(first.value, "k");
    assert!(second.unwrap().masked);
    let Opened::Dialog { first, second } = open_scrobble(Link::Token, &stored()) else {
        panic!("a token is typed");
    };
    assert_eq!(first.value, "t");
    assert_eq!(second, None);
    assert_eq!(
        link_scrobble(Link::Server, "u".to_string(), "k".to_string()),
        Secret::Server {
            url: "u".to_string(),
            key: "k".to_string()
        }
    );
    assert_eq!(
        link_scrobble(Link::Browser, "u".to_string(), "k".to_string()),
        Secret::Nothing
    );
    assert!(!scrobble_modal(None).second);
    assert!(scrobble_modal(Some(Link::Keys)).second);
    assert_eq!(
        scrobble_row(true, true, false),
        Offer::Linked { enabled: false }
    );
    assert_eq!(scrobble_row(false, true, false), Offer::Cancel);
    assert_eq!(scrobble_row(false, false, true), Offer::Connect);
}

fn provider(slug: &str, options: Vec<SignIn>) -> Provider {
    Provider {
        slug: slug.to_string(),
        name: slug.to_uppercase(),
        options,
        web_sign_in: true,
        web_sign_in_label: None,
        stored: false,
        guest: false,
        active: false,
        pending: false,
        failed: false,
    }
}

fn session(state: SessionState) -> Session {
    Session {
        state,
        pending: false,
        authenticated: true,
        chosen: None,
    }
}

#[test]
fn one_card_has_the_radio() {
    let mut listed = vec![
        provider("deezer", vec![SignIn::Secret]),
        provider("youtube", vec![SignIn::Anonymous, SignIn::Secret]),
    ];
    listed[1].active = true;
    listed[1].stored = true;
    let signed_in = session(SessionState::SignedIn);
    let cards = providers(&signed_in, &listed);
    assert!(!cards[0].active);
    assert!(cards[1].active && cards[1].stored);
    assert!(!guest(&signed_in, &listed).unwrap().active);
    listed[1].guest = true;
    let as_guest = Session {
        authenticated: false,
        ..session(SessionState::SignedIn)
    };
    assert!(!account(&as_guest, &listed[1]).active);
    assert!(!account(&as_guest, &listed[1]).stored);
    let card = guest(&as_guest, &listed).unwrap();
    assert!(card.active && card.stored);
    assert_eq!(card.place, 1);
    let switching = Session {
        pending: true,
        chosen: Some("deezer".to_string()),
        ..session(SessionState::SignedOut)
    };
    assert!(account(&switching, &listed[0]).active);
    assert!(!account(&switching, &listed[1]).active);
    assert_eq!(
        account_words(&listed, true, "Guest"),
        "DEEZER YOUTUBE Guest"
    );
    assert_eq!(guest_place(&listed), Some(1));
}

#[test]
fn a_card_starts_or_ends_something() {
    let listed = provider("deezer", vec![SignIn::Secret]);
    let out = account(&session(SessionState::SignedOut), &listed);
    assert_eq!(account_card(out, false).press, Press::SignIn);
    assert_eq!(trailing(false, false, false), Trailing::Arrow);
    assert_eq!(trailing(false, true, false), Trailing::Cancel);
    assert_eq!(
        trailing(true, false, true),
        Trailing::SignOut { disabled: true }
    );
    let anonymous = vec![provider("youtube", vec![SignIn::Anonymous])];
    let card = guest(&session(SessionState::SignedOut), &anonymous).unwrap();
    assert_eq!(guest_card(card, false).press, Press::Anonymous);
}

#[test]
fn one_method_goes_straight_through() {
    assert_eq!(
        start_sign_in(&vec![SignIn::Default], true),
        Start::SignIn(SignIn::Default)
    );
    assert_eq!(
        start_sign_in(&vec![SignIn::Anonymous, SignIn::Secret], false),
        Start::Manual
    );
    assert_eq!(start_sign_in(&vec![SignIn::Secret], true), Start::Choice);
    assert_eq!(
        start_sign_in(&vec![SignIn::Credentials], true),
        Start::Credentials
    );
    assert_eq!(start_sign_in(&vec![SignIn::Path], true), Start::Nothing);
    assert_eq!(
        start_sign_in(&vec![SignIn::Default, SignIn::Secret], false),
        Start::Choice
    );
    assert_eq!(
        methods(&vec![SignIn::Anonymous, SignIn::Default, SignIn::Path]),
        vec![SignIn::Default]
    );
    assert!(offered(SignIn::Secret, false));
    assert!(!offered(SignIn::Secret, true));
}

#[test]
fn methods_draw_their_buttons() {
    for web in [true, false] {
        for method in [
            SignIn::Default,
            SignIn::Anonymous,
            SignIn::Secret,
            SignIn::Path,
            SignIn::Credentials,
        ] {
            assert_eq!(
                method_buttons("x", method, web, false).len(),
                method_count(method, web)
            );
        }
    }
    let both = method_buttons("deezer", SignIn::Secret, true, true);
    assert!(both[0].disabled && both[1].disabled);
    assert_eq!(both[0].id, "connect-deezer-cookies");
    assert_eq!(both[1].id, "connect-deezer-cookies-manual");
    assert_eq!(both[1].does, Pressed::Manual);
    assert!(!both[1].primary);
}

fn around(state: SessionState) -> Surroundings {
    Surroundings {
        state,
        pending: false,
    }
}

fn choices() -> Choices {
    Choices {
        language: "pl".to_string(),
        languages: texts(&["de", "en", "pl"]),
        fonts: FontChoice {
            font: "Verdana".to_string(),
            system: "system".to_string(),
            label: "System default".to_string(),
        },
    }
}

#[test]
fn fonts_are_loaded_when_they_are_looked_at() {
    let mut page = SettingsView::new();
    assert!(!page.render(around(SessionState::SignedOut), &choices()).load_fonts);
    page.select(SettingsTab::Appearance);
    assert!(page.render(around(SessionState::SignedOut), &choices()).load_fonts);
    assert!(!page.render(around(SessionState::SignedOut), &choices()).load_fonts);
    assert_eq!(page.fonts_read(texts(&["Arial"]), &choices()), None);
    assert!(!page.render(around(SessionState::SignedOut), &choices()).load_fonts);
}

#[test]
fn the_typeface_list_opens_on_the_one_in_use() {
    let mut page = SettingsView::new();
    page.open_picker(TYPEFACES);
    let frame = page.render(around(SessionState::SignedOut), &choices());
    assert!(frame.load_fonts);
    assert_eq!(frame.typefaces, Synced::Opened { scroll: 0 });
    let fonts = texts(&["Arial", "Courier", "Times", "Verdana"]);
    assert_eq!(page.fonts_read(fonts, &choices()), Some(2));
    let row = page.typeface_row(&choices(), None, &Vec::new());
    assert_eq!(row.current, Current::Named("Verdana".to_string()));
    assert_eq!(row.items.len(), 5);
    assert!(row.items[0].system && !row.items[0].faced);
    assert!(row.items[4].checked && row.items[4].selected);
    assert!(!row.items[3].checked && !row.items[3].selected);
    assert_eq!(row.note, ListNote::Nothing);
    assert_eq!(page.walk_typefaces(&choices(), true), Some(0));
    assert_eq!(page.walk_typefaces(&choices(), false), Some(4));
    assert!(page.typefaces_typed(" COUR "));
    assert_eq!(
        page.submit_typeface(&choices()),
        Some("Courier".to_string())
    );
    assert!(!page.shows(TYPEFACES));
    assert_eq!(page.pick_typeface(&choices(), 1), None);
    let shut = page.typeface_row(&choices(), None, &texts(&["Arial"]));
    assert!(shut.items.is_empty());
    assert_eq!(shut.faced, texts(&["Arial"]));
    let frame = page.render(around(SessionState::SignedOut), &choices());
    assert_eq!(frame.typefaces, Synced::Closed);
    let mut system = choices();
    system.fonts.font = "system".to_string();
    assert_eq!(
        page.typeface_row(&system, None, &Vec::new()).current,
        Current::Key("settings-typeface-system")
    );
}

#[test]
fn the_language_list_opens_on_the_one_in_use() {
    let mut page = SettingsView::new();
    page.open_picker(LANGUAGES);
    let frame = page.render(around(SessionState::SignedOut), &choices());
    assert_eq!(frame.languages, Synced::Opened { scroll: 1 });
    assert_eq!(frame.typefaces, Synced::Nothing);
    assert!(page.languages_typed("d"));
    assert!(!page.languages_typed("d "));
    let ids = texts(&["auto", "de", "pl"]);
    let labels = texts(&["System", "Deutsch", "Polski"]);
    assert!(page.languages_typed(""));
    let row = page.language_row(&ids, &labels, "pl");
    assert_eq!(row.current, 2);
    assert_eq!(row.items.len(), 3);
    assert!(row.items[0].selected && !row.items[0].checked);
    assert!(row.items[2].checked);
    assert_eq!(page.walk_languages(&row, false), Some(2));
    assert_eq!(page.walk_languages(&row, true), Some(0));
    assert_eq!(page.pick_language(&row, 3), None);
    assert!(page.shows(LANGUAGES));
    assert_eq!(page.walk_languages(&row, true), Some(1));
    assert_eq!(page.submit_language(&row), Some(1));
    assert!(!page.shows(LANGUAGES));
    assert_eq!(pick_language(&row, 1), Some(1));
    let mut asked = SearchPopup::new();
    asked.changed("zzz");
    let none = language_row(&ids, &labels, "xx", &asked);
    assert!(none.empty);
    assert_eq!(none.current, 0);
}

#[test]
fn a_press_moves_the_choice() {
    let mut page = SettingsView::new();
    let mut kept = provider("deezer", vec![SignIn::Secret]);
    kept.stored = true;
    let card = account(&session(SessionState::SignedIn), &kept);
    assert_eq!(page.press_account(card, &kept, true), Effect::Nothing);
    assert_eq!(
        page.press_account(card, &kept, false),
        Effect::Switch {
            slug: "deezer".to_string()
        }
    );
    let on_its_way = Surroundings {
        state: SessionState::Restoring,
        pending: true,
    };
    assert!(account(&page.session(on_its_way, false), &kept).active);
    let end = account_card(card, false).trailing;
    assert_eq!(
        page.press_trailing(end, "deezer"),
        Effect::Forget {
            slug: "deezer".to_string()
        }
    );
    assert_eq!(page, SettingsView::new());
    assert_eq!(
        page.press_trailing(Trailing::SignOut { disabled: true }, "deezer"),
        Effect::Nothing
    );
    assert_eq!(page.press_trailing(Trailing::Arrow, "x"), Effect::Nothing);
    assert_eq!(page.press_trailing(Trailing::Cancel, "x"), Effect::Cancel);
    let fresh = provider("deezer", vec![SignIn::Secret]);
    let card = account(&session(SessionState::SignedOut), &fresh);
    assert_eq!(page.press_account(card, &fresh, false), Effect::Nothing);
    assert!(
        page.render(around(SessionState::SignedOut), &choices())
            .choice
    );
    assert_eq!(
        page.press_method(Pressed::Manual, "deezer", "Deezer", true),
        Effect::Nothing
    );
    assert_eq!(
        page.press_method(Pressed::Manual, "deezer", "Deezer", false),
        Effect::Cookies {
            slug: "deezer".to_string()
        }
    );
    let listed = vec![provider("youtube", vec![SignIn::Anonymous, SignIn::Secret])];
    let card = guest(&session(SessionState::SignedOut), &listed).unwrap();
    assert_eq!(
        page.press_guest(card, "youtube", false),
        Effect::SignIn {
            slug: "youtube".to_string(),
            method: SignIn::Anonymous
        }
    );
    let buttons = choice_buttons(&listed, "youtube", false);
    assert_eq!(buttons.len(), 2);
    assert!(!buttons[0].disabled);
    assert_eq!(buttons[0].id, "connect-youtube-cookies");
    assert!(choice_buttons(&listed, "gone", false).is_empty());
}

fn scored(whole: u32, titled: Option<u32>) -> WordScore {
    WordScore {
        whole: Some(whole),
        titled,
    }
}

#[test]
fn the_best_match_comes_first_and_no_title_is_a_hit() {
    let slots = vec![
        Slot::Title("settings-group-window"),
        Slot::Tray,
        Slot::Startup,
        Slot::Language,
    ];
    let scores = vec![
        scored(90, Some(90)),
        scored(5, None),
        scored(3, Some(4)),
        scored(5, None),
    ];
    assert_eq!(
        ranked(&slots, &sayings(), &scores),
        vec![Slot::Startup, Slot::Tray, Slot::Language]
    );
    assert_eq!(words(&slots, &sayings())[0], None);
    assert!(words(&slots, &sayings())[1].is_some());
    assert_eq!(whole_text("Theme", "Dark"), "Theme Dark");
}

#[test]
fn the_panel_shows_a_category_hits_or_a_notice() {
    let facts = facts(Os::Linux);
    let mut page = SettingsView::new();
    let plain = page.panel(&facts, &sayings(), &Vec::new());
    assert_eq!(
        plain,
        Panel::Rows(parted(&tab_slots(SettingsTab::General, &facts)))
    );
    page.search("x");
    let every = every_slot(&facts);
    let nothing = WordScore {
        whole: None,
        titled: Some(9),
    };
    let mut scores = vec![nothing; every.len()];
    assert_eq!(
        page.panel(&facts, &sayings(), &scores),
        Panel::Notice("search-no-matches")
    );
    scores[0] = scored(1, None);
    scores[1] = scored(2, None);
    assert_eq!(
        page.panel(&facts, &sayings(), &scores),
        Panel::Rows(vec![every[1], Slot::Sep, every[0]])
    );
}

#[test]
fn the_tables_of_the_page_are_listed() {
    let providers = lyrics_providers("Local");
    assert_eq!(providers.len(), 8);
    assert_eq!(providers[0].name, "Local");
    assert_eq!(providers[7].label, "settings-lyrics-provider-netease");
    let row = lyrics_providers_row("Local", &texts(&["LrcLib", "Local", "Gone"]));
    assert_eq!(row.count, 2);
    assert!(row.checked[0] && row.checked[5] && !row.checked[1]);
    let team = members();
    assert_eq!(team.len(), 5);
    assert_eq!(team[0].role, Role::LeadMaintainer);
    assert_eq!(team[2].avatar, "https://github.com/fx-got.png");
    assert_eq!(team[4].profile, "https://github.com/imizgun");
}

#[test]
fn a_dialog_takes_the_focus_once() {
    let mut page = SettingsView::new();
    page.open_choice("deezer".to_string(), "Deezer".to_string());
    let frame = page.render(around(SessionState::SignedOut), &choices());
    assert!(frame.choice && frame.focus);
    assert!(!page.render(around(SessionState::SignedOut), &choices()).focus);
    page.open_credentials("jellyfin".to_string());
    let frame = page.render(around(SessionState::SignedOut), &choices());
    assert!(frame.credentials && !frame.choice);
    assert_eq!(page.escape(SessionState::SignedOut), Effect::Nothing);
    assert!(page.render(around(SessionState::SignedOut), &choices()).choice);
    page.take_choice();
    assert!(!page.render(around(SessionState::SignedOut), &choices()).choice);
}

#[test]
fn escape_cancels_a_sign_in() {
    let mut page = SettingsView::new();
    assert_eq!(
        page.start_manual("deezer".to_string(), "Deezer".to_string()),
        Effect::Cookies {
            slug: "deezer".to_string()
        }
    );
    let asking = SessionState::Authorizing(Some(SignInPrompt::Secret));
    assert!(page.render(around(asking), &choices()).secret);
    assert_eq!(page.submit_secret("  ".to_string()), Effect::Nothing);
    assert_eq!(page.escape(asking), Effect::Cancel);
    assert!(!page.render(around(asking), &choices()).secret);
    page.open_scrobble("lastfm".to_string());
    assert!(page.render(around(SessionState::SignedOut), &choices()).scrobble);
    assert_eq!(page.escape(asking), Effect::Nothing);
    assert!(!page.render(around(SessionState::SignedOut), &choices()).scrobble);
}

#[test]
fn credentials_are_sent_when_they_are_complete() {
    let mut page = SettingsView::new();
    page.open_credentials("jellyfin".to_string());
    assert_eq!(
        page.submit_credentials("s".to_string(), " ".to_string(), "p".to_string()),
        Effect::Nothing
    );
    assert_eq!(
        page.submit_credentials("s".to_string(), "u".to_string(), "p".to_string()),
        Effect::Server {
            slug: "jellyfin".to_string(),
            server: "s".to_string(),
            username: "u".to_string(),
            password: "p".to_string(),
        }
    );
    assert_eq!(page.abandon(), Effect::Cancel);
    assert!(complete("s", "u", "p"));
    assert!(blank(" \t"));
    assert!(waiting(SessionState::Authorizing(None)));
    assert!(!waiting(SessionState::SignedIn));
}

#[test]
fn a_search_hides_the_category() {
    let mut page = SettingsView::new();
    assert!(page.render(around(SessionState::SignedOut), &choices()).profile);
    assert!(page.search(" x "));
    assert!(page.searching());
    assert!(!page.search("xy"));
    assert!(!page.render(around(SessionState::SignedOut), &choices()).profile);
    page.open_picker("themes");
    assert!(page.select(SettingsTab::About));
    assert!(!page.searching() && !page.shows("themes"));
    assert!(!page.select(SettingsTab::About));
    assert!(page.render(around(SessionState::SignedOut), &choices()).team);
    let mut header = SettingsHeader { calm: None };
    header.click(SettingsTab::About);
    assert!(header.lit(SettingsTab::About, SettingsTab::About, false));
}

fn situation(state: SessionState) -> Situation {
    Situation {
        state,
        pending: false,
        providers: vec![
            provider("deezer", vec![SignIn::Secret]),
            provider("youtube", vec![SignIn::Anonymous]),
        ],
        asking: true,
        os: Os::Linux,
        fullscreen: false,
        server_side: false,
        rounding: Some(8),
    }
}

#[test]
fn the_sign_in_page_shows_where_it_stands() {
    let mut page = LoginView::new();
    let shown = page.render(&situation(SessionState::SignedOut)).shown;
    assert_eq!(shown.status, Status::SignedOut);
    assert_eq!(shown.column, Some(0));
    assert_eq!(shown.guest, Some(1));
    assert!(shown.guest_consent && !shown.orphan_consent);
    assert_eq!(shown.radius, Some(8));
    let screen = page.render(&situation(SessionState::SignedOut));
    assert_eq!(screen.tabs.len(), 2);
    assert_eq!(screen.tabs[0].id, "login-tab-deezer");
    assert_eq!(screen.tabs[1].label, "YOUTUBE");
    assert!(screen.tabs[0].selected && !screen.tabs[1].selected);
    assert_eq!(screen.buttons.len(), 2);
    page.open_tab(5);
    assert_eq!(
        page.render(&situation(SessionState::SignedOut)).shown.column,
        None
    );
    assert!(page.render(&situation(SessionState::Failed)).shown.failure);
    let code = SessionState::Authorizing(Some(SignInPrompt::Code));
    let shown = page.render(&situation(code)).shown;
    assert_eq!(shown.status, Status::Authorizing);
    assert!(shown.code);
    let accounts = SessionState::Authorizing(Some(SignInPrompt::Accounts));
    assert!(page.render(&situation(accounts)).shown.accounts);
}

#[test]
fn abandoning_closes_every_dialog() {
    let mut page = LoginView::new();
    let outcome = page.start_manual("deezer".to_string());
    assert_eq!(
        outcome.effect,
        LoginEffect::Cookies {
            slug: "deezer".to_string()
        }
    );
    page.open_credentials("jellyfin".to_string());
    let asking = SessionState::Authorizing(Some(SignInPrompt::Secret));
    let shown = page.render(&situation(asking)).shown;
    assert!(shown.secret && shown.credentials);
    assert_eq!(page.abandon().effect, LoginEffect::Cancel);
    let shown = page.render(&situation(asking)).shown;
    assert!(!shown.secret && !shown.credentials);
    assert_eq!(
        page.start("x".to_string(), SignIn::Default).effect,
        LoginEffect::SignIn {
            slug: "x".to_string(),
            method: SignIn::Default
        }
    );
    assert!(!page.submit_secret(" ".to_string()).acted);
}

#[test]
fn a_column_lists_its_options() {
    let listed = provider("deezer", vec![SignIn::Secret]);
    let options = option_buttons(&listed, SignIn::Secret);
    assert_eq!(options.len(), 2);
    assert_eq!(options[0].action, LoginAction::SignIn(SignIn::Secret));
    assert_eq!(options[1].label, OptionLabel::Manual);
    assert_eq!(options[1].action, LoginAction::Cookies);
    assert_eq!(sonora::views::login::column(&listed).len(), 2);
}
