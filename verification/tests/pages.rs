use sonora::views::about::{about_modal, blurb, rich, Span};
use sonora::views::artist::{Mode, TableAction, TableEvent};
use sonora::views::cards::{
    album_cover, effects, folder_glyph, holding, provider_logo, released, steps, Count,
};
use sonora::views::folder::{
    contents, shuffle_button, trail, Entry, FolderView, Summoned, TrailStep,
};
use sonora::views::history::{header, note, table_action, HistoryState, HistoryView};
use sonora::views::library::albums::{
    cell as album_cell, compare as compare_albums, hits, year, year_group, AlbumCell, AlbumFacts,
    AlbumField, AlbumSource, FilterChange as AlbumChange, YearSpan,
};
use sonora::views::library::playlists::{
    cell, compare, compare_folders, compare_playlists, FilterChange, FolderFacts, PlaylistCell,
    PlaylistFacts, PlaylistField, PlaylistSource, Row,
};
use sonora::views::library::Order;
use sonora::views::popups::{guide, hint, matches_query, named, SearchPopup, Synced};
use sonora::views::powerbar::{
    category_title, describe_hit, navigate_hit, play_hit, row_group, Focus, Group, Hit, Kind,
    Moved, Powerbar, Start, Toggled,
};
use sonora::views::tools::{filters, sorts, views, Filter, FilterEntry, Sliders, Sort};
use sonora::views::transport::Tint;
use sonora::views::trouble::{
    bare_reason, continued, reason, sentence, trouble, unwrapped_reason, Failure, Message,
    SignInProblem,
};

fn group(kind: Kind, hits: usize) -> Group {
    Group { kind, hits }
}

fn searched() -> Powerbar {
    let mut bar = Powerbar::new();
    bar.rebuild_items(
        "abba",
        &vec![
            group(Kind::Song, 5),
            group(Kind::Artist, 0),
            group(Kind::Album, 2),
            group(Kind::Playlist, 1),
        ],
    );
    bar
}

#[test]
fn at_most_three_of_a_kind_are_listed() {
    let bar = searched();
    assert_eq!(bar.total_items(), 6);
    assert_eq!(bar.hit_at(0), Some((0, 0)));
    assert_eq!(bar.hit_at(2), Some((0, 2)));
    assert_eq!(bar.hit_at(3), Some((1, 0)));
    assert_eq!(bar.hit_at(5), Some((2, 0)));
    assert_eq!(bar.hit_at(6), None);
}

#[test]
fn a_blank_query_lists_nothing() {
    let mut bar = searched();
    bar.rebuild_items("  ", &vec![group(Kind::Song, 5)]);
    assert_eq!(bar.total_items(), 0);
    assert_eq!(bar.select_next(), None);
    assert_eq!(bar.select_next_category(), None);
    assert_eq!(bar.activate().0, None);
}

fn row(row: usize) -> Option<Moved> {
    Some(Moved {
        row,
        focus: Focus::List,
    })
}

#[test]
fn the_selection_walks_past_the_titles() {
    let mut bar = searched();
    let rows: Vec<Option<Moved>> = (0..7).map(|_| bar.select_next()).collect();
    assert_eq!(
        rows,
        vec![row(1), row(2), row(3), row(5), row(6), row(8), row(8)]
    );
    assert_eq!(bar.select_previous(), row(6));
}

#[test]
fn the_input_stands_in_front_of_the_first_result() {
    let mut bar = searched();
    assert_eq!(bar.select_previous(), None);
    bar.select_next();
    assert_eq!(
        bar.select_previous(),
        Some(Moved {
            row: 0,
            focus: Focus::Input
        })
    );
    assert_eq!(bar.select_next(), row(1));
}

#[test]
fn categories_go_round() {
    let mut bar = searched();
    assert_eq!(bar.select_next_category(), row(5));
    assert_eq!(bar.select_next_category(), row(8));
    assert_eq!(bar.select_next_category(), row(1));
    assert_eq!(bar.select_prev_category(), row(8));
    assert_eq!(bar.select_prev_category(), row(5));
    assert_eq!(bar.select_prev_category(), row(1));
}

#[test]
fn the_first_result_is_taken_unless_another_is_selected() {
    let mut bar = searched();
    bar.show(None);
    assert_eq!(bar.activate().0, Some((0, 0)));
    bar.toggle(None);
    bar.select_next_category();
    bar.select_next();
    assert_eq!(bar.activate().0, Some((1, 1)));
    assert_eq!(bar.activate().0, Some((0, 0)));
    bar.close();
}

#[test]
fn the_bar_gives_the_keyboard_back() {
    let mut bar = Powerbar::new();
    assert_eq!(bar.typed("abba"), "abba");
    let opened = bar.show(Some(7));
    assert_eq!(opened.ask, "abba");
    assert_eq!(opened.focus, Focus::Input);
    let closed = bar.close();
    assert_eq!(closed.focus, Some(7));
    assert_eq!(closed.ask, "");
    assert_eq!(bar.close().focus, None);
    assert_eq!(bar.show(None).ask, "");
    let Toggled::Closed(closed) = bar.toggle(Some(3)) else {
        panic!("the bar was open");
    };
    assert_eq!(closed.focus, None);
    let Toggled::Opened(_) = bar.toggle(Some(3)) else {
        panic!("the bar was closed");
    };
    assert_eq!(bar.activate().1.focus, Some(3));
}

fn song(id: Option<&str>) -> Hit {
    Hit::Song {
        id: id.map(|id| id.to_string()),
        name: "Waterloo".to_string(),
        artists: "ABBA".to_string(),
        album: "Waterloo LP".to_string(),
    }
}

#[test]
fn results_lead_and_play() {
    assert_eq!(
        navigate_hit(&song(Some("s1"))),
        Some((Kind::Song, "s1".to_string()))
    );
    assert_eq!(navigate_hit(&song(None)), None);
    assert_eq!(play_hit(&song(None)), Start::Radio);
    let artist = Hit::Artist {
        id: None,
        name: "ABBA".to_string(),
    };
    assert_eq!(navigate_hit(&artist), None);
    assert_eq!(play_hit(&artist), Start::Nothing);
    let album = Hit::Album {
        id: "a1".to_string(),
        name: "Arrival".to_string(),
        artists: "ABBA".to_string(),
    };
    assert_eq!(
        play_hit(&album),
        Start::Origin(Kind::Album, "a1".to_string(), "Arrival".to_string())
    );
    let list = Hit::Playlist {
        id: "p1".to_string(),
        name: "Mix".to_string(),
        owner: "me".to_string(),
    };
    assert_eq!(
        navigate_hit(&list),
        Some((Kind::Playlist, "p1".to_string()))
    );
    let row = describe_hit(&song(None));
    assert_eq!(row.label, "Waterloo");
    assert_eq!(row.subtitle, Some("ABBA · Waterloo LP".to_string()));
    assert_eq!(row.icon, "icons/music.svg");
    assert!(describe_hit(&artist).round);
    assert_eq!(describe_hit(&artist).subtitle, None);
    assert_eq!(describe_hit(&list).subtitle, Some("me".to_string()));
    assert_eq!(category_title(Kind::Artist), "search-artists");
    assert_eq!(row_group(12), "row-12");
}

#[test]
fn titles_are_slanted() {
    assert_eq!(
        rich("On <i>Arrival</i> and <i>Waterloo</i>."),
        (
            "On Arrival and Waterloo.".to_string(),
            vec![Span { start: 3, end: 10 }, Span { start: 15, end: 23 }]
        )
    );
}

#[test]
fn runs_are_counted_in_bytes() {
    assert_eq!(
        rich("Sæt <i>Ångström</i>"),
        (
            "Sæt Ångström".to_string(),
            vec![Span { start: 5, end: 15 }]
        )
    );
}

#[test]
fn a_tag_without_its_partner_is_dropped() {
    assert_eq!(rich("a <i>b").0, "a b");
    assert_eq!(rich("a <i>b").1, Vec::new());
    assert_eq!(rich("a</i> b").0, "a b");
    assert_eq!(rich("a <b>b</b><br/>").0, "a b");
    assert_eq!(rich("<i></i>x").1, Vec::new());
}

#[test]
fn a_text_without_tags_is_shown_once() {
    assert_eq!(rich("plain").0, "plain");
    assert_eq!(rich("1 < 2").0, "1 < 2");
    assert_eq!(rich("a<i>b</i> < c").0, "ab < c");
}

#[test]
fn a_blank_biography_has_no_blurb() {
    assert_eq!(blurb(&None), None);
    assert_eq!(blurb(&Some(String::new())), None);
    assert_eq!(
        blurb(&Some("<i>x</i>y".to_string())),
        Some("xy".to_string())
    );
    let shown = about_modal(&Some("x".to_string()), true, false, true);
    assert!(shown.biography && shown.padded && !shown.fades && shown.opens);
    assert!(!about_modal(&None, true, true, false).padded);
}

#[test]
fn a_reason_is_unwrapped() {
    assert_eq!(
        bare_reason("Error { Login failed with reason: Bad password. }"),
        "Bad password"
    );
    assert_eq!(
        unwrapped_reason("Error { Login failed with reason: Bad password. }"),
        "bad password."
    );
    assert_eq!(unwrapped_reason("Timed out"), "timed out.");
    assert_eq!(unwrapped_reason("{ }"), "{ }");
    assert_eq!(continued("b", "Bad"), "bad.");
}

#[test]
fn the_first_letter_is_lowered_by_its_language() {
    assert_eq!(unwrapped_reason("Éteint..."), "éteint.");
    assert_eq!(unwrapped_reason("İ"), "i\u{307}.");
}

#[test]
fn a_failure_is_a_sentence() {
    assert_eq!(sentence("Sign-in failed...", &None), "Sign-in failed.");
    assert_eq!(
        sentence("Sign-in failed.", &Some("Timed out.".to_string())),
        "Sign-in failed: timed out."
    );
    let known = Failure {
        problem: Some(SignInProblem::Network),
        summary: "x".to_string(),
        detail: None,
    };
    assert_eq!(trouble(&known), Message::Key("login-problem-network"));
    let other = Failure {
        problem: None,
        ..known
    };
    assert_eq!(trouble(&other), Message::Text("x.".to_string()));
    assert_eq!(reason(SignInProblem::Region), "login-problem-region");
    assert_eq!(reason(SignInProblem::Credentials), "login-problem-credentials");
    assert_eq!(reason(SignInProblem::Cancelled), "login-problem-cancelled");
    assert_eq!(reason(SignInProblem::Refused), "login-problem-refused");
}

#[test]
fn cards_say_what_they_hold() {
    assert_eq!(released(0), None);
    assert_eq!(released(1976), Some("1976".to_string()));
    assert_eq!(released(-44), Some("-44".to_string()));
    assert_eq!(
        holding(3, 0),
        vec![Count {
            key: "count-playlists",
            count: 3
        }]
    );
    assert_eq!(
        holding(0, 2),
        vec![
            Count {
                key: "count-playlists",
                count: 0
            },
            Count {
                key: "count-folders",
                count: 2
            },
        ]
    );
    assert_eq!(folder_glyph(true), Some("icons/folder.svg"));
    assert_eq!(folder_glyph(false), None);
    assert_eq!(
        album_cover(None, Some("s".to_string())),
        Some("s".to_string())
    );
    assert_eq!(provider_logo("youtube"), "icons/youtubemusic.svg");
    assert_eq!(provider_logo("else"), "icons/music.svg");
    assert_eq!(steps(3), vec!["1", "2", "3"]);
    assert!(effects(&None));
    assert!(effects(&Some("1".to_string())));
    assert!(!effects(&Some("0".to_string())));
}

#[test]
fn a_folder_lists_folders_first() {
    let entries = vec![
        Entry::Playlist(1),
        Entry::Folder(7),
        Entry::Neither,
        Entry::Playlist(9),
        Entry::Folder(4),
        Entry::Playlist(0),
    ];
    assert_eq!(contents(&entries, 2), (vec![7, 4], vec![1, 0]));
}

#[test]
fn a_shuffle_needs_playlists() {
    let button = shuffle_button(&vec![0, 5, 1], 2, false);
    assert_eq!(button.playlists, vec![0, 1]);
    assert_eq!(button.label, "play-shuffle");
    assert!(!button.disabled);
    assert!(shuffle_button(&vec![5], 2, false).disabled);
    let busy = shuffle_button(&vec![0], 2, true);
    assert!(busy.disabled);
    assert_eq!(busy.label, "play-loading");
}

#[test]
fn the_way_up_leaves_the_folder_out() {
    assert_eq!(trail(1), Vec::new());
    assert_eq!(
        trail(3),
        vec![
            TrailStep {
                folder: 0,
                slash: false
            },
            TrailStep {
                folder: 1,
                slash: true
            },
        ]
    );
}

#[test]
fn opening_another_folder_closes_the_menu() {
    let mut view = FolderView::new();
    assert!(view.open("a"));
    view.menu = Some(Summoned::Playlist(2));
    assert!(!view.open("a"));
    assert_eq!(view.menu, Some(Summoned::Playlist(2)));
    assert!(view.open("b"));
    assert_eq!(view.menu, None);
    assert_eq!(view.id, Some("b".to_string()));
    let shown = view.render(false, 0, 1);
    assert!(shown.missing && shown.cards && !shown.vacant);
    assert!(view.render(true, 0, 0).vacant);
}

#[test]
fn the_history_says_why_it_is_empty() {
    assert_eq!(note(HistoryState::Loading, 0, false), None);
    assert_eq!(
        note(HistoryState::Failed, 3, false),
        Some("history-not-loaded")
    );
    assert_eq!(note(HistoryState::Ready, 3, true), None);
    assert_eq!(
        note(HistoryState::Ready, 0, true),
        Some("library-no-matches")
    );
    assert_eq!(note(HistoryState::Ready, 0, false), Some("history-empty"));
    let head = header(&vec![1_000, 0, 500]);
    assert_eq!(head.count, 3);
    assert_eq!(head.duration, Some(1_500));
    assert!(!head.clear_disabled);
    assert_eq!(header(&vec![0]).duration, None);
    assert!(header(&Vec::new()).clear_disabled);
    assert_eq!(
        table_action(TableEvent::Activated(1)),
        Some(TableAction::PlayOrToggle(1))
    );
    assert_eq!(table_action(TableEvent::Arranged), None);
}

#[test]
fn clearing_is_asked_for() {
    let mut view = HistoryView::new();
    view.ask();
    assert!(!view.dismiss(false));
    assert!(!view.clearing);
    view.ask();
    assert!(view.dismiss(true));
    assert!(!view.dismiss(true));
}

fn album(year: i32, holds: bool) -> AlbumFacts {
    AlbumFacts {
        year,
        track_count: 10,
        added_at: None,
        name_holds: holds,
        artists_hold: false,
        year_holds: false,
    }
}

#[test]
fn the_years_are_sorted_and_distinct() {
    let mut source = AlbumSource::shelved();
    let albums = vec![
        album(1999, true),
        album(0, true),
        album(1976, true),
        album(1999, false),
        album(1976, true),
        album(2010, false),
    ];
    assert_eq!(source.years(&albums, "x"), vec![1976, 1999]);
    assert_eq!(source.years(&albums, ""), vec![1976, 1999, 2010]);
}

#[test]
fn the_years_are_kept_until_something_changes() {
    let mut source = AlbumSource::shelved();
    assert_eq!(source.years(&vec![album(1976, true)], "x"), vec![1976]);
    assert_eq!(source.years(&vec![album(1999, true)], "x"), vec![1976]);
    assert_eq!(source.years(&vec![album(1999, true)], "y"), vec![1999]);
}

#[test]
fn a_span_of_years_narrows_the_albums() {
    let mut source = AlbumSource::shelved();
    assert!(source.matches(&album(0, true), "x"));
    let span = YearSpan {
        first: 1970,
        last: 1980,
    };
    assert!(!source.filter(AlbumChange::Range("filter-length", span)));
    assert!(!source.filter(AlbumChange::Flag("filter-year", true)));
    assert!(!source.filtered());
    assert!(source.filter(AlbumChange::Range("filter-year", span)));
    assert!(source.filtered());
    assert!(source.matches(&album(1970, true), "x"));
    assert!(source.matches(&album(1980, true), "x"));
    assert!(!source.matches(&album(1981, true), "x"));
    assert!(!source.matches(&album(0, true), "x"));
    assert!(!source.matches(&album(1975, false), "x"));
    let axis = source.filter_axes(&vec![1960, 1990]).unwrap();
    assert_eq!(axis.bounds.first, 1960);
    assert_eq!(axis.value, span);
    let near = source.filter_axes(&vec![1975, 1990]).unwrap();
    assert_eq!(
        near.value,
        YearSpan {
            first: 1975,
            last: 1980
        }
    );
    let beyond = source.filter_axes(&vec![1990, 2000]).unwrap();
    assert_eq!(
        beyond.value,
        YearSpan {
            first: 1990,
            last: 1990
        }
    );
    assert!(source.filter(AlbumChange::Reset));
    assert_eq!(
        source.filter_axes(&vec![1960, 1990]).unwrap().value.last,
        1990
    );
    assert_eq!(source.filter_axes(&Vec::new()), None);
}

#[test]
fn albums_are_put_in_order() {
    let albums = vec![album(1999, true), album(1976, true)];
    assert_eq!(
        compare_albums(&albums, AlbumField::Year, 0, 1, Order::Equal),
        Order::Greater
    );
    assert_eq!(
        compare_albums(&albums, AlbumField::Year, 1, 0, Order::Equal),
        Order::Less
    );
    assert_eq!(
        compare_albums(&albums, AlbumField::Year, 0, 9, Order::Equal),
        Order::Greater
    );
    assert_eq!(
        compare_albums(&albums, AlbumField::AddedAt, 0, 1, Order::Less),
        Order::Equal
    );
    assert_eq!(
        compare_albums(&albums, AlbumField::Name, 0, 1, Order::Less),
        Order::Less
    );
    assert_eq!(
        compare_albums(&albums, AlbumField::Index, 0, 1, Order::Greater),
        Order::Less
    );
    assert_eq!(year(&albums[0]), "1999");
    assert_eq!(year(&album(0, true)), "");
    assert_eq!(year_group(0), None);
    assert!(hits(&album(0, false), ""));
    assert_eq!(album_cell(AlbumField::Cover, true), AlbumCell::Cover);
    assert_eq!(album_cell(AlbumField::Cover, false), AlbumCell::Blank);
}

fn playlist(tracks: u32, modified_at: Option<i64>) -> PlaylistFacts {
    PlaylistFacts {
        owned: false,
        track_count: tracks,
        modified_at,
        name_holds: false,
        owner_holds: false,
        owner_known: true,
    }
}

fn folder(held: Vec<PlaylistFacts>) -> FolderFacts {
    FolderFacts {
        playlists: held.len(),
        name_holds: false,
        held,
    }
}

#[test]
fn a_folder_answers_for_what_it_holds() {
    let mut source = PlaylistSource::shelved();
    let by_owner = PlaylistFacts {
        owner_holds: true,
        ..playlist(1, None)
    };
    let by_name = PlaylistFacts {
        name_holds: true,
        owned: true,
        ..playlist(1, None)
    };
    assert!(!source.matches_folder(&folder(vec![playlist(1, None)])));
    assert!(source.matches_folder(&folder(vec![playlist(1, None), by_owner])));
    assert!(source.matches_folder(&folder(vec![by_name])));
    assert!(source.matches_playlist(&by_owner));
    assert!(source.filter(FilterChange::Flag("filter-owned", true)));
    assert!(!source.filter(FilterChange::Flag("filter-year", true)));
    assert!(!source.filter(FilterChange::Range("filter-owned")));
    assert!(source.filtered());
    assert!(!source.matches_folder(&folder(vec![by_name])));
    assert!(!source.matches_playlist(&by_owner));
    assert!(source.matches_playlist(&by_name));
    assert!(source.filter(FilterChange::Reset));
    assert!(!source.filtered());
}

#[test]
fn folders_borrow_what_they_are_sorted_by() {
    let old = folder(vec![playlist(5, Some(10)), playlist(7, None)]);
    let new = folder(vec![playlist(11, Some(9)), playlist(0, Some(12))]);
    assert_eq!(
        compare_folders(PlaylistField::TrackCount, &old, &new),
        Order::Greater
    );
    assert_eq!(
        compare_folders(PlaylistField::Modified, &old, &new),
        Order::Less
    );
    assert_eq!(
        compare_folders(PlaylistField::Owner, &old, &new),
        Order::Equal
    );
    assert_eq!(
        compare_folders(PlaylistField::Modified, &folder(Vec::new()), &old),
        Order::Less
    );
}

#[test]
fn folders_lead_the_page() {
    let playlists = vec![playlist(5, Some(3)), playlist(9, None)];
    let inside = Row::Folder(folder(Vec::new()));
    let first = Row::Playlist(Some(0));
    let second = Row::Playlist(Some(1));
    let lost = Row::Playlist(None);
    let field = PlaylistField::Modified;
    assert_eq!(
        compare(&playlists, field, (4, &inside), (0, &first), Order::Greater),
        Order::Less
    );
    assert_eq!(
        compare(&playlists, field, (0, &first), (4, &inside), Order::Less),
        Order::Greater
    );
    assert_eq!(
        compare(&playlists, field, (0, &inside), (1, &inside), Order::Greater),
        Order::Greater
    );
    assert_eq!(
        compare(&playlists, field, (0, &first), (1, &second), Order::Equal),
        Order::Greater
    );
    assert_eq!(
        compare(&playlists, field, (2, &lost), (1, &second), Order::Equal),
        Order::Greater
    );
    assert_eq!(
        compare_playlists(&playlists, PlaylistField::TrackCount, 0, 1, Order::Equal),
        Order::Less
    );
    assert_eq!(
        cell(PlaylistField::Owner, &inside, &playlists),
        PlaylistCell::Holding
    );
    assert_eq!(
        cell(PlaylistField::Owner, &first, &playlists),
        PlaylistCell::OwnerLink
    );
    assert_eq!(
        cell(PlaylistField::Owner, &lost, &playlists),
        PlaylistCell::Blank
    );
    assert_eq!(
        cell(PlaylistField::TrackCount, &inside, &playlists),
        PlaylistCell::Blank
    );
}

#[test]
fn a_slider_is_made_once() {
    let mut sliders = Sliders::new();
    assert_eq!(sliders.state("year"), 0);
    assert_eq!(sliders.state("length"), 1);
    assert_eq!(sliders.state("year"), 0);
    assert_eq!(sliders.state("length"), 1);
}

#[test]
fn the_tools_are_lit_while_they_do_something() {
    let (tint, entries) = sorts(&vec![None, Some(Sort::Descending)]);
    assert_eq!(tint, Tint::Accent);
    assert_eq!(entries[0].arrow, None);
    assert!(!entries[0].selected);
    assert_eq!(entries[1].arrow, Some("icons/chevron-down.svg"));
    assert_eq!(sorts(&vec![None]).0, Tint::Muted);
    let (tint, entries) = filters(&vec![Filter::Range(false), Filter::Flag(true)]);
    assert_eq!(tint, Tint::Accent);
    assert_eq!(
        entries,
        vec![
            FilterEntry::Slider(0),
            FilterEntry::Switch(1, true, false),
            FilterEntry::Separator,
            FilterEntry::Reset,
        ]
    );
    assert_eq!(filters(&vec![Filter::Range(false)]).0, Tint::Muted);
    assert_eq!(views(Mode::List), Mode::Grid);
    assert_eq!(views(views(Mode::List)), Mode::List);
}

#[test]
fn a_query_is_matched_in_lower_case() {
    assert!(matches_query("de", "DEUTSCH", "deut"));
    assert!(matches_query("DE", "German", "de"));
    assert!(matches_query("x", "y", ""));
    assert!(!matches_query("de", "Deutsch", "Deut"));
    assert!(matches_query("x", "ÉTÉ", "été"));
}

#[test]
fn a_list_opens_near_what_is_chosen() {
    let mut popup = SearchPopup::new();
    assert_eq!(popup.sync(true, Some(5)), Synced::Opened { scroll: 3 });
    assert_eq!(popup.sync(true, Some(7)), Synced::Nothing);
    assert_eq!(popup.cursor(10), 5);
    assert_eq!(popup.walk(6, true), Some(0));
    assert_eq!(popup.walk(6, false), Some(5));
    assert_eq!(popup.submit(6), Some(5));
    assert_eq!(popup.submit(0), None);
    assert!(popup.ask("a".to_string()));
    assert!(!popup.ask("a".to_string()));
    assert_eq!(popup.query(), "a");
    assert_eq!(popup.cursor(6), 0);
    assert_eq!(popup.sync(false, None), Synced::Closed);
}

#[test]
fn a_guide_leads_through_the_cookies() {
    assert_eq!(guide("apple").url, "https://music.apple.com");
    assert_eq!(guide("deezer").title, "login-cookie-named-title");
    assert_eq!(guide("youtube").url, "https://music.youtube.com");
    assert_eq!(named("netease"), Some(("music.163.com", "MUSIC_U")));
    assert_eq!(named("youtube"), None);
    assert_eq!(hint("deezer"), guide("deezer").hint);
}
