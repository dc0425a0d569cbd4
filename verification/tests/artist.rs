use sonora::views::artist::{
    chevron, follow_button, header, matching, playing_from, release_filters, release_rows,
    sections, table_action, ArtistView, FollowPress, HeadButton, Known, Mode, ReleaseBody,
    ReleaseFilter, ReleaseType, Section, TableAction, TableEvent, TrackBody, LISTED, LISTED_MAX,
};
use sonora::views::menus::{Origin, OriginKind};
use sonora::views::picks::{column_count, deck, Body, Cell, Shape, ROWS};

#[test]
fn local_artists_have_no_release_filters() {
    assert!(release_filters(true, &vec![ReleaseType::Album]).is_empty());
}

#[test]
fn streamed_artists_only_show_populated_release_filters() {
    assert_eq!(
        release_filters(false, &vec![ReleaseType::Album, ReleaseType::Single]),
        [
            ReleaseFilter::All,
            ReleaseFilter::Singles,
            ReleaseFilter::Albums,
        ]
    );
}

#[test]
fn columns_follow_width_and_stop_at_three() {
    assert_eq!(column_count(279), 1);
    assert_eq!(column_count(560), 2);
    assert_eq!(column_count(840), 3);
    assert_eq!(column_count(2_000), 3);
}

#[test]
fn pages_include_every_track() {
    assert_eq!(Shape::new(279, 30).pages, 6);
    assert_eq!(Shape::new(560, 30).pages, 3);
    assert_eq!(Shape::new(840, 30).pages, 2);
    assert_eq!(Shape::new(840, 0).pages, 1);
}

#[test]
fn the_deck_keeps_its_shape_whatever_it_holds() {
    for count in 0..80 {
        for width in [279, 560, 840] {
            let shape = Shape::new(width, count);
            assert_eq!(shape.slots(), shape.columns * ROWS);
            assert!(shape.pages * shape.slots() >= count);
            assert!((shape.pages - 1) * shape.slots() < count.max(1));
        }
    }
}

#[test]
fn the_last_page_is_filled_up_with_blanks() {
    let shown = deck(279, 7, 9, false);
    assert_eq!(shown.page, 1);
    assert!(shown.previous);
    assert!(!shown.next);
    assert_eq!(
        shown.body,
        Body::Columns(vec![vec![
            Cell::Track(5),
            Cell::Track(6),
            Cell::Blank,
            Cell::Blank,
            Cell::Blank,
        ]])
    );
    assert_eq!(deck(279, 0, 0, false).body, Body::Vacant);
}

#[test]
fn each_filter_has_an_id_and_a_label() {
    assert_eq!(ReleaseFilter::All.id(), "release-filter-all");
    assert_eq!(ReleaseFilter::Eps.id(), "release-filter-eps");
    assert_eq!(ReleaseFilter::Albums.label(), "artist-filter-albums");
    assert_eq!(ReleaseFilter::Singles.label(), "artist-filter-singles");
    assert!(ReleaseFilter::All.matches(ReleaseType::Other));
    assert!(!ReleaseFilter::Albums.matches(ReleaseType::Single));
}

fn releases() -> Vec<ReleaseType> {
    vec![
        ReleaseType::Album,
        ReleaseType::Single,
        ReleaseType::Album,
        ReleaseType::Ep,
        ReleaseType::Album,
        ReleaseType::Album,
        ReleaseType::Album,
    ]
}

#[test]
fn a_filter_keeps_the_order_of_the_releases() {
    assert_eq!(
        matching(ReleaseFilter::Albums, &releases()),
        vec![0, 2, 4, 5, 6]
    );
    assert_eq!(matching(ReleaseFilter::Eps, &releases()), vec![3]);
}

#[test]
fn folded_releases_take_two_rows() {
    let mut view = ArtistView::new(Some("a".to_string()), Mode::List, 3);
    let shown = view.releases(&releases(), false, false, 3).unwrap();
    assert_eq!(
        shown.body,
        ReleaseBody::Rows(vec![vec![0, 1, 2], vec![3, 4, 5]])
    );
    assert_eq!(shown.toggle, Some(false));
    assert_eq!(shown.filters.len(), 4);
    view.toggle_releases();
    let all = view.releases(&releases(), false, false, 3).unwrap();
    assert_eq!(
        all.body,
        ReleaseBody::Rows(vec![vec![0, 1, 2], vec![3, 4, 5], vec![6]])
    );
    assert_eq!(all.toggle, Some(true));
    assert_eq!(release_rows(7, true, 3), 3);
    assert_eq!(release_rows(7, false, 3), 2);
    assert_eq!(release_rows(0, false, 3), 0);
}

#[test]
fn releases_on_their_way_are_placeholders() {
    let view = ArtistView::new(None, Mode::List, 0);
    assert!(view.releases(&Vec::new(), false, false, 4).is_none());
    let shown = view.releases(&Vec::new(), true, false, 4).unwrap();
    assert_eq!(shown.body, ReleaseBody::Skeleton(4));
    assert!(shown.filters.is_empty());
    assert_eq!(shown.toggle, None);
}

#[test]
fn another_filter_folds_the_releases() {
    let mut view = ArtistView::new(None, Mode::List, 0);
    view.toggle_releases();
    assert!(!view.pick_filter(ReleaseFilter::All));
    assert_eq!(
        view.releases(&releases(), false, false, 1).unwrap().toggle,
        Some(true)
    );
    assert!(view.pick_filter(ReleaseFilter::Albums));
    let shown = view.releases(&releases(), false, false, 1).unwrap();
    assert_eq!(shown.body, ReleaseBody::Rows(vec![vec![0], vec![2]]));
    assert_eq!(shown.toggle, Some(false));
}

#[test]
fn another_artist_starts_from_the_top() {
    let mut view = ArtistView::new(Some("a".to_string()), Mode::Grid, 30);
    view.pick_filter(ReleaseFilter::Eps);
    view.toggle_listed();
    view.show_about(true);
    assert_eq!(view.listed_count(30), LISTED_MAX);
    assert!(!view.follow(Some("a".to_string()), 20));
    assert_eq!(view.listed_count(30), LISTED_MAX);
    assert!(view.about_dialog(true));
    assert!(view.follow(Some("b".to_string()), 20));
    assert_eq!(view.listed_count(30), LISTED);
    assert!(!view.about_dialog(true));
}

#[test]
fn more_tracks_can_be_listed() {
    let mut view = ArtistView::new(None, Mode::List, 6);
    assert_eq!(view.listed(false).more, Some(false));
    view.toggle_listed();
    assert_eq!(view.listed(false).more, Some(true));
    assert_eq!(view.listed_count(6), 6);
    view.toggle_listed();
    assert_eq!(view.listed(false).more, Some(false));
    let few = ArtistView::new(None, Mode::List, 5);
    assert_eq!(few.listed(false).more, None);
    assert_eq!(few.listed(false).body, TrackBody::Table);
    assert_eq!(few.listed(true).body, TrackBody::Skeleton(5));
}

#[test]
fn turning_pages_stays_on_them() {
    let mut view = ArtistView::new(None, Mode::Grid, 30);
    view.resize(840);
    view.open_menu(29);
    assert_eq!(view.menu_track(), Some(29));
    view.next_page(840);
    assert_eq!(view.menu_track(), None);
    let once = view.clone();
    view.next_page(840);
    assert_eq!(view, once);
    view.previous_page();
    view.previous_page();
    let mut first = ArtistView::new(None, Mode::Grid, 30);
    first.resize(840);
    assert_eq!(view, first);
    view.next_page(840);
    view.resize(279);
    let mut narrow = ArtistView::new(None, Mode::Grid, 30);
    narrow.resize(279);
    assert_eq!(view, narrow);
}

#[test]
fn a_menu_of_a_track_that_is_gone_closes() {
    let mut view = ArtistView::new(None, Mode::Grid, 3);
    view.open_menu(3);
    assert_eq!(view.menu_track(), None);
    view.open_menu(2);
    assert_eq!(view.menu_track(), Some(2));
    view.set_mode(Mode::List);
    assert_eq!(view.menu_track(), None);
    view.open_menu(1);
    view.close_menu();
    assert_eq!(view.menu_track(), None);
}

#[test]
fn the_menu_of_a_release_stays_with_it() {
    let mut view = ArtistView::new(None, Mode::Grid, 3);
    assert_eq!(view.menu_release(), None);
    view.open_release_menu("al".to_string());
    view.follow(Some("b".to_string()), 4);
    assert_eq!(view.menu_release(), Some("al".to_string()));
    view.close_release_menu();
    assert_eq!(view.menu_release(), None);
}

#[test]
fn tracks_are_played_from_the_artist() {
    let id = Some("a".to_string());
    let name = Some("ABBA".to_string());
    assert_eq!(
        playing_from(&id, &name),
        Some(Origin {
            kind: OriginKind::Artist,
            id: "a".to_string(),
            name: "ABBA".to_string(),
        })
    );
    assert_eq!(playing_from(&id, &None), None);
    assert_eq!(playing_from(&None, &name), None);
}

#[test]
fn the_follow_button_is_for_streamed_artists() {
    assert_eq!(follow_button(true, true, false, false), None);
    assert_eq!(follow_button(false, false, false, false), None);
    let button = follow_button(true, false, true, true).unwrap();
    assert_eq!(button.icon, "icons/heart-filled.svg");
    assert_eq!(button.tooltip, "artist-unfollow");
    assert!(button.disabled);
    assert!(button.tinted);
    assert_eq!(button.press, FollowPress::Confirm);
    assert_eq!(
        follow_button(true, false, false, false).unwrap().press,
        FollowPress::Toggle
    );
    assert_eq!(
        follow_button(true, false, false, false).unwrap().tooltip,
        "artist-follow"
    );
}

#[test]
fn rows_are_played_or_dropped() {
    assert_eq!(
        table_action(TableEvent::DoubleClicked(4)),
        TableAction::Play(4)
    );
    assert_eq!(
        table_action(TableEvent::Activated(2)),
        TableAction::PlayOrToggle(2)
    );
    assert_eq!(table_action(TableEvent::Removed), TableAction::Drop);
    assert_eq!(table_action(TableEvent::Arranged), TableAction::Persist);
}

#[test]
fn the_page_lists_its_parts() {
    let known = Known {
        artist: true,
        failed: true,
        releases: true,
    };
    assert_eq!(
        sections(Mode::List, known),
        vec![
            Section::Header,
            Section::Failure,
            Section::Title,
            Section::List,
            Section::Releases,
            Section::About,
        ]
    );
    let bare = Known {
        artist: false,
        failed: false,
        releases: false,
    };
    assert_eq!(
        sections(Mode::Grid, bare),
        vec![Section::Header, Section::Deck]
    );
    assert_eq!(
        header(true, true, false),
        vec![
            HeadButton::Play,
            HeadButton::Shuffle,
            HeadButton::Follow,
            HeadButton::More,
        ]
    );
    assert_eq!(
        header(true, true, true),
        vec![HeadButton::Play, HeadButton::Shuffle, HeadButton::More]
    );
    assert_eq!(
        header(true, false, false),
        vec![HeadButton::Play, HeadButton::Shuffle]
    );
    assert_eq!(chevron(true), "icons/chevron-up.svg");
    assert_eq!(chevron(false), "icons/chevron-down.svg");
}
