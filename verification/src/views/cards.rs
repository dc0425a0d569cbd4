//! The cards of albums, playlists, artists and folders.

use vstd::prelude::*;

use crate::text::{decimal, joined_pair, maybe_text, number_text, same};

verus! {

/// The icon of a folder.
pub const FOLDER: &'static str = "icons/folder.svg";

/// A year in digits. The year nought stands for a year that is not known.
pub open spec fn year_of(year: i32) -> Option<Seq<char>> {
    if year == 0 {
        None
    } else if year < 0 {
        Some("-"@ + decimal((-year) as nat))
    } else {
        Some(decimal(year as nat))
    }
}

/// The year a release came out, in digits, where it is known.
pub fn released(year: i32) -> (text: Option<String>)
    ensures
        maybe_text(text) == year_of(year),
{
    if year == 0 {
        None
    } else if year < 0 {
        let size: u64 = (-(year as i64)) as u64;
        Some(joined_pair("-", number_text(size).as_str()))
    } else {
        Some(number_text(year as u64))
    }
}

/// A number of things, under the key of their name.
#[derive(Clone, Copy, Debug, PartialEq, Eq)]
pub struct Count {
    pub key: &'static str,
    pub count: usize,
}

/// What a folder holds, counting only what sits directly inside it.
pub open spec fn holding_of(playlists: usize, folders: usize) -> Seq<Count> {
    let listed = Count { key: "count-playlists", count: playlists };
    if folders == 0 {
        seq![listed]
    } else {
        seq![listed, Count { key: "count-folders", count: folders }]
    }
}

/// What a folder holds, counting only what sits directly inside it: its playlists, and its
/// folders where it has some.
pub fn holding(playlists: usize, folders: usize) -> (counts: Vec<Count>)
    ensures
        counts@ == holding_of(playlists, folders),
{
    let mut counts: Vec<Count> = Vec::new();
    counts.push(Count { key: "count-playlists", count: playlists });
    if folders > 0 {
        counts.push(Count { key: "count-folders", count: folders });
    }
    assert(counts@ =~= holding_of(playlists, folders));
    counts
}

/// The glyph on the card of a folder: it marks a mosaic of covers, so that it cannot be mistaken
/// for a playlist, and without one the icon stands there anyway.
pub fn folder_glyph(covered: bool) -> (glyph: Option<&'static str>)
    ensures
        glyph == (if covered {
            Some(FOLDER)
        } else {
            None
        }),
{
    if covered {
        Some(FOLDER)
    } else {
        None
    }
}

/// The cover of an album's card: the large one, or else the small one.
pub fn album_cover(large: Option<String>, small: Option<String>) -> (cover: Option<String>)
    ensures
        cover == (if large is Some {
            large
        } else {
            small
        }),
{
    match large {
        Some(large) => Some(large),
        None => small,
    }
}

/// The logo of a provider, by its short name.
pub open spec fn logo_of(slug: Seq<char>) -> &'static str {
    if slug == "spotify"@ {
        "icons/spotify.svg"
    } else if slug == "youtube"@ {
        "icons/youtubemusic.svg"
    } else if slug == "deezer"@ {
        "icons/deezer.svg"
    } else {
        "icons/music.svg"
    }
}

/// The logo of a provider, by its short name.
pub fn provider_logo(slug: &str) -> (icon: &'static str)
    ensures
        icon == logo_of(slug@),
{
    if same(slug, "spotify") {
        "icons/spotify.svg"
    } else if same(slug, "youtube") {
        "icons/youtubemusic.svg"
    } else if same(slug, "deezer") {
        "icons/deezer.svg"
    } else {
        "icons/music.svg"
    }
}

/// The badges in front of the steps of a list, which count from one.
pub open spec fn badges_of(count: nat) -> Seq<Seq<char>> {
    Seq::new(count, |i: int| decimal((i + 1) as nat))
}

/// The badges in front of the steps of a list, which count from one.
pub fn steps(count: u32) -> (badges: Vec<String>)
    ensures
        crate::text::texts(badges@) == badges_of(count as nat),
{
    let mut badges: Vec<String> = Vec::new();
    let mut index: u32 = 0;
    while index < count
        invariant
            index <= count,
            badges@.len() == index,
            forall|i: int| 0 <= i < index ==> (#[trigger] badges@[i])@ == decimal((i + 1) as nat),
        decreases count - index,
    {
        badges.push(number_text(index as u64 + 1));
        index = index + 1;
    }
    assert(crate::text::texts(badges@) =~= badges_of(count as nat));
    badges
}

/// Whether the blurred effects are drawn: only the environment's plain nought turns them off.
pub fn effects(setting: &Option<String>) -> (on: bool)
    ensures
        on == (maybe_text(*setting) != Some("0"@)),
{
    match setting {
        Some(setting) => !same(setting.as_str(), "0"),
        None => true,
    }
}

/// A year is written as its digits, with a sign where it lies before the first, and the year
/// nought stands for one that is not known.
pub proof fn a_year_is_written_out(year: i32)
    ensures
        year_of(year) is None <==> year == 0,
        year > 0 ==> year_of(year) == Some(decimal(year as nat)),
        year < 0 ==> year_of(year) == Some(seq!['-'] + decimal((-year) as nat)),
{
    reveal_strlit("-");
    assert("-"@ =~= seq!['-']);
}

/// A folder says how many playlists it holds, and how many folders where it holds any.
pub proof fn a_folder_says_what_it_holds(playlists: usize, folders: usize)
    ensures
        holding_of(playlists, folders)[0].key == "count-playlists",
        holding_of(playlists, folders)[0].count == playlists,
        folders == 0 ==> holding_of(playlists, folders).len() == 1,
        folders > 0 ==> holding_of(playlists, folders).len() == 2 && holding_of(
            playlists,
            folders,
        )[1].key == "count-folders" && holding_of(playlists, folders)[1].count == folders,
{
}

/// Every service has a logo of its own, and anything else has the plain one.
pub proof fn a_service_has_its_logo(slug: Seq<char>)
    ensures
        slug == "spotify"@ ==> logo_of(slug) == "icons/spotify.svg",
        slug == "youtube"@ ==> logo_of(slug) == "icons/youtubemusic.svg",
        slug == "deezer"@ ==> logo_of(slug) == "icons/deezer.svg",
        slug != "spotify"@ && slug != "youtube"@ && slug != "deezer"@ ==> logo_of(slug)
            == "icons/music.svg",
{
    reveal_strlit("spotify");
    reveal_strlit("youtube");
    reveal_strlit("deezer");
    assert("spotify"@[0] != "youtube"@[0]);
    assert("spotify"@[0] != "deezer"@[0]);
    assert("youtube"@[0] != "deezer"@[0]);
}

/// The steps are numbered from one.
pub proof fn steps_are_numbered_from_one(count: nat, place: int)
    ensures
        badges_of(count).len() == count,
        0 <= place < count ==> badges_of(count)[place] == decimal((place + 1) as nat),
{
}

/// The larger cover is taken where there is one, and the smaller one otherwise.
pub proof fn the_larger_cover_is_taken(
    large: Option<String>,
    small: Option<String>,
    cover: Option<String>,
)
    requires
        call_ensures(album_cover, (large, small), cover),
    ensures
        large is Some ==> cover == large,
        large is None ==> cover == small,
{
}

/// Effects are on unless they were switched off by a nought.
pub proof fn effects_are_on_unless_switched_off(setting: Option<String>, on: bool)
    requires
        call_ensures(effects, (&setting,), on),
    ensures
        setting is None ==> on,
        setting matches Some(text) ==> (on <==> text@ != seq!['0']),
{
    reveal_strlit("0");
    assert("0"@ =~= seq!['0']);
}

/// A folder shows its symbol over covers, and not in their stead.
pub proof fn a_folder_marks_its_covers(covered: bool, glyph: Option<&'static str>)
    requires
        call_ensures(folder_glyph, (covered,), glyph),
    ensures
        covered ==> glyph == Some("icons/folder.svg"),
        !covered ==> glyph is None,
{
}

} // verus!
