//! What single rows of the settings page decide.

use vstd::prelude::*;

use super::super::popups::{answers, held_inside, matches_query, PopupModel, SearchPopup};
use crate::lists::{places_set, seen_places, set_places, set_places_are_those_set};
use crate::text::{first_at, lowered, one_of, position, same, texts, the_first_place_holds_the_text};

verus! {

/// How many particles one press adds or takes away.
pub const PARTICLE_STEP: usize = 32;

/// The count after a press, and whether the press can be made at all.
pub open spec fn stepped(count: int, more: bool, most: int) -> int {
    let wanted = if more {
        count + PARTICLE_STEP
    } else {
        count - PARTICLE_STEP
    };
    if wanted < 0 {
        0
    } else if wanted > most {
        most
    } else {
        wanted
    }
}

/// The count after a press on the particles row, held between none and the most there are, and
/// whether that press changes anything.
pub fn step_particles(count: usize, more: bool, most: usize) -> (step: (usize, bool))
    ensures
        step.0 == stepped(count as int, more, most as int),
        step.1 == (step.0 != count),
{
    let wanted: usize = if more {
        if most < PARTICLE_STEP || count > most - PARTICLE_STEP {
            most
        } else {
            count + PARTICLE_STEP
        }
    } else if count < PARTICLE_STEP {
        0
    } else if count - PARTICLE_STEP > most {
        most
    } else {
        count - PARTICLE_STEP
    };
    (wanted, wanted != count)
}

/// What a theme is to the adaptive one: the app's own three adapt, every other is fixed.
#[derive(Clone, Copy, Debug, PartialEq, Eq, Structural)]
pub enum ThemeKind {
    System,
    Dark,
    Light,
    /// Another theme, by its place in the list.
    Other(usize),
}

/// A theme that takes on the cover's colours.
pub open spec fn adapts(kind: ThemeKind) -> bool {
    !(kind is Other)
}

/// A theme can be picked: a fixed one cannot while the theme adapts.
pub open spec fn can_pick(kind: ThemeKind, adaptive: bool) -> bool {
    !adaptive || adapts(kind)
}

/// The theme used once the theme adapts or no longer does. One that cannot adapt gives way to the
/// dark one.
pub open spec fn adapted(adaptive: bool, kind: ThemeKind) -> ThemeKind {
    if adaptive && !adapts(kind) {
        ThemeKind::Dark
    } else {
        kind
    }
}

/// Whether a theme can be picked: a fixed one cannot while the theme adapts.
pub fn theme_enabled(kind: ThemeKind, adaptive: bool) -> (yes: bool)
    ensures
        yes == can_pick(kind, adaptive),
{
    match kind {
        ThemeKind::Other(_) => !adaptive,
        _ => true,
    }
}

/// What switching the adaptive theme leads to: the switch turned over, and the theme that is used
/// from then on.
pub fn switch_adaptive(on: bool, kind: ThemeKind) -> (switched: (bool, ThemeKind))
    ensures
        switched.0 == !on,
        switched.1 == adapted(!on, kind),
{
    let adaptive = !on;
    let next = match kind {
        ThemeKind::Other(_) => if adaptive {
            ThemeKind::Dark
        } else {
            kind
        },
        _ => kind,
    };
    (adaptive, next)
}

/// Whatever the switch leads to, the theme in use is one that can be picked.
pub proof fn the_theme_in_use_can_be_picked(adaptive: bool, kind: ThemeKind)
    ensures
        can_pick(adapted(adaptive, kind), adaptive),
        can_pick(kind, adaptive) ==> adapted(adaptive, kind) == kind,
{
}

/// What the switch for blurring the desktop shows: it needs something to show through, so it is
/// off and disabled while the window is opaque.
pub fn window_blur_switch(blur: bool, transparent: bool) -> (switch: (bool, bool))
    ensures
        switch.0 == (blur && transparent),
        switch.1 == !transparent,
{
    (blur && transparent, !transparent)
}

/// The presets of the equalizer.
#[derive(Clone, Copy, Debug, PartialEq, Eq, Structural)]
pub enum Preset {
    Flat,
    BassBoost,
    BassReducer,
    TrebleBoost,
    Vocal,
    Rock,
    Pop,
    Jazz,
    Classical,
    Electronic,
    Acoustic,
    Loudness,
}

/// The key of a preset's name.
pub fn preset_key(preset: Preset) -> (key: &'static str)
    ensures
        key == (match preset {
            Preset::Flat => "settings-equalizer-flat",
            Preset::BassBoost => "settings-equalizer-bass-boost",
            Preset::BassReducer => "settings-equalizer-bass-reducer",
            Preset::TrebleBoost => "settings-equalizer-treble-boost",
            Preset::Vocal => "settings-equalizer-vocal",
            Preset::Rock => "settings-equalizer-rock",
            Preset::Pop => "settings-equalizer-pop",
            Preset::Jazz => "settings-equalizer-jazz",
            Preset::Classical => "settings-equalizer-classical",
            Preset::Electronic => "settings-equalizer-electronic",
            Preset::Acoustic => "settings-equalizer-acoustic",
            Preset::Loudness => "settings-equalizer-loudness",
        }),
{
    match preset {
        Preset::Flat => "settings-equalizer-flat",
        Preset::BassBoost => "settings-equalizer-bass-boost",
        Preset::BassReducer => "settings-equalizer-bass-reducer",
        Preset::TrebleBoost => "settings-equalizer-treble-boost",
        Preset::Vocal => "settings-equalizer-vocal",
        Preset::Rock => "settings-equalizer-rock",
        Preset::Pop => "settings-equalizer-pop",
        Preset::Jazz => "settings-equalizer-jazz",
        Preset::Classical => "settings-equalizer-classical",
        Preset::Electronic => "settings-equalizer-electronic",
        Preset::Acoustic => "settings-equalizer-acoustic",
        Preset::Loudness => "settings-equalizer-loudness",
    }
}

/// The writing systems lyrics can be romanized from.
#[derive(Clone, Copy, Debug, PartialEq, Eq, Structural)]
pub enum WritingSystem {
    Japanese,
    Chinese,
    Korean,
    Cyrillic,
    Greek,
    Arabic,
    Other,
}

/// The id of a writing system's entry and the key of its name.
pub fn romanization_script_copy(system: WritingSystem) -> (copy: (&'static str, &'static str))
    ensures
        copy == (match system {
            WritingSystem::Japanese => ("romanization-japanese", "settings-romanization-japanese"),
            WritingSystem::Chinese => ("romanization-chinese", "settings-romanization-chinese"),
            WritingSystem::Korean => ("romanization-korean", "settings-romanization-korean"),
            WritingSystem::Cyrillic => ("romanization-cyrillic", "settings-romanization-cyrillic"),
            WritingSystem::Greek => ("romanization-greek", "settings-romanization-greek"),
            WritingSystem::Arabic => ("romanization-arabic", "settings-romanization-arabic"),
            WritingSystem::Other => ("romanization-other", "settings-romanization-other"),
        }),
{
    match system {
        WritingSystem::Japanese => ("romanization-japanese", "settings-romanization-japanese"),
        WritingSystem::Chinese => ("romanization-chinese", "settings-romanization-chinese"),
        WritingSystem::Korean => ("romanization-korean", "settings-romanization-korean"),
        WritingSystem::Cyrillic => ("romanization-cyrillic", "settings-romanization-cyrillic"),
        WritingSystem::Greek => ("romanization-greek", "settings-romanization-greek"),
        WritingSystem::Arabic => ("romanization-arabic", "settings-romanization-arabic"),
        WritingSystem::Other => ("romanization-other", "settings-romanization-other"),
    }
}

/// How the scan of the local folders is going.
#[derive(Clone, Debug, PartialEq, Eq)]
pub enum Scan {
    /// No scan since the app started.
    Idle,
    /// Files are still being looked for, so there is no total to be a fraction of.
    Walking,
    /// That many percent of the files have been read.
    Reading(u8),
    /// It is over, and took that long, in words.
    Done(String),
}

/// What the local folder row says of the scan: a key, with the percent it names or how long the
/// scan took.
#[derive(Clone, Debug, PartialEq, Eq)]
pub enum ScanNote {
    Nothing,
    Plain(&'static str),
    Percent(&'static str, u8),
    Took(&'static str, String),
}

/// What the local folder row says of the scan, and whether it offers to scan again: only where a
/// folder is watched, and not while a scan is on.
pub fn scan_note(scan: Scan, folders: usize) -> (row: (ScanNote, Option<bool>))
    ensures
        row.0 == (match scan {
            Scan::Idle => ScanNote::Nothing,
            Scan::Walking => ScanNote::Plain("settings-scan-walking"),
            Scan::Reading(percent) => ScanNote::Percent("settings-scan-progress", percent),
            Scan::Done(took) => ScanNote::Took("settings-scan-done", took),
        }),
        row.1 == (if folders == 0 {
            None
        } else {
            Some(!(scan is Walking || scan is Reading))
        }),
{
    let (note, on) = match scan {
        Scan::Idle => (ScanNote::Nothing, false),
        Scan::Walking => (ScanNote::Plain("settings-scan-walking"), true),
        Scan::Reading(percent) => (ScanNote::Percent("settings-scan-progress", percent), true),
        Scan::Done(took) => (ScanNote::Took("settings-scan-done", took), false),
    };
    let rescan = if folders == 0 {
        None
    } else {
        Some(!on)
    };
    (note, rescan)
}

/// Which languages answer a query, by id or label, the system's own first.
pub open spec fn languages_of(
    ids: Seq<Seq<char>>,
    labels: Seq<Seq<char>>,
    query: Seq<char>,
) -> Seq<bool> {
    Seq::new(ids.len(), |i: int| answers(lowered(ids[i]), lowered(labels[i]), query))
}

/// Which languages answer a query, by their place in the list.
pub fn language_entries(ids: &Vec<String>, labels: &Vec<String>, query: &str) -> (places: Vec<
    usize,
>)
    requires
        ids@.len() == labels@.len(),
    ensures
        seen_places(places@) == places_set(languages_of(texts(ids@), texts(labels@), query@)),
        forall|i: int| 0 <= i < places@.len() ==> #[trigger] places@[i] < ids@.len(),
{
    let mut hits: Vec<bool> = Vec::new();
    let mut index: usize = 0;
    let ghost wanted = languages_of(texts(ids@), texts(labels@), query@);
    while index < ids.len()
        invariant
            index <= ids@.len(),
            ids@.len() == labels@.len(),
            wanted == languages_of(texts(ids@), texts(labels@), query@),
            hits@ == wanted.take(index as int),
        decreases ids@.len() - index,
    {
        hits.push(matches_query(ids[index].as_str(), labels[index].as_str(), query));
        index = index + 1;
        assert(hits@ =~= wanted.take(index as int));
    }
    assert(hits@ =~= wanted);
    set_places(&hits)
}

/// One entry of the language list: the language it stands for, by its place among all of them.
#[derive(Clone, Copy, Debug, PartialEq, Eq, Structural)]
pub struct LanguageItem {
    pub place: usize,
    /// The cursor is on it.
    pub selected: bool,
    /// It is the language in use.
    pub checked: bool,
}

/// The row of the language picker.
#[derive(Clone, Debug, PartialEq, Eq)]
pub struct LanguageRow {
    /// The language whose label the button carries, by its place: the system's own, in front of
    /// the others, when the one in use is not among them.
    pub current: usize,
    pub items: Vec<LanguageItem>,
    /// The entry that says that none answers.
    pub empty: bool,
}

/// The language whose label the button carries.
pub open spec fn language_current(ids: Seq<Seq<char>>, chosen: Seq<char>) -> int {
    match first_at(ids, chosen) {
        Some(place) => place,
        None => 0,
    }
}

/// The entries of the language list.
pub open spec fn language_items(
    ids: Seq<Seq<char>>,
    labels: Seq<Seq<char>>,
    chosen: Seq<char>,
    popup: PopupModel,
) -> Seq<LanguageItem> {
    let places = places_set(languages_of(ids, labels, popup.asked));
    Seq::new(
        places.len(),
        |i: int|
            LanguageItem {
                place: places[i] as usize,
                selected: i == held_inside(popup.at as nat, places.len()),
                checked: ids[places[i]] == chosen,
            },
    )
}

/// The row of the language picker. The first language stands for the system's own.
pub fn language_row(
    ids: &Vec<String>,
    labels: &Vec<String>,
    chosen: &str,
    popup: &SearchPopup,
) -> (row: LanguageRow)
    requires
        ids@.len() == labels@.len(),
    ensures
        row.current == language_current(texts(ids@), chosen@),
        row.items@ == language_items(texts(ids@), texts(labels@), chosen@, popup@),
        row.empty == (row.items@.len() == 0),
{
    let places = language_entries(ids, labels, popup.query());
    assert(seen_places(places@).len() == places@.len());
    let cursor = popup.cursor(places.len());
    let ghost wanted = language_items(texts(ids@), texts(labels@), chosen@, popup@);
    let mut items: Vec<LanguageItem> = Vec::new();
    let mut index: usize = 0;
    while index < places.len()
        invariant
            index <= places@.len(),
            wanted.len() == places@.len(),
            forall|i: int| 0 <= i < places@.len() ==> #[trigger] places@[i] < ids@.len(),
            forall|i: int|
                0 <= i < wanted.len() ==> #[trigger] wanted[i] == (LanguageItem {
                    place: places@[i],
                    selected: i == cursor,
                    checked: ids@[places@[i] as int]@ == chosen@,
                }),
            items@ == wanted.take(index as int),
        decreases places@.len() - index,
    {
        let place = places[index];
        items.push(
            LanguageItem {
                place,
                selected: index == cursor,
                checked: same(ids[place].as_str(), chosen),
            },
        );
        assert(items@[index as int] == wanted[index as int]);
        index = index + 1;
        assert(items@ =~= wanted.take(index as int));
    }
    assert(items@ =~= wanted);
    let current: usize = match position(chosen, ids) {
        Some(place) => place,
        None => 0,
    };
    let empty = items.len() == 0;
    LanguageRow { current, items, empty }
}

/// The language an entry of the list stands for, which is in use from when the entry is picked.
/// Nothing is picked at a place the list does not hold.
pub fn pick_language(row: &LanguageRow, place: usize) -> (language: Option<usize>)
    ensures
        language == (if place < row.items@.len() {
            Some(row.items@[place as int].place)
        } else {
            None
        }),
{
    if place < row.items.len() {
        Some(row.items[place].place)
    } else {
        None
    }
}

/// The entry the language list opens on: that of the chosen language, behind the one for the
/// system's own, which is also where it opens when no language is chosen.
pub fn language_selected(chosen: Option<usize>) -> (place: usize)
    requires
        chosen matches Some(place) ==> place < usize::MAX,
    ensures
        place == (match chosen {
            Some(place) => place + 1,
            None => 0,
        }),
{
    match chosen {
        Some(place) => place + 1,
        None => 0,
    }
}

/// A provider of lyrics: its name in the settings, and the key of its label.
#[derive(Clone, Copy, Debug, PartialEq, Eq)]
pub struct LyricsProvider {
    pub name: &'static str,
    pub label: &'static str,
}

/// The providers of lyrics, in the order they are listed. The first reads local files, and goes
/// by the name it is handed in under.
pub open spec fn lyrics_providers_of(local: &'static str) -> Seq<LyricsProvider> {
    seq![
        LyricsProvider { name: local, label: "settings-lyrics-provider-local" },
        LyricsProvider { name: "Spotify", label: "settings-lyrics-provider-spotify" },
        LyricsProvider { name: "YouTube Music", label: "settings-lyrics-provider-youtube" },
        LyricsProvider { name: "Apple Music", label: "settings-lyrics-provider-apple-music" },
        LyricsProvider { name: "Musixmatch", label: "settings-lyrics-provider-musixmatch" },
        LyricsProvider { name: "LrcLib", label: "settings-lyrics-provider-lrclib" },
        LyricsProvider { name: "Kugou", label: "settings-lyrics-provider-kugou" },
        LyricsProvider { name: "NetEase", label: "settings-lyrics-provider-netease" },
    ]
}

/// The providers of lyrics, in the order they are listed.
pub fn lyrics_providers(local: &'static str) -> (providers: Vec<LyricsProvider>)
    ensures
        providers@ == lyrics_providers_of(local),
{
    let mut providers: Vec<LyricsProvider> = Vec::new();
    providers.push(LyricsProvider { name: local, label: "settings-lyrics-provider-local" });
    providers.push(LyricsProvider { name: "Spotify", label: "settings-lyrics-provider-spotify" });
    providers.push(
        LyricsProvider { name: "YouTube Music", label: "settings-lyrics-provider-youtube" },
    );
    providers.push(
        LyricsProvider { name: "Apple Music", label: "settings-lyrics-provider-apple-music" },
    );
    providers.push(
        LyricsProvider { name: "Musixmatch", label: "settings-lyrics-provider-musixmatch" },
    );
    providers.push(LyricsProvider { name: "LrcLib", label: "settings-lyrics-provider-lrclib" });
    providers.push(LyricsProvider { name: "Kugou", label: "settings-lyrics-provider-kugou" });
    providers.push(LyricsProvider { name: "NetEase", label: "settings-lyrics-provider-netease" });
    assert(providers@ =~= lyrics_providers_of(local));
    providers
}

/// A provider is enabled.
pub open spec fn among_enabled(provider: LyricsProvider, enabled: Seq<Seq<char>>) -> bool {
    enabled.contains(provider.name@)
}

/// What the row of lyrics providers shows: which of them are checked, and how many that are.
#[derive(Clone, Debug, PartialEq, Eq)]
pub struct LyricsRow {
    pub checked: Vec<bool>,
    pub count: usize,
}

/// The row of lyrics providers, from the names of those that are enabled.
pub fn lyrics_providers_row(local: &'static str, enabled: &Vec<String>) -> (row: LyricsRow)
    ensures
        row.checked@ == lyrics_providers_of(local).map_values(
            |provider: LyricsProvider| among_enabled(provider, texts(enabled@)),
        ),
        row.count == enabled_count(row.checked@),
{
    let providers = lyrics_providers(local);
    let ghost wanted = providers@.map_values(
        |provider: LyricsProvider| among_enabled(provider, texts(enabled@)),
    );
    let mut checked: Vec<bool> = Vec::new();
    let mut index: usize = 0;
    assert(checked@ =~= wanted.take(0));
    while index < providers.len()
        invariant
            index <= providers@.len(),
            wanted.len() == providers@.len(),
            forall|i: int|
                0 <= i < wanted.len() ==> wanted[i] == among_enabled(
                    #[trigger] providers@[i],
                    texts(enabled@),
                ),
            checked@ == wanted.take(index as int),
        decreases providers@.len() - index,
    {
        let one = one_of(providers[index].name, enabled);
        assert(one == wanted[index as int]);
        checked.push(one);
        index = index + 1;
        assert(checked@ =~= wanted.take(index as int));
    }
    assert(checked@ =~= wanted);
    let count = lyrics_enabled(&checked);
    LyricsRow { checked, count }
}

/// How many of the lyrics providers are enabled.
pub open spec fn enabled_count(enabled: Seq<bool>) -> nat
    decreases enabled.len(),
{
    if enabled.len() == 0 {
        0
    } else {
        enabled_count(enabled.drop_last()) + (if enabled.last() {
            1nat
        } else {
            0nat
        })
    }
}

/// How many of the lyrics providers are enabled.
pub fn lyrics_enabled(enabled: &Vec<bool>) -> (count: usize)
    ensures
        count == enabled_count(enabled@),
{
    let mut count: usize = 0;
    let mut index: usize = 0;
    assert(enabled@.take(0) =~= Seq::empty());
    while index < enabled.len()
        invariant
            index <= enabled@.len(),
            count <= index,
            count == enabled_count(enabled@.take(index as int)),
        decreases enabled@.len() - index,
    {
        assert(enabled@.take(index + 1).drop_last() =~= enabled@.take(index as int));
        if enabled[index] {
            count = count + 1;
        }
        index = index + 1;
    }
    assert(enabled@.take(index as int) =~= enabled@);
    count
}

/// What someone does for the project.
#[derive(Clone, Copy, Debug, PartialEq, Eq, Structural)]
pub enum Role {
    LeadMaintainer,
    Maintainer,
    Contributor,
}

impl Role {
    /// The key of the role's name.
    pub fn label(self) -> (key: &'static str)
        ensures
            key == (match self {
                Role::LeadMaintainer => "settings-role-lead-maintainer",
                Role::Maintainer => "settings-role-maintainer",
                Role::Contributor => "settings-role-contributor",
            }),
    {
        match self {
            Role::LeadMaintainer => "settings-role-lead-maintainer",
            Role::Maintainer => "settings-role-maintainer",
            Role::Contributor => "settings-role-contributor",
        }
    }
}

/// Someone who works on the project, by the name they sign in with.
#[derive(Clone, Copy, Debug, PartialEq, Eq)]
pub struct Member {
    pub login: &'static str,
    pub avatar: &'static str,
    pub profile: &'static str,
    pub role: Role,
}

/// The team, in the order it is listed.
pub open spec fn members_of() -> Seq<Member> {
    seq![
        Member {
            login: "nolight132",
            avatar: "https://github.com/nolight132.png",
            profile: "https://github.com/nolight132",
            role: Role::LeadMaintainer,
        },
        Member {
            login: "zxsleebu",
            avatar: "https://github.com/zxsleebu.png",
            profile: "https://github.com/zxsleebu",
            role: Role::Maintainer,
        },
        Member {
            login: "fx-got",
            avatar: "https://github.com/fx-got.png",
            profile: "https://github.com/fx-got",
            role: Role::Maintainer,
        },
        Member {
            login: "Makakashan",
            avatar: "https://github.com/Makakashan.png",
            profile: "https://github.com/Makakashan",
            role: Role::Contributor,
        },
        Member {
            login: "imizgun",
            avatar: "https://github.com/imizgun.png",
            profile: "https://github.com/imizgun",
            role: Role::Contributor,
        },
    ]
}

/// The team, in the order it is listed.
pub fn members() -> (team: Vec<Member>)
    ensures
        team@ == members_of(),
{
    let mut team: Vec<Member> = Vec::new();
    team.push(
        Member {
            login: "nolight132",
            avatar: "https://github.com/nolight132.png",
            profile: "https://github.com/nolight132",
            role: Role::LeadMaintainer,
        },
    );
    team.push(
        Member {
            login: "zxsleebu",
            avatar: "https://github.com/zxsleebu.png",
            profile: "https://github.com/zxsleebu",
            role: Role::Maintainer,
        },
    );
    team.push(
        Member {
            login: "fx-got",
            avatar: "https://github.com/fx-got.png",
            profile: "https://github.com/fx-got",
            role: Role::Maintainer,
        },
    );
    team.push(
        Member {
            login: "Makakashan",
            avatar: "https://github.com/Makakashan.png",
            profile: "https://github.com/Makakashan",
            role: Role::Contributor,
        },
    );
    team.push(
        Member {
            login: "imizgun",
            avatar: "https://github.com/imizgun.png",
            profile: "https://github.com/imizgun",
            role: Role::Contributor,
        },
    );
    assert(team@ =~= members_of());
    team
}

/// The particles go up and down by 32 and stop at none and at the most there can be.
pub proof fn particles_go_by_32(count: int, most: int)
    requires
        0 <= count <= most,
    ensures
        count + 32 <= most ==> stepped(count, true, most) == count + 32,
        count + 32 > most ==> stepped(count, true, most) == most,
        count >= 32 ==> stepped(count, false, most) == count - 32,
        count < 32 ==> stepped(count, false, most) == 0,
{
}

/// Adapting to the cover needs one of the three plain themes: any other gives way to the dark
/// one, and without it every theme can be picked.
pub proof fn three_themes_adapt(kind: ThemeKind)
    ensures
        can_pick(kind, false),
        can_pick(kind, true) <==> kind is System || kind is Dark || kind is Light,
        adapted(false, kind) == kind,
        kind is Other ==> adapted(true, kind) is Dark,
        !(kind is Other) ==> adapted(true, kind) == kind,
{
}

/// The blur behind a window is on only where the window is transparent, and is disabled where it
/// is not.
pub proof fn only_a_transparent_window_is_blurred(
    blur: bool,
    transparent: bool,
    switch: (bool, bool),
)
    requires
        call_ensures(window_blur_switch, (blur, transparent), switch),
    ensures
        transparent ==> switch.0 == blur && !switch.1,
        !transparent ==> !switch.0 && switch.1,
{
}

/// What a scan says while it goes on, and once it is done; it can be started again unless it is
/// under way, and only where there is a folder to scan.
pub proof fn a_scan_says_how_far_it_is(scan: Scan, folders: usize, row: (ScanNote, Option<bool>))
    requires
        call_ensures(scan_note, (scan, folders), row),
    ensures
        scan is Idle ==> row.0 is Nothing,
        scan is Walking ==> row.0 == ScanNote::Plain("settings-scan-walking"),
        scan matches Scan::Reading(percent) ==> row.0 == ScanNote::Percent(
            "settings-scan-progress",
            percent,
        ),
        scan matches Scan::Done(took) ==> row.0 == ScanNote::Took("settings-scan-done", took),
        folders == 0 ==> row.1 is None,
        folders > 0 ==> row.1 == Some(scan is Idle || scan is Done),
{
}

/// A language is listed exactly when its id or its name answers the search, in the order of all;
/// the one in use is checked, and the cursor stands on one of them.
pub proof fn the_languages_that_answer_are_listed(
    ids: Seq<Seq<char>>,
    labels: Seq<Seq<char>>,
    chosen: Seq<char>,
    popup: PopupModel,
    i: int,
)
    requires
        ids.len() == labels.len() <= usize::MAX,
        0 <= i < ids.len(),
    ensures
        ({
            let items = language_items(ids, labels, chosen, popup);
            &&& answers(lowered(ids[i]), lowered(labels[i]), popup.asked) <==> exists|k: int|
                0 <= k < items.len() && (#[trigger] items[k]).place == i
            &&& forall|k: int|
                0 <= k < items.len() ==> (#[trigger] items[k]).place < ids.len()
                    && items[k].checked == (ids[items[k].place as int] == chosen)
            &&& forall|j: int, k: int|
                0 <= j < k < items.len() ==> (#[trigger] items[j]).place < (
                #[trigger] items[k]).place
            &&& forall|k: int|
                0 <= k < items.len() && (#[trigger] items[k]).selected ==> k == popup.at || k
                    == items.len() - 1
        }),
{
    let flags = languages_of(ids, labels, popup.asked);
    let places = places_set(flags);
    let items = language_items(ids, labels, chosen, popup);
    set_places_are_those_set(flags);
    assert(flags[i] <==> places.contains(i));
    if places.contains(i) {
        let k = choose|k: int| 0 <= k < places.len() && places[k] == i;
        assert(items[k].place == i);
    }
    if exists|k: int| 0 <= k < items.len() && (#[trigger] items[k]).place == i {
        let k = choose|k: int| 0 <= k < items.len() && (#[trigger] items[k]).place == i;
        assert(0 <= places[k] < flags.len());
        assert(places[k] == i);
    }
    assert forall|k: int| 0 <= k < items.len() implies (#[trigger] items[k]).place < ids.len()
        && items[k].checked == (ids[items[k].place as int] == chosen) by {
        assert(0 <= places[k] < flags.len());
    }
    assert forall|j: int, k: int| 0 <= j < k < items.len() implies (#[trigger] items[j]).place < (
    #[trigger] items[k]).place by {
        assert(0 <= places[j] < places[k] < flags.len());
    }
}

/// The language in use is the one that was chosen, or the first where that one is not there.
pub proof fn the_chosen_language_is_in_use(ids: Seq<Seq<char>>, chosen: Seq<char>)
    ensures
        ids.contains(chosen) ==> 0 <= language_current(ids, chosen) < ids.len()
            && ids[language_current(ids, chosen)] == chosen,
        !ids.contains(chosen) ==> language_current(ids, chosen) == 0,
{
    the_first_place_holds_the_text(ids, chosen);
    if let Some(place) = first_at(ids, chosen) {
        assert(ids[place] == chosen);
    }
}

/// As many providers of lyrics are counted as are switched on.
pub proof fn what_is_on_is_counted(enabled: Seq<bool>)
    ensures
        enabled_count(enabled) == places_set(enabled).len(),
        enabled_count(enabled) <= enabled.len(),
    decreases enabled.len(),
{
    if enabled.len() > 0 {
        what_is_on_is_counted(enabled.drop_last());
    }
}

/// A provider of lyrics is checked exactly when its name is among those switched on, and the
/// machine's own comes first, under its own name.
pub proof fn a_provider_is_checked_when_it_is_on(
    local: &'static str,
    enabled: Vec<String>,
    row: LyricsRow,
    i: int,
)
    requires
        call_ensures(lyrics_providers_row, (local, &enabled), row),
        0 <= i < 8,
    ensures
        row.checked@.len() == 8,
        row.checked@[i] <==> texts(enabled@).contains(lyrics_providers_of(local)[i].name@),
        lyrics_providers_of(local)[0].name == local,
{
}

/// A member's page and picture are named after the member.
pub proof fn a_member_is_found_by_name(i: int)
    requires
        0 <= i < members_of().len(),
    ensures
        members_of().len() == 5,
        members_of()[i].profile@ == "https://github.com/"@ + members_of()[i].login@,
        members_of()[i].avatar@ == members_of()[i].profile@ + ".png"@,
        members_of()[i].role is LeadMaintainer <==> i == 0,
        members_of()[i].role is Maintainer <==> 1 <= i <= 2,
{
    reveal_strlit("https://github.com/");
    reveal_strlit(".png");
    reveal_strlit("nolight132");
    reveal_strlit("https://github.com/nolight132");
    reveal_strlit("https://github.com/nolight132.png");
    reveal_strlit("zxsleebu");
    reveal_strlit("https://github.com/zxsleebu");
    reveal_strlit("https://github.com/zxsleebu.png");
    reveal_strlit("fx-got");
    reveal_strlit("https://github.com/fx-got");
    reveal_strlit("https://github.com/fx-got.png");
    reveal_strlit("Makakashan");
    reveal_strlit("https://github.com/Makakashan");
    reveal_strlit("https://github.com/Makakashan.png");
    reveal_strlit("imizgun");
    reveal_strlit("https://github.com/imizgun");
    reveal_strlit("https://github.com/imizgun.png");
    let one = members_of()[i];
    assert(one.profile@ =~= "https://github.com/"@ + one.login@);
    assert(one.avatar@ =~= one.profile@ + ".png"@);
}

/// The words of every preset, writing system and role.
pub proof fn every_preset_has_its_words(preset: Preset, key: &'static str)
    requires
        call_ensures(preset_key, (preset,), key),
    ensures
        preset is Flat ==> key == "settings-equalizer-flat",
        preset is BassBoost ==> key == "settings-equalizer-bass-boost",
        preset is BassReducer ==> key == "settings-equalizer-bass-reducer",
        preset is TrebleBoost ==> key == "settings-equalizer-treble-boost",
        preset is Vocal ==> key == "settings-equalizer-vocal",
        preset is Rock ==> key == "settings-equalizer-rock",
        preset is Pop ==> key == "settings-equalizer-pop",
        preset is Jazz ==> key == "settings-equalizer-jazz",
        preset is Classical ==> key == "settings-equalizer-classical",
        preset is Electronic ==> key == "settings-equalizer-electronic",
        preset is Acoustic ==> key == "settings-equalizer-acoustic",
        preset is Loudness ==> key == "settings-equalizer-loudness",
{
}

/// The text of a writing system is found under its own id, behind `settings-`.
pub proof fn a_writing_system_has_its_words(
    system: WritingSystem,
    copy: (&'static str, &'static str),
)
    requires
        call_ensures(romanization_script_copy, (system,), copy),
    ensures
        copy.1@ == "settings-"@ + copy.0@,
        system is Japanese ==> copy.0 == "romanization-japanese",
        system is Chinese ==> copy.0 == "romanization-chinese",
        system is Korean ==> copy.0 == "romanization-korean",
        system is Cyrillic ==> copy.0 == "romanization-cyrillic",
        system is Greek ==> copy.0 == "romanization-greek",
        system is Arabic ==> copy.0 == "romanization-arabic",
        system is Other ==> copy.0 == "romanization-other",
{
    reveal_strlit("settings-");
    reveal_strlit("romanization-japanese");
    reveal_strlit("settings-romanization-japanese");
    reveal_strlit("romanization-chinese");
    reveal_strlit("settings-romanization-chinese");
    reveal_strlit("romanization-korean");
    reveal_strlit("settings-romanization-korean");
    reveal_strlit("romanization-cyrillic");
    reveal_strlit("settings-romanization-cyrillic");
    reveal_strlit("romanization-greek");
    reveal_strlit("settings-romanization-greek");
    reveal_strlit("romanization-arabic");
    reveal_strlit("settings-romanization-arabic");
    reveal_strlit("romanization-other");
    reveal_strlit("settings-romanization-other");
    assert(copy.1@ =~= "settings-"@ + copy.0@);
}

/// The languages stand behind the entry for the system's own.
pub proof fn the_systems_language_comes_first(chosen: Option<usize>, place: usize)
    requires
        call_ensures(language_selected, (chosen,), place),
        chosen matches Some(at) ==> at < usize::MAX,
    ensures
        chosen is None ==> place == 0,
        chosen matches Some(at) ==> place == at + 1,
{
}

} // verus!
