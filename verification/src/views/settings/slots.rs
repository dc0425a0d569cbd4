//! The rows of the settings page, described without building anything: which rows a category
//! lists, what a search is matched against, and how hits are ranked and rows are parted.

use vstd::prelude::*;

use crate::platform::Os;
use crate::text::joined_pair;

verus! {

/// How much a query found in a setting's title counts over one found in its detail.
pub const TITLE_WEIGHT: u32 = 2;

/// The categories of the page, in the order they are listed.
#[derive(Clone, Copy, Debug, PartialEq, Eq, Structural)]
pub enum SettingsTab {
    General,
    Appearance,
    Playback,
    Privacy,
    Integrations,
    About,
}

/// One row of the page.
#[derive(Clone, Copy, Debug, PartialEq, Eq)]
pub enum Slot {
    Title(&'static str),
    Sep,
    Startup,
    Entries,
    Language,
    Tray,
    Accounts,
    LocalFolder,
    Theme,
    Adaptive,
    Ambient,
    AmbientMotion,
    Stage,
    Particles,
    Visualizer,
    Icons,
    Opacity,
    WindowBlur,
    Blur,
    Corners,
    FullscreenControlsAutohide,
    PanelLyricsSize,
    FullscreenLyricsSize,
    BlurLyrics,
    Font,
    Typeface,
    Motion,
    Pace,
    Saver,
    ServerSideDecorations,
    Decorations,
    Side,
    TrafficLights,
    WindowRounding,
    AdaptiveMenu,
    Normalisation,
    Gapless,
    Sleep,
    Widevine,
    Equalizer,
    EqualizerPreset,
    EqualizerBands,
    LyricsProviders,
    PreferLocalLyrics,
    Karaoke,
    Romanized,
    LyricsForLocal,
    Discord,
    DiscordName,
    DiscordShowPaused,
    DiscordBadge,
    DiscordAnonymous,
    DiscordButtons,
    Scrobble(usize),
    Version,
    Updates,
    Log,
    License,
    Source,
}

/// What decides which rows are listed.
#[derive(Clone, Copy, Debug, PartialEq, Eq, Structural)]
pub struct Facts {
    pub os: Os,
    /// The platform can blur the desktop behind the window.
    pub window_blur: bool,
    /// The fullscreen background is sampled from the cover.
    pub ambient: bool,
    /// The stage style has a field of particles.
    pub fielded: bool,
    /// The compositor draws the frame.
    pub server_side: bool,
    /// The current provider needs the Widevine module and this build has a host for it.
    pub drm: bool,
    pub equalizer: bool,
    /// Lyrics are read from local files.
    pub local_lyrics: bool,
    pub discord: bool,
    /// How many scrobbling services there are.
    pub services: usize,
}

/// The row, when it is listed.
pub open spec fn slot_if(shown: bool, slot: Slot) -> Seq<Slot> {
    if shown {
        seq![slot]
    } else {
        Seq::empty()
    }
}

/// The rows about the window's frame. Where the compositor draws the frame, rounding it is not
/// the app's to decide, and macOS leaves nothing to decide at all.
pub open spec fn decoration_slots_of(facts: Facts) -> Seq<Slot> {
    match facts.os {
        Os::Linux | Os::Freebsd => seq![
            Slot::Title("settings-group-window-style"),
            Slot::ServerSideDecorations,
            Slot::Side,
            Slot::TrafficLights,
        ] + slot_if(!facts.server_side, Slot::WindowRounding),
        Os::Macos => Seq::empty(),
        _ => seq![
            Slot::Title("settings-group-title-bar"),
            Slot::Decorations,
            Slot::Side,
            Slot::TrafficLights,
            Slot::WindowRounding,
        ],
    }
}

/// The rows about Discord: what is shown there only matters while anything is.
pub open spec fn discord_slots_of(facts: Facts) -> Seq<Slot> {
    seq![Slot::Title("settings-group-discord"), Slot::Discord] + (if facts.discord {
        seq![
            Slot::DiscordName,
            Slot::DiscordShowPaused,
            Slot::DiscordBadge,
            Slot::DiscordAnonymous,
            Slot::DiscordButtons,
        ]
    } else {
        Seq::empty()
    })
}

/// One row per scrobbling service.
pub open spec fn scrobble_slots_of(services: nat) -> Seq<Slot> {
    Seq::new(services, |i: int| Slot::Scrobble(i as usize))
}

/// The rows about the app's look as a whole.
pub open spec fn look_slots_of(facts: Facts) -> Seq<Slot> {
    seq![
        Slot::Title("settings-tab-general"),
        Slot::Theme,
        Slot::Adaptive,
        Slot::Icons,
        Slot::Opacity,
    ] + slot_if(facts.window_blur, Slot::WindowBlur) + seq![Slot::Blur, Slot::Corners]
}

/// The rows about what fullscreen shows.
pub open spec fn fullscreen_slots_of(facts: Facts) -> Seq<Slot> {
    seq![Slot::Title("settings-group-fullscreen"), Slot::Ambient] + slot_if(
        facts.ambient,
        Slot::AmbientMotion,
    ) + seq![Slot::Stage] + slot_if(facts.fielded, Slot::Particles) + seq![
        Slot::Visualizer,
        Slot::FullscreenControlsAutohide,
    ]
}

/// The rows about lyrics, text and motion.
pub open spec fn reading_slots_of() -> Seq<Slot> {
    seq![
        Slot::Title("settings-group-lyrics"),
        Slot::PanelLyricsSize,
        Slot::FullscreenLyricsSize,
        Slot::BlurLyrics,
        Slot::Title("settings-group-text"),
        Slot::Font,
        Slot::Typeface,
        Slot::Title("settings-group-motion"),
        Slot::Motion,
        Slot::Pace,
        Slot::Saver,
    ]
}

/// The rows about how the app looks.
pub open spec fn appearance_slots_of(facts: Facts) -> Seq<Slot> {
    look_slots_of(facts) + fullscreen_slots_of(facts) + reading_slots_of() + decoration_slots_of(
        facts,
    ) + seq![Slot::Title("settings-advanced"), Slot::AdaptiveMenu]
}

/// The rows about how music plays.
pub open spec fn playback_slots_of(facts: Facts) -> Seq<Slot> {
    seq![
        Slot::Title("settings-tab-general"),
        Slot::Normalisation,
        Slot::Gapless,
        Slot::Sleep,
    ] + slot_if(facts.drm, Slot::Widevine) + seq![
        Slot::Title("settings-group-equalizer"),
        Slot::Equalizer,
    ] + (if facts.equalizer {
        seq![Slot::EqualizerPreset, Slot::EqualizerBands]
    } else {
        Seq::empty()
    }) + seq![Slot::Title("settings-group-lyrics"), Slot::LyricsProviders] + slot_if(
        facts.local_lyrics,
        Slot::PreferLocalLyrics,
    ) + seq![Slot::Karaoke, Slot::Romanized]
}

/// The rows a category lists.
pub open spec fn tab_slots_of(tab: SettingsTab, facts: Facts) -> Seq<Slot> {
    match tab {
        SettingsTab::General => seq![
            Slot::Startup,
            Slot::Entries,
            Slot::Language,
            Slot::Title("settings-group-window"),
            Slot::Tray,
            Slot::Title("settings-group-accounts"),
            Slot::Accounts,
            Slot::Title("settings-group-library"),
            Slot::LocalFolder,
        ],
        SettingsTab::Appearance => appearance_slots_of(facts),
        SettingsTab::Playback => playback_slots_of(facts),
        SettingsTab::Privacy => seq![
            Slot::Title("settings-group-lyrics"),
            Slot::LyricsForLocal,
        ],
        SettingsTab::Integrations => discord_slots_of(facts).push(
            Slot::Title("settings-group-scrobbling"),
        ) + scrobble_slots_of(facts.services as nat),
        SettingsTab::About => seq![
            Slot::Title("settings-tab-general"),
            Slot::Version,
            Slot::Updates,
            Slot::Log,
            Slot::Title("settings-group-project"),
            Slot::License,
            Slot::Source,
        ],
    }
}

/// Adds a row, when it is listed.
fn push_if(slots: &mut Vec<Slot>, shown: bool, slot: Slot)
    ensures
        final(slots)@ == old(slots)@ + slot_if(shown, slot),
{
    if shown {
        slots.push(slot);
    }
    assert(slots@ =~= old(slots)@ + slot_if(shown, slot));
}

/// The rows about the window's frame.
pub fn decoration_slots(facts: &Facts) -> (slots: Vec<Slot>)
    ensures
        slots@ == decoration_slots_of(*facts),
{
    let mut slots: Vec<Slot> = Vec::new();
    match facts.os {
        Os::Linux | Os::Freebsd => {
            slots.push(Slot::Title("settings-group-window-style"));
            slots.push(Slot::ServerSideDecorations);
            slots.push(Slot::Side);
            slots.push(Slot::TrafficLights);
            if !facts.server_side {
                slots.push(Slot::WindowRounding);
            }
        },
        Os::Macos => {},
        _ => {
            slots.push(Slot::Title("settings-group-title-bar"));
            slots.push(Slot::Decorations);
            slots.push(Slot::Side);
            slots.push(Slot::TrafficLights);
            slots.push(Slot::WindowRounding);
        },
    }
    assert(slots@ =~= decoration_slots_of(*facts));
    slots
}

/// The rows about Discord.
pub fn discord_slots(facts: &Facts) -> (slots: Vec<Slot>)
    ensures
        slots@ == discord_slots_of(*facts),
{
    let mut slots: Vec<Slot> = Vec::new();
    slots.push(Slot::Title("settings-group-discord"));
    slots.push(Slot::Discord);
    if facts.discord {
        slots.push(Slot::DiscordName);
        slots.push(Slot::DiscordShowPaused);
        slots.push(Slot::DiscordBadge);
        slots.push(Slot::DiscordAnonymous);
        slots.push(Slot::DiscordButtons);
    }
    assert(slots@ =~= discord_slots_of(*facts));
    slots
}

/// One row per scrobbling service, in the order they are listed.
pub fn scrobble_slots(services: usize) -> (slots: Vec<Slot>)
    ensures
        slots@ == scrobble_slots_of(services as nat),
{
    let mut slots: Vec<Slot> = Vec::new();
    let mut index: usize = 0;
    while index < services
        invariant
            index <= services,
            slots@ == scrobble_slots_of(index as nat),
        decreases services - index,
    {
        slots.push(Slot::Scrobble(index));
        index = index + 1;
        assert(slots@ =~= scrobble_slots_of(index as nat));
    }
    slots
}

fn look_slots(facts: &Facts) -> (slots: Vec<Slot>)
    ensures
        slots@ == look_slots_of(*facts),
{
    let mut slots: Vec<Slot> = Vec::new();
    slots.push(Slot::Title("settings-tab-general"));
    slots.push(Slot::Theme);
    slots.push(Slot::Adaptive);
    slots.push(Slot::Icons);
    slots.push(Slot::Opacity);
    push_if(&mut slots, facts.window_blur, Slot::WindowBlur);
    slots.push(Slot::Blur);
    slots.push(Slot::Corners);
    assert(slots@ =~= look_slots_of(*facts));
    slots
}

fn fullscreen_slots(facts: &Facts) -> (slots: Vec<Slot>)
    ensures
        slots@ == fullscreen_slots_of(*facts),
{
    let mut slots: Vec<Slot> = Vec::new();
    slots.push(Slot::Title("settings-group-fullscreen"));
    slots.push(Slot::Ambient);
    push_if(&mut slots, facts.ambient, Slot::AmbientMotion);
    slots.push(Slot::Stage);
    push_if(&mut slots, facts.fielded, Slot::Particles);
    slots.push(Slot::Visualizer);
    slots.push(Slot::FullscreenControlsAutohide);
    assert(slots@ =~= fullscreen_slots_of(*facts));
    slots
}

fn reading_slots() -> (slots: Vec<Slot>)
    ensures
        slots@ == reading_slots_of(),
{
    let mut slots: Vec<Slot> = Vec::new();
    slots.push(Slot::Title("settings-group-lyrics"));
    slots.push(Slot::PanelLyricsSize);
    slots.push(Slot::FullscreenLyricsSize);
    slots.push(Slot::BlurLyrics);
    slots.push(Slot::Title("settings-group-text"));
    slots.push(Slot::Font);
    slots.push(Slot::Typeface);
    slots.push(Slot::Title("settings-group-motion"));
    slots.push(Slot::Motion);
    slots.push(Slot::Pace);
    slots.push(Slot::Saver);
    assert(slots@ =~= reading_slots_of());
    slots
}

fn appearance_slots(facts: &Facts) -> (slots: Vec<Slot>)
    ensures
        slots@ == appearance_slots_of(*facts),
{
    let mut slots = look_slots(facts);
    let mut stage = fullscreen_slots(facts);
    let mut reading = reading_slots();
    let mut frame = decoration_slots(facts);
    slots.append(&mut stage);
    slots.append(&mut reading);
    slots.append(&mut frame);
    let ghost before = slots@;
    slots.push(Slot::Title("settings-advanced"));
    slots.push(Slot::AdaptiveMenu);
    assert(slots@ =~= before + seq![Slot::Title("settings-advanced"), Slot::AdaptiveMenu]);
    slots
}

fn playback_slots(facts: &Facts) -> (slots: Vec<Slot>)
    ensures
        slots@ == playback_slots_of(*facts),
{
    let mut slots: Vec<Slot> = Vec::new();
    slots.push(Slot::Title("settings-tab-general"));
    slots.push(Slot::Normalisation);
    slots.push(Slot::Gapless);
    slots.push(Slot::Sleep);
    push_if(&mut slots, facts.drm, Slot::Widevine);
    slots.push(Slot::Title("settings-group-equalizer"));
    slots.push(Slot::Equalizer);
    if facts.equalizer {
        slots.push(Slot::EqualizerPreset);
        slots.push(Slot::EqualizerBands);
    }
    slots.push(Slot::Title("settings-group-lyrics"));
    slots.push(Slot::LyricsProviders);
    push_if(&mut slots, facts.local_lyrics, Slot::PreferLocalLyrics);
    slots.push(Slot::Karaoke);
    slots.push(Slot::Romanized);
    assert(slots@ =~= playback_slots_of(*facts));
    slots
}

/// The rows a category lists.
pub fn tab_slots(tab: SettingsTab, facts: &Facts) -> (slots: Vec<Slot>)
    ensures
        slots@ == tab_slots_of(tab, *facts),
{
    let mut slots: Vec<Slot> = Vec::new();
    match tab {
        SettingsTab::General => {
            slots.push(Slot::Startup);
            slots.push(Slot::Entries);
            slots.push(Slot::Language);
            slots.push(Slot::Title("settings-group-window"));
            slots.push(Slot::Tray);
            slots.push(Slot::Title("settings-group-accounts"));
            slots.push(Slot::Accounts);
            slots.push(Slot::Title("settings-group-library"));
            slots.push(Slot::LocalFolder);
        },
        SettingsTab::Appearance => {
            slots = appearance_slots(facts);
        },
        SettingsTab::Playback => {
            slots = playback_slots(facts);
        },
        SettingsTab::Privacy => {
            slots.push(Slot::Title("settings-group-lyrics"));
            slots.push(Slot::LyricsForLocal);
        },
        SettingsTab::Integrations => {
            slots = discord_slots(facts);
            slots.push(Slot::Title("settings-group-scrobbling"));
            let mut services = scrobble_slots(facts.services);
            slots.append(&mut services);
        },
        SettingsTab::About => {
            slots.push(Slot::Title("settings-tab-general"));
            slots.push(Slot::Version);
            slots.push(Slot::Updates);
            slots.push(Slot::Log);
            slots.push(Slot::Title("settings-group-project"));
            slots.push(Slot::License);
            slots.push(Slot::Source);
        },
    }
    assert(slots@ =~= tab_slots_of(tab, *facts));
    slots
}

/// The rows of every category, one category behind the other.
pub open spec fn every_slot_of(facts: Facts) -> Seq<Slot> {
    tab_slots_of(SettingsTab::General, facts) + tab_slots_of(SettingsTab::Appearance, facts)
        + tab_slots_of(SettingsTab::Playback, facts) + tab_slots_of(SettingsTab::Privacy, facts)
        + tab_slots_of(SettingsTab::Integrations, facts) + tab_slots_of(SettingsTab::About, facts)
}

/// The rows of every category, one category behind the other, for a search to rank.
pub fn every_slot(facts: &Facts) -> (slots: Vec<Slot>)
    ensures
        slots@ == every_slot_of(*facts),
{
    let mut slots = tab_slots(SettingsTab::General, facts);
    let mut more = tab_slots(SettingsTab::Appearance, facts);
    slots.append(&mut more);
    let mut more = tab_slots(SettingsTab::Playback, facts);
    slots.append(&mut more);
    let mut more = tab_slots(SettingsTab::Privacy, facts);
    slots.append(&mut more);
    let mut more = tab_slots(SettingsTab::Integrations, facts);
    slots.append(&mut more);
    let mut more = tab_slots(SettingsTab::About, facts);
    slots.append(&mut more);
    slots
}

/// Whether the row is a title.
pub open spec fn is_title(slot: Slot) -> bool {
    slot is Title
}

/// The rows with a separator between each two that stand under one title.
pub open spec fn parted_of(bare: Seq<Slot>) -> Seq<Slot>
    decreases bare.len(),
{
    if bare.len() == 0 {
        Seq::empty()
    } else {
        let before = parted_of(bare.drop_last());
        if bare.len() > 1 && !is_title(bare[bare.len() - 2]) && !is_title(bare.last()) {
            before.push(Slot::Sep).push(bare.last())
        } else {
            before.push(bare.last())
        }
    }
}

/// Parts the rows of the page.
pub fn parted(bare: &Vec<Slot>) -> (slots: Vec<Slot>)
    ensures
        slots@ == parted_of(bare@),
{
    let mut slots: Vec<Slot> = Vec::new();
    let mut row = false;
    let mut index: usize = 0;
    assert(bare@.take(0) =~= Seq::empty());
    while index < bare.len()
        invariant
            index <= bare@.len(),
            row == (index > 0 && !is_title(bare@[index - 1])),
            slots@ == parted_of(bare@.take(index as int)),
        decreases bare@.len() - index,
    {
        let slot = bare[index];
        assert(bare@.take(index + 1).drop_last() =~= bare@.take(index as int));
        let titled = match slot {
            Slot::Title(_) => true,
            _ => false,
        };
        if row && !titled {
            slots.push(Slot::Sep);
        }
        row = !titled;
        slots.push(slot);
        index = index + 1;
    }
    assert(bare@.take(index as int) =~= bare@);
    slots
}

/// The rows of a parted page without the separators.
pub open spec fn unparted(slots: Seq<Slot>) -> Seq<Slot>
    decreases slots.len(),
{
    if slots.len() == 0 {
        Seq::empty()
    } else if slots.last() is Sep {
        unparted(slots.drop_last())
    } else {
        unparted(slots.drop_last()).push(slots.last())
    }
}

/// A row of the page, and neither a title nor a separator.
pub open spec fn is_row(slot: Slot) -> bool {
    !(slot is Title) && !(slot is Sep)
}

/// What stands at a place of the page is no separator, or one with a row on either side of it.
pub open spec fn parts_rows(slots: Seq<Slot>, at: int) -> bool {
    slots[at] is Sep ==> 0 < at < slots.len() - 1 && is_row(slots[at - 1]) && is_row(slots[at + 1])
}

/// Parting loses no row and moves none, and a separator always has a row on either side of it,
/// never a title, the edge of the page or another separator.
pub proof fn parting_keeps_every_row(bare: Seq<Slot>)
    requires
        forall|i: int| 0 <= i < bare.len() ==> !((#[trigger] bare[i]) is Sep),
    ensures
        unparted(parted_of(bare)) == bare,
        bare.len() > 0 ==> parted_of(bare).len() > 0 && parted_of(bare).last() == bare.last(),
        forall|i: int|
            0 <= i < parted_of(bare).len() ==> #[trigger] parts_rows(parted_of(bare), i),
    decreases bare.len(),
{
    if bare.len() > 0 {
        let fewer = bare.drop_last();
        parting_keeps_every_row(fewer);
        let before = parted_of(fewer);
        let after = parted_of(bare);
        assert(!(bare[bare.len() - 1] is Sep));
        assert(fewer.push(bare.last()) =~= bare);
        let parts = bare.len() > 1 && !is_title(bare[bare.len() - 2]) && !is_title(bare.last());
        if parts {
            assert(!(bare[bare.len() - 2] is Sep));
            assert(before.last() == fewer.last());
            assert(after.drop_last() =~= before.push(Slot::Sep));
            assert(before.push(Slot::Sep).drop_last() =~= before);
            assert(unparted(before.push(Slot::Sep)) == unparted(before));
        } else {
            assert(after.drop_last() =~= before);
        }
        assert(unparted(after) == unparted(after.drop_last()).push(after.last()));
        assert forall|i: int| 0 <= i < after.len() implies #[trigger] parts_rows(after, i) by {
            if i < before.len() {
                assert(parts_rows(before, i));
            }
        }
    } else {
        assert(unparted(parted_of(bare)) =~= bare);
    }
}

/// Where the module a protected track needs stands.
#[derive(Clone, Copy, Debug, PartialEq, Eq, Structural)]
pub enum CdmState {
    Looking,
    Configured,
    Installed,
    Fetched,
    Wanted,
    Offered,
    Offering,
    Installing,
    Declined,
    Missing,
}

/// What the Widevine row says: the detail key for its state, and the note beside it.
pub open spec fn widevine_copy_of(state: CdmState) -> (&'static str, &'static str) {
    match state {
        CdmState::Looking => ("settings-widevine-detail", "settings-widevine-looking"),
        CdmState::Configured => ("settings-widevine-detail", "settings-widevine-configured"),
        CdmState::Installed => ("settings-widevine-detail", "settings-widevine-installed"),
        CdmState::Fetched => ("settings-widevine-detail", "settings-widevine-fetched"),
        CdmState::Wanted | CdmState::Offered => (
            "settings-widevine-none",
            "settings-widevine-asking",
        ),
        CdmState::Offering => ("settings-widevine-none", "settings-widevine-fetching"),
        CdmState::Installing => ("settings-widevine-none", "settings-widevine-installing"),
        CdmState::Declined | CdmState::Missing => (
            "settings-widevine-none",
            "settings-widevine-missing",
        ),
    }
}

/// What the Widevine row says: the detail key for its state, and the note beside it.
/// Shared by the row and its search entry.
pub fn widevine_copy(state: CdmState) -> (copy: (&'static str, &'static str))
    ensures
        copy == widevine_copy_of(state),
{
    match state {
        CdmState::Looking => ("settings-widevine-detail", "settings-widevine-looking"),
        CdmState::Configured => ("settings-widevine-detail", "settings-widevine-configured"),
        CdmState::Installed => ("settings-widevine-detail", "settings-widevine-installed"),
        CdmState::Fetched => ("settings-widevine-detail", "settings-widevine-fetched"),
        CdmState::Wanted | CdmState::Offered => (
            "settings-widevine-none",
            "settings-widevine-asking",
        ),
        CdmState::Offering => ("settings-widevine-none", "settings-widevine-fetching"),
        CdmState::Installing => ("settings-widevine-none", "settings-widevine-installing"),
        CdmState::Declined | CdmState::Missing => (
            "settings-widevine-none",
            "settings-widevine-missing",
        ),
    }
}

/// What the Widevine row offers: the download where the user said no or nothing asked yet, and
/// taking the module off again where it was downloaded.
pub fn widevine_offers(state: CdmState) -> (offers: (bool, bool))
    ensures
        offers.0 == (state == CdmState::Declined || state == CdmState::Missing),
        offers.1 == (state == CdmState::Fetched),
{
    (state == CdmState::Declined || state == CdmState::Missing, state == CdmState::Fetched)
}

/// Where the link to a scrobbling service stands.
#[derive(Clone, Debug, PartialEq, Eq)]
pub enum ScrobbleState {
    Off,
    Linking,
    /// Linked, to the account of that name.
    On(String),
    /// Failed, for the reason at that key.
    Failed(String),
}

/// One scrobbling service.
#[derive(Clone, Debug, PartialEq, Eq)]
pub struct Service {
    pub id: String,
    pub state: ScrobbleState,
}

/// What a row is made of in words.
#[derive(Clone, Debug, PartialEq, Eq)]
pub enum Wording {
    /// No words.
    Nothing,
    /// The text at that key.
    Key(&'static str),
    /// The text at a key that was put together.
    Made(String),
    /// The text at that key, with a name put in.
    Naming(&'static str, String),
    /// The text at that key with further words behind it.
    Followed(&'static str, String),
}

/// What a row is made of in words, as mathematics.
pub enum WordingModel {
    Nothing,
    Key(&'static str),
    Made(Seq<char>),
    Naming(&'static str, Seq<char>),
    Followed(&'static str, Seq<char>),
}

impl View for Wording {
    type V = WordingModel;

    open spec fn view(&self) -> WordingModel {
        match self {
            Wording::Nothing => WordingModel::Nothing,
            Wording::Key(key) => WordingModel::Key(key),
            Wording::Made(key) => WordingModel::Made(key@),
            Wording::Naming(key, name) => WordingModel::Naming(key, name@),
            Wording::Followed(key, words) => WordingModel::Followed(key, words@),
        }
    }
}

/// What the words of a row depend on.
#[derive(Clone, Debug, PartialEq, Eq)]
pub struct Sayings {
    /// The names the accounts row answers to.
    pub accounts: String,
    /// Whether any local folder is watched.
    pub folders: bool,
    pub cdm: CdmState,
    pub services: Vec<Service>,
}

/// What a scrobbling service says of its link.
pub open spec fn scrobble_detail_of(state: ScrobbleState) -> WordingModel {
    match state {
        ScrobbleState::Off => WordingModel::Key("settings-scrobble-off"),
        ScrobbleState::Linking => WordingModel::Key("settings-scrobble-waiting"),
        ScrobbleState::On(name) => if name@.len() == 0 {
            WordingModel::Key("settings-scrobble-on")
        } else {
            WordingModel::Naming("settings-scrobble-as", name@)
        },
        ScrobbleState::Failed(key) => WordingModel::Made(key@),
    }
}

/// A title and a detail that both stand at keys of their own.
pub open spec fn plain(title: &'static str, detail: &'static str) -> Option<
    (WordingModel, WordingModel),
> {
    Some((WordingModel::Key(title), WordingModel::Key(detail)))
}

/// The title and detail of a row that a search is matched against. A title of a group and a
/// separator have none.
pub open spec fn meta_of(slot: Slot, sayings: Sayings) -> Option<(WordingModel, WordingModel)> {
    match slot {
        Slot::Title(_) | Slot::Sep => None,
        Slot::Startup => plain("settings-startup", "settings-startup-detail"),
        Slot::Entries => plain("settings-entries", "settings-entries-detail"),
        Slot::Language => plain("settings-language", "settings-language-detail"),
        Slot::Tray => plain("settings-close-to-tray", "settings-close-to-tray-detail"),
        Slot::Accounts => Some(
            (
                WordingModel::Key("settings-accounts"),
                WordingModel::Followed("settings-accounts-detail", sayings.accounts@),
            ),
        ),
        Slot::LocalFolder => Some(
            (
                WordingModel::Key("settings-local-folder"),
                if sayings.folders {
                    WordingModel::Nothing
                } else {
                    WordingModel::Key("settings-local-folder-empty")
                },
            ),
        ),
        Slot::Theme => plain("settings-theme", "settings-theme-detail"),
        Slot::Adaptive => plain("settings-adaptive", "settings-adaptive-detail"),
        Slot::Ambient => plain("settings-ambient", "settings-ambient-detail"),
        Slot::AmbientMotion => plain("settings-ambient-motion", "settings-ambient-motion-detail"),
        Slot::Stage => plain("settings-stage", "settings-stage-detail"),
        Slot::Particles => plain("settings-particles", "settings-particles-detail"),
        Slot::Visualizer => plain("settings-visualizer", "settings-visualizer-detail"),
        Slot::Icons => plain("settings-icons", "settings-icons-detail"),
        Slot::Opacity => plain("settings-opacity", "settings-opacity-detail"),
        Slot::WindowBlur => plain("settings-blur-window", "settings-blur-window-detail"),
        Slot::Blur => plain("settings-blur", "settings-blur-detail"),
        Slot::Corners => plain("settings-corners", "settings-corners-detail"),
        Slot::FullscreenControlsAutohide => plain(
            "settings-fullscreen-controls-autohide",
            "settings-fullscreen-controls-autohide-detail",
        ),
        Slot::PanelLyricsSize => plain(
            "settings-panel-lyrics-size",
            "settings-panel-lyrics-size-detail",
        ),
        Slot::FullscreenLyricsSize => plain(
            "settings-fullscreen-lyrics-size",
            "settings-fullscreen-lyrics-size-detail",
        ),
        Slot::BlurLyrics => plain("settings-blur-lyrics", "settings-blur-lyrics-detail"),
        Slot::Font => plain("settings-font", "settings-font-detail"),
        Slot::Typeface => plain("settings-typeface", "settings-typeface-detail"),
        Slot::Motion => plain("settings-motion", "settings-motion-detail"),
        Slot::Pace => plain("settings-pace", "settings-pace-detail"),
        Slot::Saver => plain("settings-saver", "settings-saver-detail"),
        Slot::ServerSideDecorations => plain(
            "settings-server-side-decorations",
            "settings-server-side-decorations-detail",
        ),
        Slot::Decorations => plain("settings-window-controls", "settings-window-controls-detail"),
        Slot::Side => plain("settings-controls-side", "settings-controls-side-detail"),
        Slot::TrafficLights => plain(
            "settings-traffic-light-controls",
            "settings-traffic-light-controls-detail",
        ),
        Slot::WindowRounding => plain(
            "settings-window-rounding",
            "settings-window-rounding-detail",
        ),
        Slot::AdaptiveMenu => plain("settings-adaptive-menu", "settings-adaptive-menu-detail"),
        Slot::Normalisation => plain("settings-normalisation", "settings-normalisation-detail"),
        Slot::Gapless => plain("settings-gapless", "settings-gapless-detail"),
        Slot::Sleep => plain("settings-sleep", "settings-sleep-detail"),
        Slot::Widevine => plain("settings-widevine", widevine_copy_of(sayings.cdm).0),
        Slot::Equalizer => plain("settings-equalizer", "settings-equalizer-detail"),
        Slot::EqualizerPreset => plain(
            "settings-equalizer-preset",
            "settings-equalizer-preset-detail",
        ),
        Slot::EqualizerBands => Some(
            (WordingModel::Key("settings-group-equalizer"), WordingModel::Nothing),
        ),
        Slot::LyricsProviders => plain(
            "settings-lyrics-providers",
            "settings-lyrics-providers-detail",
        ),
        Slot::PreferLocalLyrics => plain(
            "settings-prefer-local-lyrics",
            "settings-prefer-local-lyrics-detail",
        ),
        Slot::Karaoke => plain("settings-karaoke-lyrics", "settings-karaoke-lyrics-detail"),
        Slot::Romanized => plain("settings-romanized-lyrics", "settings-romanized-lyrics-detail"),
        Slot::LyricsForLocal => plain(
            "settings-lyrics-for-local-files",
            "settings-lyrics-for-local-files-detail",
        ),
        Slot::Discord => plain("settings-discord", "settings-discord-detail"),
        Slot::DiscordName => plain("settings-discord-name", "settings-discord-name-detail"),
        Slot::DiscordShowPaused => plain(
            "settings-discord-show-paused",
            "settings-discord-show-paused-detail",
        ),
        Slot::DiscordBadge => plain("settings-discord-badge", "settings-discord-badge-detail"),
        Slot::DiscordAnonymous => plain(
            "settings-discord-anonymous",
            "settings-discord-anonymous-detail",
        ),
        Slot::DiscordButtons => plain(
            "settings-discord-buttons",
            "settings-discord-buttons-detail",
        ),
        Slot::Scrobble(index) => if index < sayings.services@.len() {
            let service = sayings.services@[index as int];
            Some(
                (
                    WordingModel::Made("settings-"@ + service.id@),
                    scrobble_detail_of(service.state),
                ),
            )
        } else {
            None
        },
        Slot::Version => plain("settings-version", "settings-version-detail"),
        Slot::Updates => plain("settings-check-updates", "settings-check-updates-detail"),
        Slot::Log => plain("settings-log", "settings-log-detail"),
        Slot::License => plain("settings-license", "settings-license-detail"),
        Slot::Source => plain("settings-source", "settings-source-detail"),
    }
}

/// Every row has words a search can find it by, and nothing else on the page does. A row of a
/// scrobbling service has them as long as the service is there.
pub proof fn every_row_can_be_found(slot: Slot, sayings: Sayings)
    requires
        slot matches Slot::Scrobble(index) ==> index < sayings.services@.len(),
    ensures
        meta_of(slot, sayings) is Some <==> is_row(slot),
{
}

/// Titles and rows only, and of the scrobbling services only those there are.
pub open spec fn rows_only(slots: Seq<Slot>, services: nat) -> bool {
    forall|i: int|
        0 <= i < slots.len() ==> !((#[trigger] slots[i]) is Sep) && (slots[i] matches Slot::Scrobble(
            index,
        ) ==> index < services)
}

proof fn lemma_rows_join(left: Seq<Slot>, right: Seq<Slot>, services: nat)
    requires
        rows_only(left, services),
        rows_only(right, services),
    ensures
        rows_only(left + right, services),
{
}

/// A category lists titles and rows only, and of the scrobbling services only those there are.
pub proof fn categories_list_rows(tab: SettingsTab, facts: Facts)
    ensures
        rows_only(tab_slots_of(tab, facts), facts.services as nat),
{
    let services = facts.services as nat;
    match tab {
        SettingsTab::Appearance => {
            let look = look_slots_of(facts);
            let stage = fullscreen_slots_of(facts);
            let frame = decoration_slots_of(facts);
            assert(rows_only(look, services));
            assert(rows_only(stage, services));
            assert(rows_only(frame, services));
            lemma_rows_join(look, stage, services);
            lemma_rows_join(look + stage, reading_slots_of(), services);
            lemma_rows_join(look + stage + reading_slots_of(), frame, services);
            lemma_rows_join(
                look + stage + reading_slots_of() + frame,
                seq![Slot::Title("settings-advanced"), Slot::AdaptiveMenu],
                services,
            );
        },
        _ => {},
    }
}

/// A title and a detail as mathematics.
pub open spec fn seen_meta(meta: Option<(Wording, Wording)>) -> Option<
    (WordingModel, WordingModel),
> {
    match meta {
        Some((title, detail)) => Some((title@, detail@)),
        None => None,
    }
}

/// What a scrobbling service says of its link.
pub fn scrobble_detail(state: &ScrobbleState) -> (detail: Wording)
    ensures
        detail@ == scrobble_detail_of(*state),
{
    match state {
        ScrobbleState::Off => Wording::Key("settings-scrobble-off"),
        ScrobbleState::Linking => Wording::Key("settings-scrobble-waiting"),
        ScrobbleState::On(name) => if name.as_str().is_empty() {
            Wording::Key("settings-scrobble-on")
        } else {
            Wording::Naming("settings-scrobble-as", name.clone())
        },
        ScrobbleState::Failed(key) => Wording::Made(key.clone()),
    }
}

/// The title and detail a search is matched against, without building the row. Kept next
/// to the rows by key: a new row needs its pair here to be found.
pub fn slot_meta(slot: Slot, sayings: &Sayings) -> (meta: Option<(Wording, Wording)>)
    ensures
        seen_meta(meta) == meta_of(slot, *sayings),
{
    let (title, detail): (&'static str, &'static str) = match slot {
        Slot::Title(_) | Slot::Sep => {
            return None;
        },
        Slot::Startup => ("settings-startup", "settings-startup-detail"),
        Slot::Entries => ("settings-entries", "settings-entries-detail"),
        Slot::Language => ("settings-language", "settings-language-detail"),
        Slot::Tray => ("settings-close-to-tray", "settings-close-to-tray-detail"),
        Slot::Accounts => {
            return Some(
                (
                    Wording::Key("settings-accounts"),
                    Wording::Followed("settings-accounts-detail", sayings.accounts.clone()),
                ),
            );
        },
        Slot::LocalFolder => {
            let detail = if sayings.folders {
                Wording::Nothing
            } else {
                Wording::Key("settings-local-folder-empty")
            };
            return Some((Wording::Key("settings-local-folder"), detail));
        },
        Slot::Theme => ("settings-theme", "settings-theme-detail"),
        Slot::Adaptive => ("settings-adaptive", "settings-adaptive-detail"),
        Slot::Ambient => ("settings-ambient", "settings-ambient-detail"),
        Slot::AmbientMotion => ("settings-ambient-motion", "settings-ambient-motion-detail"),
        Slot::Stage => ("settings-stage", "settings-stage-detail"),
        Slot::Particles => ("settings-particles", "settings-particles-detail"),
        Slot::Visualizer => ("settings-visualizer", "settings-visualizer-detail"),
        Slot::Icons => ("settings-icons", "settings-icons-detail"),
        Slot::Opacity => ("settings-opacity", "settings-opacity-detail"),
        Slot::WindowBlur => ("settings-blur-window", "settings-blur-window-detail"),
        Slot::Blur => ("settings-blur", "settings-blur-detail"),
        Slot::Corners => ("settings-corners", "settings-corners-detail"),
        Slot::FullscreenControlsAutohide => (
            "settings-fullscreen-controls-autohide",
            "settings-fullscreen-controls-autohide-detail",
        ),
        Slot::PanelLyricsSize => (
            "settings-panel-lyrics-size",
            "settings-panel-lyrics-size-detail",
        ),
        Slot::FullscreenLyricsSize => (
            "settings-fullscreen-lyrics-size",
            "settings-fullscreen-lyrics-size-detail",
        ),
        Slot::BlurLyrics => ("settings-blur-lyrics", "settings-blur-lyrics-detail"),
        Slot::Font => ("settings-font", "settings-font-detail"),
        Slot::Typeface => ("settings-typeface", "settings-typeface-detail"),
        Slot::Motion => ("settings-motion", "settings-motion-detail"),
        Slot::Pace => ("settings-pace", "settings-pace-detail"),
        Slot::Saver => ("settings-saver", "settings-saver-detail"),
        Slot::ServerSideDecorations => (
            "settings-server-side-decorations",
            "settings-server-side-decorations-detail",
        ),
        Slot::Decorations => ("settings-window-controls", "settings-window-controls-detail"),
        Slot::Side => ("settings-controls-side", "settings-controls-side-detail"),
        Slot::TrafficLights => (
            "settings-traffic-light-controls",
            "settings-traffic-light-controls-detail",
        ),
        Slot::WindowRounding => ("settings-window-rounding", "settings-window-rounding-detail"),
        Slot::AdaptiveMenu => ("settings-adaptive-menu", "settings-adaptive-menu-detail"),
        Slot::Normalisation => ("settings-normalisation", "settings-normalisation-detail"),
        Slot::Gapless => ("settings-gapless", "settings-gapless-detail"),
        Slot::Sleep => ("settings-sleep", "settings-sleep-detail"),
        Slot::Widevine => {
            let (detail, _) = widevine_copy(sayings.cdm);
            ("settings-widevine", detail)
        },
        Slot::Equalizer => ("settings-equalizer", "settings-equalizer-detail"),
        Slot::EqualizerPreset => (
            "settings-equalizer-preset",
            "settings-equalizer-preset-detail",
        ),
        Slot::EqualizerBands => {
            return Some((Wording::Key("settings-group-equalizer"), Wording::Nothing));
        },
        Slot::LyricsProviders => (
            "settings-lyrics-providers",
            "settings-lyrics-providers-detail",
        ),
        Slot::PreferLocalLyrics => (
            "settings-prefer-local-lyrics",
            "settings-prefer-local-lyrics-detail",
        ),
        Slot::Karaoke => ("settings-karaoke-lyrics", "settings-karaoke-lyrics-detail"),
        Slot::Romanized => ("settings-romanized-lyrics", "settings-romanized-lyrics-detail"),
        Slot::LyricsForLocal => (
            "settings-lyrics-for-local-files",
            "settings-lyrics-for-local-files-detail",
        ),
        Slot::Discord => ("settings-discord", "settings-discord-detail"),
        Slot::DiscordName => ("settings-discord-name", "settings-discord-name-detail"),
        Slot::DiscordShowPaused => (
            "settings-discord-show-paused",
            "settings-discord-show-paused-detail",
        ),
        Slot::DiscordBadge => ("settings-discord-badge", "settings-discord-badge-detail"),
        Slot::DiscordAnonymous => (
            "settings-discord-anonymous",
            "settings-discord-anonymous-detail",
        ),
        Slot::DiscordButtons => ("settings-discord-buttons", "settings-discord-buttons-detail"),
        Slot::Scrobble(index) => {
            if index >= sayings.services.len() {
                return None;
            }
            let service = &sayings.services[index];
            return Some(
                (
                    Wording::Made(joined_pair("settings-", service.id.as_str())),
                    scrobble_detail(&service.state),
                ),
            );
        },
        Slot::Version => ("settings-version", "settings-version-detail"),
        Slot::Updates => ("settings-check-updates", "settings-check-updates-detail"),
        Slot::Log => ("settings-log", "settings-log-detail"),
        Slot::License => ("settings-license", "settings-license-detail"),
        Slot::Source => ("settings-source", "settings-source-detail"),
    };
    Some((Wording::Key(title), Wording::Key(detail)))
}

/// Whether there is a row to build for a slot: a scrobbling service may be gone by the time it
/// comes into view.
pub fn drawn(slot: Slot, services: usize) -> (yes: bool)
    ensures
        yes == (slot matches Slot::Scrobble(index) ==> index < services),
{
    match slot {
        Slot::Scrobble(index) => index < services,
        _ => true,
    }
}

/// How well a row answers a query: how well its title and detail together do, with a hit in the
/// title alone counting on top. A row whose words do not answer it at all has no score.
pub open spec fn score_of(whole: Option<u32>, titled: Option<u32>) -> Option<int> {
    match whole {
        Some(whole) => Some(
            whole + (match titled {
                Some(titled) => titled * TITLE_WEIGHT,
                None => 0,
            }),
        ),
        None => None,
    }
}

/// How well a row answers a query, from how well its words do.
pub fn slot_score(whole: Option<u32>, titled: Option<u32>) -> (score: Option<u32>)
    requires
        score_of(whole, titled) matches Some(score) ==> score <= u32::MAX,
    ensures
        match score {
            Some(score) => score_of(whole, titled) == Some(score as int),
            None => score_of(whole, titled) is None,
        },
{
    match whole {
        Some(whole) => {
            let extra: u32 = match titled {
                Some(titled) => titled * TITLE_WEIGHT,
                None => 0,
            };
            Some(whole + extra)
        },
        None => None,
    }
}

/// One hit is listed before another: the better one, and of two that are as good the one whose
/// row comes first.
pub open spec fn ranks_before(scores: Seq<Option<u32>>, left: int, right: int) -> bool {
    let one = scores[left]->0;
    let other = scores[right]->0;
    one > other || (one == other && left < right)
}

/// The hits, best first, ties in the order of the rows: every row with a score is listed once
/// and no other is.
pub open spec fn is_ranking(scores: Seq<Option<u32>>, order: Seq<usize>) -> bool {
    &&& forall|i: int|
        0 <= i < order.len() ==> (#[trigger] order[i]) < scores.len() && scores[order[i] as int]
            is Some
    &&& forall|i: int, j: int|
        0 <= i < j < order.len() ==> ranks_before(
            scores,
            #[trigger] order[i] as int,
            #[trigger] order[j] as int,
        )
    &&& forall|k: int|
        0 <= k < scores.len() && (#[trigger] scores[k]) is Some ==> order.contains(k as usize)
}

/// Every row that answers the query, best match first. Ties keep the order of the rows.
pub fn found(scores: &Vec<Option<u32>>) -> (order: Vec<usize>)
    ensures
        is_ranking(scores@, order@),
{
    let mut order: Vec<usize> = Vec::new();
    let mut index: usize = 0;
    while index < scores.len()
        invariant
            index <= scores@.len(),
            forall|i: int|
                0 <= i < order@.len() ==> (#[trigger] order@[i]) < index
                    && scores@[order@[i] as int] is Some,
            forall|i: int, j: int|
                0 <= i < j < order@.len() ==> ranks_before(
                    scores@,
                    #[trigger] order@[i] as int,
                    #[trigger] order@[j] as int,
                ),
            forall|k: int|
                0 <= k < index && (#[trigger] scores@[k]) is Some ==> order@.contains(k as usize),
        decreases scores@.len() - index,
    {
        if let Some(score) = scores[index] {
            let mut place: usize = order.len();
            while place > 0 && beats(scores, order[place - 1], score)
                invariant
                    place <= order@.len(),
                    index < scores@.len(),
                    scores@[index as int] == Some(score),
                    forall|i: int|
                        0 <= i < order@.len() ==> (#[trigger] order@[i]) < index
                            && scores@[order@[i] as int] is Some,
                    forall|i: int|
                        place <= i < order@.len() ==> ranks_before(
                            scores@,
                            index as int,
                            #[trigger] order@[i] as int,
                        ),
                decreases place,
            {
                place = place - 1;
            }
            let ghost before = order@;
            order.insert(place, index);
            proof {
                assert(order@ == before.insert(place as int, index));
                assert forall|i: int, j: int| 0 <= i < j < order@.len() implies ranks_before(
                    scores@,
                    #[trigger] order@[i] as int,
                    #[trigger] order@[j] as int,
                ) by {
                    let from_i = if i < place {
                        before[i]
                    } else {
                        before[i - 1]
                    };
                    let from_j = if j < place {
                        before[j]
                    } else {
                        before[j - 1]
                    };
                    if i == place {
                        assert(order@[j] == before[j - 1]);
                    } else if j == place {
                        assert(order@[i] == before[i]);
                        if place > 0 {
                            assert(!(score > scores@[before[place - 1] as int]->0));
                            if i < place - 1 {
                                assert(ranks_before(
                                    scores@,
                                    before[i] as int,
                                    before[place - 1] as int,
                                ));
                            }
                        }
                    } else {
                        let k = if i < place {
                            i
                        } else {
                            i - 1
                        };
                        let l = if j < place {
                            j
                        } else {
                            j - 1
                        };
                        assert(ranks_before(scores@, before[k] as int, before[l] as int));
                    }
                }
                assert forall|k: int|
                    0 <= k < index + 1 && (#[trigger] scores@[k]) is Some implies order@.contains(
                    k as usize,
                ) by {
                    if k < index {
                        let w = choose|w: int|
                            0 <= w < before.len() && before[w] == k as usize;
                        if w < place {
                            assert(order@[w] == k as usize);
                        } else {
                            assert(order@[w + 1] == k as usize);
                        }
                    } else {
                        assert(order@[place as int] == k as usize);
                    }
                }
            }
        }
        index = index + 1;
    }
    order
}

/// Whether a score is better than that of a row already listed.
fn beats(scores: &Vec<Option<u32>>, listed: usize, score: u32) -> (yes: bool)
    requires
        listed < scores@.len(),
        scores@[listed as int] is Some,
    ensures
        yes == (score > scores@[listed as int]->0),
{
    match scores[listed] {
        Some(held) => score > held,
        None => false,
    }
}

/// The row is one whose title and detail are plain texts.
pub open spec fn is_plain(slot: Slot) -> bool {
    &&& is_row(slot)
    &&& !(slot is Accounts)
    &&& !(slot is LocalFolder)
    &&& !(slot is Widevine)
    &&& !(slot is EqualizerBands)
    &&& !(slot is Scrobble)
}

/// The detail of a row is found under its title's key, followed by `-detail`.
#[verifier::spinoff_prover]
#[verifier::rlimit(100)]
pub proof fn a_detail_is_found_under_its_title(slot: Slot, sayings: Sayings)
    requires
        is_plain(slot),
    ensures
        meta_of(slot, sayings) matches Some((WordingModel::Key(title), WordingModel::Key(detail)))
            && detail@ == title@ + "-detail"@,
{
    reveal_strlit("-detail");
    match slot {
        Slot::Startup => {
            reveal_strlit("settings-startup");
            reveal_strlit("settings-startup-detail");
            assert("settings-startup-detail"@ =~= "settings-startup"@ + "-detail"@);
        },
        Slot::Entries => {
            reveal_strlit("settings-entries");
            reveal_strlit("settings-entries-detail");
            assert("settings-entries-detail"@ =~= "settings-entries"@ + "-detail"@);
        },
        Slot::Language => {
            reveal_strlit("settings-language");
            reveal_strlit("settings-language-detail");
            assert("settings-language-detail"@ =~= "settings-language"@ + "-detail"@);
        },
        Slot::Tray => {
            reveal_strlit("settings-close-to-tray");
            reveal_strlit("settings-close-to-tray-detail");
            assert("settings-close-to-tray-detail"@ =~= "settings-close-to-tray"@ + "-detail"@);
        },
        Slot::Theme => {
            reveal_strlit("settings-theme");
            reveal_strlit("settings-theme-detail");
            assert("settings-theme-detail"@ =~= "settings-theme"@ + "-detail"@);
        },
        Slot::Adaptive => {
            reveal_strlit("settings-adaptive");
            reveal_strlit("settings-adaptive-detail");
            assert("settings-adaptive-detail"@ =~= "settings-adaptive"@ + "-detail"@);
        },
        Slot::Ambient => {
            reveal_strlit("settings-ambient");
            reveal_strlit("settings-ambient-detail");
            assert("settings-ambient-detail"@ =~= "settings-ambient"@ + "-detail"@);
        },
        Slot::AmbientMotion => {
            reveal_strlit("settings-ambient-motion");
            reveal_strlit("settings-ambient-motion-detail");
            assert("settings-ambient-motion-detail"@ =~= "settings-ambient-motion"@ + "-detail"@);
        },
        Slot::Stage => {
            reveal_strlit("settings-stage");
            reveal_strlit("settings-stage-detail");
            assert("settings-stage-detail"@ =~= "settings-stage"@ + "-detail"@);
        },
        Slot::Particles => {
            reveal_strlit("settings-particles");
            reveal_strlit("settings-particles-detail");
            assert("settings-particles-detail"@ =~= "settings-particles"@ + "-detail"@);
        },
        Slot::Visualizer => {
            reveal_strlit("settings-visualizer");
            reveal_strlit("settings-visualizer-detail");
            assert("settings-visualizer-detail"@ =~= "settings-visualizer"@ + "-detail"@);
        },
        Slot::Icons => {
            reveal_strlit("settings-icons");
            reveal_strlit("settings-icons-detail");
            assert("settings-icons-detail"@ =~= "settings-icons"@ + "-detail"@);
        },
        Slot::Opacity => {
            reveal_strlit("settings-opacity");
            reveal_strlit("settings-opacity-detail");
            assert("settings-opacity-detail"@ =~= "settings-opacity"@ + "-detail"@);
        },
        Slot::WindowBlur => {
            reveal_strlit("settings-blur-window");
            reveal_strlit("settings-blur-window-detail");
            assert("settings-blur-window-detail"@ =~= "settings-blur-window"@ + "-detail"@);
        },
        Slot::Blur => {
            reveal_strlit("settings-blur");
            reveal_strlit("settings-blur-detail");
            assert("settings-blur-detail"@ =~= "settings-blur"@ + "-detail"@);
        },
        Slot::Corners => {
            reveal_strlit("settings-corners");
            reveal_strlit("settings-corners-detail");
            assert("settings-corners-detail"@ =~= "settings-corners"@ + "-detail"@);
        },
        Slot::FullscreenControlsAutohide => {
            reveal_strlit("settings-fullscreen-controls-autohide");
            reveal_strlit("settings-fullscreen-controls-autohide-detail");
            assert("settings-fullscreen-controls-autohide-detail"@ =~= "settings-fullscreen-controls-autohide"@ + "-detail"@);
        },
        Slot::PanelLyricsSize => {
            reveal_strlit("settings-panel-lyrics-size");
            reveal_strlit("settings-panel-lyrics-size-detail");
            assert("settings-panel-lyrics-size-detail"@ =~= "settings-panel-lyrics-size"@ + "-detail"@);
        },
        Slot::FullscreenLyricsSize => {
            reveal_strlit("settings-fullscreen-lyrics-size");
            reveal_strlit("settings-fullscreen-lyrics-size-detail");
            assert("settings-fullscreen-lyrics-size-detail"@ =~= "settings-fullscreen-lyrics-size"@ + "-detail"@);
        },
        Slot::BlurLyrics => {
            reveal_strlit("settings-blur-lyrics");
            reveal_strlit("settings-blur-lyrics-detail");
            assert("settings-blur-lyrics-detail"@ =~= "settings-blur-lyrics"@ + "-detail"@);
        },
        Slot::Font => {
            reveal_strlit("settings-font");
            reveal_strlit("settings-font-detail");
            assert("settings-font-detail"@ =~= "settings-font"@ + "-detail"@);
        },
        Slot::Typeface => {
            reveal_strlit("settings-typeface");
            reveal_strlit("settings-typeface-detail");
            assert("settings-typeface-detail"@ =~= "settings-typeface"@ + "-detail"@);
        },
        Slot::Motion => {
            reveal_strlit("settings-motion");
            reveal_strlit("settings-motion-detail");
            assert("settings-motion-detail"@ =~= "settings-motion"@ + "-detail"@);
        },
        Slot::Pace => {
            reveal_strlit("settings-pace");
            reveal_strlit("settings-pace-detail");
            assert("settings-pace-detail"@ =~= "settings-pace"@ + "-detail"@);
        },
        Slot::Saver => {
            reveal_strlit("settings-saver");
            reveal_strlit("settings-saver-detail");
            assert("settings-saver-detail"@ =~= "settings-saver"@ + "-detail"@);
        },
        Slot::ServerSideDecorations => {
            reveal_strlit("settings-server-side-decorations");
            reveal_strlit("settings-server-side-decorations-detail");
            assert("settings-server-side-decorations-detail"@ =~= "settings-server-side-decorations"@ + "-detail"@);
        },
        Slot::Decorations => {
            reveal_strlit("settings-window-controls");
            reveal_strlit("settings-window-controls-detail");
            assert("settings-window-controls-detail"@ =~= "settings-window-controls"@ + "-detail"@);
        },
        Slot::Side => {
            reveal_strlit("settings-controls-side");
            reveal_strlit("settings-controls-side-detail");
            assert("settings-controls-side-detail"@ =~= "settings-controls-side"@ + "-detail"@);
        },
        Slot::TrafficLights => {
            reveal_strlit("settings-traffic-light-controls");
            reveal_strlit("settings-traffic-light-controls-detail");
            assert("settings-traffic-light-controls-detail"@ =~= "settings-traffic-light-controls"@ + "-detail"@);
        },
        Slot::WindowRounding => {
            reveal_strlit("settings-window-rounding");
            reveal_strlit("settings-window-rounding-detail");
            assert("settings-window-rounding-detail"@ =~= "settings-window-rounding"@ + "-detail"@);
        },
        Slot::AdaptiveMenu => {
            reveal_strlit("settings-adaptive-menu");
            reveal_strlit("settings-adaptive-menu-detail");
            assert("settings-adaptive-menu-detail"@ =~= "settings-adaptive-menu"@ + "-detail"@);
        },
        Slot::Normalisation => {
            reveal_strlit("settings-normalisation");
            reveal_strlit("settings-normalisation-detail");
            assert("settings-normalisation-detail"@ =~= "settings-normalisation"@ + "-detail"@);
        },
        Slot::Gapless => {
            reveal_strlit("settings-gapless");
            reveal_strlit("settings-gapless-detail");
            assert("settings-gapless-detail"@ =~= "settings-gapless"@ + "-detail"@);
        },
        Slot::Sleep => {
            reveal_strlit("settings-sleep");
            reveal_strlit("settings-sleep-detail");
            assert("settings-sleep-detail"@ =~= "settings-sleep"@ + "-detail"@);
        },
        Slot::Equalizer => {
            reveal_strlit("settings-equalizer");
            reveal_strlit("settings-equalizer-detail");
            assert("settings-equalizer-detail"@ =~= "settings-equalizer"@ + "-detail"@);
        },
        Slot::EqualizerPreset => {
            reveal_strlit("settings-equalizer-preset");
            reveal_strlit("settings-equalizer-preset-detail");
            assert("settings-equalizer-preset-detail"@ =~= "settings-equalizer-preset"@ + "-detail"@);
        },
        Slot::LyricsProviders => {
            reveal_strlit("settings-lyrics-providers");
            reveal_strlit("settings-lyrics-providers-detail");
            assert("settings-lyrics-providers-detail"@ =~= "settings-lyrics-providers"@ + "-detail"@);
        },
        Slot::PreferLocalLyrics => {
            reveal_strlit("settings-prefer-local-lyrics");
            reveal_strlit("settings-prefer-local-lyrics-detail");
            assert("settings-prefer-local-lyrics-detail"@ =~= "settings-prefer-local-lyrics"@ + "-detail"@);
        },
        Slot::Karaoke => {
            reveal_strlit("settings-karaoke-lyrics");
            reveal_strlit("settings-karaoke-lyrics-detail");
            assert("settings-karaoke-lyrics-detail"@ =~= "settings-karaoke-lyrics"@ + "-detail"@);
        },
        Slot::Romanized => {
            reveal_strlit("settings-romanized-lyrics");
            reveal_strlit("settings-romanized-lyrics-detail");
            assert("settings-romanized-lyrics-detail"@ =~= "settings-romanized-lyrics"@ + "-detail"@);
        },
        Slot::LyricsForLocal => {
            reveal_strlit("settings-lyrics-for-local-files");
            reveal_strlit("settings-lyrics-for-local-files-detail");
            assert("settings-lyrics-for-local-files-detail"@ =~= "settings-lyrics-for-local-files"@ + "-detail"@);
        },
        Slot::Discord => {
            reveal_strlit("settings-discord");
            reveal_strlit("settings-discord-detail");
            assert("settings-discord-detail"@ =~= "settings-discord"@ + "-detail"@);
        },
        Slot::DiscordName => {
            reveal_strlit("settings-discord-name");
            reveal_strlit("settings-discord-name-detail");
            assert("settings-discord-name-detail"@ =~= "settings-discord-name"@ + "-detail"@);
        },
        Slot::DiscordShowPaused => {
            reveal_strlit("settings-discord-show-paused");
            reveal_strlit("settings-discord-show-paused-detail");
            assert("settings-discord-show-paused-detail"@ =~= "settings-discord-show-paused"@ + "-detail"@);
        },
        Slot::DiscordBadge => {
            reveal_strlit("settings-discord-badge");
            reveal_strlit("settings-discord-badge-detail");
            assert("settings-discord-badge-detail"@ =~= "settings-discord-badge"@ + "-detail"@);
        },
        Slot::DiscordAnonymous => {
            reveal_strlit("settings-discord-anonymous");
            reveal_strlit("settings-discord-anonymous-detail");
            assert("settings-discord-anonymous-detail"@ =~= "settings-discord-anonymous"@ + "-detail"@);
        },
        Slot::DiscordButtons => {
            reveal_strlit("settings-discord-buttons");
            reveal_strlit("settings-discord-buttons-detail");
            assert("settings-discord-buttons-detail"@ =~= "settings-discord-buttons"@ + "-detail"@);
        },
        Slot::Version => {
            reveal_strlit("settings-version");
            reveal_strlit("settings-version-detail");
            assert("settings-version-detail"@ =~= "settings-version"@ + "-detail"@);
        },
        Slot::Updates => {
            reveal_strlit("settings-check-updates");
            reveal_strlit("settings-check-updates-detail");
            assert("settings-check-updates-detail"@ =~= "settings-check-updates"@ + "-detail"@);
        },
        Slot::Log => {
            reveal_strlit("settings-log");
            reveal_strlit("settings-log-detail");
            assert("settings-log-detail"@ =~= "settings-log"@ + "-detail"@);
        },
        Slot::License => {
            reveal_strlit("settings-license");
            reveal_strlit("settings-license-detail");
            assert("settings-license-detail"@ =~= "settings-license"@ + "-detail"@);
        },
        Slot::Source => {
            reveal_strlit("settings-source");
            reveal_strlit("settings-source-detail");
            assert("settings-source-detail"@ =~= "settings-source"@ + "-detail"@);
        },
        _ => {},
    }
}

/// What the rows say that depends on what is known: the accounts by their names, the folder only
/// while there is none, the module by where it was found, and a service under its own id.
pub proof fn a_row_says_what_is_known(sayings: Sayings, index: usize)
    ensures
        meta_of(Slot::Accounts, sayings) == Some(
            (
                WordingModel::Key("settings-accounts"),
                WordingModel::Followed("settings-accounts-detail", sayings.accounts@),
            ),
        ),
        meta_of(Slot::LocalFolder, sayings) matches Some((title, detail)) && title
            == WordingModel::Key("settings-local-folder") && (sayings.folders ==> detail
            is Nothing) && (!sayings.folders ==> detail == WordingModel::Key(
            "settings-local-folder-empty",
        )),
        meta_of(Slot::EqualizerBands, sayings) == Some(
            (WordingModel::Key("settings-group-equalizer"), WordingModel::Nothing),
        ),
        index < sayings.services@.len() ==> (meta_of(Slot::Scrobble(index), sayings) matches Some(
            (title, detail),
        ) && title == WordingModel::Made("settings-"@ + sayings.services@[index as int].id@)
            && detail == scrobble_detail_of(sayings.services@[index as int].state)),
        index >= sayings.services@.len() ==> meta_of(Slot::Scrobble(index), sayings) is None,
        meta_of(Slot::Widevine, sayings) == Some(
            (
                WordingModel::Key("settings-widevine"),
                WordingModel::Key(widevine_copy_of(sayings.cdm).0),
            ),
        ),
{
}

/// What is told of the module: every state has its own words, and the detail says that there is
/// none exactly until one was found.
pub proof fn the_module_is_told_as_it_is(state: CdmState, offers: (bool, bool))
    requires
        call_ensures(widevine_offers, (state,), offers),
    ensures
        ({
            let there = state is Looking || state is Configured || state is Installed || state
                is Fetched;
            let copy = widevine_copy_of(state);
            &&& there ==> copy.0 == "settings-widevine-detail"
            &&& !there ==> copy.0 == "settings-widevine-none"
            &&& state is Looking ==> copy.1 == "settings-widevine-looking"
            &&& state is Configured ==> copy.1 == "settings-widevine-configured"
            &&& state is Installed ==> copy.1 == "settings-widevine-installed"
            &&& state is Fetched ==> copy.1 == "settings-widevine-fetched"
            &&& state is Wanted || state is Offered ==> copy.1 == "settings-widevine-asking"
            &&& state is Offering ==> copy.1 == "settings-widevine-fetching"
            &&& state is Installing ==> copy.1 == "settings-widevine-installing"
            &&& state is Declined || state is Missing ==> copy.1 == "settings-widevine-missing"
            &&& offers.0 <==> copy.1 == "settings-widevine-missing" && (state is Declined || state
                is Missing)
            &&& offers.1 <==> state is Fetched
        }),
{
}

/// What is told of a service: that it is off or waits, under which name it is on where it has
/// one, and why it failed.
pub proof fn a_service_is_told_as_it_is(state: ScrobbleState)
    ensures
        state is Off ==> scrobble_detail_of(state) == WordingModel::Key("settings-scrobble-off"),
        state is Linking ==> scrobble_detail_of(state) == WordingModel::Key(
            "settings-scrobble-waiting",
        ),
        state matches ScrobbleState::On(name) ==> (name@.len() == 0 ==> scrobble_detail_of(state)
            == WordingModel::Key("settings-scrobble-on")) && (name@.len() > 0
            ==> scrobble_detail_of(state) == WordingModel::Naming("settings-scrobble-as", name@)),
        state matches ScrobbleState::Failed(why) ==> scrobble_detail_of(state)
            == WordingModel::Made(why@),
{
}

/// How well a row answers: as well as all of its words do, and twice as well as its title does on
/// top. A row whose words do not answer is no answer, whatever its title does.
pub proof fn a_title_counts_twice_on_top(whole: u32, titled: u32)
    ensures
        score_of(Some(whole), None) == Some(whole as int),
        score_of(Some(whole), Some(titled)) == Some(whole + 2 * titled),
        score_of(None, Some(titled)) is None,
        score_of(None, None) is None,
{
}

/// The best answer comes first, and of two as good the one that is listed first.
pub proof fn the_best_answer_comes_first(scores: Seq<Option<u32>>, order: Seq<usize>, i: int, j: int)
    requires
        is_ranking(scores, order),
        0 <= i < j < order.len(),
    ensures
        scores[order[i] as int] is Some && scores[order[j] as int] is Some,
        scores[order[i] as int]->0 >= scores[order[j] as int]->0,
        scores[order[i] as int]->0 == scores[order[j] as int]->0 ==> order[i] < order[j],
{
    assert(ranks_before(scores, order[i] as int, order[j] as int));
}

/// A separator stands between any two rows that follow one another.
pub proof fn neighbouring_rows_are_parted(bare: Seq<Slot>, at: int)
    requires
        forall|i: int| 0 <= i < bare.len() ==> !((#[trigger] bare[i]) is Sep),
        0 <= at < parted_of(bare).len() - 1,
    ensures
        !(is_row(parted_of(bare)[at]) && is_row(parted_of(bare)[at + 1])),
    decreases bare.len(),
{
    if bare.len() > 0 {
        let fewer = bare.drop_last();
        let before = parted_of(fewer);
        assert forall|i: int| 0 <= i < fewer.len() implies !((#[trigger] fewer[i]) is Sep) by {
            assert(fewer[i] == bare[i]);
        }
        parting_keeps_every_row(fewer);
        if at < before.len() - 1 {
            neighbouring_rows_are_parted(fewer, at);
            assert(parted_of(bare)[at] == before[at]);
            assert(parted_of(bare)[at + 1] == before[at + 1]);
        } else if fewer.len() > 0 {
            assert(before.last() == fewer.last());
            assert(bare[bare.len() - 2] == fewer.last());
        }
    }
}

proof fn lemma_slots_add(a: Seq<Slot>, b: Seq<Slot>)
    ensures
        forall|slot: Slot| #[trigger]
            (a + b).contains(slot) <==> a.contains(slot) || b.contains(slot),
{
    assert forall|slot: Slot| #[trigger] (a + b).contains(slot) <==> a.contains(slot) || b.contains(
        slot,
    ) by {
        if a.contains(slot) {
            let i = choose|i: int| 0 <= i < a.len() && a[i] == slot;
            assert((a + b)[i] == slot);
        }
        if b.contains(slot) {
            let i = choose|i: int| 0 <= i < b.len() && b[i] == slot;
            assert((a + b)[a.len() + i] == slot);
        }
    }
}

proof fn lemma_slot_if(shown: bool, slot: Slot)
    ensures
        forall|other: Slot| #[trigger]
            slot_if(shown, slot).contains(other) <==> shown && other == slot,
{
    if shown {
        assert(slot_if(shown, slot)[0] == slot);
    }
}

/// The rows of the fullscreen view that depend on others are there exactly with those.
pub proof fn fullscreen_rows_depend_on_others(facts: Facts)
    ensures
        fullscreen_slots_of(facts).contains(Slot::AmbientMotion) <==> facts.ambient,
        fullscreen_slots_of(facts).contains(Slot::Particles) <==> facts.fielded,
        look_slots_of(facts).contains(Slot::WindowBlur) <==> facts.window_blur,
        fullscreen_slots_of(facts).contains(Slot::Ambient),
        fullscreen_slots_of(facts).contains(Slot::Stage),
        fullscreen_slots_of(facts).contains(Slot::Visualizer),
        fullscreen_slots_of(facts).contains(Slot::FullscreenControlsAutohide),
        look_slots_of(facts).contains(Slot::Theme),
        look_slots_of(facts).contains(Slot::Blur),
        look_slots_of(facts).contains(Slot::Corners),
{
    let a = seq![Slot::Title("settings-group-fullscreen"), Slot::Ambient];
    let b = slot_if(facts.ambient, Slot::AmbientMotion);
    let c = seq![Slot::Stage];
    let d = slot_if(facts.fielded, Slot::Particles);
    let e = seq![Slot::Visualizer, Slot::FullscreenControlsAutohide];
    lemma_slots_add(a, b);
    lemma_slots_add(a + b, c);
    lemma_slots_add(a + b + c, d);
    lemma_slots_add(a + b + c + d, e);
    lemma_slot_if(facts.ambient, Slot::AmbientMotion);
    lemma_slot_if(facts.fielded, Slot::Particles);
    assert(fullscreen_slots_of(facts) == a + b + c + d + e);
    assert(a[1] == Slot::Ambient && c[0] == Slot::Stage && e[0] == Slot::Visualizer && e[1]
        == Slot::FullscreenControlsAutohide);
    let front = seq![
        Slot::Title("settings-tab-general"),
        Slot::Theme,
        Slot::Adaptive,
        Slot::Icons,
        Slot::Opacity,
    ];
    let blur = slot_if(facts.window_blur, Slot::WindowBlur);
    let back = seq![Slot::Blur, Slot::Corners];
    lemma_slots_add(front, blur);
    lemma_slots_add(front + blur, back);
    lemma_slot_if(facts.window_blur, Slot::WindowBlur);
    assert(look_slots_of(facts) == front + blur + back);
    assert(front[1] == Slot::Theme && back[0] == Slot::Blur && back[1] == Slot::Corners);
}

/// The rows about the window's frame are those of the system it runs on: none on macOS, who draws
/// the frame on Linux and FreeBSD, and the window's buttons elsewhere. A frame that the desktop
/// draws is not rounded here.
pub proof fn the_frame_is_the_systems(facts: Facts)
    ensures
        ({
            let slots = decoration_slots_of(facts);
            let desktop = facts.os is Linux || facts.os is Freebsd;
            &&& facts.os is Macos <==> slots.len() == 0
            &&& slots.contains(Slot::ServerSideDecorations) <==> desktop
            &&& slots.contains(Slot::Decorations) <==> facts.os is Windows || facts.os is Other
            &&& slots.contains(Slot::Side) <==> !(facts.os is Macos)
            &&& slots.contains(Slot::TrafficLights) <==> !(facts.os is Macos)
            &&& slots.contains(Slot::WindowRounding) <==> !(facts.os is Macos) && !(desktop
                && facts.server_side)
        }),
{
    let front = seq![
        Slot::Title("settings-group-window-style"),
        Slot::ServerSideDecorations,
        Slot::Side,
        Slot::TrafficLights,
    ];
    lemma_slots_add(front, slot_if(!facts.server_side, Slot::WindowRounding));
    lemma_slot_if(!facts.server_side, Slot::WindowRounding);
    assert(front[1] == Slot::ServerSideDecorations && front[2] == Slot::Side && front[3]
        == Slot::TrafficLights);
    let slots = decoration_slots_of(facts);
    if facts.os is Windows || facts.os is Other {
        assert(slots[1] == Slot::Decorations && slots[2] == Slot::Side && slots[3]
            == Slot::TrafficLights && slots[4] == Slot::WindowRounding);
    }
}

/// The rows of the playback that depend on others are there exactly with those.
pub proof fn playback_rows_depend_on_others(facts: Facts)
    ensures
        ({
            let slots = tab_slots_of(SettingsTab::Playback, facts);
            &&& slots.contains(Slot::Widevine) <==> facts.drm
            &&& slots.contains(Slot::EqualizerPreset) <==> facts.equalizer
            &&& slots.contains(Slot::EqualizerBands) <==> facts.equalizer
            &&& slots.contains(Slot::PreferLocalLyrics) <==> facts.local_lyrics
            &&& slots.contains(Slot::Normalisation) && slots.contains(Slot::Gapless)
                && slots.contains(Slot::Sleep)
            &&& slots.contains(Slot::Equalizer) && slots.contains(Slot::LyricsProviders)
            &&& slots.contains(Slot::Karaoke) && slots.contains(Slot::Romanized)
        }),
{
    let a = seq![
        Slot::Title("settings-tab-general"),
        Slot::Normalisation,
        Slot::Gapless,
        Slot::Sleep,
    ];
    let b = slot_if(facts.drm, Slot::Widevine);
    let c = seq![Slot::Title("settings-group-equalizer"), Slot::Equalizer];
    let d = if facts.equalizer {
        seq![Slot::EqualizerPreset, Slot::EqualizerBands]
    } else {
        Seq::empty()
    };
    let e = seq![Slot::Title("settings-group-lyrics"), Slot::LyricsProviders];
    let f = slot_if(facts.local_lyrics, Slot::PreferLocalLyrics);
    let g = seq![Slot::Karaoke, Slot::Romanized];
    lemma_slots_add(a, b);
    lemma_slots_add(a + b, c);
    lemma_slots_add(a + b + c, d);
    lemma_slots_add(a + b + c + d, e);
    lemma_slots_add(a + b + c + d + e, f);
    lemma_slots_add(a + b + c + d + e + f, g);
    lemma_slot_if(facts.drm, Slot::Widevine);
    lemma_slot_if(facts.local_lyrics, Slot::PreferLocalLyrics);
    assert(playback_slots_of(facts) == a + b + c + d + e + f + g);
    assert(a[1] == Slot::Normalisation && a[2] == Slot::Gapless && a[3] == Slot::Sleep);
    assert(c[1] == Slot::Equalizer && e[1] == Slot::LyricsProviders);
    assert(g[0] == Slot::Karaoke && g[1] == Slot::Romanized);
    if facts.equalizer {
        assert(d[0] == Slot::EqualizerPreset && d[1] == Slot::EqualizerBands);
    }
}

/// What is told to Discord can be set only while it is told anything, and every service that can
/// be scrobbled to has its row.
pub proof fn integrations_depend_on_others(facts: Facts, index: usize)
    ensures
        ({
            let slots = tab_slots_of(SettingsTab::Integrations, facts);
            &&& slots.contains(Slot::Discord)
            &&& slots.contains(Slot::DiscordName) <==> facts.discord
            &&& slots.contains(Slot::DiscordShowPaused) <==> facts.discord
            &&& slots.contains(Slot::DiscordBadge) <==> facts.discord
            &&& slots.contains(Slot::DiscordAnonymous) <==> facts.discord
            &&& slots.contains(Slot::DiscordButtons) <==> facts.discord
            &&& slots.contains(Slot::Scrobble(index)) <==> index < facts.services
        }),
{
    let front = seq![Slot::Title("settings-group-discord"), Slot::Discord];
    let told = if facts.discord {
        seq![
            Slot::DiscordName,
            Slot::DiscordShowPaused,
            Slot::DiscordBadge,
            Slot::DiscordAnonymous,
            Slot::DiscordButtons,
        ]
    } else {
        Seq::empty()
    };
    let title = seq![Slot::Title("settings-group-scrobbling")];
    let services = scrobble_slots_of(facts.services as nat);
    lemma_slots_add(front, told);
    lemma_slots_add(front + told, title);
    lemma_slots_add(front + told + title, services);
    let slots = tab_slots_of(SettingsTab::Integrations, facts);
    assert(slots =~= front + told + title + services);
    assert(front[1] == Slot::Discord);
    if facts.discord {
        assert(told[0] == Slot::DiscordName && told[1] == Slot::DiscordShowPaused && told[2]
            == Slot::DiscordBadge && told[3] == Slot::DiscordAnonymous && told[4]
            == Slot::DiscordButtons);
    }
    assert forall|slot: Slot| #[trigger] services.contains(slot) implies slot is Scrobble by {
        let i = choose|i: int| 0 <= i < services.len() && services[i] == slot;
        assert(services[i] == Slot::Scrobble(i as usize));
    }
    if index < facts.services {
        assert(services[index as int] == Slot::Scrobble(index));
    }
    if services.contains(Slot::Scrobble(index)) {
        let i = choose|i: int| 0 <= i < services.len() && services[i] == Slot::Scrobble(index);
        assert(services[i] == Slot::Scrobble(i as usize));
    }
}

/// A search looks through the rows of every category, one category after the other.
pub proof fn a_search_looks_everywhere(facts: Facts, tab: SettingsTab, slot: Slot)
    requires
        tab_slots_of(tab, facts).contains(slot),
    ensures
        every_slot_of(facts).contains(slot),
{
    let a = tab_slots_of(SettingsTab::General, facts);
    let b = tab_slots_of(SettingsTab::Appearance, facts);
    let c = tab_slots_of(SettingsTab::Playback, facts);
    let d = tab_slots_of(SettingsTab::Privacy, facts);
    let e = tab_slots_of(SettingsTab::Integrations, facts);
    let f = tab_slots_of(SettingsTab::About, facts);
    lemma_slots_add(a, b);
    lemma_slots_add(a + b, c);
    lemma_slots_add(a + b + c, d);
    lemma_slots_add(a + b + c + d, e);
    lemma_slots_add(a + b + c + d + e, f);
    assert(every_slot_of(facts) == a + b + c + d + e + f);
}

/// The page of the looks has the rows of the looks, of the full screen, of what is read and of the
/// window's frame, and the one that adapts its menu.
pub proof fn the_looks_have_every_part(facts: Facts, slot: Slot)
    ensures
        ({
            let slots = tab_slots_of(SettingsTab::Appearance, facts);
            &&& look_slots_of(facts).contains(slot) ==> slots.contains(slot)
            &&& fullscreen_slots_of(facts).contains(slot) ==> slots.contains(slot)
            &&& decoration_slots_of(facts).contains(slot) ==> slots.contains(slot)
            &&& slots.contains(Slot::AdaptiveMenu)
            &&& slots.contains(Slot::PanelLyricsSize) && slots.contains(Slot::FullscreenLyricsSize)
            &&& slots.contains(Slot::BlurLyrics) && slots.contains(Slot::Font) && slots.contains(
                Slot::Typeface,
            )
            &&& slots.contains(Slot::Motion) && slots.contains(Slot::Pace) && slots.contains(
                Slot::Saver,
            )
        }),
{
    let a = look_slots_of(facts);
    let b = fullscreen_slots_of(facts);
    let c = reading_slots_of();
    let d = decoration_slots_of(facts);
    let e = seq![Slot::Title("settings-advanced"), Slot::AdaptiveMenu];
    lemma_slots_add(a, b);
    lemma_slots_add(a + b, c);
    lemma_slots_add(a + b + c, d);
    lemma_slots_add(a + b + c + d, e);
    assert(appearance_slots_of(facts) == a + b + c + d + e);
    assert(e[1] == Slot::AdaptiveMenu);
    assert(c[1] == Slot::PanelLyricsSize && c[2] == Slot::FullscreenLyricsSize && c[3]
        == Slot::BlurLyrics && c[5] == Slot::Font && c[6] == Slot::Typeface && c[8] == Slot::Motion
        && c[9] == Slot::Pace && c[10] == Slot::Saver);
}

/// The rows of the other pages are always there.
pub proof fn the_other_pages_have_their_rows(facts: Facts)
    ensures
        ({
            let general = tab_slots_of(SettingsTab::General, facts);
            let privacy = tab_slots_of(SettingsTab::Privacy, facts);
            let about = tab_slots_of(SettingsTab::About, facts);
            &&& general.contains(Slot::Startup) && general.contains(Slot::Entries)
            &&& general.contains(Slot::Language) && general.contains(Slot::Tray)
            &&& general.contains(Slot::Accounts) && general.contains(Slot::LocalFolder)
            &&& privacy.contains(Slot::LyricsForLocal)
            &&& about.contains(Slot::Version) && about.contains(Slot::Updates)
            &&& about.contains(Slot::Log) && about.contains(Slot::License)
            &&& about.contains(Slot::Source)
        }),
{
    let general = tab_slots_of(SettingsTab::General, facts);
    let privacy = tab_slots_of(SettingsTab::Privacy, facts);
    let about = tab_slots_of(SettingsTab::About, facts);
    assert(general[0] == Slot::Startup && general[1] == Slot::Entries && general[2]
        == Slot::Language && general[4] == Slot::Tray && general[6] == Slot::Accounts && general[8]
        == Slot::LocalFolder);
    assert(privacy[1] == Slot::LyricsForLocal);
    assert(about[1] == Slot::Version && about[2] == Slot::Updates && about[3] == Slot::Log
        && about[5] == Slot::License && about[6] == Slot::Source);
}

} // verus!
