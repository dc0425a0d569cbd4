//! The bar at the bottom of the window: what is playing, how far it is, and how loud.
//!
//! A point along one of its sliders is a value of the caller's own, and is only carried here.

use vstd::prelude::*;

use super::chrome::{radius_of, window_radius};
use crate::platform::Os;
use crate::text::{copied, maybe_text};

verus! {

/// So many seconds take a clock with hours.
pub const HOUR: u64 = 3600;

/// A side of the panel on the right.
#[derive(Clone, Copy, Debug, PartialEq, Eq, Structural)]
pub enum SideTab {
    Queue,
    Lyrics,
}

/// What a button asks for.
#[derive(Clone, Copy, Debug, PartialEq, Eq, Structural)]
pub enum Toggle {
    Queue,
    Lyrics,
}

/// A button that shows one side of the panel.
#[derive(Clone, Copy, Debug, PartialEq, Eq)]
pub struct SideButton {
    pub id: &'static str,
    pub icon: &'static str,
    pub tooltip: &'static str,
    /// The side is the one shown.
    pub selected: bool,
    pub press: Toggle,
}

/// The button for a side while the panel is open or not on some side.
pub open spec fn side_button_of(side: SideTab, open: bool, tab: SideTab) -> SideButton {
    match side {
        SideTab::Lyrics => SideButton {
            id: "player-lyrics",
            icon: "icons/mic-vocal.svg",
            tooltip: "lyrics-title",
            selected: open && tab == side,
            press: Toggle::Lyrics,
        },
        SideTab::Queue => SideButton {
            id: "player-queue",
            icon: "icons/list-music.svg",
            tooltip: "queue-title",
            selected: open && tab == side,
            press: Toggle::Queue,
        },
    }
}

/// The button for a side while the panel is open or not on some side.
fn side_button(side: SideTab, open: bool, tab: SideTab) -> (button: SideButton)
    ensures
        button == side_button_of(side, open, tab),
{
    match side {
        SideTab::Lyrics => SideButton {
            id: "player-lyrics",
            icon: "icons/mic-vocal.svg",
            tooltip: "lyrics-title",
            selected: open && tab == side,
            press: Toggle::Lyrics,
        },
        SideTab::Queue => SideButton {
            id: "player-queue",
            icon: "icons/list-music.svg",
            tooltip: "queue-title",
            selected: open && tab == side,
            press: Toggle::Queue,
        },
    }
}

/// The buttons for the sides of the panel.
pub open spec fn side_buttons_of(open: bool, tab: SideTab) -> Seq<SideButton> {
    seq![side_button_of(SideTab::Lyrics, open, tab), side_button_of(SideTab::Queue, open, tab)]
}

/// The buttons for the sides of the panel.
pub fn side_buttons(open: bool, tab: SideTab) -> (buttons: Vec<SideButton>)
    ensures
        buttons@ == side_buttons_of(open, tab),
{
    let mut buttons: Vec<SideButton> = Vec::new();
    buttons.push(side_button(SideTab::Lyrics, open, tab));
    buttons.push(side_button(SideTab::Queue, open, tab));
    assert(buttons@ =~= side_buttons_of(open, tab));
    buttons
}

/// At most one of the buttons is the one whose side is shown, and none while the panel is closed.
pub proof fn one_side_at_most(open: bool, tab: SideTab)
    ensures
        ({
            let buttons = side_buttons_of(open, tab);
            &&& !(buttons[0].selected && buttons[1].selected)
            &&& open <==> buttons[0].selected || buttons[1].selected
        }),
{
}

/// A piece of the bar.
#[derive(Clone, Copy, Debug, PartialEq, Eq, Structural)]
pub enum Part {
    NowPlaying,
    Transport,
    Seek,
    Sides,
    /// The volume, with its slider so many pixels wide.
    Volume(u32),
    Fullscreen,
}

/// How wide the volume's slider is.
pub const VOLUME_WIDTH: u32 = 110;

/// How wide the volume's slider is where the bar is stacked.
pub const VOLUME_TIGHT: u32 = 72;

/// The buttons for the sides, where there is room for the panel.
pub open spec fn sides_if(sides: bool) -> Seq<Part> {
    if sides {
        seq![Part::Sides]
    } else {
        Seq::empty()
    }
}

/// The rows of a bar that is stacked, or the columns of one that is not.
pub open spec fn layout_of(stacked: bool, sides: bool) -> Seq<Seq<Part>> {
    if stacked {
        seq![
            seq![Part::NowPlaying, Part::Transport],
            seq![Part::Seek] + sides_if(sides) + seq![Part::Volume(VOLUME_TIGHT), Part::Fullscreen],
        ]
    } else {
        seq![
            seq![Part::NowPlaying],
            seq![Part::Transport, Part::Seek],
            sides_if(sides) + seq![Part::Volume(VOLUME_WIDTH), Part::Fullscreen],
        ]
    }
}

/// Lists as mathematics.
pub open spec fn seen_parts(parts: Seq<Vec<Part>>) -> Seq<Seq<Part>> {
    parts.map_values(|group: Vec<Part>| group@)
}

/// The rows of a bar that is stacked, or the columns of one that is not. A bar is stacked where
/// the window is not roomy.
pub fn layout(roomy: bool, sides: bool) -> (groups: Vec<Vec<Part>>)
    ensures
        seen_parts(groups@) == layout_of(!roomy, sides),
{
    let mut groups: Vec<Vec<Part>> = Vec::new();
    let mut last: Vec<Part> = Vec::new();
    if !roomy {
        let mut first: Vec<Part> = Vec::new();
        first.push(Part::NowPlaying);
        first.push(Part::Transport);
        last.push(Part::Seek);
        if sides {
            last.push(Part::Sides);
        }
        last.push(Part::Volume(VOLUME_TIGHT));
        last.push(Part::Fullscreen);
        assert(first@ =~= layout_of(true, sides)[0]);
        assert(last@ =~= layout_of(true, sides)[1]);
        groups.push(first);
    } else {
        let mut first: Vec<Part> = Vec::new();
        first.push(Part::NowPlaying);
        let mut middle: Vec<Part> = Vec::new();
        middle.push(Part::Transport);
        middle.push(Part::Seek);
        if sides {
            last.push(Part::Sides);
        }
        last.push(Part::Volume(VOLUME_WIDTH));
        last.push(Part::Fullscreen);
        assert(first@ =~= layout_of(false, sides)[0]);
        assert(middle@ =~= layout_of(false, sides)[1]);
        assert(last@ =~= layout_of(false, sides)[2]);
        groups.push(first);
        groups.push(middle);
    }
    groups.push(last);
    assert(seen_parts(groups@) =~= layout_of(!roomy, sides));
    groups
}

/// Whether a track takes a clock with hours.
pub fn long_clock(seconds: u64) -> (yes: bool)
    ensures
        yes == (seconds >= HOUR),
{
    seconds >= HOUR
}

/// What the bar reads of the track that is playing.
#[derive(Clone, Debug, PartialEq, Eq)]
pub struct Playing {
    pub name: String,
    pub album_id: Option<String>,
    pub explicit: bool,
    /// How long it takes, in whole seconds.
    pub seconds: u64,
}

/// What the bar says of the track that is playing.
#[derive(Clone, Debug, PartialEq, Eq)]
pub struct NowPlaying {
    /// The album that the artwork leads to.
    pub artwork_link: Option<String>,
    /// A right click opens the track's menu.
    pub menu: bool,
    /// What is written beside the artwork, where there is room.
    pub caption: Option<Caption>,
}

/// What is written beside the artwork.
#[derive(Clone, Debug, PartialEq, Eq)]
pub struct Caption {
    pub id: &'static str,
    /// The name of the track; without one the bar says that nothing is playing.
    pub name: Option<String>,
    /// The album that the name leads to.
    pub link: Option<String>,
    pub explicit: bool,
    /// The artists stand below.
    pub artists: bool,
}

/// What the bar says of the track that is playing.
pub open spec fn says(shown: NowPlaying, track: Option<Playing>, room: bool) -> bool {
    let album = match track {
        Some(track) => maybe_text(track.album_id),
        None => None,
    };
    &&& maybe_text(shown.artwork_link) == album
    &&& shown.menu == track is Some
    &&& shown.caption is Some <==> room
    &&& shown.caption matches Some(caption) ==> match track {
        Some(track) => {
            &&& caption.id == "now-playing-track"
            &&& maybe_text(caption.name) == Some(track.name@)
            &&& maybe_text(caption.link) == album
            &&& caption.explicit == track.explicit
            &&& caption.artists
        },
        None => {
            &&& caption.id == "now-playing-album"
            &&& caption.name is None
            &&& caption.link is None
            &&& !caption.explicit
            &&& !caption.artists
        },
    }
}

/// What the bar says of the track that is playing.
pub fn now_playing(track: &Option<Playing>, room: bool) -> (shown: NowPlaying)
    ensures
        says(shown, *track, room),
{
    match track {
        Some(track) => NowPlaying {
            artwork_link: copied(&track.album_id),
            menu: true,
            caption: if room {
                Some(
                    Caption {
                        id: "now-playing-track",
                        name: Some(track.name.as_str().to_owned()),
                        link: copied(&track.album_id),
                        explicit: track.explicit,
                        artists: true,
                    },
                )
            } else {
                None
            },
        },
        None => NowPlaying {
            artwork_link: None,
            menu: false,
            caption: if room {
                Some(
                    Caption {
                        id: "now-playing-album",
                        name: None,
                        link: None,
                        explicit: false,
                        artists: false,
                    },
                )
            } else {
                None
            },
        },
    }
}

/// How loud the button beside the volume's slider makes it.
#[derive(Clone, Copy, Debug, PartialEq, Eq)]
pub enum Wanted<P> {
    Silence,
    /// As loud as before it was silenced.
    Back(P),
    /// As loud as is usual, when nothing is known of before.
    Usual,
}

/// The slider of the track, with the points along it that are remembered.
#[derive(Clone, Copy, Debug, PartialEq, Eq)]
pub struct Seek<P> {
    /// Where the slider is being dragged to.
    pub pending: Option<P>,
    /// Where the pointer is over it.
    pub over: Option<P>,
}

impl<P: Copy> Seek<P> {
    /// A slider that nothing touches.
    pub fn new() -> (seek: Self)
        ensures
            seek == (Seek::<P> { pending: None, over: None }),
    {
        Seek { pending: None, over: None }
    }

    /// The slider is dragged.
    pub fn drag(&mut self, at: P)
        ensures
            *final(self) == (Seek { pending: Some(at), ..*old(self) }),
    {
        self.pending = Some(at);
    }

    /// The slider is let go: the player goes to where it was dragged, if it was.
    pub fn commit_seek(&mut self) -> (target: Option<P>)
        ensures
            target == old(self).pending,
            *final(self) == (Seek { pending: None, ..*old(self) }),
    {
        self.pending.take()
    }

    /// How far the slider is: where it is being dragged, or where the player is.
    pub fn progress(&self, played: P) -> (at: P)
        ensures
            at == (match self.pending {
                Some(pending) => pending,
                None => played,
            }),
    {
        match self.pending {
            Some(pending) => pending,
            None => played,
        }
    }

    /// Where the bubble over the slider stands: under the pointer, or else where the slider is
    /// being dragged.
    pub fn bubble(&self) -> (at: Option<P>)
        ensures
            at == (match self.over {
                Some(over) => Some(over),
                None => self.pending,
            }),
    {
        match self.over {
            Some(over) => Some(over),
            None => self.pending,
        }
    }
}

/// The slider of the volume and the button beside it.
#[derive(Clone, Copy, Debug, PartialEq, Eq)]
pub struct Volume<P> {
    pub held: bool,
    /// How loud it was before it was silenced.
    pub muted: Option<P>,
}

/// What the button asks for at a volume that is silent or not, and what is remembered then.
pub open spec fn pressed<P>(volume: Volume<P>, silent: bool, level: P) -> (Volume<P>, Wanted<P>) {
    if silent {
        (
            Volume { muted: None, ..volume },
            match volume.muted {
                Some(before) => Wanted::Back(before),
                None => Wanted::Usual,
            },
        )
    } else {
        (Volume { muted: Some(level), ..volume }, Wanted::Silence)
    }
}

impl<P: Copy> Volume<P> {
    /// A slider that nothing touches.
    pub fn new() -> (volume: Self)
        ensures
            volume == (Volume::<P> { held: false, muted: None }),
    {
        Volume { held: false, muted: None }
    }

    /// The wheel turned the volume, which forgets how loud it was before it was silenced.
    pub fn turn(&mut self)
        ensures
            *final(self) == (Volume { muted: None, ..*old(self) }),
    {
        self.muted = None;
    }

    /// The slider is dragged.
    pub fn drag(&mut self)
        ensures
            *final(self) == (Volume::<P> { held: true, muted: None }),
    {
        self.held = true;
        self.muted = None;
    }

    /// The slider is let go.
    pub fn release(&mut self)
        ensures
            *final(self) == (Volume { held: false, ..*old(self) }),
    {
        self.held = false;
    }

    /// The button is pressed at a volume that is silent or not.
    pub fn press(&mut self, silent: bool, level: P) -> (wanted: Wanted<P>)
        ensures
            (*final(self), wanted) == pressed(*old(self), silent, level),
    {
        if silent {
            match self.muted.take() {
                Some(before) => Wanted::Back(before),
                None => Wanted::Usual,
            }
        } else {
            self.muted = Some(level);
            Wanted::Silence
        }
    }
}

/// Silencing and then pressing again brings back the volume there was, whatever was remembered
/// before.
pub proof fn silence_can_be_undone<P>(volume: Volume<P>, level: P, silence: P)
    ensures
        pressed(volume, false, level).1 == Wanted::<P>::Silence,
        pressed(pressed(volume, false, level).0, true, silence).1 == Wanted::Back(level),
{
}

/// The bar.
#[derive(Clone, Debug, PartialEq, Eq)]
pub struct PlayerBar<P> {
    pub seek: Seek<P>,
    pub volume: Volume<P>,
    /// Where the pointer is over the slider of the volume.
    pub over_volume: Option<P>,
    /// The track whose menu is open. It stays that track's when another one comes to play.
    pub context_menu: Option<Playing>,
}

impl<P: Copy> PlayerBar<P> {
    /// A bar that nothing touches.
    pub fn new() -> (bar: Self)
        ensures
            bar == (PlayerBar::<P> {
                seek: Seek { pending: None, over: None },
                volume: Volume { held: false, muted: None },
                over_volume: None,
                context_menu: None,
            }),
    {
        PlayerBar {
            seek: Seek::new(),
            volume: Volume::new(),
            over_volume: None,
            context_menu: None,
        }
    }

    /// Opens the menu of a track, in place of the one that is open.
    pub fn open_context_menu(&mut self, track: Playing)
        ensures
            *final(self) == (PlayerBar { context_menu: Some(track), ..*old(self) }),
    {
        self.context_menu = Some(track);
    }

    /// Closes the menu.
    pub fn close_context_menu(&mut self)
        ensures
            *final(self) == (PlayerBar { context_menu: None, ..*old(self) }),
    {
        self.context_menu = None;
    }

    /// The pointer is over this point of each slider. Nothing changes before it moved far enough
    /// on one of them. The answer is whether the bar is drawn again.
    pub fn hover(
        &mut self,
        seek: Option<P>,
        volume: Option<P>,
        seek_moved: bool,
        volume_moved: bool,
    ) -> (redraw: bool)
        ensures
            redraw == (seek_moved || volume_moved),
            *final(self) == (if redraw {
                PlayerBar {
                    seek: Seek { over: seek, ..old(self).seek },
                    over_volume: volume,
                    ..*old(self)
                }
            } else {
                *old(self)
            }),
    {
        if seek_moved || volume_moved {
            self.seek.over = seek;
            self.over_volume = volume;
            true
        } else {
            false
        }
    }

    /// Whether there is a bubble over the slider of the volume.
    pub fn volume_bubble(&self) -> (shown: bool)
        ensures
            shown == (self.over_volume is Some || self.volume.held),
    {
        self.over_volume.is_some() || self.volume.held
    }

    /// What the bar shows.
    pub fn render(&self, around: &Around<P>) -> (shown: BarShown<P>)
        ensures
            shows(shown, *self, *around),
    {
        let seconds: u64 = match &around.track {
            Some(track) => track.seconds,
            None => 0,
        };
        BarShown {
            groups: layout(around.roomy, around.wide),
            now: now_playing(&around.track, around.snug),
            sides: if around.wide {
                side_buttons(around.panel_open, around.tab)
            } else {
                Vec::new()
            },
            seekable: around.track.is_some(),
            progress: self.seek.progress(around.played),
            seek_bubble: self.seek.bubble(),
            long_clock: long_clock(seconds),
            volume_bubble: self.volume_bubble(),
            context_menu: self.context_menu.is_some(),
            radius: window_radius(
                around.os,
                around.fullscreen,
                around.server_side,
                around.rounding,
            ),
        }
    }
}

/// What the bar reads of the window, the player and the settings.
#[derive(Clone, Debug, PartialEq, Eq)]
pub struct Around<P> {
    pub track: Option<Playing>,
    /// How far the track is.
    pub played: P,
    /// There is room for the name of the track.
    pub snug: bool,
    /// There is room for everything in one row.
    pub roomy: bool,
    /// There is room for the panel on the right.
    pub wide: bool,
    pub panel_open: bool,
    pub tab: SideTab,
    pub os: Os,
    pub fullscreen: bool,
    pub server_side: bool,
    pub rounding: Option<u32>,
}

/// What the bar shows.
#[derive(Clone, Debug, PartialEq, Eq)]
pub struct BarShown<P> {
    pub groups: Vec<Vec<Part>>,
    pub now: NowPlaying,
    pub sides: Vec<SideButton>,
    /// The slider of the track can be dragged.
    pub seekable: bool,
    pub progress: P,
    pub seek_bubble: Option<P>,
    pub long_clock: bool,
    pub volume_bubble: bool,
    /// The menu of the track it was opened on is up.
    pub context_menu: bool,
    /// How far the lower corners round.
    pub radius: Option<u32>,
}

/// What the bar shows.
pub open spec fn shows<P>(shown: BarShown<P>, bar: PlayerBar<P>, around: Around<P>) -> bool {
    &&& seen_parts(shown.groups@) == layout_of(!around.roomy, around.wide)
    &&& says(shown.now, around.track, around.snug)
    &&& shown.sides@ == (if around.wide {
        side_buttons_of(around.panel_open, around.tab)
    } else {
        Seq::empty()
    })
    &&& shown.seekable == around.track is Some
    &&& shown.progress == (match bar.seek.pending {
        Some(pending) => pending,
        None => around.played,
    })
    &&& shown.seek_bubble == (match bar.seek.over {
        Some(over) => Some(over),
        None => bar.seek.pending,
    })
    &&& shown.long_clock == (around.track matches Some(track) && track.seconds >= HOUR)
    &&& shown.volume_bubble == (bar.over_volume is Some || bar.volume.held)
    &&& shown.context_menu == bar.context_menu is Some
    &&& shown.radius == radius_of(
        around.os,
        around.fullscreen,
        around.server_side,
        around.rounding,
    )
}

/// The hint of the button beside the volume's slider.
pub fn volume_hint(silent: bool) -> (key: &'static str)
    ensures
        key == (if silent {
            "player-unmute"
        } else {
            "player-mute"
        }),
{
    if silent {
        "player-unmute"
    } else {
        "player-mute"
    }
}

/// Every part of the bar stands in it once, the side buttons only where there is room for a side
/// panel. A roomy bar has three groups and a volume 110 wide, a stacked one two rows and 72.
pub proof fn every_part_has_its_place(roomy: bool, sides: bool, groups: Vec<Vec<Part>>)
    requires
        call_ensures(layout, (roomy, sides), groups),
    ensures
        roomy ==> {
            &&& groups@.len() == 3
            &&& groups@[0]@ == seq![Part::NowPlaying]
            &&& groups@[1]@ == seq![Part::Transport, Part::Seek]
            &&& sides ==> groups@[2]@ == seq![Part::Sides, Part::Volume(110), Part::Fullscreen]
            &&& !sides ==> groups@[2]@ == seq![Part::Volume(110), Part::Fullscreen]
        },
        !roomy ==> {
            &&& groups@.len() == 2
            &&& groups@[0]@ == seq![Part::NowPlaying, Part::Transport]
            &&& sides ==> groups@[1]@ == seq![
                Part::Seek,
                Part::Sides,
                Part::Volume(72),
                Part::Fullscreen,
            ]
            &&& !sides ==> groups@[1]@ == seq![Part::Seek, Part::Volume(72), Part::Fullscreen]
        },
{
    let seen = seen_parts(groups@);
    assert(seen.len() == groups@.len());
    assert(seen[0] == groups@[0]@ && seen[1] == groups@[1]@);
    if roomy {
        assert(seen[2] == groups@[2]@);
    }
}

/// Each side button opens its own side and is lit exactly while that side is open.
pub proof fn a_side_button_opens_its_side(open: bool, tab: SideTab)
    ensures
        ({
            let buttons = side_buttons_of(open, tab);
            &&& buttons.len() == 2
            &&& buttons[0].id == "player-lyrics" && buttons[0].press is Lyrics && buttons[0].icon
                == "icons/mic-vocal.svg" && buttons[0].tooltip == "lyrics-title"
            &&& buttons[1].id == "player-queue" && buttons[1].press is Queue && buttons[1].icon
                == "icons/list-music.svg" && buttons[1].tooltip == "queue-title"
            &&& buttons[0].selected <==> open && tab is Lyrics
            &&& buttons[1].selected <==> open && tab is Queue
        }),
{
}

/// What plays is named as it is, leads to its album where it has one, and has a menu; where
/// nothing plays nothing is named and nothing is led to.
pub proof fn what_plays_is_named(shown: NowPlaying, track: Option<Playing>, room: bool)
    requires
        says(shown, track, room),
    ensures
        shown.menu <==> track is Some,
        !room ==> shown.caption is None,
        track matches Some(playing) ==> {
            &&& maybe_text(shown.artwork_link) == maybe_text(playing.album_id)
            &&& room ==> (shown.caption matches Some(caption) && {
                &&& caption.name matches Some(name) && name@ == playing.name@
                &&& maybe_text(caption.link) == maybe_text(playing.album_id)
                &&& caption.explicit == playing.explicit
                &&& caption.artists
                &&& caption.id == "now-playing-track"
            })
        },
        track is None ==> {
            &&& shown.artwork_link is None
            &&& room ==> (shown.caption matches Some(caption) && {
                &&& caption.name is None && caption.link is None
                &&& !caption.explicit && !caption.artists
                &&& caption.id == "now-playing-album"
            })
        },
{
}

/// A press on the volume silences what sounds and remembers how loud it was; a press in silence
/// goes back to that, or to the usual level where nothing is remembered, and forgets it.
pub proof fn a_press_silences_or_restores<P>(volume: Volume<P>, level: P)
    ensures
        pressed(volume, false, level).1 is Silence,
        pressed(volume, false, level).0.muted == Some(level),
        pressed(volume, true, level).0.muted is None,
        volume.muted matches Some(before) ==> pressed(volume, true, level).1 == Wanted::Back(
            before,
        ),
        volume.muted is None ==> pressed(volume, true, level).1 is Usual,
        pressed(volume, false, level).0.held == volume.held,
        pressed(volume, true, level).0.held == volume.held,
{
}

/// What the bar shows of where the track is: what is being dragged counts before what is played,
/// and what the pointer is over before what is being dragged. The clock is long from an hour on.
pub proof fn a_drag_counts_before_what_is_played<P>(
    shown: BarShown<P>,
    bar: PlayerBar<P>,
    around: Around<P>,
)
    requires
        shows(shown, bar, around),
    ensures
        bar.seek.pending matches Some(at) ==> shown.progress == at,
        bar.seek.pending is None ==> shown.progress == around.played,
        bar.seek.over is Some ==> shown.seek_bubble == bar.seek.over,
        bar.seek.over is None ==> shown.seek_bubble == bar.seek.pending,
        shown.seekable <==> around.track is Some,
        around.track matches Some(track) ==> (shown.long_clock <==> track.seconds >= 3600),
        around.track is None ==> !shown.long_clock,
        shown.volume_bubble <==> bar.over_volume is Some || bar.volume.held,
        shown.context_menu <==> bar.context_menu is Some,
        around.wide ==> shown.sides@.len() == 2,
        !around.wide ==> shown.sides@.len() == 0,
{
}

/// What is dragged to is sought once it is let go of, and only once.
pub proof fn a_drag_is_sought_once<P: Copy>(
    seek: &mut Seek<P>,
    at: P,
    done: (),
    after: &mut Seek<P>,
    target: Option<P>,
)
    requires
        call_ensures(Seek::<P>::drag, (seek, at), done),
        call_ensures(Seek::<P>::commit_seek, (after,), target),
        *old(after) == *final(seek),
    ensures
        target == Some(at),
        final(after).pending is None,
        final(after).over == old(seek).over,
{
}

/// The bar is drawn again exactly when the pointer moved over the seek or the volume, and then
/// knows where it is over both.
pub proof fn a_pointer_that_moved_is_followed<P: Copy>(
    bar: &mut PlayerBar<P>,
    seek: Option<P>,
    volume: Option<P>,
    seek_moved: bool,
    volume_moved: bool,
    redraw: bool,
)
    requires
        call_ensures(PlayerBar::<P>::hover, (bar, seek, volume, seek_moved, volume_moved), redraw),
    ensures
        redraw <==> seek_moved || volume_moved,
        redraw ==> final(bar).seek.over == seek && final(bar).over_volume == volume,
        !redraw ==> *final(bar) == *old(bar),
        final(bar).seek.pending == old(bar).seek.pending,
        final(bar).volume == old(bar).volume,
        final(bar).context_menu == old(bar).context_menu,
{
}

/// Turning the volume forgets the level before silence, and dragging it holds it until it is let
/// go of.
pub proof fn turning_the_volume_forgets<P: Copy>(
    volume: &mut Volume<P>,
    done: (),
    after: &mut Volume<P>,
    released: (),
)
    requires
        call_ensures(Volume::<P>::drag, (volume,), done),
        call_ensures(Volume::<P>::release, (after,), released),
        *old(after) == *final(volume),
    ensures
        final(volume).held && final(volume).muted is None,
        !final(after).held && final(after).muted is None,
{
}

/// The hint of the volume says what a press does.
pub proof fn the_hint_says_what_a_press_does(silent: bool, key: &'static str)
    requires
        call_ensures(volume_hint, (silent,), key),
    ensures
        silent ==> key == "player-unmute",
        !silent ==> key == "player-mute",
{
}

} // verus!
