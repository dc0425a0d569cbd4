//! The buttons that play, skip, shuffle and repeat.

use vstd::prelude::*;

verus! {

/// What is played again once a track is over.
#[derive(Clone, Copy, Debug, PartialEq, Eq, Structural)]
pub enum Repeat {
    Off,
    All,
    One,
}

/// What the player is doing with its track.
#[derive(Clone, Copy, Debug, PartialEq, Eq, Structural)]
pub enum PlaybackState {
    Playing,
    /// The track is on its way, and plays once it is there.
    Loading,
    /// Anything else, in which no sound is made.
    Silent,
}

/// Sound is made, or about to be.
pub open spec fn is_sounding(state: PlaybackState) -> bool {
    state == PlaybackState::Playing || state == PlaybackState::Loading
}

impl PlaybackState {
    /// Whether a track plays. One that is still loading does not.
    pub fn plays(self) -> (yes: bool)
        ensures
            yes == (self == PlaybackState::Playing),
    {
        self == PlaybackState::Playing
    }

    /// Whether sound is made, or about to be.
    pub fn sounds(self) -> (yes: bool)
        ensures
            yes == is_sounding(self),
    {
        self == PlaybackState::Playing || self == PlaybackState::Loading
    }
}

/// The colour a button is drawn in.
#[derive(Clone, Copy, Debug, PartialEq, Eq, Structural)]
pub enum Tint {
    Plain,
    Muted,
    Accent,
}

/// A button of the player.
#[derive(Clone, Copy, Debug, PartialEq, Eq)]
pub struct Control {
    pub id: &'static str,
    pub icon: &'static str,
    pub tooltip: &'static str,
    pub tint: Tint,
    pub disabled: bool,
}

/// The accent colour for what is on.
pub open spec fn tint_of(on: bool) -> Tint {
    if on {
        Tint::Accent
    } else {
        Tint::Muted
    }
}

/// The accent colour for what is on.
fn tint(on: bool) -> (tint: Tint)
    ensures
        tint == tint_of(on),
{
    if on {
        Tint::Accent
    } else {
        Tint::Muted
    }
}

/// The button that keeps a track in the library.
pub open spec fn like_of(saved: bool, known: bool) -> Control {
    Control {
        id: "toggle-liked-track",
        icon: if saved && known {
            "icons/heart-filled.svg"
        } else {
            "icons/heart.svg"
        },
        tooltip: if saved && known {
            "menu-remove-from-library"
        } else {
            "menu-add-to-library"
        },
        tint: tint_of(saved && known),
        disabled: !known,
    }
}

/// The button that keeps a track in the library. Without the track's id nothing is known to be
/// saved, and the button does nothing.
pub fn like(saved: bool, known: bool) -> (button: Control)
    ensures
        button == like_of(saved, known),
{
    let saved = saved && known;
    Control {
        id: "toggle-liked-track",
        icon: if saved {
            "icons/heart-filled.svg"
        } else {
            "icons/heart.svg"
        },
        tooltip: if saved {
            "menu-remove-from-library"
        } else {
            "menu-add-to-library"
        },
        tint: tint(saved),
        disabled: !known,
    }
}

/// The button that plays and pauses. Only a track that plays can be paused: one that is loading
/// is offered to be played.
pub open spec fn toggle_of(state: PlaybackState, idle: bool) -> Control {
    if state == PlaybackState::Playing {
        Control {
            id: "pause",
            icon: "icons/pause.svg",
            tooltip: "play-pause",
            tint: Tint::Plain,
            disabled: idle,
        }
    } else {
        Control {
            id: "play",
            icon: "icons/play.svg",
            tooltip: "play-resume",
            tint: Tint::Plain,
            disabled: idle,
        }
    }
}

/// The button that plays and pauses. It does nothing without a track.
pub fn toggle(state: PlaybackState, idle: bool) -> (button: Control)
    ensures
        button == toggle_of(state, idle),
{
    if state.plays() {
        Control {
            id: "pause",
            icon: "icons/pause.svg",
            tooltip: "play-pause",
            tint: Tint::Plain,
            disabled: idle,
        }
    } else {
        Control {
            id: "play",
            icon: "icons/play.svg",
            tooltip: "play-resume",
            tint: Tint::Plain,
            disabled: idle,
        }
    }
}

/// The button that shuffles the queue.
pub open spec fn shuffle_of(on: bool) -> Control {
    Control {
        id: "shuffle",
        icon: "icons/shuffle.svg",
        tooltip: "player-shuffle",
        tint: tint_of(on),
        disabled: false,
    }
}

/// The button that shuffles the queue.
pub fn shuffle(on: bool) -> (button: Control)
    ensures
        button == shuffle_of(on),
{
    Control {
        id: "shuffle",
        icon: "icons/shuffle.svg",
        tooltip: "player-shuffle",
        tint: tint(on),
        disabled: false,
    }
}

/// The button that goes through the ways to repeat.
pub open spec fn repeat_of(mode: Repeat) -> Control {
    Control {
        id: "repeat",
        icon: if mode == Repeat::One {
            "icons/repeat-one.svg"
        } else {
            "icons/repeat.svg"
        },
        tooltip: match mode {
            Repeat::Off => "player-repeat",
            Repeat::All => "player-repeat-all",
            Repeat::One => "player-repeat-one",
        },
        tint: tint_of(mode != Repeat::Off),
        disabled: false,
    }
}

/// The button that goes through the ways to repeat.
pub fn repeat(mode: Repeat) -> (button: Control)
    ensures
        button == repeat_of(mode),
{
    Control {
        id: "repeat",
        icon: if mode == Repeat::One {
            "icons/repeat-one.svg"
        } else {
            "icons/repeat.svg"
        },
        tooltip: match mode {
            Repeat::Off => "player-repeat",
            Repeat::All => "player-repeat-all",
            Repeat::One => "player-repeat-one",
        },
        tint: tint(mode != Repeat::Off),
        disabled: false,
    }
}

/// The button that goes back a few seconds.
pub open spec fn seek_back_of(idle: bool) -> Control {
    Control {
        id: "seek-back",
        icon: "icons/rotate-ccw.svg",
        tooltip: "player-seek-back",
        tint: Tint::Plain,
        disabled: idle,
    }
}

/// The button that goes on a few seconds.
pub open spec fn seek_forward_of(idle: bool) -> Control {
    Control {
        id: "seek-forward",
        icon: "icons/rotate-cw.svg",
        tooltip: "player-seek-forward",
        tint: Tint::Plain,
        disabled: idle,
    }
}

/// The button that goes to the track before.
pub open spec fn previous_of(enabled: bool) -> Control {
    Control {
        id: "previous",
        icon: "icons/skip-back.svg",
        tooltip: "player-previous",
        tint: Tint::Plain,
        disabled: !enabled,
    }
}

/// The button that goes to the next track.
pub open spec fn next_of(enabled: bool) -> Control {
    Control {
        id: "next",
        icon: "icons/skip-forward.svg",
        tooltip: "player-next",
        tint: Tint::Plain,
        disabled: !enabled,
    }
}

/// What the player is up to.
#[derive(Clone, Copy, Debug, PartialEq, Eq, Structural)]
pub struct Player {
    pub state: PlaybackState,
    /// There is no track.
    pub idle: bool,
    pub shuffled: bool,
    pub repeat: Repeat,
    pub has_previous: bool,
    pub has_next: bool,
}

/// The buttons in a row.
pub open spec fn transport_of(player: Player) -> Seq<Control> {
    seq![
        shuffle_of(player.shuffled),
        previous_of(player.has_previous),
        seek_back_of(player.idle),
        toggle_of(player.state, player.idle),
        seek_forward_of(player.idle),
        next_of(player.has_next),
        repeat_of(player.repeat),
    ]
}

/// The buttons in a row.
pub fn transport(player: Player) -> (buttons: Vec<Control>)
    ensures
        buttons@ == transport_of(player),
{
    let mut buttons: Vec<Control> = Vec::new();
    buttons.push(shuffle(player.shuffled));
    buttons.push(
        Control {
            id: "previous",
            icon: "icons/skip-back.svg",
            tooltip: "player-previous",
            tint: Tint::Plain,
            disabled: !player.has_previous,
        },
    );
    buttons.push(
        Control {
            id: "seek-back",
            icon: "icons/rotate-ccw.svg",
            tooltip: "player-seek-back",
            tint: Tint::Plain,
            disabled: player.idle,
        },
    );
    buttons.push(toggle(player.state, player.idle));
    buttons.push(
        Control {
            id: "seek-forward",
            icon: "icons/rotate-cw.svg",
            tooltip: "player-seek-forward",
            tint: Tint::Plain,
            disabled: player.idle,
        },
    );
    buttons.push(
        Control {
            id: "next",
            icon: "icons/skip-forward.svg",
            tooltip: "player-next",
            tint: Tint::Plain,
            disabled: !player.has_next,
        },
    );
    buttons.push(repeat(player.repeat));
    assert(buttons@ =~= transport_of(player));
    buttons
}

/// Whatever the player is up to, the button that plays stands in the middle, and without a track
/// neither it nor the ones beside it do anything.
pub proof fn playing_stands_in_the_middle(player: Player)
    ensures
        ({
            let row = transport_of(player);
            &&& row.len() == 7
            &&& row[3] == toggle_of(player.state, player.idle)
            &&& player.idle ==> row[2].disabled && row[3].disabled && row[4].disabled
        }),
{
}

/// The row of buttons, from shuffling to repeating: those that seek or play are disabled exactly
/// when nothing is loaded, those that skip exactly when there is nothing to skip to, and the
/// others never.
pub proof fn the_row_knows_what_it_can_do(player: Player)
    ensures
        ({
            let row = transport_of(player);
            &&& row.len() == 7
            &&& row[0].id == "shuffle" && row[1].id == "previous" && row[2].id == "seek-back"
            &&& row[4].id == "seek-forward" && row[5].id == "next" && row[6].id == "repeat"
            &&& row[1].disabled <==> !player.has_previous
            &&& row[5].disabled <==> !player.has_next
            &&& row[2].disabled <==> player.idle
            &&& row[3].disabled <==> player.idle
            &&& row[4].disabled <==> player.idle
            &&& !row[0].disabled && !row[6].disabled
            &&& player.state is Playing ==> row[3].id == "pause" && row[3].icon
                == "icons/pause.svg" && row[3].tooltip == "play-pause"
            &&& !(player.state is Playing) ==> row[3].id == "play" && row[3].icon
                == "icons/play.svg" && row[3].tooltip == "play-resume"
            &&& row[1].icon == "icons/skip-back.svg" && row[1].tooltip == "player-previous"
            &&& row[5].icon == "icons/skip-forward.svg" && row[5].tooltip == "player-next"
            &&& row[2].icon == "icons/rotate-ccw.svg" && row[2].tooltip == "player-seek-back"
            &&& row[4].icon == "icons/rotate-cw.svg" && row[4].tooltip == "player-seek-forward"
        }),
{
}

/// A button is lit exactly when what it switches is on: shuffling, either way of repeating, and a
/// track that the library knows and holds.
pub proof fn a_button_is_lit_when_it_is_on(player: Player, saved: bool, known: bool)
    ensures
        transport_of(player)[0].tint is Accent <==> player.shuffled,
        transport_of(player)[0].tint is Muted <==> !player.shuffled,
        transport_of(player)[6].tint is Accent <==> !(player.repeat is Off),
        transport_of(player)[6].tint is Muted <==> player.repeat is Off,
        player.repeat is One ==> transport_of(player)[6].icon == "icons/repeat-one.svg",
        !(player.repeat is One) ==> transport_of(player)[6].icon == "icons/repeat.svg",
        player.repeat is Off ==> transport_of(player)[6].tooltip == "player-repeat",
        player.repeat is All ==> transport_of(player)[6].tooltip == "player-repeat-all",
        player.repeat is One ==> transport_of(player)[6].tooltip == "player-repeat-one",
        like_of(saved, known).tint is Accent <==> saved && known,
        like_of(saved, known).tint is Muted <==> !(saved && known),
        like_of(saved, known).disabled <==> !known,
        saved && known ==> like_of(saved, known).icon == "icons/heart-filled.svg" && like_of(
            saved,
            known,
        ).tooltip == "menu-remove-from-library",
        !(saved && known) ==> like_of(saved, known).icon == "icons/heart.svg" && like_of(
            saved,
            known,
        ).tooltip == "menu-add-to-library",
{
}

/// Sound is made, or about to be, while a track plays or loads.
pub proof fn a_track_sounds_or_is_silent(state: PlaybackState)
    ensures
        is_sounding(state) <==> !(state is Silent),
{
}

} // verus!
