//! The player over the whole window: when its controls rest, and what it shows.
//!
//! Times are milliseconds of a clock that never runs back.

use vstd::prelude::*;

use super::player_bar::{Seek, SideTab, Volume};
use super::transport::{is_sounding, PlaybackState};
use crate::text::{copied, maybe_text, same_maybe, starts_with};

verus! {

/// How long nothing moves before the controls rest.
pub const REST: u64 = 1500;

/// How soon after a stir another one does nothing.
pub const WAKE_DEBOUNCE: u64 = 400;

/// What the pointer is over.
#[derive(Clone, Copy, Debug, PartialEq, Eq, Structural)]
pub struct Hovered {
    pub volume: bool,
    pub zone: bool,
    pub panel: bool,
    pub pill: bool,
    pub transport: bool,
    pub leave: bool,
}

/// The pointer is over nothing.
pub open spec fn over_nothing() -> Hovered {
    Hovered {
        volume: false,
        zone: false,
        panel: false,
        pill: false,
        transport: false,
        leave: false,
    }
}

impl Hovered {
    /// The pointer is over nothing.
    pub fn nothing() -> (over: Self)
        ensures
            over == over_nothing(),
    {
        Hovered {
            volume: false,
            zone: false,
            panel: false,
            pill: false,
            transport: false,
            leave: false,
        }
    }
}

/// When the controls show.
#[derive(Clone, Copy, Debug, PartialEq, Eq, Structural)]
pub enum Autohide {
    Automatic,
    AlwaysShown,
    AlwaysHidden,
}

/// What came of waiting for the pointer to rest.
#[derive(Clone, Copy, Debug, PartialEq, Eq, Structural)]
pub enum Rested {
    /// Something moved meanwhile, and another wait is on its way.
    Moved,
    /// Something holds the controls up: the wait starts over.
    Held,
    /// The controls and the cursor go.
    Asleep,
}

/// The player over the whole window.
#[derive(Clone, Copy, Debug, PartialEq, Eq)]
pub struct FullscreenView<P> {
    pub panel: Option<SideTab>,
    pub seek: Seek<P>,
    pub volume: Volume<P>,
    pub over: Hovered,
    /// The menu of the track is open.
    pub menu: bool,
    pub last_moved: u64,
    /// The pointer is over the window.
    pub inside: bool,
    pub awake: bool,
}

/// So much time lies between two moments, which is none where the later one comes first.
pub open spec fn between(earlier: u64, later: u64) -> int {
    if later < earlier {
        0
    } else {
        later - earlier
    }
}

/// How much time lies between two moments.
fn elapsed(earlier: u64, later: u64) -> (span: u64)
    ensures
        span == between(earlier, later),
{
    if later < earlier {
        0
    } else {
        later - earlier
    }
}

/// The pointer is over something that should hold the controls up. Whether it is over the
/// scrollbar of the panel counts only where there is a panel.
pub open spec fn parked<P>(view: FullscreenView<P>, scrollbar: bool) -> bool {
    ||| view.over.volume
    ||| view.over.zone
    ||| view.over.panel
    ||| view.over.pill
    ||| view.over.transport
    ||| view.over.leave
    ||| view.seek.over is Some
    ||| view.panel is Some && scrollbar
}

/// Something holds the controls up. What the pointer is over counts only while the pointer is over
/// the window: a flag still set from when it left must not keep the controls up.
pub open spec fn is_busy<P>(view: FullscreenView<P>, scrollbar: bool) -> bool {
    ||| view.inside && parked(view, scrollbar)
    ||| view.volume.held
    ||| view.seek.pending is Some
    ||| view.menu
}

/// The view once something stirred it: it is awake, and the wait starts over.
pub open spec fn stirred<P>(view: FullscreenView<P>, now: u64) -> FullscreenView<P> {
    FullscreenView { awake: true, last_moved: now, ..view }
}

/// The view once something touched it, which counts only a while after the last time.
pub open spec fn poked<P>(view: FullscreenView<P>, now: u64) -> FullscreenView<P> {
    if view.awake && between(view.last_moved, now) < WAKE_DEBOUNCE {
        view
    } else {
        stirred(view, now)
    }
}

/// What comes of a wait that is over, and the view then.
pub open spec fn rested_of<P>(view: FullscreenView<P>, now: u64, scrollbar: bool) -> (
    FullscreenView<P>,
    Rested,
) {
    if between(view.last_moved, now) < REST {
        (view, Rested::Moved)
    } else if is_busy(view, scrollbar) {
        (stirred(view, now), Rested::Held)
    } else {
        (FullscreenView { awake: false, ..view }, Rested::Asleep)
    }
}

impl<P: Copy> FullscreenView<P> {
    /// The view as it comes up: awake, with the lyrics beside the artwork.
    pub fn new(now: u64) -> (view: Self)
        ensures
            view == (FullscreenView::<P> {
                panel: Some(SideTab::Lyrics),
                seek: Seek { pending: None, over: None },
                volume: Volume { held: false, muted: None },
                over: over_nothing(),
                menu: false,
                last_moved: now,
                inside: true,
                awake: true,
            }),
    {
        FullscreenView {
            panel: Some(SideTab::Lyrics),
            seek: Seek::new(),
            volume: Volume::new(),
            over: Hovered::nothing(),
            menu: false,
            last_moved: now,
            inside: true,
            awake: true,
        }
    }

    /// Something stirs the view. The answer is whether it wakes up, so that it is drawn again.
    pub fn stir(&mut self, now: u64) -> (woken: bool)
        ensures
            *final(self) == stirred(*old(self), now),
            woken == !old(self).awake,
    {
        let woken = !self.awake;
        self.awake = true;
        self.last_moved = now;
        woken
    }

    /// Shows the lyrics, the queue or the artwork alone.
    pub fn show(&mut self, panel: Option<SideTab>, now: u64)
        ensures
            *final(self) == stirred(FullscreenView { panel, ..*old(self) }, now),
    {
        self.panel = panel;
        self.stir(now);
    }

    /// Something touches the view: a click, a key, the wheel.
    pub fn poke(&mut self, now: u64)
        ensures
            *final(self) == poked(*old(self), now),
    {
        if self.awake && elapsed(self.last_moved, now) < WAKE_DEBOUNCE {
            return;
        }
        self.stir(now);
    }

    /// The pointer moves, over this point of the slider of the track. The answer is whether it
    /// moved far enough along it to be drawn again.
    pub fn hover(&mut self, seek: Option<P>, moved: bool, now: u64) -> (redraw: bool)
        ensures
            redraw == moved,
            *final(self) == poked(
                if moved {
                    FullscreenView { seek: Seek { over: seek, ..old(self).seek }, ..*old(self) }
                } else {
                    *old(self)
                },
                now,
            ),
    {
        if moved {
            self.seek.over = seek;
        }
        self.poke(now);
        moved
    }

    /// The pointer comes over the pill or leaves it. Coming over it touches the view.
    pub fn hover_pill(&mut self, hovering: bool, now: u64)
        ensures
            *final(self) == ({
                let over = FullscreenView {
                    over: Hovered { pill: hovering, ..old(self).over },
                    ..*old(self)
                };
                if hovering {
                    poked(over, now)
                } else {
                    over
                }
            }),
    {
        self.over.pill = hovering;
        if hovering {
            self.poke(now);
        }
    }

    /// Whether anything holds the controls up.
    pub fn busy(&self, scrollbar: bool) -> (yes: bool)
        ensures
            yes == is_busy(*self, scrollbar),
    {
        let parked = self.over.volume || self.over.zone || self.over.panel || self.over.pill
            || self.over.transport || self.over.leave || self.seek.over.is_some() || (
        self.panel.is_some() && scrollbar);
        (self.inside && parked) || self.volume.held || self.seek.pending.is_some() || self.menu
    }

    /// Follows the pointer in and out of the window. A flag for what the pointer is over clears on
    /// an event the pointer has to be present for, so the ones still set when it leaves the window
    /// are dropped here. Leaving also stirs the view.
    pub fn watch(&mut self, inside: bool, now: u64)
        ensures
            *final(self) == (if inside == old(self).inside {
                *old(self)
            } else if inside {
                FullscreenView { inside, ..*old(self) }
            } else {
                stirred(
                    FullscreenView {
                        inside,
                        seek: Seek { over: None, ..old(self).seek },
                        over: over_nothing(),
                        ..*old(self)
                    },
                    now,
                )
            }),
    {
        if inside == self.inside {
            return;
        }
        self.inside = inside;
        if !inside {
            self.seek.over = None;
            self.over = Hovered::nothing();
            self.stir(now);
        }
    }

    /// A wait for the pointer to rest is over.
    pub fn rested(&mut self, now: u64, scrollbar: bool) -> (rested: Rested)
        ensures
            (*final(self), rested) == rested_of(*old(self), now, scrollbar),
    {
        if elapsed(self.last_moved, now) < REST {
            return Rested::Moved;
        }
        if self.busy(scrollbar) {
            self.stir(now);
            return Rested::Held;
        }
        self.awake = false;
        Rested::Asleep
    }

    /// Whether the slider of the volume is up.
    pub fn volume_open(&self) -> (open: bool)
        ensures
            open == (self.over.volume || self.over.zone || self.over.panel || self.volume.held),
    {
        self.over.volume || self.over.zone || self.over.panel || self.volume.held
    }

    /// Whether there is a bubble over the slider of the volume.
    pub fn volume_bubble(&self) -> (shown: bool)
        ensures
            shown == (self.over.panel || self.volume.held),
    {
        self.over.panel || self.volume.held
    }

    /// What the window shows.
    pub fn render(&self, scene: Scene) -> (shown: Shown)
        ensures
            shown == shown_of(self.panel is Some, scene),
    {
        let panel = self.panel.is_some();
        let split = scene.wide && panel;
        let staged = !panel || split;
        let controls = match scene.autohide {
            Autohide::Automatic => !scene.sunk,
            Autohide::AlwaysShown => true,
            Autohide::AlwaysHidden => false,
        };
        let starry = staged && scene.stage_on;
        let visualizer = !panel && scene.visualizer_on;
        Shown {
            split,
            staged,
            starry,
            visualizer,
            spectrum: visualizer || starry,
            stage_runs: starry && scene.animates && scene.stage_moving,
            veil: visualizer && controls && scene.effects,
            panel,
            floating_pill: panel && controls,
            inline_pill: !panel,
            strip: !split && panel,
            inner_dock: split,
            outer_dock: !split,
            controls,
            leave: !scene.sunk,
        }
    }
}

/// With the pointer outside the window and nothing held, nothing keeps the controls up, whatever
/// the pointer was over when it left.
pub proof fn a_pointer_outside_holds_nothing<P>(view: FullscreenView<P>, scrollbar: bool)
    requires
        !view.inside,
        !view.volume.held,
        view.seek.pending is None,
        !view.menu,
    ensures
        !is_busy(view, scrollbar),
{
}

/// The controls rest only after nothing moved for as long as that takes and nothing holds them
/// up; whatever else comes of a wait leaves the view as awake as it was, or wakes it.
pub proof fn rest_takes_its_time<P>(view: FullscreenView<P>, now: u64, scrollbar: bool)
    ensures
        ({
            let (after, rested) = rested_of(view, now, scrollbar);
            &&& rested == Rested::Asleep <==> view.last_moved + REST <= now && !is_busy(
                view,
                scrollbar,
            )
            &&& rested == Rested::Asleep ==> !after.awake
            &&& rested != Rested::Asleep && view.awake ==> after.awake
        }),
{
}

/// Touching the view always leaves it awake, and touching it again right away changes nothing.
pub proof fn a_touch_wakes<P>(view: FullscreenView<P>, now: u64)
    ensures
        poked(view, now).awake,
        poked(poked(view, now), now) == poked(view, now),
{
}

/// What the window reads of the machine and the settings.
#[derive(Clone, Copy, Debug, PartialEq, Eq, Structural)]
pub struct Scene {
    pub wide: bool,
    pub autohide: Autohide,
    /// The view has sunk all the way to rest.
    pub sunk: bool,
    /// The settings ask for a stage around the artwork.
    pub stage_on: bool,
    /// The settings ask for a visualizer.
    pub visualizer_on: bool,
    pub animates: bool,
    /// Something on the stage moves.
    pub stage_moving: bool,
    pub effects: bool,
}

/// What the window shows.
#[derive(Clone, Copy, Debug, PartialEq, Eq, Structural)]
pub struct Shown {
    /// The artwork and the panel stand side by side.
    pub split: bool,
    /// The artwork stands large, with the title below it.
    pub staged: bool,
    pub starry: bool,
    pub visualizer: bool,
    /// The spectrum of the sound is followed.
    pub spectrum: bool,
    /// The stage asks for frames of its own.
    pub stage_runs: bool,
    /// The band that blurs the visualizer under the controls.
    pub veil: bool,
    pub panel: bool,
    /// The tabs float over the panel.
    pub floating_pill: bool,
    /// The tabs stand with the controls.
    pub inline_pill: bool,
    /// The track is told in one row.
    pub strip: bool,
    /// The controls stand below the artwork.
    pub inner_dock: bool,
    /// The controls stand below everything.
    pub outer_dock: bool,
    pub controls: bool,
    /// The button that leaves.
    pub leave: bool,
}

/// What the window shows, with a panel or without one.
pub open spec fn shown_of(panel: bool, scene: Scene) -> Shown {
    let split = scene.wide && panel;
    let staged = !panel || split;
    let controls = match scene.autohide {
        Autohide::Automatic => !scene.sunk,
        Autohide::AlwaysShown => true,
        Autohide::AlwaysHidden => false,
    };
    let starry = staged && scene.stage_on;
    let visualizer = !panel && scene.visualizer_on;
    Shown {
        split,
        staged,
        starry,
        visualizer,
        spectrum: visualizer || starry,
        stage_runs: starry && scene.animates && scene.stage_moving,
        veil: visualizer && controls && scene.effects,
        panel,
        floating_pill: panel && controls,
        inline_pill: !panel,
        strip: !split && panel,
        inner_dock: split,
        outer_dock: !split,
        controls,
        leave: !scene.sunk,
    }
}

/// Whatever the window and the settings are, the track is told in exactly one place, the controls
/// have exactly one place, and so have the tabs; and as long as the view is not at rest it can be
/// left, also when the controls stay hidden.
pub proof fn everything_has_one_place(panel: bool, scene: Scene)
    ensures
        ({
            let shown = shown_of(panel, scene);
            &&& shown.staged != shown.strip
            &&& shown.inner_dock != shown.outer_dock
            &&& !(shown.floating_pill && shown.inline_pill)
            &&& !scene.sunk ==> shown.leave
        }),
{
}

/// A tab of the view.
#[derive(Clone, Copy, Debug, PartialEq, Eq)]
pub struct Tab {
    pub id: &'static str,
    pub icon: &'static str,
    pub tooltip: &'static str,
    pub panel: Option<SideTab>,
    pub selected: bool,
}

/// The tabs of the view: the artwork alone, the lyrics and the queue.
pub open spec fn pill_of(panel: Option<SideTab>) -> Seq<Tab> {
    seq![
        Tab {
            id: "fullscreen-artwork-tab",
            icon: "icons/disc-3.svg",
            tooltip: "fullscreen-artwork",
            panel: None,
            selected: panel is None,
        },
        Tab {
            id: "fullscreen-lyrics",
            icon: "icons/mic-vocal.svg",
            tooltip: "lyrics-title",
            panel: Some(SideTab::Lyrics),
            selected: panel == Some(SideTab::Lyrics),
        },
        Tab {
            id: "fullscreen-queue",
            icon: "icons/list-music.svg",
            tooltip: "queue-title",
            panel: Some(SideTab::Queue),
            selected: panel == Some(SideTab::Queue),
        },
    ]
}

/// The tabs of the view: the artwork alone, the lyrics and the queue.
pub fn pill(panel: Option<SideTab>) -> (tabs: Vec<Tab>)
    ensures
        tabs@ == pill_of(panel),
{
    let (alone, lyrics, queue) = match panel {
        None => (true, false, false),
        Some(SideTab::Lyrics) => (false, true, false),
        Some(SideTab::Queue) => (false, false, true),
    };
    let mut tabs: Vec<Tab> = Vec::new();
    tabs.push(
        Tab {
            id: "fullscreen-artwork-tab",
            icon: "icons/disc-3.svg",
            tooltip: "fullscreen-artwork",
            panel: None,
            selected: alone,
        },
    );
    tabs.push(
        Tab {
            id: "fullscreen-lyrics",
            icon: "icons/mic-vocal.svg",
            tooltip: "lyrics-title",
            panel: Some(SideTab::Lyrics),
            selected: lyrics,
        },
    );
    tabs.push(
        Tab {
            id: "fullscreen-queue",
            icon: "icons/list-music.svg",
            tooltip: "queue-title",
            panel: Some(SideTab::Queue),
            selected: queue,
        },
    );
    assert(tabs@ =~= pill_of(panel));
    tabs
}

/// Exactly one of the tabs is the one shown.
pub proof fn one_tab_is_shown(panel: Option<SideTab>)
    ensures
        exists|i: int| 0 <= i < pill_of(panel).len() && (#[trigger] pill_of(panel)[i]).selected,
        forall|i: int, j: int|
            0 <= i < j < pill_of(panel).len() ==> !((#[trigger] pill_of(panel)[i]).selected && (
            #[trigger] pill_of(panel)[j]).selected),
        forall|i: int|
            0 <= i < pill_of(panel).len() ==> (#[trigger] pill_of(panel)[i]).selected == (pill_of(
                panel,
            )[i].panel == panel),
{
    let tabs = pill_of(panel);
    match panel {
        None => assert(tabs[0].selected),
        Some(SideTab::Lyrics) => assert(tabs[1].selected),
        Some(SideTab::Queue) => assert(tabs[2].selected),
    }
}

/// The large cover that is laid over the small one, and how often it changed.
#[derive(Clone, Debug, PartialEq, Eq)]
pub struct LargeCover {
    pub large: Option<String>,
    pub revision: u64,
}

/// What the view reads of the artwork of a track.
#[derive(Clone, Debug, PartialEq, Eq)]
pub struct Sleeve {
    pub small: Option<String>,
    pub large: Option<String>,
    /// The track lies among the machine's own files.
    pub local_id: bool,
    /// The album of the track, by its id.
    pub album: Option<String>,
}

/// The large cover that is laid over the small one: none that is the small one again.
pub open spec fn laid_over(sleeve: Sleeve) -> Option<Seq<char>> {
    if maybe_text(sleeve.large) == maybe_text(sleeve.small) {
        None
    } else {
        maybe_text(sleeve.large)
    }
}

/// The track is one of the machine's own.
pub open spec fn is_local(sleeve: Sleeve) -> bool {
    sleeve.local_id || match sleeve.small {
        Some(url) => "file://"@.is_prefix_of(url@),
        None => false,
    }
}

/// A large cover is still to come.
pub open spec fn is_waiting(sleeve: Sleeve) -> bool {
    !is_local(sleeve) && sleeve.album is Some && sleeve.large is None
}

impl LargeCover {
    /// No large cover yet.
    pub fn new() -> (cover: Self)
        ensures
            cover.large is None,
            cover.revision == 0,
    {
        LargeCover { large: None, revision: 0 }
    }

    /// Follows the artwork of the track. A change of the large cover makes a new revision, so
    /// that it fades in. The answer is whether a large cover is still to come.
    pub fn artwork(&mut self, sleeve: &Sleeve) -> (waiting: bool)
        requires
            old(self).revision < u64::MAX,
        ensures
            maybe_text(final(self).large) == laid_over(*sleeve),
            final(self).revision == old(self).revision + (if maybe_text(old(self).large)
                == laid_over(*sleeve) {
                0int
            } else {
                1
            }),
            waiting == is_waiting(*sleeve),
    {
        let large = over_small(sleeve);
        if !same_maybe(&self.large, &large) {
            self.large = large;
            self.revision = self.revision + 1;
        }
        waits(sleeve)
    }
}

/// The large cover that is laid over the small one.
fn over_small(sleeve: &Sleeve) -> (large: Option<String>)
    ensures
        maybe_text(large) == laid_over(*sleeve),
{
    if same_maybe(&sleeve.large, &sleeve.small) {
        None
    } else {
        copied(&sleeve.large)
    }
}

/// Whether a large cover is still to come.
fn waits(sleeve: &Sleeve) -> (yes: bool)
    ensures
        yes == is_waiting(*sleeve),
{
    let local = sleeve.local_id || match &sleeve.small {
        Some(url) => starts_with(url.as_str(), "file://"),
        None => false,
    };
    !local && sleeve.album.is_some() && sleeve.large.is_none()
}

/// What is drawn where the artwork stands.
#[derive(Clone, Debug, PartialEq, Eq)]
pub enum Drawn {
    /// The stage, with this cover on it, drawn softly while a larger one is to come.
    Stage { cover: Option<String>, soft: bool },
    /// The cover itself, and the large one that fades in over it.
    Plain { cover: Option<String>, soft: bool, over: Option<String> },
}

/// How what moves on the stage stands.
#[derive(Clone, Copy, Debug, PartialEq, Eq, Structural)]
pub enum Stance {
    /// It goes by the clocks of the stage.
    Moving,
    /// It rests, with the field of particles there or not.
    Resting { present: bool },
}

/// What the artwork comes down to.
#[derive(Clone, Debug, PartialEq, Eq)]
pub struct ArtworkPlan {
    pub drawn: Drawn,
    /// The album that a click opens.
    pub opens: Option<String>,
    pub stance: Stance,
}

/// What is drawn is this. The stage takes the small cover alone.
pub open spec fn draws(drawn: Drawn, staged: bool, sleeve: Sleeve) -> bool {
    match drawn {
        Drawn::Stage { cover, soft } => {
            &&& staged
            &&& maybe_text(cover) == maybe_text(sleeve.small)
            &&& soft == is_waiting(sleeve)
        },
        Drawn::Plain { cover, soft, over } => {
            &&& !staged
            &&& maybe_text(cover) == maybe_text(sleeve.small)
            &&& soft == is_waiting(sleeve)
            &&& maybe_text(over) == laid_over(sleeve)
        },
    }
}

/// How what moves on the stage stands: by its clocks only where the stage is shown and things may
/// move. At rest the particles are there while there is sound.
pub open spec fn stance_of(staged: bool, animates: bool, state: PlaybackState) -> Stance {
    if staged && animates {
        Stance::Moving
    } else {
        Stance::Resting { present: is_sounding(state) }
    }
}

/// What the artwork comes down to, with the stage shown or not. A track that is still loading
/// counts as playing.
pub fn artwork_plan(
    staged: bool,
    animates: bool,
    state: PlaybackState,
    sleeve: &Sleeve,
) -> (plan: ArtworkPlan)
    ensures
        draws(plan.drawn, staged, *sleeve),
        maybe_text(plan.opens) == maybe_text(sleeve.album),
        plan.stance == stance_of(staged, animates, state),
{
    let soft = waits(sleeve);
    let cover = copied(&sleeve.small);
    let drawn = if staged {
        Drawn::Stage { cover, soft }
    } else {
        Drawn::Plain { cover, soft, over: over_small(sleeve) }
    };
    let stance = if staged && animates {
        Stance::Moving
    } else {
        Stance::Resting { present: state.sounds() }
    };
    ArtworkPlan { drawn, opens: copied(&sleeve.album), stance }
}

/// A large cover that has come is never waited for, and none is laid over the small one that is
/// the same again.
pub proof fn a_cover_is_awaited_or_there(sleeve: Sleeve)
    ensures
        !(is_waiting(sleeve) && laid_over(sleeve) is Some),
        laid_over(sleeve) is Some ==> laid_over(sleeve) != maybe_text(sleeve.small),
{
}

/// The view is busy while anything is held, dragged or summoned, or while a pointer that is inside
/// rests on any of its parts.
pub proof fn anything_held_keeps_it_awake<P>(view: FullscreenView<P>, scrollbar: bool)
    ensures
        view.volume.held ==> is_busy(view, scrollbar),
        view.seek.pending is Some ==> is_busy(view, scrollbar),
        view.menu ==> is_busy(view, scrollbar),
        view.inside && view.over.volume ==> is_busy(view, scrollbar),
        view.inside && view.over.zone ==> is_busy(view, scrollbar),
        view.inside && view.over.panel ==> is_busy(view, scrollbar),
        view.inside && view.over.pill ==> is_busy(view, scrollbar),
        view.inside && view.over.transport ==> is_busy(view, scrollbar),
        view.inside && view.over.leave ==> is_busy(view, scrollbar),
        view.inside && view.seek.over is Some ==> is_busy(view, scrollbar),
        view.inside && view.panel is Some && scrollbar ==> is_busy(view, scrollbar),
        !view.volume.held && view.seek.pending is None && !view.menu && !view.over.volume
            && !view.over.zone && !view.over.panel && !view.over.pill && !view.over.transport
            && !view.over.leave && view.seek.over is None && !(view.panel is Some && scrollbar)
            ==> !is_busy(view, scrollbar),
{
}

/// The view falls asleep once nothing moved for one and a half seconds and nothing holds it, and
/// what holds it starts the wait again. A touch counts again after four tenths of a second.
pub proof fn the_waits_are_as_long_as_they_are<P>(
    view: FullscreenView<P>,
    now: u64,
    scrollbar: bool,
)
    ensures
        now < view.last_moved + 1500 ==> rested_of(view, now, scrollbar) == (view, Rested::Moved),
        view.last_moved + 1500 <= now && is_busy(view, scrollbar) ==> rested_of(
            view,
            now,
            scrollbar,
        ).1 is Held && rested_of(view, now, scrollbar).0.last_moved == now && rested_of(
            view,
            now,
            scrollbar,
        ).0.awake,
        view.last_moved + 1500 <= now && !is_busy(view, scrollbar) ==> rested_of(
            view,
            now,
            scrollbar,
        ).1 is Asleep && !rested_of(view, now, scrollbar).0.awake && rested_of(
            view,
            now,
            scrollbar,
        ).0.last_moved == view.last_moved,
        view.awake && now < view.last_moved + 400 ==> poked(view, now) == view,
        !view.awake || view.last_moved + 400 <= now ==> poked(view, now).last_moved == now && poked(
            view,
            now,
        ).awake,
        stirred(view, now).awake && stirred(view, now).last_moved == now,
        stirred(view, now).panel == view.panel && stirred(view, now).menu == view.menu,
{
}

/// What is shown: the stage unless a panel takes its place, both side by side where there is room,
/// the visualizer only without a panel, and the controls as the setting has it.
pub proof fn the_scene_is_as_it_is_set(panel: bool, scene: Scene)
    ensures
        ({
            let shown = shown_of(panel, scene);
            &&& shown.panel == panel
            &&& shown.split <==> scene.wide && panel
            &&& shown.staged <==> scene.wide || !panel
            &&& shown.starry <==> scene.stage_on && (scene.wide || !panel)
            &&& shown.visualizer <==> scene.visualizer_on && !panel
            &&& shown.spectrum <==> shown.visualizer || shown.starry
            &&& shown.stage_runs <==> shown.starry && scene.animates && scene.stage_moving
            &&& shown.veil <==> shown.visualizer && shown.controls && scene.effects
            &&& shown.strip <==> panel && !scene.wide
            &&& shown.floating_pill <==> panel && shown.controls
            &&& shown.inline_pill <==> !panel
            &&& shown.inner_dock <==> shown.split
            &&& shown.outer_dock <==> !shown.split
            &&& shown.leave <==> !scene.sunk
            &&& scene.autohide is AlwaysShown ==> shown.controls
            &&& scene.autohide is AlwaysHidden ==> !shown.controls
            &&& scene.autohide is Automatic ==> (shown.controls <==> !scene.sunk)
        }),
{
}

/// Each tab of the pill opens its own panel.
pub proof fn a_tab_opens_its_panel(panel: Option<SideTab>)
    ensures
        ({
            let tabs = pill_of(panel);
            &&& tabs.len() == 3
            &&& tabs[0].id == "fullscreen-artwork-tab" && tabs[0].panel is None && tabs[0].icon
                == "icons/disc-3.svg"
            &&& tabs[1].id == "fullscreen-lyrics" && tabs[1].panel == Some(SideTab::Lyrics)
                && tabs[1].icon == "icons/mic-vocal.svg"
            &&& tabs[2].id == "fullscreen-queue" && tabs[2].panel == Some(SideTab::Queue)
                && tabs[2].icon == "icons/list-music.svg"
            &&& tabs[0].selected <==> panel is None
            &&& tabs[1].selected <==> panel == Some(SideTab::Lyrics)
            &&& tabs[2].selected <==> panel == Some(SideTab::Queue)
        }),
{
}

/// A large cover is awaited exactly for a streamed track of an album that has none yet; a track of
/// this machine, by its id or by where its cover lies, waits for none.
pub proof fn only_streamed_covers_are_awaited(sleeve: Sleeve)
    ensures
        sleeve.local_id ==> !is_waiting(sleeve),
        (sleeve.small matches Some(url) && url@.len() >= 7 && url@.take(7) == "file://"@)
            ==> !is_waiting(sleeve),
        sleeve.large is Some ==> !is_waiting(sleeve),
        sleeve.album is None ==> !is_waiting(sleeve),
        !sleeve.local_id && sleeve.small is None && sleeve.album is Some && sleeve.large is None
            ==> is_waiting(sleeve),
        (sleeve.small matches Some(url) && !sleeve.local_id && sleeve.album is Some && sleeve.large
            is None && !("file://"@.is_prefix_of(url@))) ==> is_waiting(sleeve),
        sleeve.large is None ==> laid_over(sleeve) is None,
        sleeve.large is Some && maybe_text(sleeve.large) != maybe_text(sleeve.small) ==> laid_over(
            sleeve,
        ) == maybe_text(sleeve.large),
{
    reveal_strlit("file://");
    if let Some(url) = sleeve.small {
        if url@.len() >= 7 && url@.take(7) == "file://"@ {
            assert forall|i: int| 0 <= i < 7 implies "file://"@[i] == url@[i] by {
                assert(url@.take(7)[i] == url@[i]);
            }
            assert("file://"@.is_prefix_of(url@));
        }
    }
}

/// The cover moves exactly on a stage that is animated; at rest it is present while there is
/// sound.
pub proof fn a_cover_moves_on_its_stage(staged: bool, animates: bool, state: PlaybackState)
    ensures
        staged && animates <==> stance_of(staged, animates, state) is Moving,
        !(staged && animates) ==> stance_of(staged, animates, state) == (Stance::Resting {
            present: !(state is Silent),
        }),
{
}

/// A pointer that leaves rests on nothing any more and keeps the view awake from then on; one that
/// comes in, or stays, changes nothing else.
pub proof fn a_pointer_that_leaves_rests_on_nothing<P: Copy>(
    view: &mut FullscreenView<P>,
    inside: bool,
    now: u64,
    done: (),
)
    requires
        call_ensures(FullscreenView::<P>::watch, (view, inside, now), done),
    ensures
        final(view).inside == inside,
        old(view).inside == inside ==> *final(view) == *old(view),
        !old(view).inside && inside ==> final(view).over == old(view).over
            && final(view).last_moved == old(view).last_moved && final(view).awake
            == old(view).awake,
        old(view).inside && !inside ==> {
            &&& !final(view).over.volume && !final(view).over.zone && !final(view).over.panel
            &&& !final(view).over.pill && !final(view).over.transport && !final(view).over.leave
            &&& final(view).seek.over is None && final(view).seek.pending
                == old(view).seek.pending
            &&& final(view).awake && final(view).last_moved == now
        },
{
}

/// The volume is shown while the pointer is over it or it is held, and its level while the pointer
/// is over the slider or it is held.
pub proof fn the_volume_is_shown_while_it_is_used<P: Copy>(
    view: FullscreenView<P>,
    open: bool,
    shown: bool,
)
    requires
        call_ensures(FullscreenView::<P>::volume_open, (&view,), open),
        call_ensures(FullscreenView::<P>::volume_bubble, (&view,), shown),
    ensures
        open <==> view.over.volume || view.over.zone || view.over.panel || view.volume.held,
        shown <==> view.over.panel || view.volume.held,
        shown ==> open,
{
}

/// A pointer over the pill counts as a touch, and one that leaves it does not.
pub proof fn the_pill_is_touched<P: Copy>(
    view: &mut FullscreenView<P>,
    hovering: bool,
    now: u64,
    done: (),
)
    requires
        call_ensures(FullscreenView::<P>::hover_pill, (view, hovering, now), done),
    ensures
        final(view).over.pill == hovering,
        hovering ==> final(view).awake,
        !hovering ==> final(view).awake == old(view).awake && final(view).last_moved
            == old(view).last_moved,
        final(view).over.volume == old(view).over.volume && final(view).over.transport
            == old(view).over.transport,
{
}

/// Showing a panel wakes the view and shows that panel.
pub proof fn a_panel_that_is_shown_wakes<P: Copy>(
    view: &mut FullscreenView<P>,
    panel: Option<SideTab>,
    now: u64,
    done: (),
)
    requires
        call_ensures(FullscreenView::<P>::show, (view, panel, now), done),
    ensures
        final(view).panel == panel,
        final(view).awake,
        final(view).last_moved == now,
        final(view).menu == old(view).menu,
{
}

/// A cover is counted as another exactly when what is laid over the small one changed.
pub proof fn another_cover_counts_once(cover: &mut LargeCover, sleeve: Sleeve, waiting: bool)
    requires
        call_ensures(LargeCover::artwork, (cover, &sleeve), waiting),
        old(cover).revision < u64::MAX,
    ensures
        maybe_text(final(cover).large) == laid_over(sleeve),
        maybe_text(old(cover).large) == laid_over(sleeve) ==> final(cover).revision
            == old(cover).revision,
        maybe_text(old(cover).large) != laid_over(sleeve) ==> final(cover).revision
            == old(cover).revision + 1,
{
}

/// What is drawn is the cover of the track, soft while a larger one is awaited: on the stage where
/// there is one, and otherwise plainly, with the large one laid over it. A press opens the album.
pub proof fn the_cover_of_the_track_is_drawn(
    staged: bool,
    animates: bool,
    state: PlaybackState,
    sleeve: Sleeve,
    plan: ArtworkPlan,
)
    requires
        call_ensures(artwork_plan, (staged, animates, state, &sleeve), plan),
    ensures
        staged ==> (plan.drawn matches Drawn::Stage { cover, soft } && maybe_text(cover)
            == maybe_text(sleeve.small) && soft == is_waiting(sleeve)),
        !staged ==> (plan.drawn matches Drawn::Plain { cover, soft, over } && maybe_text(cover)
            == maybe_text(sleeve.small) && soft == is_waiting(sleeve) && maybe_text(over)
            == laid_over(sleeve)),
        maybe_text(plan.opens) == maybe_text(sleeve.album),
{
}

} // verus!
