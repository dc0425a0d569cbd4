//! The frame of the window: its title bar, its corners and the panel on its right.

use vstd::prelude::*;

use super::player_bar::SideTab;
use crate::platform::Os;

verus! {

/// The window's own corner radius, where it rounds.
pub open spec fn radius_of(
    os: Os,
    fullscreen: bool,
    server_side: bool,
    rounding: Option<u32>,
) -> Option<u32> {
    if (os == Os::Linux || os == Os::Freebsd) && !fullscreen && !server_side {
        rounding
    } else {
        None
    }
}

/// The window's own corner radius, or `None` when it should not visibly round. Only Linux and
/// FreeBSD round the window here; there the compositor is in charge of the frame where it draws
/// the decorations, a square window is the explicit off state, and a fullscreen window always
/// goes square.
pub fn window_radius(
    os: Os,
    fullscreen: bool,
    server_side: bool,
    rounding: Option<u32>,
) -> (radius: Option<u32>)
    ensures
        radius == radius_of(os, fullscreen, server_side, rounding),
{
    match os {
        Os::Linux | Os::Freebsd => if fullscreen || server_side {
            None
        } else {
            rounding
        },
        _ => None,
    }
}

/// What is done as the panel on the right changes.
#[derive(Clone, Copy, Debug, PartialEq, Eq, Structural)]
pub enum SideEffect {
    /// The side is written to the settings.
    SaveTab(SideTab),
    /// The panel shows the side.
    Show(SideTab),
    /// What the panel shows is put away.
    Dismiss,
    /// The panel slides in or out.
    Slide,
    /// Whether the panel is open is written to the settings.
    SaveOpen(bool),
}

/// The panel on the right.
#[derive(Clone, Copy, Debug, PartialEq, Eq, Structural)]
pub struct SidebarRight {
    pub open: bool,
    /// The side it shows, or will show once it is open.
    pub tab: SideTab,
}

/// What is done as the panel opens or closes, and how it is left.
pub open spec fn set_open_of(panel: SidebarRight, open: bool) -> (SidebarRight, Seq<SideEffect>) {
    if panel.open == open {
        (panel, Seq::empty())
    } else if open {
        (
            SidebarRight { open, ..panel },
            seq![SideEffect::Show(panel.tab), SideEffect::Slide, SideEffect::SaveOpen(true)],
        )
    } else {
        (SidebarRight { open, ..panel }, seq![SideEffect::Slide, SideEffect::SaveOpen(false)])
    }
}

/// What is done as the panel is closed, and how it is left.
pub open spec fn closed_of(panel: SidebarRight) -> (SidebarRight, Seq<SideEffect>) {
    if panel.open {
        (
            SidebarRight { open: false, ..panel },
            seq![SideEffect::Dismiss, SideEffect::Slide, SideEffect::SaveOpen(false)],
        )
    } else {
        (panel, Seq::empty())
    }
}

/// What is done as a side is asked for, and how the panel is left. Asking for the side that is
/// shown closes the panel.
pub open spec fn shown_of(panel: SidebarRight, tab: SideTab) -> (SidebarRight, Seq<SideEffect>) {
    if panel.open && panel.tab == tab {
        closed_of(panel)
    } else {
        let saved = if panel.tab == tab {
            Seq::<SideEffect>::empty()
        } else {
            seq![SideEffect::SaveTab(tab)]
        };
        let turned = SidebarRight { tab, ..panel };
        if panel.open {
            (turned, saved + seq![SideEffect::Show(tab), SideEffect::SaveOpen(true)])
        } else {
            let (opened, after) = set_open_of(turned, true);
            (opened, saved + seq![SideEffect::Show(tab)] + after)
        }
    }
}

impl SidebarRight {
    /// The panel as the settings left it.
    pub fn new(open: bool, tab: SideTab) -> (panel: Self)
        ensures
            panel == (SidebarRight { open, tab }),
    {
        SidebarRight { open, tab }
    }

    /// Whether there is room for the panel: only in a window that is wide.
    pub fn available(wide: bool) -> (yes: bool)
        ensures
            yes == wide,
    {
        wide
    }

    /// How much of the window's width the panel takes, when it is so wide.
    pub fn occupied_width(&self, wide: bool, width: u32) -> (taken: u32)
        ensures
            taken == (if wide && self.open {
                width
            } else {
                0
            }),
    {
        if !SidebarRight::available(wide) || !self.open {
            0
        } else {
            width
        }
    }

    /// Opens or closes the panel.
    fn set_open(&mut self, open: bool) -> (effects: Vec<SideEffect>)
        ensures
            (*final(self), effects@) == set_open_of(*old(self), open),
    {
        let mut effects: Vec<SideEffect> = Vec::new();
        if self.open == open {
            assert(effects@ =~= Seq::empty());
            return effects;
        }
        self.open = open;
        if open {
            effects.push(SideEffect::Show(self.tab));
        }
        effects.push(SideEffect::Slide);
        effects.push(SideEffect::SaveOpen(open));
        assert(effects@ =~= set_open_of(*old(self), open).1);
        effects
    }

    /// Opens the panel when it is closed, and closes it when it is open.
    pub fn toggle(&mut self) -> (effects: Vec<SideEffect>)
        ensures
            (*final(self), effects@) == set_open_of(*old(self), !old(self).open),
    {
        let open = !self.open;
        self.set_open(open)
    }

    /// Closes the panel.
    pub fn close(&mut self) -> (effects: Vec<SideEffect>)
        ensures
            (*final(self), effects@) == closed_of(*old(self)),
    {
        let mut effects: Vec<SideEffect> = Vec::new();
        if !self.open {
            assert(effects@ =~= Seq::empty());
            return effects;
        }
        effects.push(SideEffect::Dismiss);
        let mut after = self.set_open(false);
        effects.append(&mut after);
        assert(effects@ =~= closed_of(*old(self)).1);
        effects
    }

    /// A side is asked for.
    pub fn show(&mut self, tab: SideTab) -> (effects: Vec<SideEffect>)
        ensures
            (*final(self), effects@) == shown_of(*old(self), tab),
    {
        if self.open && self.tab == tab {
            return self.close();
        }
        let mut effects: Vec<SideEffect> = Vec::new();
        if self.tab != tab {
            effects.push(SideEffect::SaveTab(tab));
        }
        self.tab = tab;
        effects.push(SideEffect::Show(tab));
        if !self.open {
            let mut after = self.set_open(true);
            effects.append(&mut after);
        } else {
            effects.push(SideEffect::SaveOpen(true));
        }
        assert(effects@ =~= shown_of(*old(self), tab).1);
        effects
    }
}

/// Asking for a side either shows it or closes the panel, and asking for it twice from a panel
/// that does not show it closes the panel.
pub proof fn a_side_is_shown_or_put_away(panel: SidebarRight, tab: SideTab)
    ensures
        ({
            let once = shown_of(panel, tab).0;
            let twice = shown_of(once, tab).0;
            &&& once.tab == tab
            &&& once.open == !(panel.open && panel.tab == tab)
            &&& twice.tab == tab
            &&& twice.open == !once.open
        }),
{
}

/// Opening and closing leaves the panel as it was.
pub proof fn toggling_twice_changes_nothing(panel: SidebarRight)
    ensures
        set_open_of(set_open_of(panel, !panel.open).0, panel.open).0 == panel,
{
}

/// Whenever the panel opens or closes, the settings are told, and last of all.
pub proof fn the_settings_know_the_panel(panel: SidebarRight, tab: SideTab)
    ensures
        ({
            let (left, effects) = shown_of(panel, tab);
            effects.len() > 0 && effects.last() == SideEffect::SaveOpen(left.open)
        }),
        ({
            let (left, effects) = closed_of(panel);
            left.open != panel.open ==> effects.len() > 0 && effects.last() == SideEffect::SaveOpen(
                left.open,
            )
        }),
{
}

/// How far what stands on the left of the title bar keeps from the edge on macOS, whose own
/// buttons stand there.
pub const INSET_MACOS: u32 = 74;

/// How far what stands on the left of the title bar keeps from the edge elsewhere.
pub const INSET: u32 = 12;

/// What the title bar is told by the page below it.
#[derive(Clone, Copy, Debug, PartialEq, Eq, Structural)]
pub struct TitleBarOptions {
    pub navigation: bool,
    pub sidebar_open: bool,
    /// Whether the panel on the right is open, where there can be one.
    pub sidebar_right: Option<bool>,
    pub offset: u32,
    pub border: bool,
    /// The view the page puts between the history and the right, by its number.
    pub content: Option<u64>,
}

impl Default for TitleBarOptions {
    fn default() -> (options: Self)
        ensures
            options == (TitleBarOptions {
                navigation: false,
                sidebar_open: false,
                sidebar_right: None,
                offset: 0,
                border: true,
                content: None,
            }),
    {
        TitleBarOptions {
            navigation: false,
            sidebar_open: false,
            sidebar_right: None,
            offset: 0,
            border: true,
            content: None,
        }
    }
}

/// What the title bar reads of the window and the settings.
#[derive(Clone, Copy, Debug, PartialEq, Eq, Structural)]
pub struct Frame {
    pub os: Os,
    /// The window draws its own decorations.
    pub client_decorations: bool,
    /// The settings ask for the window's buttons.
    pub window_controls: bool,
    pub controls_on_left: bool,
    pub wide: bool,
    pub can_back: bool,
    pub can_forward: bool,
}

/// Where the window's buttons stand.
#[derive(Clone, Copy, Debug, PartialEq, Eq, Structural)]
pub enum Buttons {
    Absent,
    Leading,
    Trailing,
}

/// What the title bar shows.
#[derive(Clone, Copy, Debug, PartialEq, Eq)]
pub struct TitleBarShown {
    pub buttons: Buttons,
    /// How far the left keeps from the edge; the window's buttons keep their own distance.
    pub inset: Option<u32>,
    /// How wide the left is, where that is fixed.
    pub leading_width: Option<u32>,
    /// The button of the sidebar, and whether the sidebar is open.
    pub sidebar: Option<bool>,
    /// The buttons of the history, and whether there is something before and after.
    pub history: Option<(bool, bool)>,
    /// The button of the panel on the right, and whether the panel is open.
    pub sidebar_right: Option<bool>,
    pub border: bool,
    /// The view of the page behind the history.
    pub content: Option<u64>,
}

/// The window has buttons of its own. Linux and FreeBSD go by who draws the decorations, and
/// macOS always draws its own.
pub open spec fn decorated(frame: Frame) -> bool {
    match frame.os {
        Os::Linux | Os::Freebsd => frame.client_decorations,
        Os::Macos => false,
        _ => frame.window_controls,
    }
}

/// What the title bar shows.
pub open spec fn title_bar_of(options: TitleBarOptions, frame: Frame) -> TitleBarShown {
    let buttons = if !decorated(frame) {
        Buttons::Absent
    } else if frame.controls_on_left {
        Buttons::Leading
    } else {
        Buttons::Trailing
    };
    TitleBarShown {
        buttons,
        inset: if buttons == Buttons::Leading {
            None
        } else if frame.os == Os::Macos {
            Some(INSET_MACOS)
        } else {
            Some(INSET)
        },
        leading_width: if options.navigation && options.offset > 0 {
            Some(options.offset)
        } else {
            None
        },
        sidebar: if options.navigation {
            Some(options.sidebar_open)
        } else {
            None
        },
        history: if options.navigation {
            Some((frame.can_back, frame.can_forward))
        } else {
            None
        },
        sidebar_right: if frame.wide {
            options.sidebar_right
        } else {
            None
        },
        border: options.border,
        content: options.content,
    }
}

/// What a click on the title bar does to the window.
#[derive(Clone, Copy, Debug, PartialEq, Eq, Structural)]
pub enum WindowAction {
    Stay,
    Zoom,
    Move,
}

/// The title bar.
#[derive(Clone, Copy, Debug, PartialEq, Eq, Structural)]
pub struct TitleBar {
    pub options: TitleBarOptions,
    /// The bar is held down, so that moving the pointer moves the window.
    pub grabbed: bool,
}

impl TitleBar {
    /// A title bar that was told nothing.
    pub fn new() -> (bar: Self)
        ensures
            bar == (TitleBar {
                options: TitleBarOptions {
                    navigation: false,
                    sidebar_open: false,
                    sidebar_right: None,
                    offset: 0,
                    border: true,
                    content: None,
                },
                grabbed: false,
            }),
    {
        TitleBar { options: TitleBarOptions::default(), grabbed: false }
    }

    /// Tells the title bar what to show. The answer is whether it is drawn again.
    pub fn set_options(&mut self, options: TitleBarOptions) -> (redraw: bool)
        ensures
            redraw == (old(self).options != options),
            *final(self) == (TitleBar { options, ..*old(self) }),
    {
        if self.options == options {
            return false;
        }
        self.options = options;
        true
    }

    /// The bar is pressed, for the so-manieth time in a row. Windows zooms by itself.
    pub fn press(&mut self, clicks: usize, os: Os) -> (action: WindowAction)
        ensures
            final(self).options == old(self).options,
            final(self).grabbed == (clicks == 1 || old(self).grabbed),
            action == (if clicks == 2 && os != Os::Windows {
                WindowAction::Zoom
            } else {
                WindowAction::Stay
            }),
    {
        if clicks == 1 {
            self.grabbed = true;
            WindowAction::Stay
        } else if clicks == 2 && os != Os::Windows {
            WindowAction::Zoom
        } else {
            WindowAction::Stay
        }
    }

    /// The bar is let go, or the pointer pressed elsewhere.
    pub fn release(&mut self)
        ensures
            *final(self) == (TitleBar { grabbed: false, ..*old(self) }),
    {
        self.grabbed = false;
    }

    /// The pointer moves over the bar. One press moves the window once: the system takes over
    /// from there.
    pub fn drag(&mut self) -> (action: WindowAction)
        ensures
            *final(self) == (TitleBar { grabbed: false, ..*old(self) }),
            action == (if old(self).grabbed {
                WindowAction::Move
            } else {
                WindowAction::Stay
            }),
    {
        if self.grabbed {
            self.grabbed = false;
            WindowAction::Move
        } else {
            WindowAction::Stay
        }
    }

    /// What the bar shows.
    pub fn render(&self, frame: Frame) -> (shown: TitleBarShown)
        ensures
            shown == title_bar_of(self.options, frame),
    {
        let controls = match frame.os {
            Os::Linux | Os::Freebsd => frame.client_decorations,
            _ => frame.window_controls,
        };
        let decorated = frame.os != Os::Macos && controls;
        let buttons = if !decorated {
            Buttons::Absent
        } else if frame.controls_on_left {
            Buttons::Leading
        } else {
            Buttons::Trailing
        };
        let navigation = self.options.navigation;
        TitleBarShown {
            buttons,
            inset: if buttons == Buttons::Leading {
                None
            } else if frame.os == Os::Macos {
                Some(INSET_MACOS)
            } else {
                Some(INSET)
            },
            leading_width: if navigation && self.options.offset > 0 {
                Some(self.options.offset)
            } else {
                None
            },
            sidebar: if navigation {
                Some(self.options.sidebar_open)
            } else {
                None
            },
            history: if navigation {
                Some((frame.can_back, frame.can_forward))
            } else {
                None
            },
            sidebar_right: if SidebarRight::available(frame.wide) {
                self.options.sidebar_right
            } else {
                None
            },
            border: self.options.border,
            content: self.options.content,
        }
    }
}

/// The icon of the button of the sidebar.
pub fn sidebar_icon(open: bool) -> (icon: &'static str)
    ensures
        icon == (if open {
            "icons/panel-left-close.svg"
        } else {
            "icons/panel-left-open.svg"
        }),
{
    if open {
        "icons/panel-left-close.svg"
    } else {
        "icons/panel-left-open.svg"
    }
}

/// The icon of the button of the panel on the right.
pub fn sidebar_right_icon(open: bool) -> (icon: &'static str)
    ensures
        icon == (if open {
            "icons/panel-right-close.svg"
        } else {
            "icons/panel-right-open.svg"
        }),
{
    if open {
        "icons/panel-right-close.svg"
    } else {
        "icons/panel-right-open.svg"
    }
}

/// A window is rounded exactly where the app draws its frame: on Linux and FreeBSD, neither in
/// full screen nor where the desktop decorates it, and then by what was measured.
pub proof fn the_app_rounds_its_own_frame(
    os: Os,
    fullscreen: bool,
    server_side: bool,
    rounding: Option<u32>,
)
    ensures
        (os is Linux || os is Freebsd) && !fullscreen && !server_side ==> radius_of(
            os,
            fullscreen,
            server_side,
            rounding,
        ) == rounding,
        os is Macos || os is Windows || os is Other ==> radius_of(
            os,
            fullscreen,
            server_side,
            rounding,
        ) is None,
        fullscreen ==> radius_of(os, fullscreen, server_side, rounding) is None,
        server_side ==> radius_of(os, fullscreen, server_side, rounding) is None,
{
}

/// Showing a side saves it exactly when it was another, shows it exactly when the panel is left
/// open, and slides exactly when the panel opens or closes.
pub proof fn a_side_that_is_shown_is_saved(panel: SidebarRight, tab: SideTab)
    ensures
        ({
            let (left, effects) = shown_of(panel, tab);
            &&& effects.contains(SideEffect::SaveTab(tab)) <==> panel.tab != tab
            &&& effects.contains(SideEffect::Show(tab)) <==> left.open
            &&& effects.contains(SideEffect::Slide) <==> left.open != panel.open
            &&& effects.contains(SideEffect::Dismiss) <==> !left.open
        }),
{
    let (left, effects) = shown_of(panel, tab);
    if panel.open && panel.tab == tab {
        assert(effects[0] is Dismiss && effects[1] is Slide);
    } else if panel.open {
        assert(effects[0] == SideEffect::SaveTab(tab) && effects[1] == SideEffect::Show(tab));
    } else if panel.tab == tab {
        assert(effects[0] == SideEffect::Show(tab) && effects[2] is Slide);
    } else {
        assert(effects[0] == SideEffect::SaveTab(tab) && effects[1] == SideEffect::Show(tab)
            && effects[3] is Slide);
    }
}

/// Toggling the panel keeps its side: opening it shows that side, and either way it slides and is
/// saved as it is left.
pub proof fn toggling_keeps_the_side(panel: SidebarRight)
    ensures
        ({
            let (left, effects) = set_open_of(panel, !panel.open);
            &&& left.open == !panel.open && left.tab == panel.tab
            &&& !panel.open ==> effects == seq![
                SideEffect::Show(panel.tab),
                SideEffect::Slide,
                SideEffect::SaveOpen(true),
            ]
            &&& panel.open ==> effects == seq![SideEffect::Slide, SideEffect::SaveOpen(false)]
        }),
        !panel.open ==> closed_of(panel).0 == panel && closed_of(panel).1.len() == 0,
        panel.open ==> !closed_of(panel).0.open && closed_of(panel).0.tab == panel.tab,
{
}

/// The window's buttons are there exactly where the app decorates it, on the side the desktop has
/// them; on macOS the system draws its own, and the bar leaves them room.
pub proof fn the_buttons_stand_where_the_desktop_has_them(options: TitleBarOptions, frame: Frame)
    ensures
        ({
            let shown = title_bar_of(options, frame);
            let own = match frame.os {
                Os::Linux => frame.client_decorations,
                Os::Freebsd => frame.client_decorations,
                Os::Macos => false,
                Os::Windows => frame.window_controls,
                Os::Other => frame.window_controls,
            };
            &&& shown.buttons is Absent <==> !own
            &&& shown.buttons is Leading <==> own && frame.controls_on_left
            &&& shown.buttons is Trailing <==> own && !frame.controls_on_left
            &&& shown.inset is None <==> shown.buttons is Leading
            &&& frame.os is Macos ==> shown.inset == Some(74u32)
            &&& !(frame.os is Macos) && !(shown.buttons is Leading) ==> shown.inset == Some(12u32)
        }),
{
}

/// The bar leads back and forth and to the sidebar exactly where it navigates, and offers the
/// right sidebar exactly where there is room for it.
pub proof fn the_bar_navigates_where_it_should(options: TitleBarOptions, frame: Frame)
    ensures
        ({
            let shown = title_bar_of(options, frame);
            &&& options.navigation ==> shown.sidebar == Some(options.sidebar_open)
            &&& options.navigation ==> shown.history == Some((frame.can_back, frame.can_forward))
            &&& !options.navigation ==> shown.sidebar is None && shown.history is None
                && shown.leading_width is None
            &&& options.navigation && options.offset > 0 ==> shown.leading_width == Some(
                options.offset,
            )
            &&& options.offset == 0 ==> shown.leading_width is None
            &&& frame.wide ==> shown.sidebar_right == options.sidebar_right
            &&& !frame.wide ==> shown.sidebar_right is None
            &&& shown.border == options.border
            &&& shown.content == options.content
        }),
{
}

/// The icon of a sidebar says what a press does to it.
pub proof fn an_icon_says_what_a_press_does(open: bool, left: &'static str, right: &'static str)
    requires
        call_ensures(sidebar_icon, (open,), left),
        call_ensures(sidebar_right_icon, (open,), right),
    ensures
        open ==> left == "icons/panel-left-close.svg" && right == "icons/panel-right-close.svg",
        !open ==> left == "icons/panel-left-open.svg" && right == "icons/panel-right-open.svg",
{
}

/// Pressing the title bar grabs it; a second click zooms the window but on Windows, which does so
/// itself. Dragging moves a window that was grabbed, once, and letting go lets go.
pub proof fn a_title_bar_is_grabbed_and_moved(
    bar: &mut TitleBar,
    clicks: usize,
    os: Os,
    pressed: WindowAction,
    after: &mut TitleBar,
    dragged: WindowAction,
)
    requires
        call_ensures(TitleBar::press, (bar, clicks, os), pressed),
        call_ensures(TitleBar::drag, (after,), dragged),
        *old(after) == *final(bar),
    ensures
        clicks == 2 && !(os is Windows) ==> pressed is Zoom,
        clicks != 2 || os is Windows ==> pressed is Stay,
        clicks == 1 ==> dragged is Move,
        clicks != 1 && !old(bar).grabbed ==> dragged is Stay,
        !final(after).grabbed,
        final(after).options == old(bar).options,
{
}

/// The title bar is drawn again exactly when what it should show changed.
pub proof fn a_change_draws_the_bar_again(
    bar: &mut TitleBar,
    options: TitleBarOptions,
    redraw: bool,
)
    requires
        call_ensures(TitleBar::set_options, (bar, options), redraw),
    ensures
        final(bar).options == options,
        redraw <==> old(bar).options != options,
        final(bar).grabbed == old(bar).grabbed,
{
}

/// The panel takes its width exactly where there is room for it and it is open.
pub proof fn an_open_panel_takes_its_width(
    panel: SidebarRight,
    wide: bool,
    width: u32,
    taken: u32,
)
    requires
        call_ensures(SidebarRight::occupied_width, (&panel, wide, width), taken),
    ensures
        wide && panel.open ==> taken == width,
        !wide || !panel.open ==> taken == 0,
{
}

} // verus!
