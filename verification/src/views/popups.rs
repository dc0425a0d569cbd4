//! The popups that list and search, and the walkthrough of a manual cookie sign-in.

use vstd::prelude::*;

use crate::text::laws::{stands, the_first_place_is_found};
use crate::text::{contains, first_place, lowercase, lowered, same, trim, trimmed};

verus! {

/// How far above the chosen entry a list starts when it opens.
pub const SELECTED_LEAD: usize = 2;

/// The entry answers a query that is already lower case: every entry answers an empty one, and
/// otherwise its label or its id has to hold it.
pub open spec fn answers(id: Seq<char>, label: Seq<char>, query: Seq<char>) -> bool {
    query.len() == 0 || first_place(label, query) is Some || first_place(id, query) is Some
}

/// Whether an entry answers a query, from the lower case of its id and its label.
pub fn answers_query(id: &str, label: &str, query: &str) -> (yes: bool)
    ensures
        yes == answers(id@, label@, query@),
{
    query.is_empty() || contains(label, query) || contains(id, query)
}

/// Whether an entry answers a query that is already lower case.
pub fn matches_query(id: &str, label: &str, query: &str) -> (yes: bool)
    ensures
        yes == answers(lowered(id@), lowered(label@), query@),
{
    let id = lowercase(id);
    let label = lowercase(label);
    answers_query(id.as_str(), label.as_str(), query)
}

/// A list with a search field over it: where its cursor is, what is searched for, and whether it
/// is open.
#[derive(Clone, Debug, PartialEq, Eq)]
pub struct SearchPopup {
    cursor: usize,
    query: String,
    open: bool,
}

/// What opening or closing the list does.
#[derive(Clone, Copy, Debug, PartialEq, Eq, Structural)]
pub enum Synced {
    /// Nothing: it was open or closed already.
    Nothing,
    /// It opens, scrolled to that entry, and its field takes the focus.
    Opened { scroll: usize },
    /// It closes, and its field is emptied.
    Closed,
}

/// The cursor held inside a list of so many entries.
pub open spec fn held_inside(cursor: nat, count: nat) -> nat {
    if cursor < count {
        cursor
    } else if count == 0 {
        0
    } else {
        (count - 1) as nat
    }
}

/// The entry after one, or before it, in a list that goes round.
pub open spec fn walked(cursor: nat, count: nat, forward: bool) -> nat {
    if forward {
        if cursor + 1 == count {
            0
        } else {
            cursor + 1
        }
    } else if cursor == 0 {
        (count - 1) as nat
    } else {
        (cursor - 1) as nat
    }
}

/// A step and the step back lead to where the cursor was.
pub proof fn a_step_back_undoes_a_step(cursor: nat, count: nat, forward: bool)
    requires
        cursor < count,
    ensures
        walked(cursor, count, forward) < count,
        walked(walked(cursor, count, forward), count, !forward) == cursor,
{
}

/// A list with a search field over it as mathematics.
#[verifier::ext_equal]
pub struct PopupModel {
    /// Where the cursor is.
    pub at: usize,
    /// What is searched for.
    pub asked: Seq<char>,
    pub open: bool,
}

impl View for SearchPopup {
    type V = PopupModel;

    closed spec fn view(&self) -> PopupModel {
        PopupModel { at: self.cursor, asked: self.query@, open: self.open }
    }
}

/// The entry a list starts at so that the chosen one is in view: a little above it.
pub open spec fn lead_of(chosen: usize) -> usize {
    if chosen < SELECTED_LEAD {
        0
    } else {
        (chosen - SELECTED_LEAD) as usize
    }
}

/// The chosen entry, or the first one when none is.
pub open spec fn chosen_or_first(selected: Option<usize>) -> usize {
    match selected {
        Some(selected) => selected,
        None => 0,
    }
}

/// The list with its cursor on the chosen entry, the first one when none is.
pub open spec fn placed_of(popup: PopupModel, selected: Option<usize>) -> PopupModel {
    PopupModel { at: chosen_or_first(selected), ..popup }
}

/// The list after it followed its popover in or out, and what that does.
pub open spec fn synced_of(popup: PopupModel, open: bool, selected: Option<usize>) -> (
    PopupModel,
    Synced,
) {
    if popup.open == open {
        (popup, Synced::Nothing)
    } else if open {
        (
            PopupModel { open: true, ..placed_of(popup, selected) },
            Synced::Opened { scroll: lead_of(chosen_or_first(selected)) },
        )
    } else {
        (PopupModel { open: false, ..popup }, Synced::Closed)
    }
}

/// The list after a query. One that changed puts the cursor on the first entry.
pub open spec fn asked_of(popup: PopupModel, query: Seq<char>) -> PopupModel {
    if popup.asked == query {
        popup
    } else {
        PopupModel { at: 0, asked: query, ..popup }
    }
}

/// The list after a step through so many entries. An empty one stays as it is.
pub open spec fn walked_of(popup: PopupModel, count: nat, forward: bool) -> PopupModel {
    if count == 0 {
        popup
    } else {
        PopupModel {
            at: walked(held_inside(popup.at as nat, count), count, forward) as usize,
            ..popup
        }
    }
}

impl SearchPopup {
    /// A closed list with nothing searched for.
    pub fn new() -> (popup: Self)
        ensures
            popup@ == (PopupModel { at: 0, asked: Seq::empty(), open: false }),
    {
        SearchPopup { cursor: 0, query: String::new(), open: false }
    }

    /// What is searched for.
    pub fn query(&self) -> (query: &str)
        ensures
            query@ == self@.asked,
    {
        self.query.as_str()
    }

    /// Takes the text of the search field. A query that changed puts the cursor on the first
    /// entry and scrolls there; `true` says so.
    pub fn changed(&mut self, text: &str) -> (rewound: bool)
        ensures
            final(self)@ == asked_of(old(self)@, lowered(trimmed(text@))),
            rewound == (old(self)@.asked != lowered(trimmed(text@))),
    {
        let bare = trim(text);
        let query = lowercase(bare.as_str());
        self.ask(query)
    }

    /// Takes a query that is already trimmed and lower case.
    pub fn ask(&mut self, query: String) -> (rewound: bool)
        ensures
            final(self)@ == asked_of(old(self)@, query@),
            rewound == (old(self)@.asked != query@),
    {
        if same(self.query.as_str(), query.as_str()) {
            return false;
        }
        self.query = query;
        self.cursor = 0;
        true
    }

    /// Follows the popover in and out. An opening list puts its cursor on the chosen entry, the
    /// first one when none is, and starts a little above it.
    pub fn sync(&mut self, open: bool, selected: Option<usize>) -> (synced: Synced)
        ensures
            (final(self)@, synced) == synced_of(old(self)@, open, selected),
    {
        if self.open == open {
            return Synced::Nothing;
        }
        self.open = open;
        if open {
            let scroll = self.place(selected);
            Synced::Opened { scroll }
        } else {
            Synced::Closed
        }
    }

    /// Puts the cursor on the chosen entry, the first one when none is. The answer is the entry
    /// to scroll to, a little above it.
    pub fn place(&mut self, selected: Option<usize>) -> (scroll: usize)
        ensures
            final(self)@ == placed_of(old(self)@, selected),
            scroll == lead_of(chosen_or_first(selected)),
    {
        let chosen: usize = match selected {
            Some(selected) => selected,
            None => 0,
        };
        self.cursor = chosen;
        if chosen < SELECTED_LEAD {
            0
        } else {
            chosen - SELECTED_LEAD
        }
    }

    /// The cursor held inside a list of so many entries.
    pub fn cursor(&self, count: usize) -> (cursor: usize)
        ensures
            cursor == held_inside(self@.at as nat, count as nat),
    {
        if self.cursor < count {
            self.cursor
        } else if count == 0 {
            0
        } else {
            count - 1
        }
    }

    /// Steps through a list that goes round, and answers where to scroll. An empty list stays as
    /// it is.
    pub fn walk(&mut self, count: usize, forward: bool) -> (scroll: Option<usize>)
        ensures
            final(self)@ == walked_of(old(self)@, count as nat, forward),
            scroll == (if count == 0 {
                None
            } else {
                Some(final(self)@.at)
            }),
    {
        if count == 0 {
            return None;
        }
        let held = self.cursor(count);
        let next: usize = if forward {
            if held == count - 1 {
                0
            } else {
                held + 1
            }
        } else if held == 0 {
            count - 1
        } else {
            held - 1
        };
        self.cursor = next;
        Some(next)
    }

    /// The entry a press of return picks: the one under the cursor, if there is any.
    pub fn submit(&self, count: usize) -> (place: Option<usize>)
        ensures
            place == (if count > 0 {
                Some(held_inside(self@.at as nat, count as nat) as usize)
            } else {
                None
            }),
    {
        if count > 0 {
            Some(self.cursor(count))
        } else {
            None
        }
    }
}

/// The walkthrough for one provider's manual cookie sign-in: the page to send the user to
/// and the keys of every string the dialog shows. A provider whose sign-in is one cookie
/// found by name shares the parametrized flow; a provider needing a whole request header
/// names its own steps, with the title and the opener shared by every provider.
#[derive(Clone, Copy, Debug, PartialEq, Eq)]
pub struct Guide {
    pub url: &'static str,
    pub title: &'static str,
    pub hint: &'static str,
    pub steps: (&'static str, &'static str, &'static str, &'static str),
    pub note: &'static str,
}

/// The flow whose strings name the cookie to copy.
pub open spec fn named_guide(url: &'static str) -> Guide {
    Guide {
        url,
        title: "login-cookie-named-title",
        hint: "login-cookie-named-hint",
        steps: (
            "login-cookie-named-step-1",
            "login-cookie-named-step-2",
            "login-cookie-named-step-3",
            "login-cookie-named-step-4",
        ),
        note: "login-cookie-named-note",
    }
}

/// The guide for a provider slug. Pasting a whole request header needs no cookie name, so the
/// wording of that flow fits any provider that has none of its own.
pub open spec fn guide_of(slug: Seq<char>) -> Guide {
    if slug == "apple"@ {
        Guide {
            url: "https://music.apple.com",
            title: "login-cookie-header-title",
            hint: "login-cookie-hint",
            steps: (
                "login-cookie-named-step-1",
                "login-cookie-step-2",
                "login-cookie-apple-step-3",
                "login-cookie-step-4",
            ),
            note: "login-cookie-apple-note",
        }
    } else if slug == "deezer"@ {
        named_guide("https://www.deezer.com")
    } else if slug == "netease"@ {
        named_guide("https://music.163.com")
    } else {
        Guide {
            url: "https://music.youtube.com",
            title: "login-cookie-header-title",
            hint: "login-cookie-hint",
            steps: (
                "login-cookie-step-1",
                "login-cookie-step-2",
                "login-cookie-step-3",
                "login-cookie-step-4",
            ),
            note: "login-cookie-step-note",
        }
    }
}

/// The site and the cookie a slug's flow names.
pub open spec fn named_of(slug: Seq<char>) -> Option<(&'static str, &'static str)> {
    if slug == "deezer"@ {
        Some(("www.deezer.com", "arl"))
    } else if slug == "apple"@ {
        Some(("music.apple.com", "media-user-token"))
    } else if slug == "netease"@ {
        Some(("music.163.com", "MUSIC_U"))
    } else {
        None
    }
}

/// The guide for a provider slug.
pub fn guide(slug: &str) -> (found: Guide)
    ensures
        found == guide_of(slug@),
{
    proof {
        reveal_strlit("apple");
        reveal_strlit("deezer");
        reveal_strlit("netease");
    }
    if same(slug, "apple") {
        Guide {
            url: "https://music.apple.com",
            title: "login-cookie-header-title",
            hint: "login-cookie-hint",
            steps: (
                "login-cookie-named-step-1",
                "login-cookie-step-2",
                "login-cookie-apple-step-3",
                "login-cookie-step-4",
            ),
            note: "login-cookie-apple-note",
        }
    } else if same(slug, "deezer") || same(slug, "netease") {
        Guide {
            url: if same(slug, "deezer") {
                "https://www.deezer.com"
            } else {
                "https://music.163.com"
            },
            title: "login-cookie-named-title",
            hint: "login-cookie-named-hint",
            steps: (
                "login-cookie-named-step-1",
                "login-cookie-named-step-2",
                "login-cookie-named-step-3",
                "login-cookie-named-step-4",
            ),
            note: "login-cookie-named-note",
        }
    } else {
        Guide {
            url: "https://music.youtube.com",
            title: "login-cookie-header-title",
            hint: "login-cookie-hint",
            steps: (
                "login-cookie-step-1",
                "login-cookie-step-2",
                "login-cookie-step-3",
                "login-cookie-step-4",
            ),
            note: "login-cookie-step-note",
        }
    }
}

/// The site the devtools show and the cookie to copy, for the flows whose strings name them.
/// The header flow needs neither.
pub fn named(slug: &str) -> (found: Option<(&'static str, &'static str)>)
    ensures
        found == named_of(slug@),
{
    if same(slug, "deezer") {
        Some(("www.deezer.com", "arl"))
    } else if same(slug, "apple") {
        Some(("music.apple.com", "media-user-token"))
    } else if same(slug, "netease") {
        Some(("music.163.com", "MUSIC_U"))
    } else {
        None
    }
}

/// The hint key the paste field should carry for a provider.
pub fn hint(slug: &str) -> (key: &'static str)
    ensures
        key == guide_of(slug@).hint,
{
    guide(slug).hint
}

/// An entry answers a search exactly when what is searched for stands in its label or in its id;
/// a search for nothing finds everything.
pub proof fn a_search_finds_by_label_or_id(id: Seq<char>, label: Seq<char>, query: Seq<char>, at: int)
    ensures
        query.len() == 0 ==> answers(id, label, query),
        stands(label, query, at) ==> answers(id, label, query),
        stands(id, query, at) ==> answers(id, label, query),
        answers(id, label, query) && query.len() > 0 ==> (exists|i: int| #[trigger]
            stands(label, query, i)) || (exists|i: int| #[trigger] stands(id, query, i)),
{
    the_first_place_is_found(label, query);
    the_first_place_is_found(id, query);
    if answers(id, label, query) && query.len() > 0 {
        if let Some(i) = first_place(label, query) {
            assert(stands(label, query, i));
        } else {
            let i = first_place(id, query)->0;
            assert(stands(id, query, i));
        }
    }
}

/// A step goes to the next entry, or back to the one before, and goes on at the other end.
pub proof fn a_step_goes_to_the_neighbour(cursor: nat, count: nat)
    requires
        cursor < count,
    ensures
        cursor + 1 < count ==> walked(cursor, count, true) == cursor + 1,
        cursor + 1 == count ==> walked(cursor, count, true) == 0,
        cursor > 0 ==> walked(cursor, count, false) == cursor - 1,
        cursor == 0 ==> walked(cursor, count, false) == count - 1,
{
}

/// The cursor stays where it is while there is an entry, and goes to the last one otherwise.
pub proof fn the_cursor_stays_inside(cursor: nat, count: nat)
    ensures
        cursor < count ==> held_inside(cursor, count) == cursor,
        0 < count <= cursor ==> held_inside(cursor, count) == count - 1,
        count == 0 ==> held_inside(cursor, count) == 0,
{
}

/// Opening the popup puts the cursor on what is chosen and scrolls to two entries above it;
/// closing it moves nothing, and so does asking for what already is.
pub proof fn a_popup_opens_on_what_is_chosen(popup: PopupModel, selected: Option<usize>)
    ensures
        popup.open ==> synced_of(popup, true, selected) == (popup, Synced::Nothing),
        !popup.open ==> synced_of(popup, false, selected) == (popup, Synced::Nothing),
        popup.open ==> synced_of(popup, false, selected).1 is Closed && !synced_of(
            popup,
            false,
            selected,
        ).0.open && synced_of(popup, false, selected).0.at == popup.at,
        !popup.open ==> synced_of(popup, true, selected).0.open && synced_of(
            popup,
            true,
            selected,
        ).0.asked == popup.asked,
        !popup.open ==> (selected matches Some(place) ==> {
            let (after, synced) = synced_of(popup, true, selected);
            &&& after.at == place
            &&& place >= 2 ==> synced == Synced::Opened { scroll: (place - 2) as usize }
            &&& place < 2 ==> synced == Synced::Opened { scroll: 0 }
        }),
        !popup.open && selected is None ==> synced_of(popup, true, selected).0.at == 0,
{
}

/// Asking for something else starts again at the first entry, and asking for the same changes
/// nothing.
pub proof fn a_new_question_starts_again(popup: PopupModel, query: Seq<char>)
    ensures
        asked_of(popup, query).asked == query,
        asked_of(popup, query).open == popup.open,
        popup.asked == query ==> asked_of(popup, query).at == popup.at,
        popup.asked != query ==> asked_of(popup, query).at == 0,
        asked_of(asked_of(popup, query), query) == asked_of(popup, query),
{
}

/// Each service has its own guide, and one that keeps its session in a cookie of its own is asked
/// for that cookie on that service's own address.
pub proof fn each_service_has_its_guide(slug: Seq<char>)
    ensures
        slug == "apple"@ ==> guide_of(slug).url == "https://music.apple.com" && guide_of(slug).note
            == "login-cookie-apple-note" && named_of(slug) == Some(
            ("music.apple.com", "media-user-token"),
        ),
        slug == "deezer"@ ==> guide_of(slug).url == "https://www.deezer.com" && guide_of(slug).note
            == "login-cookie-named-note" && named_of(slug) == Some(("www.deezer.com", "arl")),
        slug == "netease"@ ==> guide_of(slug).url == "https://music.163.com" && guide_of(slug).note
            == "login-cookie-named-note" && named_of(slug) == Some(("music.163.com", "MUSIC_U")),
        slug != "apple"@ && slug != "deezer"@ && slug != "netease"@ ==> guide_of(slug).url
            == "https://music.youtube.com" && guide_of(slug).note == "login-cookie-step-note"
            && named_of(slug) is None,
{
    reveal_strlit("apple");
    reveal_strlit("deezer");
    reveal_strlit("netease");
    assert("apple"@[0] != "deezer"@[0]);
    assert("apple"@[0] != "netease"@[0]);
    assert("deezer"@[0] != "netease"@[0]);
}

/// What is typed is searched for without white space around it and in small letters, and the
/// cursor goes back to the first entry exactly when that is something else than before.
pub proof fn typing_starts_again(popup: &mut SearchPopup, text: &str, rewound: bool)
    requires
        call_ensures(SearchPopup::changed, (popup, text), rewound),
    ensures
        final(popup)@.asked == lowered(trimmed(text@)),
        rewound <==> old(popup)@.asked != lowered(trimmed(text@)),
        rewound ==> final(popup)@.at == 0,
        !rewound ==> final(popup)@.at == old(popup)@.at,
        final(popup)@.open == old(popup)@.open,
{
}

/// Walking goes to a neighbouring entry and scrolls to it; with no entries it stays.
pub proof fn walking_scrolls_to_the_cursor(
    popup: &mut SearchPopup,
    count: usize,
    forward: bool,
    scroll: Option<usize>,
)
    requires
        call_ensures(SearchPopup::walk, (popup, count, forward), scroll),
        old(popup)@.at < count,
    ensures
        scroll == Some(final(popup)@.at),
        forward && old(popup)@.at + 1 < count ==> final(popup)@.at == old(popup)@.at + 1,
        forward && old(popup)@.at + 1 == count ==> final(popup)@.at == 0,
        !forward && old(popup)@.at > 0 ==> final(popup)@.at == old(popup)@.at - 1,
        !forward && old(popup)@.at == 0 ==> final(popup)@.at == count - 1,
        final(popup)@.asked == old(popup)@.asked,
{
}

/// What is submitted is the entry under the cursor, as long as there is one.
pub proof fn the_entry_under_the_cursor_is_submitted(
    popup: SearchPopup,
    count: usize,
    place: Option<usize>,
)
    requires
        call_ensures(SearchPopup::submit, (&popup, count), place),
    ensures
        count == 0 ==> place is None,
        popup@.at < count ==> place == Some(popup@.at),
        0 < count <= popup@.at ==> place == Some((count - 1) as usize),
{
}

} // verus!
