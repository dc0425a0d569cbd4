//! The settings page as it is used: its category and search, the pickers it opens, the dialogs it
//! puts up and takes down, its account cards, and what each frame of it shows.

use vstd::prelude::*;

use super::super::popups::{
    asked_of, held_inside, lead_of, placed_of, synced_of, walked_of, PopupModel, SearchPopup,
    Synced,
};
use super::super::sign_in::{
    blank, complete, filled_in, Provider, SessionState, SignIn, SignInPrompt,
};
use super::accounts::{
    account_card, account_card_of, account_of, guest_card, guest_card_of, guest_of, start_of,
    start_sign_in, Account, Guest, Press, Pressed, Session, Start, Trailing, GUEST,
};
use super::rows::{
    language_current, language_items, language_row, language_selected, pick_language, LanguageRow,
};
use super::search::{is_panel, panel, scores_fit, Panel, WordScore};
use super::slots::{every_slot_of, Facts, Sayings, SettingsTab};
use super::typefaces::{
    entry_in_use, entry_names, listed_names, name_set, typeface_row, typeface_row_of,
    typeface_selected, FontChoice, TypefaceRow,
};
use crate::text::laws::{all_white, trimming_takes_white_space_alone};
use crate::text::{
    copied, first_at, lowered, maybe_text, position, same, texts, the_first_place_holds_the_text,
    trim, trimmed,
};

verus! {

/// The picker that lists the languages.
pub const LANGUAGES: &'static str = "languages";

/// The picker that lists the typefaces.
pub const TYPEFACES: &'static str = "typefaces";

/// The settings page.
#[derive(Clone, Debug, PartialEq, Eq)]
pub struct SettingsView {
    tab: SettingsTab,
    /// The search field's text. Blank means the page shows one category.
    text: String,
    /// The picker that is open, by its id.
    picker: Option<String>,
    languages: SearchPopup,
    typefaces: SearchPopup,
    credentials_for: Option<String>,
    manual_secret: Option<(String, String)>,
    /// The service whose link dialog is open, by slug.
    scrobble_prompt: Option<String>,
    /// The provider whose sign-in choice is up, by slug and name.
    sign_in_for: Option<(String, String)>,
    /// Whether the choice the dialog offered has been taken. The dialog stays up until the
    /// sign-in it started is over, so the veil never blinks away between it and the prompt
    /// that follows.
    sign_in_running: bool,
    /// The card the user just switched to, by slug or as the guest's.
    chosen: Option<String>,
    /// Whether the focus has already been taken for the dialog that is up.
    grabbed: bool,
    /// The installed typefaces, once they are known.
    installed: Option<Vec<String>>,
    loading_fonts: bool,
}

/// The settings page as mathematics.
#[verifier::ext_equal]
pub struct SettingsModel {
    pub tab: SettingsTab,
    pub text: Seq<char>,
    pub picker: Option<Seq<char>>,
    pub languages: PopupModel,
    pub typefaces: PopupModel,
    pub credentials_for: Option<Seq<char>>,
    pub manual_secret: Option<(Seq<char>, Seq<char>)>,
    pub scrobble_prompt: Option<Seq<char>>,
    pub sign_in_for: Option<(Seq<char>, Seq<char>)>,
    pub sign_in_running: bool,
    pub chosen: Option<Seq<char>>,
    pub grabbed: bool,
    pub installed: Option<Seq<Seq<char>>>,
    pub loading_fonts: bool,
}

/// What is searched for: the text of the field without the white space around it.
pub open spec fn query_of(page: SettingsModel) -> Seq<char> {
    trimmed(page.text)
}

/// The page shows hits rather than a category.
pub open spec fn is_searching(page: SettingsModel) -> bool {
    query_of(page).len() > 0
}

/// The typefaces the picker can list: none before they are known.
pub open spec fn known_fonts(page: SettingsModel) -> Seq<Seq<char>> {
    match page.installed {
        Some(names) => names,
        None => Seq::empty(),
    }
}

/// Names that may not be known, as mathematics.
pub open spec fn maybe_texts(names: Option<Vec<String>>) -> Option<Seq<Seq<char>>> {
    match names {
        Some(names) => Some(texts(names@)),
        None => None,
    }
}

/// Two texts that may not be there, as mathematics.
pub open spec fn maybe_pair(pair: Option<(String, String)>) -> Option<(Seq<char>, Seq<char>)> {
    match pair {
        Some((left, right)) => Some((left@, right@)),
        None => None,
    }
}

impl View for SettingsView {
    type V = SettingsModel;

    closed spec fn view(&self) -> SettingsModel {
        SettingsModel {
            tab: self.tab,
            text: self.text@,
            picker: maybe_text(self.picker),
            languages: self.languages@,
            typefaces: self.typefaces@,
            credentials_for: maybe_text(self.credentials_for),
            manual_secret: maybe_pair(self.manual_secret),
            scrobble_prompt: maybe_text(self.scrobble_prompt),
            sign_in_for: maybe_pair(self.sign_in_for),
            sign_in_running: self.sign_in_running,
            chosen: maybe_text(self.chosen),
            grabbed: self.grabbed,
            installed: maybe_texts(self.installed),
            loading_fonts: self.loading_fonts,
        }
    }
}

/// What the session says when a frame is drawn.
#[derive(Clone, Copy, Debug, PartialEq, Eq, Structural)]
pub struct Surroundings {
    pub state: SessionState,
    /// The session is on its way up or down.
    pub pending: bool,
}

/// What the settings say of what the two lists choose between.
#[derive(Clone, Debug, PartialEq, Eq)]
pub struct Choices {
    /// The language in use, by its id.
    pub language: String,
    /// The ids of the languages there are, without the one for the system's own.
    pub languages: Vec<String>,
    pub fonts: FontChoice,
}

/// The entry the language list opens on: that of the language in use, behind the one for the
/// system's own, which is also where it opens when no language is chosen.
pub open spec fn language_entry(choices: Choices) -> usize {
    match first_at(texts(choices.languages@), choices.language@) {
        Some(place) => (place + 1) as usize,
        None => 0,
    }
}

/// A place as an index.
pub open spec fn maybe_index(place: Option<int>) -> Option<usize> {
    match place {
        Some(place) => Some(place as usize),
        None => None,
    }
}

/// The entry the typeface list opens on: that of the typeface in use, where the query lists it.
pub open spec fn typeface_entry(page: SettingsModel, choices: Choices) -> Option<usize> {
    maybe_index(entry_in_use(choices.fonts, known_fonts(page), page.typefaces.asked))
}

/// The language list after it followed its picker, and what that does.
pub open spec fn languages_follow(page: SettingsModel, choices: Choices) -> (PopupModel, Synced) {
    let picking = page.picker == Some(LANGUAGES@);
    synced_of(
        page.languages,
        picking,
        if picking {
            Some(language_entry(choices))
        } else {
            None
        },
    )
}

/// The typeface list after it followed its picker, and what that does.
pub open spec fn typefaces_follow(page: SettingsModel, choices: Choices) -> (PopupModel, Synced) {
    let picking = page.picker == Some(TYPEFACES@);
    synced_of(
        page.typefaces,
        picking,
        if picking {
            typeface_entry(page, choices)
        } else {
            None
        },
    )
}

/// What one frame of the page shows and starts.
#[derive(Clone, Copy, Debug, PartialEq, Eq, Structural)]
pub struct Frame {
    /// The installed typefaces are to be read.
    pub load_fonts: bool,
    /// What the language list does.
    pub languages: Synced,
    /// What the typeface list does.
    pub typefaces: Synced,
    /// The dialog with the accounts to choose from.
    pub accounts: bool,
    /// The dialog that cookies are pasted into.
    pub secret: bool,
    /// The dialog for a server's address and credentials.
    pub credentials: bool,
    /// The dialog that links a scrobbling service.
    pub scrobble: bool,
    /// The dialog with the choice of sign-in methods.
    pub choice: bool,
    /// The page takes the key focus.
    pub focus: bool,
    /// The profile stands above the rows.
    pub profile: bool,
    /// The team stands under them.
    pub team: bool,
}

/// The choice that was taken is over once the session is no longer on its way.
pub open spec fn settled(page: SettingsModel, around: Surroundings) -> SettingsModel {
    if page.sign_in_running && !around.pending {
        SettingsModel { sign_in_running: false, sign_in_for: None, ..page }
    } else {
        page
    }
}

/// A dialog a sign-in raised, or asks for, is up.
pub open spec fn is_taken(page: SettingsModel, around: Surroundings) -> bool {
    ||| around.state == SessionState::Authorizing(Some(SignInPrompt::Accounts))
    ||| page.manual_secret is Some && around.state == SessionState::Authorizing(
        Some(SignInPrompt::Secret),
    )
    ||| page.credentials_for is Some
}

/// The typefaces are to be read: they are about to be listed, and were not read yet.
pub open spec fn wants_fonts(page: SettingsModel) -> bool {
    (page.tab == SettingsTab::Appearance || is_searching(page) || page.picker == Some(TYPEFACES@))
        && page.installed is None && !page.loading_fonts
}

/// What one frame of the page shows. A prompt a sign-in raised hides the choice behind it, and
/// the choice holds the veil until that prompt arrives. A dialog takes the key focus once, since
/// escape only reaches the page from inside it.
pub open spec fn frame_of(page: SettingsModel, around: Surroundings, choices: Choices) -> Frame {
    let now = settled(page, around);
    let taken = is_taken(now, around);
    let choice = now.sign_in_for is Some && !taken;
    let dialog = taken || choice || now.scrobble_prompt is Some;
    Frame {
        load_fonts: wants_fonts(page),
        languages: languages_follow(page, choices).1,
        typefaces: typefaces_follow(page, choices).1,
        accounts: around.state == SessionState::Authorizing(Some(SignInPrompt::Accounts)),
        secret: now.manual_secret is Some && around.state == SessionState::Authorizing(
            Some(SignInPrompt::Secret),
        ),
        credentials: now.credentials_for is Some,
        scrobble: now.scrobble_prompt is Some,
        choice,
        focus: dialog && !page.grabbed,
        profile: page.tab == SettingsTab::General && !is_searching(page),
        team: page.tab == SettingsTab::About && !is_searching(page),
    }
}

/// The page after a frame was drawn.
pub open spec fn after_frame(page: SettingsModel, around: Surroundings, choices: Choices) ->
    SettingsModel {
    let now = settled(page, around);
    let frame = frame_of(page, around, choices);
    SettingsModel {
        loading_fonts: page.loading_fonts || frame.load_fonts,
        languages: languages_follow(page, choices).0,
        typefaces: typefaces_follow(page, choices).0,
        grabbed: is_taken(now, around) || frame.choice || frame.scrobble,
        ..now
    }
}

/// What a click on the page asks of the session.
#[derive(Clone, Debug, PartialEq, Eq)]
pub enum Effect {
    Nothing,
    /// Sign in to the provider's server.
    Server { slug: String, server: String, username: String, password: String },
    /// Sign in to the provider that way.
    SignIn { slug: String, method: SignIn },
    /// Start a sign-in whose cookies will be pasted.
    Cookies { slug: String },
    /// Switch to the account kept for the provider.
    Switch { slug: String },
    /// Sign out of the provider.
    Forget { slug: String },
    /// Hand over what the session asked for.
    Submit(String),
    /// Abandon the sign-in.
    Cancel,
}

/// What a click on the page asks of the session, as mathematics.
pub enum EffectModel {
    Nothing,
    Server { slug: Seq<char>, server: Seq<char>, username: Seq<char>, password: Seq<char> },
    SignIn { slug: Seq<char>, method: SignIn },
    Cookies { slug: Seq<char> },
    Switch { slug: Seq<char> },
    Forget { slug: Seq<char> },
    Submit(Seq<char>),
    Cancel,
}

impl View for Effect {
    type V = EffectModel;

    open spec fn view(&self) -> EffectModel {
        match self {
            Effect::Nothing => EffectModel::Nothing,
            Effect::Server { slug, server, username, password } => EffectModel::Server {
                slug: slug@,
                server: server@,
                username: username@,
                password: password@,
            },
            Effect::SignIn { slug, method } => EffectModel::SignIn { slug: slug@, method: *method },
            Effect::Cookies { slug } => EffectModel::Cookies { slug: slug@ },
            Effect::Switch { slug } => EffectModel::Switch { slug: slug@ },
            Effect::Forget { slug } => EffectModel::Forget { slug: slug@ },
            Effect::Submit(text) => EffectModel::Submit(text@),
            Effect::Cancel => EffectModel::Cancel,
        }
    }
}

/// The page once a category was asked for: that one shows, no search is on and no picker is open.
pub open spec fn selected_of(page: SettingsModel, tab: SettingsTab) -> SettingsModel {
    SettingsModel { tab, text: Seq::empty(), picker: None, ..page }
}

/// A sign-in starts the way the provider asks for it.
pub open spec fn started_of(page: SettingsModel, slug: Seq<char>, name: Seq<char>, start: Start) ->
    (SettingsModel, EffectModel) {
    match start {
        Start::Nothing => (page, EffectModel::Nothing),
        Start::Credentials => (
            SettingsModel { credentials_for: Some(slug), ..page },
            EffectModel::Nothing,
        ),
        Start::Manual => (
            SettingsModel { manual_secret: Some((slug, name)), ..page },
            EffectModel::Cookies { slug },
        ),
        Start::SignIn(method) => (page, EffectModel::SignIn { slug, method }),
        Start::Choice => (
            SettingsModel { sign_in_for: Some((slug, name)), ..page },
            EffectModel::Nothing,
        ),
    }
}

/// The page after the card of a provider was clicked, and what that asks of the session. The card
/// of an account that is kept takes the radio at once; a sign-in leaves it with nobody until it
/// is over.
pub open spec fn account_pressed(
    page: SettingsModel,
    account: Account,
    provider: Provider,
    pending: bool,
) -> (SettingsModel, EffectModel) {
    let slug = provider.slug@;
    match account_card_of(account, pending).press {
        Press::Switch => (
            SettingsModel { chosen: Some(slug), ..page },
            EffectModel::Switch { slug },
        ),
        Press::SignIn => started_of(
            SettingsModel { chosen: None, ..page },
            slug,
            provider.name@,
            start_of(provider.options@, provider.web_sign_in),
        ),
        _ => (page, EffectModel::Nothing),
    }
}

/// The page after the guest card was clicked, and what that asks of the session. Either way the
/// guest card takes the radio.
pub open spec fn guest_pressed(page: SettingsModel, guest: Guest, slug: Seq<char>, pending: bool) ->
    (SettingsModel, EffectModel) {
    let after = SettingsModel { chosen: Some(GUEST@), ..page };
    match guest_card_of(guest, pending).press {
        Press::Switch => (after, EffectModel::Switch { slug }),
        Press::Anonymous => (after, EffectModel::SignIn { slug, method: SignIn::Anonymous }),
        _ => (page, EffectModel::Nothing),
    }
}

/// The page after the right end of a card was clicked, and what that asks of the session. The
/// arrow is no button of its own, and signing out takes nothing while it is disabled.
pub open spec fn trailing_pressed(page: SettingsModel, end: Trailing, slug: Seq<char>) -> (
    SettingsModel,
    EffectModel,
) {
    match end {
        Trailing::Cancel => (
            SettingsModel { manual_secret: None, credentials_for: None, ..page },
            EffectModel::Cancel,
        ),
        Trailing::SignOut { disabled: false } => (
            SettingsModel { chosen: None, ..page },
            EffectModel::Forget { slug },
        ),
        _ => (page, EffectModel::Nothing),
    }
}

/// The page after a button of the choice dialog was pressed, and what that asks of the session.
/// The dialog stays up until the sign-in is over.
pub open spec fn method_pressed(
    page: SettingsModel,
    does: Pressed,
    slug: Seq<char>,
    name: Seq<char>,
    pending: bool,
) -> (SettingsModel, EffectModel) {
    let running = SettingsModel { sign_in_running: true, ..page };
    if pending {
        (page, EffectModel::Nothing)
    } else {
        match does {
            Pressed::Credentials => (
                SettingsModel { credentials_for: Some(slug), ..running },
                EffectModel::Nothing,
            ),
            Pressed::Manual => (
                SettingsModel { manual_secret: Some((slug, name)), ..running },
                EffectModel::Cookies { slug },
            ),
            Pressed::SignIn(method) => (running, EffectModel::SignIn { slug, method }),
        }
    }
}

/// The page once the installed typefaces were read. A picker that is open already puts its cursor
/// on the typeface in use, now that it can be found.
pub open spec fn fonts_read_of(page: SettingsModel, names: Seq<Seq<char>>, choices: Choices) ->
    SettingsModel {
    let now = SettingsModel { installed: Some(names), loading_fonts: false, ..page };
    if page.picker == Some(TYPEFACES@) {
        SettingsModel {
            typefaces: placed_of(now.typefaces, typeface_entry(now, choices)),
            ..now
        }
    } else {
        now
    }
}

/// The name at a place of a list, when it holds one.
pub open spec fn entry_at(names: Seq<Seq<char>>, place: int) -> Option<Seq<char>> {
    if 0 <= place < names.len() {
        Some(names[place])
    } else {
        None
    }
}

impl SettingsView {
    /// The page as it comes up.
    pub fn new() -> (page: Self)
        ensures
            page@ == (SettingsModel {
                tab: SettingsTab::General,
                text: Seq::empty(),
                picker: None,
                languages: PopupModel { at: 0, asked: Seq::empty(), open: false },
                typefaces: PopupModel { at: 0, asked: Seq::empty(), open: false },
                credentials_for: None,
                manual_secret: None,
                scrobble_prompt: None,
                sign_in_for: None,
                sign_in_running: false,
                chosen: None,
                grabbed: false,
                installed: None,
                loading_fonts: false,
            }),
    {
        SettingsView {
            tab: SettingsTab::General,
            text: String::new(),
            picker: None,
            languages: SearchPopup::new(),
            typefaces: SearchPopup::new(),
            credentials_for: None,
            manual_secret: None,
            scrobble_prompt: None,
            sign_in_for: None,
            sign_in_running: false,
            chosen: None,
            grabbed: false,
            installed: None,
            loading_fonts: false,
        }
    }

    /// Shows one category and ends any search, so a route always lands on a plain page. The
    /// answer is whether the search field has to be emptied.
    pub fn select(&mut self, tab: SettingsTab) -> (empties: bool)
        ensures
            final(self)@ == selected_of(old(self)@, tab),
            empties == (old(self)@.text.len() > 0),
    {
        self.tab = tab;
        self.picker = None;
        let empties = !self.text.as_str().is_empty();
        self.text = String::new();
        empties
    }

    /// Takes the text of the search field. A search swaps the rows for hits from every category,
    /// so the page scrolls to its top when one starts, which the answer says.
    pub fn search(&mut self, text: &str) -> (rewinds: bool)
        ensures
            final(self)@ == (SettingsModel { text: text@, ..old(self)@ }),
            rewinds == (!is_searching(old(self)@) && is_searching(final(self)@)),
    {
        let before = self.searching();
        self.text = text.to_owned();
        !before && self.searching()
    }

    /// Whether the page shows hits rather than a category.
    pub fn searching(&self) -> (yes: bool)
        ensures
            yes == is_searching(self@),
    {
        !trim(self.text.as_str()).as_str().is_empty()
    }

    /// Opens a picker, in place of the one that is open.
    pub fn open_picker(&mut self, picker: &str)
        ensures
            final(self)@ == (SettingsModel { picker: Some(picker@), ..old(self)@ }),
    {
        self.picker = Some(picker.to_owned());
    }

    /// Closes the picker that is open.
    pub fn close_picker(&mut self)
        ensures
            final(self)@ == (SettingsModel { picker: None, ..old(self)@ }),
    {
        self.picker = None;
    }

    /// Whether a picker is open.
    pub fn shows(&self, picker: &str) -> (yes: bool)
        ensures
            yes == (self@.picker == Some(picker@)),
    {
        match &self.picker {
            Some(open) => same(open.as_str(), picker),
            None => false,
        }
    }

    /// Something was typed over the languages. The answer is whether the list is scrolled to its
    /// first entry.
    pub fn languages_typed(&mut self, text: &str) -> (rewinds: bool)
        ensures
            final(self)@ == (SettingsModel {
                languages: asked_of(old(self)@.languages, lowered(trimmed(text@))),
                ..old(self)@
            }),
            rewinds == (old(self)@.languages.asked != lowered(trimmed(text@))),
    {
        self.languages.changed(text)
    }

    /// Something was typed over the typefaces. The answer is whether the list is scrolled to its
    /// first entry.
    pub fn typefaces_typed(&mut self, text: &str) -> (rewinds: bool)
        ensures
            final(self)@ == (SettingsModel {
                typefaces: asked_of(old(self)@.typefaces, lowered(trimmed(text@))),
                ..old(self)@
            }),
            rewinds == (old(self)@.typefaces.asked != lowered(trimmed(text@))),
    {
        self.typefaces.changed(text)
    }

    /// What stands below the header of the page. The scores are those of the rows of every
    /// category, and only a search reads them.
    pub fn panel(&self, facts: &Facts, sayings: &Sayings, words: &Vec<WordScore>) -> (shown: Panel)
        requires
            is_searching(self@) ==> words@.len() == every_slot_of(*facts).len() && scores_fit(
                words@,
            ),
        ensures
            is_panel(shown, is_searching(self@), self@.tab, *facts, *sayings, words@),
    {
        panel(self.searching(), self.tab, facts, sayings, words)
    }

    /// The typefaces the query of their list answers with, by name.
    fn typeface_names(&self, choices: &Choices) -> (names: Vec<String>)
        ensures
            texts(names@) == entry_names(
                choices.fonts,
                known_fonts(self@),
                self@.typefaces.asked,
            ),
    {
        match &self.installed {
            Some(installed) => listed_names(&choices.fonts, installed, self.typefaces.query()),
            None => {
                let none: Vec<String> = Vec::new();
                assert(texts(none@) =~= Seq::empty());
                listed_names(&choices.fonts, &none, self.typefaces.query())
            },
        }
    }

    /// The entry the typeface list opens on.
    fn typeface_place(&self, choices: &Choices) -> (place: Option<usize>)
        ensures
            place == typeface_entry(self@, *choices),
    {
        match &self.installed {
            Some(installed) => typeface_selected(&choices.fonts, installed, self.typefaces.query()),
            None => {
                let none: Vec<String> = Vec::new();
                assert(texts(none@) =~= Seq::empty());
                typeface_selected(&choices.fonts, &none, self.typefaces.query())
            },
        }
    }

    /// The row of the typeface picker.
    pub fn typeface_row(
        &self,
        choices: &Choices,
        measured: Option<(usize, usize)>,
        faced: &Vec<String>,
    ) -> (row: TypefaceRow)
        ensures
            row@ == typeface_row_of(
                self@.picker == Some(TYPEFACES@),
                choices.fonts,
                known_fonts(self@),
                self@.typefaces,
                measured,
                name_set(faced@),
                self@.loading_fonts,
            ),
    {
        let picking = self.shows(TYPEFACES);
        match &self.installed {
            Some(installed) => typeface_row(
                picking,
                &choices.fonts,
                installed,
                &self.typefaces,
                measured,
                faced,
                self.loading_fonts,
            ),
            None => {
                let none: Vec<String> = Vec::new();
                assert(texts(none@) =~= Seq::empty());
                typeface_row(
                    picking,
                    &choices.fonts,
                    &none,
                    &self.typefaces,
                    measured,
                    faced,
                    self.loading_fonts,
                )
            },
        }
    }

    /// An entry of the typeface list was picked: it is the typeface to use from now on, and the
    /// picker closes. Nothing happens at a place the list does not hold.
    pub fn pick_typeface(&mut self, choices: &Choices, place: usize) -> (font: Option<String>)
        ensures
            maybe_text(font) == entry_at(
                entry_names(choices.fonts, known_fonts(old(self)@), old(self)@.typefaces.asked),
                place as int,
            ),
            final(self)@ == (if font is Some {
                SettingsModel { picker: None, ..old(self)@ }
            } else {
                old(self)@
            }),
    {
        let names = self.typeface_names(choices);
        assert(texts(names@).len() == names@.len());
        if place < names.len() {
            self.picker = None;
            Some(names[place].as_str().to_owned())
        } else {
            None
        }
    }

    /// The cursor steps through the typefaces, round the end. The answer is the entry to scroll to.
    pub fn walk_typefaces(&mut self, choices: &Choices, forward: bool) -> (scroll: Option<usize>)
        ensures
            ({
                let count = entry_names(
                    choices.fonts,
                    known_fonts(old(self)@),
                    old(self)@.typefaces.asked,
                ).len();
                &&& final(self)@ == (SettingsModel {
                    typefaces: walked_of(old(self)@.typefaces, count, forward),
                    ..old(self)@
                })
                &&& scroll == (if count == 0 {
                    None
                } else {
                    Some(final(self)@.typefaces.at)
                })
            }),
    {
        let names = self.typeface_names(choices);
        assert(texts(names@).len() == names@.len());
        self.typefaces.walk(names.len(), forward)
    }

    /// The row of the language picker. The first of the languages stands for the system's own.
    pub fn language_row(&self, ids: &Vec<String>, labels: &Vec<String>, chosen: &str) -> (row:
        LanguageRow)
        requires
            ids@.len() == labels@.len(),
        ensures
            row.current == language_current(texts(ids@), chosen@),
            row.items@ == language_items(texts(ids@), texts(labels@), chosen@, self@.languages),
            row.empty == (row.items@.len() == 0),
    {
        language_row(ids, labels, chosen, &self.languages)
    }

    /// The cursor steps through the languages, round the end. The answer is the entry to scroll
    /// to.
    pub fn walk_languages(&mut self, row: &LanguageRow, forward: bool) -> (scroll: Option<usize>)
        ensures
            final(self)@ == (SettingsModel {
                languages: walked_of(old(self)@.languages, row.items@.len(), forward),
                ..old(self)@
            }),
            scroll == (if row.items@.len() == 0 {
                None
            } else {
                Some(final(self)@.languages.at)
            }),
    {
        self.languages.walk(row.items.len(), forward)
    }

    /// An entry of the language list was picked: it is the language to use from now on, and the
    /// picker closes. Nothing happens at a place the list does not hold.
    pub fn pick_language(&mut self, row: &LanguageRow, place: usize) -> (language: Option<usize>)
        ensures
            language == (if place < row.items@.len() {
                Some(row.items@[place as int].place)
            } else {
                None
            }),
            final(self)@ == (if language is Some {
                SettingsModel { picker: None, ..old(self)@ }
            } else {
                old(self)@
            }),
    {
        let language = pick_language(row, place);
        if language.is_some() {
            self.picker = None;
        }
        language
    }

    /// Return was pressed over the languages: the entry under the cursor is picked, if there is
    /// any.
    pub fn submit_language(&mut self, row: &LanguageRow) -> (language: Option<usize>)
        ensures
            ({
                let count = row.items@.len();
                let place = held_inside(old(self)@.languages.at as nat, count);
                &&& language == (if count > 0 {
                    Some(row.items@[place as int].place)
                } else {
                    None
                })
                &&& final(self)@ == (if count > 0 {
                    SettingsModel { picker: None, ..old(self)@ }
                } else {
                    old(self)@
                })
            }),
    {
        match self.languages.submit(row.items.len()) {
            Some(place) => self.pick_language(row, place),
            None => None,
        }
    }

    /// Return was pressed over the typefaces: the entry under the cursor is picked, if there is
    /// any.
    pub fn submit_typeface(&mut self, choices: &Choices) -> (font: Option<String>)
        ensures
            ({
                let names = entry_names(
                    choices.fonts,
                    known_fonts(old(self)@),
                    old(self)@.typefaces.asked,
                );
                &&& maybe_text(font) == entry_at(
                    names,
                    held_inside(old(self)@.typefaces.at as nat, names.len()) as int,
                )
                &&& final(self)@ == (if names.len() > 0 {
                    SettingsModel { picker: None, ..old(self)@ }
                } else {
                    old(self)@
                })
            }),
    {
        let names = self.typeface_names(choices);
        assert(texts(names@).len() == names@.len());
        match self.typefaces.submit(names.len()) {
            Some(place) => self.pick_typeface(choices, place),
            None => None,
        }
    }

    /// Draws one frame.
    pub fn render(&mut self, around: Surroundings, choices: &Choices) -> (frame: Frame)
        ensures
            frame == frame_of(old(self)@, around, *choices),
            final(self)@ == after_frame(old(self)@, around, *choices),
    {
        let searching = self.searching();
        let picking_languages = self.shows(LANGUAGES);
        let picking_typefaces = self.shows(TYPEFACES);
        let load_fonts = (self.tab == SettingsTab::Appearance || searching || picking_typefaces)
            && self.installed.is_none() && !self.loading_fonts;
        if load_fonts {
            self.loading_fonts = true;
        }
        let language: Option<usize> = if picking_languages {
            Some(language_place(choices))
        } else {
            None
        };
        let languages = self.languages.sync(picking_languages, language);
        let typeface: Option<usize> = if picking_typefaces {
            self.typeface_place(choices)
        } else {
            None
        };
        let typefaces = self.typefaces.sync(picking_typefaces, typeface);
        if self.sign_in_running && !around.pending {
            self.sign_in_running = false;
            self.sign_in_for = None;
        }
        let asks: Option<SignInPrompt> = match around.state {
            SessionState::Authorizing(prompt) => prompt,
            _ => None,
        };
        let accounts = asks == Some(SignInPrompt::Accounts);
        let secret = self.manual_secret.is_some() && asks == Some(SignInPrompt::Secret);
        let credentials = self.credentials_for.is_some();
        let scrobble = self.scrobble_prompt.is_some();
        let taken = accounts || secret || credentials;
        let choice = self.sign_in_for.is_some() && !taken;
        let dialog = taken || choice || scrobble;
        let focus = dialog && !self.grabbed;
        self.grabbed = dialog;
        Frame {
            load_fonts,
            languages,
            typefaces,
            accounts,
            secret,
            credentials,
            scrobble,
            choice,
            focus,
            profile: self.tab == SettingsTab::General && !searching,
            team: self.tab == SettingsTab::About && !searching,
        }
    }

    /// The installed typefaces have been read. The answer is the entry an open list scrolls to.
    pub fn fonts_read(&mut self, names: Vec<String>, choices: &Choices) -> (scroll: Option<usize>)
        ensures
            final(self)@ == fonts_read_of(old(self)@, texts(names@), *choices),
            scroll == (if old(self)@.picker == Some(TYPEFACES@) {
                Some(lead_of(final(self)@.typefaces.at))
            } else {
                None
            }),
    {
        self.installed = Some(names);
        self.loading_fonts = false;
        if self.shows(TYPEFACES) {
            let place = self.typeface_place(choices);
            Some(self.typefaces.place(place))
        } else {
            None
        }
    }

    /// What the account cards depend on: the session, and the card that was switched to last.
    pub fn session(&self, around: Surroundings, authenticated: bool) -> (session: Session)
        ensures
            session.state == around.state,
            session.pending == around.pending,
            session.authenticated == authenticated,
            maybe_text(session.chosen) == self@.chosen,
    {
        Session {
            state: around.state,
            pending: around.pending,
            authenticated,
            chosen: copied(&self.chosen),
        }
    }

    /// Starts a sign-in the way the provider asks for it.
    fn start(&mut self, slug: &str, name: &str, start: Start) -> (effect: Effect)
        ensures
            (final(self)@, effect@) == started_of(old(self)@, slug@, name@, start),
    {
        match start {
            Start::Nothing => Effect::Nothing,
            Start::Credentials => {
                self.open_credentials(slug.to_owned());
                Effect::Nothing
            },
            Start::Manual => self.start_manual(slug.to_owned(), name.to_owned()),
            Start::SignIn(method) => Effect::SignIn { slug: slug.to_owned(), method },
            Start::Choice => {
                self.open_choice(slug.to_owned(), name.to_owned());
                Effect::Nothing
            },
        }
    }

    /// The card of a provider was clicked.
    pub fn press_account(&mut self, account: Account, provider: &Provider, pending: bool) -> (
        effect: Effect)
        ensures
            (final(self)@, effect@) == account_pressed(old(self)@, account, *provider, pending),
    {
        match account_card(account, pending).press {
            Press::Switch => {
                self.chosen = Some(provider.slug.as_str().to_owned());
                Effect::Switch { slug: provider.slug.as_str().to_owned() }
            },
            Press::SignIn => {
                self.chosen = None;
                let start = start_sign_in(&provider.options, provider.web_sign_in);
                self.start(provider.slug.as_str(), provider.name.as_str(), start)
            },
            _ => Effect::Nothing,
        }
    }

    /// The guest card was clicked. It drives the provider the anonymous session belongs to.
    pub fn press_guest(&mut self, guest: Guest, slug: &str, pending: bool) -> (effect: Effect)
        ensures
            (final(self)@, effect@) == guest_pressed(old(self)@, guest, slug@, pending),
    {
        match guest_card(guest, pending).press {
            Press::Switch => {
                self.chosen = Some(GUEST.to_owned());
                Effect::Switch { slug: slug.to_owned() }
            },
            Press::Anonymous => {
                self.chosen = Some(GUEST.to_owned());
                Effect::SignIn { slug: slug.to_owned(), method: SignIn::Anonymous }
            },
            _ => Effect::Nothing,
        }
    }

    /// The right end of a card was clicked.
    pub fn press_trailing(&mut self, end: Trailing, slug: &str) -> (effect: Effect)
        ensures
            (final(self)@, effect@) == trailing_pressed(old(self)@, end, slug@),
    {
        match end {
            Trailing::Cancel => self.abandon(),
            Trailing::Arrow => Effect::Nothing,
            Trailing::SignOut { disabled } => {
                if disabled {
                    Effect::Nothing
                } else {
                    self.chosen = None;
                    Effect::Forget { slug: slug.to_owned() }
                }
            },
        }
    }

    /// A button of the choice dialog was pressed. None does anything while the session is on its
    /// way.
    pub fn press_method(&mut self, does: Pressed, slug: &str, name: &str, pending: bool) -> (effect:
        Effect)
        ensures
            (final(self)@, effect@) == method_pressed(old(self)@, does, slug@, name@, pending),
    {
        if pending {
            return Effect::Nothing;
        }
        self.take_choice();
        match does {
            Pressed::Credentials => {
                self.open_credentials(slug.to_owned());
                Effect::Nothing
            },
            Pressed::Manual => self.start_manual(slug.to_owned(), name.to_owned()),
            Pressed::SignIn(method) => Effect::SignIn { slug: slug.to_owned(), method },
        }
    }

    /// Puts up the choice of sign-in methods.
    pub fn open_choice(&mut self, slug: String, provider: String)
        ensures
            final(self)@ == (SettingsModel {
                sign_in_for: Some((slug@, provider@)),
                ..old(self)@
            }),
    {
        self.sign_in_for = Some((slug, provider));
    }

    /// Takes down the choice of sign-in methods.
    pub fn close_sign_in(&mut self)
        ensures
            final(self)@ == (SettingsModel {
                sign_in_for: None,
                sign_in_running: false,
                ..old(self)@
            }),
    {
        self.sign_in_for = None;
        self.sign_in_running = false;
    }

    /// A button of the choice was pressed. The dialog stays up until the sign-in is over.
    pub fn take_choice(&mut self)
        ensures
            final(self)@ == (SettingsModel { sign_in_running: true, ..old(self)@ }),
    {
        self.sign_in_running = true;
    }

    /// Asks for a server's address and credentials.
    pub fn open_credentials(&mut self, slug: String)
        ensures
            final(self)@ == (SettingsModel { credentials_for: Some(slug@), ..old(self)@ }),
    {
        self.credentials_for = Some(slug);
    }

    /// Gives up on a server. The fields are emptied.
    pub fn abandon_credentials(&mut self)
        ensures
            final(self)@ == (SettingsModel { credentials_for: None, ..old(self)@ }),
    {
        self.credentials_for = None;
    }

    /// Signs in to the server that was asked about, once everything is filled in.
    pub fn submit_credentials(&mut self, server: String, username: String, password: String) -> (
        effect: Effect)
        ensures
            if old(self)@.credentials_for is Some && filled_in(server@, username@, password@) {
                &&& final(self)@ == (SettingsModel { credentials_for: None, ..old(self)@ })
                &&& effect@ == (EffectModel::Server {
                    slug: old(self)@.credentials_for->0,
                    server: server@,
                    username: username@,
                    password: password@,
                })
            } else {
                final(self)@ == old(self)@ && effect@ == EffectModel::Nothing
            },
    {
        let slug = match &self.credentials_for {
            Some(slug) => slug.clone(),
            None => {
                return Effect::Nothing;
            },
        };
        if !complete(server.as_str(), username.as_str(), password.as_str()) {
            return Effect::Nothing;
        }
        self.credentials_for = None;
        Effect::Server { slug, server, username, password }
    }

    /// Starts a sign-in whose cookies will be pasted.
    pub fn start_manual(&mut self, slug: String, provider: String) -> (effect: Effect)
        ensures
            final(self)@ == (SettingsModel {
                manual_secret: Some((slug@, provider@)),
                ..old(self)@
            }),
            effect@ == (EffectModel::Cookies { slug: slug@ }),
    {
        let to = slug.clone();
        self.manual_secret = Some((slug, provider));
        Effect::Cookies { slug: to }
    }

    /// Hands over the cookies that were pasted, unless nothing was.
    pub fn submit_secret(&mut self, text: String) -> (effect: Effect)
        ensures
            if trimmed(text@).len() > 0 {
                final(self)@ == (SettingsModel { manual_secret: None, ..old(self)@ }) && effect@
                    == EffectModel::Submit(text@)
            } else {
                final(self)@ == old(self)@ && effect@ == EffectModel::Nothing
            },
    {
        if blank(text.as_str()) {
            return Effect::Nothing;
        }
        self.manual_secret = None;
        Effect::Submit(text)
    }

    /// Gives up on the sign-in under way, whatever it asks for.
    pub fn abandon(&mut self) -> (effect: Effect)
        ensures
            final(self)@ == (SettingsModel {
                manual_secret: None,
                credentials_for: None,
                ..old(self)@
            }),
            effect@ == EffectModel::Cancel,
    {
        self.manual_secret = None;
        self.credentials_for = None;
        Effect::Cancel
    }

    /// Puts up the dialog that links a scrobbling service.
    pub fn open_scrobble(&mut self, service: String)
        ensures
            final(self)@ == (SettingsModel { scrobble_prompt: Some(service@), ..old(self)@ }),
    {
        self.scrobble_prompt = Some(service);
    }

    /// Takes down the dialog that links a scrobbling service.
    pub fn close_scrobble(&mut self)
        ensures
            final(self)@ == (SettingsModel { scrobble_prompt: None, ..old(self)@ }),
    {
        self.scrobble_prompt = None;
    }

    /// Closes the dialog that is up, topmost first, the way clicking outside it does. A
    /// prompt a sign-in raised takes the sign-in down with it.
    pub fn escape(&mut self, state: SessionState) -> (effect: Effect)
        ensures
            (final(self)@, effect@) == escaped(old(self)@, state),
    {
        if self.credentials_for.is_some() {
            self.abandon_credentials();
            return Effect::Nothing;
        }
        if self.scrobble_prompt.is_some() {
            self.close_scrobble();
            return Effect::Nothing;
        }
        let prompted = match state {
            SessionState::Authorizing(Some(_)) => true,
            _ => false,
        };
        if prompted {
            return self.abandon();
        }
        if self.sign_in_for.is_some() {
            self.close_sign_in();
        }
        Effect::Nothing
    }
}

/// The page after escape, and what that asks of the session.
pub open spec fn escaped(page: SettingsModel, state: SessionState) -> (SettingsModel, EffectModel) {
    if page.credentials_for is Some {
        (SettingsModel { credentials_for: None, ..page }, EffectModel::Nothing)
    } else if page.scrobble_prompt is Some {
        (SettingsModel { scrobble_prompt: None, ..page }, EffectModel::Nothing)
    } else if state matches SessionState::Authorizing(Some(_)) {
        (SettingsModel { manual_secret: None, ..page }, EffectModel::Cancel)
    } else if page.sign_in_for is Some {
        (SettingsModel { sign_in_for: None, sign_in_running: false, ..page }, EffectModel::Nothing)
    } else {
        (page, EffectModel::Nothing)
    }
}

/// The entry the language list opens on.
fn language_place(choices: &Choices) -> (place: usize)
    ensures
        place == language_entry(*choices),
{
    assert(choices.languages.len() == choices.languages@.len());
    language_selected(position(choices.language.as_str(), &choices.languages))
}

/// A route always lands on a plain page: whatever was searched for and whichever picker was open,
/// the category that was asked for shows, and the next frame closes both lists.
pub proof fn a_route_lands_on_a_plain_page(
    page: SettingsModel,
    tab: SettingsTab,
    around: Surroundings,
    choices: Choices,
)
    ensures
        ({
            let plain = selected_of(page, tab);
            let drawn = after_frame(plain, around, choices);
            &&& plain.tab == tab
            &&& !is_searching(plain)
            &&& plain.picker is None
            &&& drawn.tab == tab
            &&& !is_searching(drawn)
            &&& !drawn.languages.open
            &&& !drawn.typefaces.open
            &&& frame_of(plain, around, choices).profile == (tab == SettingsTab::General)
            &&& frame_of(plain, around, choices).team == (tab == SettingsTab::About)
        }),
{
}

/// Emptying the search field ends the search and changes nothing else, so asking for the category
/// that shows does no more than that and closing the picker.
pub proof fn selecting_ends_the_search(page: SettingsModel)
    ensures
        selected_of(page, page.tab) == (SettingsModel {
            text: Seq::empty(),
            picker: None,
            ..page
        }),
        selected_of(selected_of(page, page.tab), page.tab) == selected_of(page, page.tab),
        !is_searching(SettingsModel { text: Seq::empty(), ..page }),
{
}

/// The choice of sign-in methods is never up together with a prompt of a sign-in, and the two
/// prompts the session raises are never up together.
pub proof fn one_sign_in_dialog_at_most(
    page: SettingsModel,
    around: Surroundings,
    choices: Choices,
)
    ensures
        ({
            let frame = frame_of(page, around, choices);
            &&& frame.choice ==> !frame.accounts && !frame.secret && !frame.credentials
            &&& !(frame.accounts && frame.secret)
        }),
{
}

/// The focus is taken once for a dialog: drawing the same page again does not take it again, and
/// a page without a dialog never takes it.
pub proof fn focus_is_taken_once(page: SettingsModel, around: Surroundings, choices: Choices)
    ensures
        !frame_of(after_frame(page, around, choices), around, choices).focus,
        ({
            let frame = frame_of(page, around, choices);
            frame.focus ==> frame.accounts || frame.secret || frame.credentials || frame.scrobble
                || frame.choice
        }),
{
}

/// The typefaces are read once: a page that reads them or knows them does not start again.
pub proof fn fonts_are_read_once(page: SettingsModel, around: Surroundings, choices: Choices)
    ensures
        !frame_of(after_frame(page, around, choices), around, choices).load_fonts,
{
}

/// A list follows its picker: once a frame is drawn the list is open exactly where its picker is,
/// and drawing the same page again does nothing to it.
pub proof fn lists_follow_their_pickers(
    page: SettingsModel,
    around: Surroundings,
    choices: Choices,
)
    ensures
        ({
            let drawn = after_frame(page, around, choices);
            let again = frame_of(drawn, around, choices);
            &&& drawn.languages.open == (page.picker == Some(LANGUAGES@))
            &&& drawn.typefaces.open == (page.picker == Some(TYPEFACES@))
            &&& again.languages == Synced::Nothing
            &&& again.typefaces == Synced::Nothing
        }),
{
}

/// Whether the typefaces are read before their picker opens or while it is open, the cursor ends
/// up on the same entry: that of the typeface in use.
pub proof fn the_cursor_finds_the_typeface(
    page: SettingsModel,
    names: Seq<Seq<char>>,
    around: Surroundings,
    choices: Choices,
)
    requires
        page.picker == Some(TYPEFACES@),
        !page.typefaces.open,
        page.installed is None,
    ensures
        ({
            let late = fonts_read_of(after_frame(page, around, choices), names, choices);
            let early = after_frame(fonts_read_of(page, names, choices), around, choices);
            late.typefaces == early.typefaces
        }),
{
    let drawn = after_frame(page, around, choices);
    assert(drawn.typefaces.asked == page.typefaces.asked);
}

/// Escape always takes something down while a dialog is up, and changes nothing otherwise.
pub proof fn escape_takes_one_dialog(page: SettingsModel, around: Surroundings, choices: Choices)
    requires
        page == settled(page, around),
    ensures
        ({
            let frame = frame_of(page, around, choices);
            let up = frame.accounts || frame.secret || frame.credentials || frame.scrobble
                || frame.choice;
            &&& up ==> escaped(page, around.state) != (page, EffectModel::Nothing)
            &&& !up && !(around.state matches SessionState::Authorizing(Some(_))) ==> escaped(
                page,
                around.state,
            ) == (page, EffectModel::Nothing)
        }),
{
}

/// Nothing on a card or in the choice dialog does anything while the session is on its way, but
/// for a sign-in that is to be abandoned.
pub proof fn presses_wait_for_the_session(
    page: SettingsModel,
    account: Account,
    provider: Provider,
    guest: Guest,
    does: Pressed,
)
    ensures
        account_pressed(page, account, provider, true) == (page, EffectModel::Nothing),
        guest_pressed(page, guest, provider.slug@, true) == (page, EffectModel::Nothing),
        method_pressed(page, does, provider.slug@, provider.name@, true) == (
            page,
            EffectModel::Nothing,
        ),
        trailing_pressed(page, account_card_of(account, true).trailing, provider.slug@) != (
            page,
            EffectModel::Nothing,
        ) ==> account.cancel,
{
}

/// The card that was switched to takes the radio while the session is on its way: that of the
/// provider, or the guest's.
pub proof fn a_switch_takes_the_radio(
    page: SettingsModel,
    session: Session,
    listed: Seq<Provider>,
    account: Account,
    place: int,
)
    requires
        session.pending,
        0 <= place < listed.len(),
        account_card_of(account, false).press == Press::Switch,
        maybe_text(session.chosen) == account_pressed(page, account, listed[place], false).0.chosen,
    ensures
        account_of(session, listed[place]).active,
{
}

/// The guest card takes the radio once it was pressed, while the session is on its way.
pub proof fn the_guest_takes_the_radio(
    page: SettingsModel,
    session: Session,
    listed: Seq<Provider>,
    guest: Guest,
    slug: Seq<char>,
)
    requires
        session.pending,
        guest_card_of(guest, false).press != Press::Nothing,
        guest_of(session, listed) is Some,
        maybe_text(session.chosen) == guest_pressed(page, guest, slug, false).0.chosen,
    ensures
        guest_of(session, listed)->0.active,
{
}

/// Signing in and signing out leave no card chosen.
pub proof fn nobody_is_chosen_by_signing_in_or_out(
    page: SettingsModel,
    account: Account,
    provider: Provider,
)
    ensures
        account_card_of(account, false).press == Press::SignIn ==> account_pressed(
            page,
            account,
            provider,
            false,
        ).0.chosen is None,
        trailing_pressed(page, (Trailing::SignOut { disabled: false }), provider.slug@).0.chosen
            is None,
{
}

/// The category bar: the category clicked last is kept free of the hover shade until the pointer
/// leaves it, so the change of selection never flashes.
#[derive(Clone, Copy, Debug, PartialEq, Eq, Structural)]
pub struct SettingsHeader {
    pub calm: Option<SettingsTab>,
}

impl SettingsHeader {
    /// A category was clicked.
    pub fn click(&mut self, tab: SettingsTab)
        ensures
            final(self).calm == Some(tab),
    {
        self.calm = Some(tab);
    }

    /// The pointer came over a category or left it. The answer is whether that is to be drawn.
    pub fn hover(&mut self, tab: SettingsTab, hovered: bool) -> (changed: bool)
        ensures
            changed == (!hovered && old(self).calm == Some(tab)),
            final(self).calm == (if changed {
                None
            } else {
                old(self).calm
            }),
    {
        if !hovered && self.calm == Some(tab) {
            self.calm = None;
            true
        } else {
            false
        }
    }

    /// Whether a category is lit. A search lights none, since its rows come from all of them.
    pub fn lit(&self, tab: SettingsTab, chosen: SettingsTab, searching: bool) -> (yes: bool)
        ensures
            yes == (!searching && tab == chosen),
    {
        !searching && tab == chosen
    }
}

/// Starting a sign-in does what the way asks for and nothing else: a password opens its form, a
/// secret asks for the cookies of that provider, a plain way signs in by it, and several ways open
/// the choice.
pub proof fn a_start_does_what_it_asks(
    page: SettingsModel,
    slug: Seq<char>,
    name: Seq<char>,
    start: Start,
)
    ensures
        ({
            let (after, effect) = started_of(page, slug, name, start);
            &&& start is Nothing ==> after == page && effect is Nothing
            &&& start is Credentials ==> after.credentials_for == Some(slug) && effect is Nothing
            &&& start is Manual ==> after.manual_secret == Some((slug, name)) && effect
                == EffectModel::Cookies { slug }
            &&& start is Choice ==> after.sign_in_for == Some((slug, name)) && effect is Nothing
            &&& start matches Start::SignIn(method) ==> after == page && effect
                == EffectModel::SignIn { slug, method }
            &&& !(start is Credentials) ==> after.credentials_for == page.credentials_for
            &&& !(start is Manual) ==> after.manual_secret == page.manual_secret
            &&& !(start is Choice) ==> after.sign_in_for == page.sign_in_for
            &&& after.chosen == page.chosen && after.tab == page.tab && after.picker == page.picker
        }),
{
}

/// Pressing a card switches to its account where that is stored and not in use, and starts a
/// sign-in with its provider where it is not stored.
pub proof fn a_card_switches_or_signs_in(page: SettingsModel, account: Account, provider: Provider)
    requires
        !account.cancel,
    ensures
        ({
            let (after, effect) = account_pressed(page, account, provider, false);
            &&& account.stored && !account.active ==> effect == EffectModel::Switch {
                slug: provider.slug@,
            } && after.chosen == Some(provider.slug@)
            &&& account.stored && account.active ==> after == page && effect is Nothing
            &&& !account.stored ==> after.chosen is None && !(effect is Switch)
            &&& !account.stored && start_of(provider.options@, provider.web_sign_in)
                == Start::SignIn(SignIn::Default) ==> effect == EffectModel::SignIn {
                slug: provider.slug@,
                method: SignIn::Default,
            }
        }),
{
}

/// Pressing the guest's card switches to a guest that is stored, and signs in as one otherwise.
pub proof fn the_guest_switches_or_signs_in(page: SettingsModel, guest: Guest, slug: Seq<char>)
    ensures
        ({
            let (after, effect) = guest_pressed(page, guest, slug, false);
            &&& guest.active ==> after == page && effect is Nothing
            &&& !guest.active && guest.stored ==> effect == EffectModel::Switch { slug }
            &&& !guest.active && !guest.stored ==> effect == EffectModel::SignIn {
                slug,
                method: SignIn::Anonymous,
            }
            &&& !guest.active ==> after.chosen == Some("guest"@)
        }),
{
}

/// What stands at the end of a card cancels a sign-in, with its forms, or signs the account out,
/// unless it is disabled; the arrow does nothing.
pub proof fn the_end_of_a_card_undoes(page: SettingsModel, end: Trailing, slug: Seq<char>)
    ensures
        ({
            let (after, effect) = trailing_pressed(page, end, slug);
            &&& end is Cancel ==> effect is Cancel && after.manual_secret is None
                && after.credentials_for is None
            &&& end is Arrow ==> after == page && effect is Nothing
            &&& end matches Trailing::SignOut { disabled } ==> {
                &&& disabled ==> after == page && effect is Nothing
                &&& !disabled ==> effect == EffectModel::Forget { slug } && after.chosen is None
                    && after.manual_secret == page.manual_secret
            }
        }),
{
}

/// A button of the choice starts its own way and keeps the choice, as running, until it is over.
pub proof fn a_choice_runs_until_it_is_over(
    page: SettingsModel,
    does: Pressed,
    slug: Seq<char>,
    name: Seq<char>,
)
    ensures
        ({
            let (after, effect) = method_pressed(page, does, slug, name, false);
            &&& after.sign_in_running && after.sign_in_for == page.sign_in_for
            &&& does is Credentials ==> after.credentials_for == Some(slug) && effect is Nothing
            &&& does is Manual ==> after.manual_secret == Some((slug, name)) && effect
                == EffectModel::Cookies { slug }
            &&& does matches Pressed::SignIn(method) ==> effect == EffectModel::SignIn {
                slug,
                method,
            }
            &&& !(does is Credentials) ==> after.credentials_for == page.credentials_for
            &&& !(does is Manual) ==> after.manual_secret == page.manual_secret
        }),
        ({
            let over = settled(page, Surroundings { state: SessionState::SignedIn, pending: false });
            page.sign_in_running ==> over.sign_in_for is None && !over.sign_in_running
        }),
        ({
            let on = settled(page, Surroundings { state: SessionState::SignedIn, pending: true });
            on == page
        }),
{
}

/// Escape takes the form first, then the scrobbling dialog, then cancels what is being asked, then
/// closes the choice, one at a time.
pub proof fn escape_goes_from_the_front(page: SettingsModel, state: SessionState)
    ensures
        ({
            let (after, effect) = escaped(page, state);
            let asked = state matches SessionState::Authorizing(Some(_));
            &&& page.credentials_for is Some ==> after.credentials_for is None
                && after.scrobble_prompt == page.scrobble_prompt && after.sign_in_for
                == page.sign_in_for && effect is Nothing
            &&& page.credentials_for is None && page.scrobble_prompt is Some
                ==> after.scrobble_prompt is None && after.sign_in_for == page.sign_in_for && effect
                is Nothing
            &&& page.credentials_for is None && page.scrobble_prompt is None && asked ==> effect
                is Cancel && after.manual_secret is None && after.sign_in_for == page.sign_in_for
            &&& page.credentials_for is None && page.scrobble_prompt is None && !asked
                && page.sign_in_for is Some ==> after.sign_in_for is None && !after.sign_in_running
                && effect is Nothing
            &&& effect is Cancel ==> asked
        }),
{
}

/// The fonts are read once they may be needed: on the page of the looks, in a search, or while
/// one is picked; neither twice nor while they are being read.
pub proof fn fonts_are_read_when_needed(page: SettingsModel)
    ensures
        page.installed is Some ==> !wants_fonts(page),
        page.loading_fonts ==> !wants_fonts(page),
        page.installed is None && !page.loading_fonts ==> (wants_fonts(page) <==> page.tab
            is Appearance || is_searching(page) || page.picker == Some("typefaces"@)),
{
}

/// A search is on exactly while something is typed that is not white space.
pub proof fn white_space_is_no_search(page: SettingsModel)
    ensures
        is_searching(page) <==> !all_white(page.text),
{
    trimming_takes_white_space_alone(page.text);
}

/// Which dialogs are up: the accounts and the secret while the session asks for them, the form and
/// the scrobbling dialog while they are open, and the choice while it is open and no other sign-in
/// dialog is up. The profile and the team stand on their own pages, outside a search.
pub proof fn the_dialogs_that_are_open_are_up(
    page: SettingsModel,
    around: Surroundings,
    choices: Choices,
)
    requires
        !page.sign_in_running || around.pending,
    ensures
        ({
            let frame = frame_of(page, around, choices);
            let asks_accounts = around.state == SessionState::Authorizing(
                Some(SignInPrompt::Accounts),
            );
            let asks_secret = around.state == SessionState::Authorizing(
                Some(SignInPrompt::Secret),
            );
            &&& frame.accounts <==> asks_accounts
            &&& frame.secret <==> asks_secret && page.manual_secret is Some
            &&& frame.credentials <==> page.credentials_for is Some
            &&& frame.scrobble <==> page.scrobble_prompt is Some
            &&& frame.choice <==> page.sign_in_for is Some && !frame.accounts && !frame.secret
                && !frame.credentials
            &&& frame.focus <==> !page.grabbed && (frame.accounts || frame.secret
                || frame.credentials || frame.scrobble || frame.choice)
            &&& frame.profile <==> page.tab is General && !is_searching(page)
            &&& frame.team <==> page.tab is About && !is_searching(page)
        }),
{
}

/// The fonts that were read are known from then on, and no longer being read; nothing else of the
/// page changes but where the list of typefaces stands.
pub proof fn fonts_that_were_read_are_known(
    page: SettingsModel,
    names: Seq<Seq<char>>,
    choices: Choices,
)
    ensures
        ({
            let after = fonts_read_of(page, names, choices);
            &&& after.installed == Some(names)
            &&& !after.loading_fonts
            &&& known_fonts(after) == names
            &&& !wants_fonts(after)
            &&& after.tab == page.tab && after.text == page.text && after.picker == page.picker
            &&& after.typefaces.asked == page.typefaces.asked && after.typefaces.open
                == page.typefaces.open
            &&& page.picker != Some("typefaces"@) ==> after.typefaces == page.typefaces
        }),
        page.installed is None ==> known_fonts(page).len() == 0,
{
}

/// The language in use stands behind the entry for the system's own, which is the first.
pub proof fn the_language_stands_behind_the_systems(choices: Choices)
    requires
        choices.languages@.len() < usize::MAX,
    ensures
        texts(choices.languages@).contains(choices.language@) ==> {
            let entry = language_entry(choices);
            1 <= entry <= choices.languages@.len() && choices.languages@[entry - 1]@
                == choices.language@
        },
        !texts(choices.languages@).contains(choices.language@) ==> language_entry(choices) == 0,
{
    let all = texts(choices.languages@);
    the_first_place_holds_the_text(all, choices.language@);
    if let Some(place) = first_at(all, choices.language@) {
        assert(all[place] == choices.languages@[place]@);
        assert(all.contains(all[place]));
    }
}

/// A search starts from the top exactly when it begins.
pub proof fn a_search_that_begins_starts_at_the_top(
    page: &mut SettingsView,
    text: &str,
    rewinds: bool,
)
    requires
        call_ensures(SettingsView::search, (page, text), rewinds),
    ensures
        final(page)@.text == text@,
        rewinds <==> all_white(old(page)@.text) && !all_white(text@),
        final(page)@.tab == old(page)@.tab && final(page)@.picker == old(page)@.picker,
{
    white_space_is_no_search(old(page)@);
    white_space_is_no_search(final(page)@);
}

/// Going to a category ends the search and closes the picker; what was typed is emptied exactly
/// when there was anything.
pub proof fn a_category_ends_the_search(page: &mut SettingsView, tab: SettingsTab, empties: bool)
    requires
        call_ensures(SettingsView::select, (page, tab), empties),
    ensures
        final(page)@.tab == tab,
        final(page)@.text.len() == 0,
        final(page)@.picker is None,
        empties <==> old(page)@.text.len() > 0,
        final(page)@.credentials_for == old(page)@.credentials_for,
{
}

/// A language that is picked is the one at the place that was pressed, and picking one closes the
/// picker.
pub proof fn the_language_pressed_is_picked(
    page: &mut SettingsView,
    row: LanguageRow,
    place: usize,
    language: Option<usize>,
)
    requires
        call_ensures(SettingsView::pick_language, (page, &row, place), language),
    ensures
        place < row.items@.len() ==> language == Some(row.items@[place as int].place)
            && final(page)@.picker is None,
        place >= row.items@.len() ==> language is None && final(page)@ == old(page)@,
{
}

/// A form that is filled in signs in where it was opened for, with exactly what was filled in, and
/// closes; one that is not stays as it is.
pub proof fn a_filled_in_form_signs_in(
    page: &mut SettingsView,
    server: String,
    username: String,
    password: String,
    effect: Effect,
)
    requires
        call_ensures(SettingsView::submit_credentials, (page, server, username, password), effect),
    ensures
        old(page)@.credentials_for matches Some(slug) ==> {
            &&& filled_in(server@, username@, password@) ==> effect@ == (EffectModel::Server {
                slug,
                server: server@,
                username: username@,
                password: password@,
            }) && final(page)@.credentials_for is None
            &&& !filled_in(server@, username@, password@) ==> effect@ is Nothing && final(page)@
                == old(page)@
        },
        old(page)@.credentials_for is None ==> effect@ is Nothing && final(page)@ == old(page)@,
{
}

/// A secret is submitted as it was typed, unless it is white space.
pub proof fn a_secret_is_submitted_as_typed(page: &mut SettingsView, text: String, effect: Effect)
    requires
        call_ensures(SettingsView::submit_secret, (page, text), effect),
    ensures
        all_white(text@) ==> effect@ is Nothing && final(page)@ == old(page)@,
        !all_white(text@) ==> effect@ == EffectModel::Submit(text@) && final(page)@.manual_secret
            is None,
{
    trimming_takes_white_space_alone(text@);
}

/// A tab that was clicked stays calm until the pointer leaves it, and is lit exactly while it is
/// the one shown and nothing is searched for.
pub proof fn a_clicked_tab_stays_calm(
    header: &mut SettingsHeader,
    tab: SettingsTab,
    done: (),
    after: &mut SettingsHeader,
    hovered: bool,
    changed: bool,
)
    requires
        call_ensures(SettingsHeader::click, (header, tab), done),
        call_ensures(SettingsHeader::hover, (after, tab, hovered), changed),
        *old(after) == *final(header),
    ensures
        hovered ==> final(after).calm == Some(tab) && !changed,
        !hovered ==> final(after).calm is None && changed,
{
}

/// The tab that is shown is lit, outside a search.
pub proof fn the_tab_shown_is_lit(
    header: SettingsHeader,
    tab: SettingsTab,
    chosen: SettingsTab,
    searching: bool,
    yes: bool,
)
    requires
        call_ensures(SettingsHeader::lit, (&header, tab, chosen, searching), yes),
    ensures
        searching ==> !yes,
        !searching ==> (yes <==> tab == chosen),
{
}

/// A picker that was opened is the one shown, until it is closed.
pub proof fn a_picker_is_shown_until_it_is_closed(
    page: &mut SettingsView,
    picker: &str,
    opened: (),
    after: &mut SettingsView,
    closed: (),
)
    requires
        call_ensures(SettingsView::open_picker, (page, picker), opened),
        call_ensures(SettingsView::close_picker, (after,), closed),
        old(after)@ == final(page)@,
    ensures
        final(page)@ == (SettingsModel { picker: Some(picker@), ..old(page)@ }),
        final(after)@ == (SettingsModel { picker: None, ..old(page)@ }),
{
}

/// Abandoning a sign-in cancels it and closes its forms, but leaves the choice and the scrobbling
/// dialog as they are.
pub proof fn abandoning_closes_the_forms(page: &mut SettingsView, effect: Effect)
    requires
        call_ensures(SettingsView::abandon, (page,), effect),
    ensures
        effect@ is Cancel,
        final(page)@.manual_secret is None && final(page)@.credentials_for is None,
        final(page)@.sign_in_for == old(page)@.sign_in_for,
        final(page)@.scrobble_prompt == old(page)@.scrobble_prompt,
        final(page)@.chosen == old(page)@.chosen,
{
}

/// A choice that was opened is about its provider until it is closed.
pub proof fn a_choice_is_about_its_provider(
    page: &mut SettingsView,
    slug: String,
    provider: String,
    opened: (),
    after: &mut SettingsView,
    closed: (),
)
    requires
        call_ensures(SettingsView::open_choice, (page, slug, provider), opened),
        call_ensures(SettingsView::close_sign_in, (after,), closed),
        old(after)@ == final(page)@,
    ensures
        final(page)@ == (SettingsModel { sign_in_for: Some((slug@, provider@)), ..old(page)@ }),
        final(after)@.sign_in_for is None && !final(after)@.sign_in_running,
        final(after)@.credentials_for == old(page)@.credentials_for,
{
}

} // verus!
