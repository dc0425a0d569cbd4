//! The login screen.

use vstd::prelude::*;

use super::chrome::{radius_of, window_radius};
use super::sign_in::{
    complete, filled_in, blank, guest_from, guest_place, is_waiting, Provider, SessionState,
    SignIn, SignInPrompt,
};
use crate::platform::Os;
use crate::text::laws::{all_white, trimming_takes_white_space_alone};
use crate::text::{joined_pair, maybe_text, trimmed};

verus! {

/// What the line under the name says.
#[derive(Clone, Copy, Debug, PartialEq, Eq, Structural)]
pub enum Status {
    SignedOut,
    Restoring,
    Authorizing,
    /// Signed in, with the name of the account.
    SignedIn,
}

impl Status {
    /// The key of the line.
    pub fn key(self) -> (key: &'static str)
        ensures
            key == (match self {
                Status::SignedOut => "login-signed-out",
                Status::Restoring => "login-restoring",
                Status::Authorizing => "login-authorizing",
                Status::SignedIn => "login-signed-in",
            }),
    {
        match self {
            Status::SignedOut => "login-signed-out",
            Status::Restoring => "login-restoring",
            Status::Authorizing => "login-authorizing",
            Status::SignedIn => "login-signed-in",
        }
    }
}

/// What the screen shows.
#[derive(Clone, Copy, Debug, PartialEq, Eq, Structural)]
pub struct Shown {
    pub status: Status,
    /// The notice about a failed sign-in.
    pub failure: bool,
    /// The code to be typed on another page.
    pub code: bool,
    /// The link to a page to be opened.
    pub url: bool,
    /// The provider whose column is shown, by its place.
    pub column: Option<usize>,
    /// The column's buttons cannot be pressed.
    pub disabled: bool,
    /// The column has a button that abandons the sign-in.
    pub cancel: bool,
    /// The provider the guest button belongs to, by its place.
    pub guest: Option<usize>,
    /// The question about usage reports stands under the guest button.
    pub guest_consent: bool,
    /// The question about usage reports stands alone.
    pub orphan_consent: bool,
    /// The dialog that cookies are pasted into.
    pub secret: bool,
    /// The dialog for a server's address and credentials.
    pub credentials: bool,
    /// The dialog with the accounts to choose from.
    pub accounts: bool,
    /// How far the lower corners round.
    pub radius: Option<u32>,
}

/// The tab of a provider.
#[derive(Clone, Debug, PartialEq, Eq)]
pub struct LoginTab {
    pub id: String,
    /// The name of the provider.
    pub label: String,
    pub selected: bool,
}

/// The tab of a provider as mathematics.
pub struct LoginTabModel {
    pub id: Seq<char>,
    pub label: Seq<char>,
    pub selected: bool,
}

impl View for LoginTab {
    type V = LoginTabModel;

    open spec fn view(&self) -> LoginTabModel {
        LoginTabModel { id: self.id@, label: self.label@, selected: self.selected }
    }
}

/// Tabs as mathematics.
pub open spec fn seen_tabs(tabs: Seq<LoginTab>) -> Seq<LoginTabModel> {
    tabs.map_values(|tab: LoginTab| tab@)
}

/// The tabs of the providers, in their order. The one whose column is shown is selected.
pub open spec fn tabs_of(open: usize, providers: Seq<Provider>) -> Seq<LoginTabModel> {
    Seq::new(
        providers.len(),
        |i: int|
            LoginTabModel {
                id: "login-tab-"@ + providers[i].slug@,
                label: providers[i].name@,
                selected: i == open,
            },
    )
}

/// The screen with the tabs of its providers and the buttons of the column that is shown.
#[derive(Clone, Debug, PartialEq, Eq)]
pub struct Screen {
    pub shown: Shown,
    pub tabs: Vec<LoginTab>,
    pub buttons: Vec<LoginOption>,
}

/// What the screen is about to show, and what it knows.
#[derive(Clone, Debug, PartialEq, Eq)]
pub struct Situation {
    pub state: SessionState,
    pub pending: bool,
    pub providers: Vec<Provider>,
    /// The user is still to be asked about usage reports.
    pub asking: bool,
    pub os: Os,
    pub fullscreen: bool,
    /// The compositor draws the frame.
    pub server_side: bool,
    /// How far the settings round the window.
    pub rounding: Option<u32>,
}

/// The line under the name. While accounts are to be chosen from, or after a failure, nobody is
/// signed in.
pub open spec fn status_of(state: SessionState) -> Status {
    match state {
        SessionState::SignedOut => Status::SignedOut,
        SessionState::Restoring => Status::Restoring,
        SessionState::Authorizing(Some(SignInPrompt::Accounts)) => Status::SignedOut,
        SessionState::Authorizing(_) => Status::Authorizing,
        SessionState::SignedIn => Status::SignedIn,
        SessionState::Failed => Status::SignedOut,
    }
}

/// A place as an index.
pub open spec fn index_of(place: Option<int>) -> Option<usize> {
    match place {
        Some(place) => Some(place as usize),
        None => None,
    }
}

/// What the screen shows. The cookie dialog is up only while the session asks for cookies and the
/// user chose to paste them; a column can be abandoned while its own sign-in is under way and
/// waits for nothing that a dialog asks.
pub open spec fn shown_of(page: LoginView, situation: Situation) -> Shown {
    let state = situation.state;
    let providers = situation.providers@;
    let secret = page.manual_secret() && state == SessionState::Authorizing(
        Some(SignInPrompt::Secret),
    );
    let guest = guest_from(providers, 0);
    let waits = is_waiting(state) && !secret;
    let open = page.tab() < providers.len();
    Shown {
        status: status_of(state),
        failure: state == SessionState::Failed,
        code: state == SessionState::Authorizing(Some(SignInPrompt::Code)),
        url: state == SessionState::Authorizing(Some(SignInPrompt::Url)),
        column: if open {
            Some(page.tab())
        } else {
            None
        },
        disabled: situation.pending,
        cancel: open && waits && providers[page.tab() as int].pending,
        guest: index_of(guest),
        guest_consent: situation.asking && guest is Some,
        orphan_consent: situation.asking && guest is None,
        secret,
        credentials: page.credentials_for() is Some,
        accounts: state == SessionState::Authorizing(Some(SignInPrompt::Accounts)),
        radius: radius_of(
            situation.os,
            situation.fullscreen,
            situation.server_side,
            situation.rounding,
        ),
    }
}

/// The buttons of the column that is shown.
pub open spec fn shown_column(open: usize, providers: Seq<Provider>) -> Seq<LoginOptionModel> {
    if open < providers.len() {
        column_of(providers[open as int], providers[open as int].options@)
    } else {
        Seq::empty()
    }
}

/// What a click on the screen asks of the session.
#[derive(Clone, Debug, PartialEq, Eq)]
pub enum Effect {
    Nothing,
    /// Sign in to the provider that way.
    SignIn { slug: String, method: SignIn },
    /// Sign in to the provider's server.
    Server { slug: String, server: String, username: String, password: String },
    /// Start a sign-in whose cookies will be pasted.
    Cookies { slug: String },
    /// Hand over what the session asked for.
    Submit(String),
    /// Abandon the sign-in.
    Cancel,
}

/// What a click on the screen did: what it asks of the session, and whether it counts as the user
/// having acted.
#[derive(Clone, Debug, PartialEq, Eq)]
pub struct Outcome {
    pub effect: Effect,
    pub acted: bool,
}

/// The login screen: the provider whose server is asked about, whether cookies are to be pasted,
/// and the tab that is open. The fields of its dialogs are emptied whenever a dialog closes.
#[derive(Clone, Debug, PartialEq, Eq)]
pub struct LoginView {
    credentials_for: Option<String>,
    manual_secret: bool,
    tab: usize,
}

impl LoginView {
    /// The provider whose server is asked about.
    pub closed spec fn credentials_for(self) -> Option<Seq<char>> {
        maybe_text(self.credentials_for)
    }

    /// Whether cookies are to be pasted.
    pub closed spec fn manual_secret(self) -> bool {
        self.manual_secret
    }

    /// The tab that is open.
    pub closed spec fn tab(self) -> usize {
        self.tab
    }

    /// The screen as it comes up.
    pub fn new() -> (page: Self)
        ensures
            page.credentials_for() is None,
            !page.manual_secret(),
            page.tab() == 0,
    {
        LoginView { credentials_for: None, manual_secret: false, tab: 0 }
    }

    /// What the screen shows.
    pub fn render(&self, situation: &Situation) -> (screen: Screen)
        ensures
            screen.shown == shown_of(*self, *situation),
            seen_tabs(screen.tabs@) == tabs_of(self.tab(), situation.providers@),
            seen_options(screen.buttons@) == shown_column(self.tab(), situation.providers@),
    {
        let buttons = if self.tab < situation.providers.len() {
            column(&situation.providers[self.tab])
        } else {
            Vec::new()
        };
        assert(self.tab >= situation.providers@.len() ==> seen_options(buttons@) =~= Seq::empty());
        Screen { shown: self.show(situation), tabs: self.tabs(&situation.providers), buttons }
    }

    /// The tabs of the providers.
    pub fn tabs(&self, providers: &Vec<Provider>) -> (tabs: Vec<LoginTab>)
        ensures
            seen_tabs(tabs@) == tabs_of(self.tab(), providers@),
    {
        let mut tabs: Vec<LoginTab> = Vec::new();
        let mut index: usize = 0;
        let ghost wanted = tabs_of(self.tab, providers@);
        assert(seen_tabs(tabs@) =~= wanted.take(0));
        while index < providers.len()
            invariant
                index <= providers@.len(),
                wanted == tabs_of(self.tab, providers@),
                seen_tabs(tabs@) == wanted.take(index as int),
            decreases providers@.len() - index,
        {
            let provider = &providers[index];
            let ghost before = seen_tabs(tabs@);
            let tab = LoginTab {
                id: joined_pair("login-tab-", provider.slug.as_str()),
                label: provider.name.as_str().to_owned(),
                selected: index == self.tab,
            };
            assert(tab@ == wanted[index as int]);
            tabs.push(tab);
            assert(seen_tabs(tabs@) =~= before.push(wanted[index as int]));
            index = index + 1;
            assert(seen_tabs(tabs@) =~= wanted.take(index as int));
        }
        assert(wanted.take(index as int) =~= wanted);
        tabs
    }

    /// What the screen shows beside its tabs and the buttons of its column.
    fn show(&self, situation: &Situation) -> (shown: Shown)
        ensures
            shown == shown_of(*self, *situation),
    {
        let state = situation.state;
        let asks: Option<SignInPrompt> = match state {
            SessionState::Authorizing(prompt) => prompt,
            _ => None,
        };
        let secret = self.manual_secret && asks == Some(SignInPrompt::Secret);
        let accounts = asks == Some(SignInPrompt::Accounts);
        let authorizing = match state {
            SessionState::Authorizing(_) => true,
            _ => false,
        };
        let waits = authorizing && !accounts && !secret;
        let guest = guest_place(&situation.providers);
        let open = self.tab < situation.providers.len();
        let status = match state {
            SessionState::SignedOut => Status::SignedOut,
            SessionState::Restoring => Status::Restoring,
            SessionState::Authorizing(Some(SignInPrompt::Accounts)) => Status::SignedOut,
            SessionState::Authorizing(_) => Status::Authorizing,
            SessionState::SignedIn => Status::SignedIn,
            SessionState::Failed => Status::SignedOut,
        };
        Shown {
            status,
            failure: state == SessionState::Failed,
            code: asks == Some(SignInPrompt::Code),
            url: asks == Some(SignInPrompt::Url),
            column: if open {
                Some(self.tab)
            } else {
                None
            },
            disabled: situation.pending,
            cancel: open && waits && situation.providers[self.tab].pending,
            guest,
            guest_consent: situation.asking && guest.is_some(),
            orphan_consent: situation.asking && guest.is_none(),
            secret,
            credentials: self.credentials_for.is_some(),
            accounts,
            radius: window_radius(
                situation.os,
                situation.fullscreen,
                situation.server_side,
                situation.rounding,
            ),
        }
    }

    /// Opens another tab.
    pub fn open_tab(&mut self, tab: usize) -> (outcome: Outcome)
        ensures
            final(self).tab() == tab,
            final(self).credentials_for() == old(self).credentials_for(),
            final(self).manual_secret() == old(self).manual_secret(),
            outcome == (Outcome { effect: Effect::Nothing, acted: true }),
    {
        self.tab = tab;
        Outcome { effect: Effect::Nothing, acted: true }
    }

    /// Starts a sign-in.
    pub fn start(&mut self, slug: String, method: SignIn) -> (outcome: Outcome)
        ensures
            !final(self).manual_secret(),
            final(self).credentials_for() == old(self).credentials_for(),
            final(self).tab() == old(self).tab(),
            outcome == (Outcome { effect: Effect::SignIn { slug, method }, acted: true }),
    {
        self.manual_secret = false;
        Outcome { effect: Effect::SignIn { slug, method }, acted: true }
    }

    /// Starts a sign-in whose cookies will be pasted.
    pub fn start_manual(&mut self, slug: String) -> (outcome: Outcome)
        ensures
            final(self).manual_secret(),
            final(self).credentials_for() == old(self).credentials_for(),
            final(self).tab() == old(self).tab(),
            outcome == (Outcome { effect: Effect::Cookies { slug }, acted: true }),
    {
        self.manual_secret = true;
        Outcome { effect: Effect::Cookies { slug }, acted: true }
    }

    /// Asks for a server's address and credentials.
    pub fn open_credentials(&mut self, slug: String) -> (outcome: Outcome)
        ensures
            final(self).credentials_for() == Some(slug@),
            final(self).manual_secret() == old(self).manual_secret(),
            final(self).tab() == old(self).tab(),
            outcome == (Outcome { effect: Effect::Nothing, acted: true }),
    {
        self.credentials_for = Some(slug);
        Outcome { effect: Effect::Nothing, acted: true }
    }

    /// Gives up on a server.
    pub fn abandon_credentials(&mut self) -> (outcome: Outcome)
        ensures
            final(self).credentials_for() is None,
            final(self).manual_secret() == old(self).manual_secret(),
            final(self).tab() == old(self).tab(),
            outcome == (Outcome { effect: Effect::Nothing, acted: true }),
    {
        self.credentials_for = None;
        Outcome { effect: Effect::Nothing, acted: true }
    }

    /// Gives up on the sign-in under way, whatever it asks for.
    pub fn abandon(&mut self) -> (outcome: Outcome)
        ensures
            final(self).credentials_for() is None,
            !final(self).manual_secret(),
            final(self).tab() == old(self).tab(),
            outcome == (Outcome { effect: Effect::Cancel, acted: true }),
    {
        self.credentials_for = None;
        self.manual_secret = false;
        Outcome { effect: Effect::Cancel, acted: true }
    }

    /// Signs in to the server that was asked about, once everything is filled in.
    pub fn submit_credentials(&mut self, server: String, username: String, password: String) -> (
        outcome: Outcome)
        ensures
            final(self).tab() == old(self).tab(),
            if old(self).credentials_for() is Some && filled_in(server@, username@, password@) {
                &&& final(self).credentials_for() is None
                &&& !final(self).manual_secret()
                &&& outcome.acted
                &&& outcome.effect matches Effect::Server {
                    slug,
                    server: to,
                    username: user,
                    password: word,
                } && Some(slug@) == old(self).credentials_for() && to == server && user
                    == username && word == password
            } else {
                &&& final(self).credentials_for() == old(self).credentials_for()
                &&& final(self).manual_secret() == old(self).manual_secret()
                &&& outcome == (Outcome { effect: Effect::Nothing, acted: false })
            },
    {
        let slug = match &self.credentials_for {
            Some(slug) => slug.clone(),
            None => {
                return Outcome { effect: Effect::Nothing, acted: false };
            },
        };
        if !complete(server.as_str(), username.as_str(), password.as_str()) {
            return Outcome { effect: Effect::Nothing, acted: false };
        }
        self.credentials_for = None;
        self.manual_secret = false;
        Outcome { effect: Effect::Server { slug, server, username, password }, acted: true }
    }

    /// Hands over the cookies that were pasted, unless nothing was.
    pub fn submit_secret(&mut self, text: String) -> (outcome: Outcome)
        ensures
            final(self).tab() == old(self).tab(),
            final(self).credentials_for() == old(self).credentials_for(),
            if trimmed(text@).len() > 0 {
                !final(self).manual_secret() && outcome == (Outcome {
                    effect: Effect::Submit(text),
                    acted: true,
                })
            } else {
                final(self).manual_secret() == old(self).manual_secret() && outcome == (Outcome {
                    effect: Effect::Nothing,
                    acted: false,
                })
            },
    {
        if blank(text.as_str()) {
            return Outcome { effect: Effect::Nothing, acted: false };
        }
        self.manual_secret = false;
        Outcome { effect: Effect::Submit(text), acted: true }
    }
}

/// A sign-in that was abandoned leaves no dialog of the screen's own open, whatever the session
/// goes on to ask.
pub proof fn abandoning_closes_the_dialogs(page: LoginView, situation: Situation)
    requires
        page.credentials_for() is None,
        !page.manual_secret(),
    ensures
        !shown_of(page, situation).secret,
        !shown_of(page, situation).credentials,
{
}

/// The question about usage reports is put in at most one place, and whenever it is to be put.
pub proof fn consent_is_asked_once(page: LoginView, situation: Situation)
    ensures
        !(shown_of(page, situation).guest_consent && shown_of(page, situation).orphan_consent),
        situation.asking <==> shown_of(page, situation).guest_consent || shown_of(
            page,
            situation,
        ).orphan_consent,
        shown_of(page, situation).guest_consent ==> shown_of(page, situation).guest is Some,
{
}

/// The tab that is selected is that of the column that is shown, and no other is.
pub proof fn the_open_tab_is_selected(page: LoginView, situation: Situation, place: int)
    requires
        0 <= place < situation.providers@.len() <= usize::MAX,
    ensures
        tabs_of(page.tab(), situation.providers@)[place].selected <==> shown_of(
            page,
            situation,
        ).column == Some(place as usize),
{
}

/// What a button of a provider's column is labelled with.
#[derive(Clone, Debug, PartialEq, Eq)]
pub enum OptionLabel {
    /// Sign in, naming the provider.
    SignIn,
    /// Use the provider as it is, naming it.
    Use,
    /// Paste the cookies by hand.
    Manual,
    /// The provider's own label, at that key.
    Own(String),
}

/// What a button of a provider's column does.
#[derive(Clone, Copy, Debug, PartialEq, Eq, Structural)]
pub enum LoginAction {
    SignIn(SignIn),
    Credentials,
    Cookies,
}

/// One button of a provider's column.
#[derive(Clone, Debug, PartialEq, Eq)]
pub struct LoginOption {
    pub id: String,
    pub label: OptionLabel,
    pub action: LoginAction,
    pub primary: bool,
}

/// What a button is labelled with, as mathematics.
pub enum OptionLabelModel {
    SignIn,
    Use,
    Manual,
    Own(Seq<char>),
}

/// One button as mathematics.
pub struct LoginOptionModel {
    pub id: Seq<char>,
    pub label: OptionLabelModel,
    pub action: LoginAction,
    pub primary: bool,
}

impl View for OptionLabel {
    type V = OptionLabelModel;

    open spec fn view(&self) -> OptionLabelModel {
        match self {
            OptionLabel::SignIn => OptionLabelModel::SignIn,
            OptionLabel::Use => OptionLabelModel::Use,
            OptionLabel::Manual => OptionLabelModel::Manual,
            OptionLabel::Own(key) => OptionLabelModel::Own(key@),
        }
    }
}

impl View for LoginOption {
    type V = LoginOptionModel;

    open spec fn view(&self) -> LoginOptionModel {
        LoginOptionModel {
            id: self.id@,
            label: self.label@,
            action: self.action,
            primary: self.primary,
        }
    }
}

/// Buttons as mathematics.
pub open spec fn seen_options(options: Seq<LoginOption>) -> Seq<LoginOptionModel> {
    options.map_values(|option: LoginOption| option@)
}

/// The id of a button that signs in to a provider.
pub open spec fn button_id(slug: Seq<char>, suffix: Seq<char>) -> Seq<char> {
    "sign-in-"@ + slug + suffix
}

/// The buttons of one way to sign in. Cookies come from a window of the app's own where one can
/// be opened, and can always be pasted.
pub open spec fn buttons_of(provider: Provider, method: SignIn) -> Seq<LoginOptionModel> {
    let slug = provider.slug@;
    match method {
        SignIn::Secret => (if provider.web_sign_in {
            seq![
                LoginOptionModel {
                    id: button_id(slug, "-cookies"@),
                    label: match provider.web_sign_in_label {
                        Some(key) => OptionLabelModel::Own(key@),
                        None => OptionLabelModel::SignIn,
                    },
                    action: LoginAction::SignIn(SignIn::Secret),
                    primary: true,
                },
            ]
        } else {
            Seq::empty()
        }).push(
            LoginOptionModel {
                id: button_id(slug, "-cookies-manual"@),
                label: OptionLabelModel::Manual,
                action: LoginAction::Cookies,
                primary: false,
            },
        ),
        SignIn::Default => seq![
            LoginOptionModel {
                id: button_id(slug, ""@),
                label: OptionLabelModel::SignIn,
                action: LoginAction::SignIn(SignIn::Default),
                primary: true,
            },
        ],
        SignIn::Anonymous => seq![
            LoginOptionModel {
                id: button_id(slug, "-guest"@),
                label: OptionLabelModel::Use,
                action: LoginAction::SignIn(SignIn::Anonymous),
                primary: true,
            },
        ],
        SignIn::Path => seq![
            LoginOptionModel {
                id: button_id(slug, "-path"@),
                label: OptionLabelModel::SignIn,
                action: LoginAction::SignIn(SignIn::Path),
                primary: false,
            },
        ],
        SignIn::Credentials => seq![
            LoginOptionModel {
                id: button_id(slug, "-server"@),
                label: OptionLabelModel::SignIn,
                action: LoginAction::Credentials,
                primary: true,
            },
        ],
    }
}

/// The buttons of a provider's column. Guest mode has a button of its own under the columns.
pub open spec fn column_of(provider: Provider, options: Seq<SignIn>) -> Seq<LoginOptionModel>
    decreases options.len(),
{
    if options.len() == 0 {
        Seq::empty()
    } else {
        let above = column_of(provider, options.drop_last());
        if options.last() == SignIn::Anonymous {
            above
        } else {
            above + buttons_of(provider, options.last())
        }
    }
}

/// The id of a button that signs in to a provider.
fn make_id(slug: &str, suffix: &str) -> (id: String)
    ensures
        id@ == button_id(slug@, suffix@),
{
    let mut id = joined_pair("sign-in-", slug);
    id.append(suffix);
    id
}

/// The buttons of one way to sign in.
pub fn option_buttons(provider: &Provider, method: SignIn) -> (options: Vec<LoginOption>)
    ensures
        seen_options(options@) == buttons_of(*provider, method),
{
    let slug = provider.slug.as_str();
    let mut options: Vec<LoginOption> = Vec::new();
    match method {
        SignIn::Secret => {
            if provider.web_sign_in {
                let label = match &provider.web_sign_in_label {
                    Some(key) => OptionLabel::Own(key.clone()),
                    None => OptionLabel::SignIn,
                };
                options.push(
                    LoginOption {
                        id: make_id(slug, "-cookies"),
                        label,
                        action: LoginAction::SignIn(SignIn::Secret),
                        primary: true,
                    },
                );
            }
            options.push(
                LoginOption {
                    id: make_id(slug, "-cookies-manual"),
                    label: OptionLabel::Manual,
                    action: LoginAction::Cookies,
                    primary: false,
                },
            );
        },
        SignIn::Default => {
            options.push(
                LoginOption {
                    id: make_id(slug, ""),
                    label: OptionLabel::SignIn,
                    action: LoginAction::SignIn(SignIn::Default),
                    primary: true,
                },
            );
        },
        SignIn::Anonymous => {
            options.push(
                LoginOption {
                    id: make_id(slug, "-guest"),
                    label: OptionLabel::Use,
                    action: LoginAction::SignIn(SignIn::Anonymous),
                    primary: true,
                },
            );
        },
        SignIn::Path => {
            options.push(
                LoginOption {
                    id: make_id(slug, "-path"),
                    label: OptionLabel::SignIn,
                    action: LoginAction::SignIn(SignIn::Path),
                    primary: false,
                },
            );
        },
        SignIn::Credentials => {
            options.push(
                LoginOption {
                    id: make_id(slug, "-server"),
                    label: OptionLabel::SignIn,
                    action: LoginAction::Credentials,
                    primary: true,
                },
            );
        },
    }
    assert(seen_options(options@) =~= buttons_of(*provider, method));
    options
}

/// The buttons of a provider's column.
pub fn column(provider: &Provider) -> (options: Vec<LoginOption>)
    ensures
        seen_options(options@) == column_of(*provider, provider.options@),
{
    let mut options: Vec<LoginOption> = Vec::new();
    let mut index: usize = 0;
    let ghost methods = provider.options@;
    assert(methods.take(0) =~= Seq::empty());
    assert(seen_options(options@) =~= Seq::empty());
    while index < provider.options.len()
        invariant
            index <= provider.options@.len(),
            methods == provider.options@,
            seen_options(options@) == column_of(*provider, methods.take(index as int)),
        decreases provider.options@.len() - index,
    {
        let method = provider.options[index];
        let ghost above = seen_options(options@);
        assert(methods.take(index + 1).drop_last() =~= methods.take(index as int));
        if method != SignIn::Anonymous {
            let mut more = option_buttons(provider, method);
            let ghost added = seen_options(more@);
            options.append(&mut more);
            assert(seen_options(options@) =~= above + added);
        }
        index = index + 1;
    }
    assert(methods.take(index as int) =~= methods);
    options
}

/// What the page says of a session: that it is signed out also where it failed and where it asks
/// which account to use, and the words of every state are its own.
pub proof fn a_session_is_told_as_it_is(page: LoginView, situation: Situation)
    ensures
        ({
            let shown = shown_of(page, situation);
            let state = situation.state;
            &&& state is SignedOut ==> shown.status is SignedOut
            &&& state is Restoring ==> shown.status is Restoring
            &&& state is SignedIn ==> shown.status is SignedIn
            &&& state is Failed ==> shown.status is SignedOut
            &&& state matches SessionState::Authorizing(None) ==> shown.status is Authorizing
            &&& state matches SessionState::Authorizing(Some(prompt)) ==> {
                &&& prompt is Accounts ==> shown.status is SignedOut
                &&& !(prompt is Accounts) ==> shown.status is Authorizing
                &&& shown.accounts <==> prompt is Accounts
                &&& shown.code <==> prompt is Code
                &&& shown.url <==> prompt is Url
                &&& shown.secret <==> prompt is Secret && page.manual_secret()
            }
            &&& shown.failure <==> state is Failed
            &&& !(state is Authorizing) ==> !shown.accounts && !shown.code && !shown.url
                && !shown.secret && !shown.cancel
            &&& shown.credentials <==> page.credentials_for() is Some
            &&& shown.disabled == situation.pending
        }),
{
}

/// A sign-in can be cancelled exactly on the open tab whose provider it is, while it waits for
/// anything but a choice of accounts or a secret that is typed in here.
pub proof fn a_wait_can_be_cancelled(page: LoginView, situation: Situation)
    ensures
        shown_of(page, situation).cancel ==> page.tab() < situation.providers@.len()
            && situation.providers@[page.tab() as int].pending && situation.state is Authorizing
            && !shown_of(page, situation).accounts && !shown_of(page, situation).secret,
        page.tab() < situation.providers@.len() && situation.providers@[page.tab() as int].pending
            && situation.state is Authorizing && !shown_of(page, situation).accounts && !shown_of(
            page,
            situation,
        ).secret ==> shown_of(page, situation).cancel,
        page.tab() < situation.providers@.len() <==> shown_of(page, situation).column is Some,
{
}

/// There is a tab for every provider, under its name and its own id.
pub proof fn every_provider_has_its_tab(open: usize, providers: Seq<Provider>, place: int)
    requires
        0 <= place < providers.len(),
    ensures
        tabs_of(open, providers).len() == providers.len(),
        tabs_of(open, providers)[place].label == providers[place].name@,
        tabs_of(open, providers)[place].id == "login-tab-"@ + providers[place].slug@,
        tabs_of(open, providers)[place].selected <==> place == open,
{
}

/// The words of every status.
pub proof fn a_status_has_its_words(status: Status, key: &'static str)
    requires
        call_ensures(Status::key, (status,), key),
    ensures
        status is SignedOut ==> key == "login-signed-out",
        status is Restoring ==> key == "login-restoring",
        status is Authorizing ==> key == "login-authorizing",
        status is SignedIn ==> key == "login-signed-in",
{
}

/// Every way to sign in has a button that starts it and no other. A secret can always be pasted
/// by hand, and is fetched by a window of its own first where the provider has one.
pub proof fn a_button_starts_its_own_way(provider: Provider, method: SignIn)
    ensures
        ({
            let buttons = buttons_of(provider, method);
            &&& method is Default ==> buttons.len() == 1 && buttons[0].action
                == LoginAction::SignIn(SignIn::Default) && buttons[0].primary && buttons[0].label
                is SignIn
            &&& method is Anonymous ==> buttons.len() == 1 && buttons[0].action
                == LoginAction::SignIn(SignIn::Anonymous) && buttons[0].primary && buttons[0].label
                is Use
            &&& method is Path ==> buttons.len() == 1 && buttons[0].action == LoginAction::SignIn(
                SignIn::Path,
            ) && !buttons[0].primary && buttons[0].label is SignIn
            &&& method is Credentials ==> buttons.len() == 1 && buttons[0].action is Credentials
                && buttons[0].primary && buttons[0].label is SignIn
            &&& method is Secret && !provider.web_sign_in ==> buttons.len() == 1
            &&& method is Secret && provider.web_sign_in ==> buttons.len() == 2 && buttons[0].action
                == LoginAction::SignIn(SignIn::Secret) && buttons[0].primary && buttons[0].label
                == (match provider.web_sign_in_label {
                Some(own) => OptionLabelModel::Own(own@),
                None => OptionLabelModel::SignIn,
            })
            &&& method is Secret ==> buttons.last().action is Cookies && !buttons.last().primary
                && buttons.last().label is Manual
        }),
{
}

/// A button is known by its provider and the way it starts.
pub proof fn a_button_has_its_own_id(provider: Provider)
    ensures
        ({
            let slug = provider.slug@;
            let front = "sign-in-"@ + slug;
            &&& buttons_of(provider, SignIn::Default)[0].id == front
            &&& buttons_of(provider, SignIn::Anonymous)[0].id == front + "-guest"@
            &&& buttons_of(provider, SignIn::Path)[0].id == front + "-path"@
            &&& buttons_of(provider, SignIn::Credentials)[0].id == front + "-server"@
            &&& buttons_of(provider, SignIn::Secret).last().id == front + "-cookies-manual"@
            &&& provider.web_sign_in ==> buttons_of(provider, SignIn::Secret)[0].id == front
                + "-cookies"@
        }),
{
    reveal_strlit("");
    let front = "sign-in-"@ + provider.slug@;
    assert(front + ""@ =~= front);
}

/// The column has the buttons of every way the provider offers, in its order, but for signing in
/// as a guest, which stands elsewhere.
pub proof fn the_column_offers_every_way(provider: Provider, options: Seq<SignIn>, last: SignIn)
    ensures
        column_of(provider, Seq::empty()).len() == 0,
        last is Anonymous ==> column_of(provider, options.push(last)) == column_of(
            provider,
            options,
        ),
        !(last is Anonymous) ==> column_of(provider, options.push(last)) == column_of(
            provider,
            options,
        ) + buttons_of(provider, last),
{
    assert(options.push(last).drop_last() =~= options);
}

/// A form that is filled in signs in where it was opened for, with exactly what was filled in, and
/// closes; one that is not stays as it is.
pub proof fn a_filled_in_form_signs_in(
    page: &mut LoginView,
    server: String,
    username: String,
    password: String,
    outcome: Outcome,
)
    requires
        call_ensures(LoginView::submit_credentials, (page, server, username, password), outcome),
    ensures
        final(page).tab() == old(page).tab(),
        old(page).credentials_for() matches Some(wanted) ==> {
            &&& filled_in(server@, username@, password@) ==> {
                &&& outcome.acted && final(page).credentials_for() is None
                &&& outcome.effect matches Effect::Server {
                    slug,
                    server: to,
                    username: user,
                    password: word,
                } && slug@ == wanted && to == server && user == username && word == password
            }
            &&& !filled_in(server@, username@, password@) ==> !outcome.acted && outcome.effect
                is Nothing && final(page).credentials_for() == Some(wanted)
        },
        old(page).credentials_for() is None ==> !outcome.acted && outcome.effect is Nothing,
{
}

/// A secret is submitted as it was typed, unless it is white space.
pub proof fn a_secret_is_submitted_as_typed(page: &mut LoginView, text: String, outcome: Outcome)
    requires
        call_ensures(LoginView::submit_secret, (page, text), outcome),
    ensures
        all_white(text@) ==> !outcome.acted && outcome.effect is Nothing
            && final(page).manual_secret() == old(page).manual_secret(),
        !all_white(text@) ==> outcome.acted && outcome.effect == Effect::Submit(text)
            && !final(page).manual_secret(),
{
    trimming_takes_white_space_alone(text@);
}

/// Starting a sign-in is for the provider and the way that were pressed.
pub proof fn a_press_starts_its_own_sign_in(
    page: &mut LoginView,
    slug: String,
    method: SignIn,
    outcome: Outcome,
    other: &mut LoginView,
    manual: Outcome,
)
    requires
        call_ensures(LoginView::start, (page, slug, method), outcome),
        call_ensures(LoginView::start_manual, (other, slug), manual),
    ensures
        outcome.effect == (Effect::SignIn { slug, method }) && outcome.acted,
        !final(page).manual_secret(),
        manual.effect == (Effect::Cookies { slug }) && manual.acted,
        final(other).manual_secret(),
{
}

/// The column is that of the provider whose tab is open.
pub proof fn the_column_is_of_the_open_tab(open: usize, providers: Seq<Provider>)
    ensures
        open < providers.len() ==> shown_column(open, providers) == column_of(
            providers[open as int],
            providers[open as int].options@,
        ),
        open >= providers.len() ==> shown_column(open, providers).len() == 0,
{
}

} // verus!
