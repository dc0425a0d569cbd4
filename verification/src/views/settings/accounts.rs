//! The accounts on the settings page: the provider cards, the guest card, and how a sign-in is
//! started from one.

use vstd::prelude::*;

use super::super::sign_in::{
    guest_from, guest_place, is_waiting, offers_guest, the_guest_is_the_first_offered, waiting,
    Provider, SessionState, SignIn,
};
use crate::text::{
    first_at, join, joined, joined_pair, maybe_place, maybe_text, position, same, texts,
    the_first_place_holds_the_text,
};

verus! {

/// What the guest card answers to, where a provider card answers to its slug.
pub const GUEST: &'static str = "guest";

/// What the cards depend on beside the providers themselves.
#[derive(Clone, Debug, PartialEq, Eq)]
pub struct Session {
    pub state: SessionState,
    /// The session is on its way up or down.
    pub pending: bool,
    /// An account is signed in, and not a guest.
    pub authenticated: bool,
    /// The card the user just switched to, by slug or as the guest. Its radio fills while the
    /// session tears the old provider down and brings the new one up, which reports nothing
    /// active in between.
    pub chosen: Option<String>,
}

/// What a provider's card shows.
#[derive(Clone, Copy, Debug, PartialEq, Eq, Structural)]
pub struct Account {
    pub stored: bool,
    pub active: bool,
    pub cancel: bool,
    pub failed: bool,
}

/// What the guest card shows. It is a card of the app's own, not a provider: it stands for the
/// anonymous session a provider offers, so signing out of it signs that provider out.
#[derive(Clone, Copy, Debug, PartialEq, Eq, Structural)]
pub struct Guest {
    /// The provider that offers the session, by its place.
    pub place: usize,
    pub stored: bool,
    pub active: bool,
}

/// The card the user switched to counts only while the session is on its way.
pub open spec fn picked(session: Session) -> Option<Seq<char>> {
    if session.pending {
        maybe_text(session.chosen)
    } else {
        None
    }
}

/// What a provider's card shows. A session on its way up reports no account yet, so while it
/// loads the card it belongs to keeps the radio rather than leaving the list blank.
pub open spec fn account_of(session: Session, provider: Provider) -> Account {
    Account {
        stored: provider.stored && !provider.guest,
        active: match picked(session) {
            Some(picked) => picked == provider.slug@,
            None => if session.pending {
                provider.active && !provider.guest
            } else {
                provider.active && session.state != SessionState::SignedOut
                    && session.authenticated
            },
        },
        cancel: is_waiting(session.state) && provider.pending,
        failed: provider.failed,
    }
}

/// What the guest card shows, when a provider offers an anonymous session at all. A guest run
/// leaves that provider's own card connected to nothing, so only this card reports it.
pub open spec fn guest_of(session: Session, providers: Seq<Provider>) -> Option<Guest> {
    match guest_from(providers, 0) {
        None => None,
        Some(place) => {
            let provider = providers[place];
            Some(
                Guest {
                    place: place as usize,
                    stored: provider.guest,
                    active: match picked(session) {
                        Some(picked) => picked == GUEST@,
                        None => if session.pending {
                            provider.active && provider.guest
                        } else {
                            provider.active && session.state != SessionState::SignedOut
                                && !session.authenticated
                        },
                    },
                },
            )
        },
    }
}

/// Whether the card of that name is the one the user switched to, when there is one.
fn switched_to(session: &Session, name: &str) -> (yes: Option<bool>)
    ensures
        yes == (match picked(*session) {
            Some(picked) => Some(picked == name@),
            None => None,
        }),
{
    if !session.pending {
        return None;
    }
    match &session.chosen {
        Some(chosen) => Some(same(chosen.as_str(), name)),
        None => None,
    }
}

/// What a provider's card shows.
pub fn account(session: &Session, provider: &Provider) -> (shown: Account)
    ensures
        shown == account_of(*session, *provider),
{
    let active = match switched_to(session, provider.slug.as_str()) {
        Some(yes) => yes,
        None => if session.pending {
            provider.active && !provider.guest
        } else {
            provider.active && session.state != SessionState::SignedOut && session.authenticated
        },
    };
    Account {
        stored: provider.stored && !provider.guest,
        active,
        cancel: waiting(session.state) && provider.pending,
        failed: provider.failed,
    }
}

/// The provider accounts as plain data, shared by the row, its height and its search
/// entry, so the three never disagree about what is shown.
pub fn providers(session: &Session, listed: &Vec<Provider>) -> (accounts: Vec<Account>)
    ensures
        accounts@ == listed@.map_values(|provider: Provider| account_of(*session, provider)),
{
    let mut accounts: Vec<Account> = Vec::new();
    let mut index: usize = 0;
    let ghost wanted = listed@.map_values(|provider: Provider| account_of(*session, provider));
    while index < listed.len()
        invariant
            index <= listed@.len(),
            wanted.len() == listed@.len(),
            forall|i: int| 0 <= i < listed@.len() ==> wanted[i] == account_of(*session, listed@[i]),
            accounts@ == wanted.take(index as int),
        decreases listed@.len() - index,
    {
        accounts.push(account(session, &listed[index]));
        index = index + 1;
        assert(accounts@ =~= wanted.take(index as int));
    }
    assert(accounts@ =~= wanted);
    accounts
}

/// What the guest card shows, when a provider offers an anonymous session at all.
pub fn guest(session: &Session, listed: &Vec<Provider>) -> (shown: Option<Guest>)
    ensures
        shown == guest_of(*session, listed@),
{
    let place = match guest_place(listed) {
        Some(place) => place,
        None => {
            return None;
        },
    };
    let provider = &listed[place];
    let active = match switched_to(session, GUEST) {
        Some(yes) => yes,
        None => if session.pending {
            provider.active && provider.guest
        } else {
            provider.active && session.state != SessionState::SignedOut && !session.authenticated
        },
    };
    Some(Guest { place, stored: provider.guest, active })
}

/// At most one provider plays at a time, no two share a slug and none answers to the guest's.
pub open spec fn distinct(listed: Seq<Provider>) -> bool {
    &&& forall|i: int, j: int|
        0 <= i < j < listed.len() ==> (#[trigger] listed[i]).slug@ != (#[trigger] listed[j]).slug@
            && !(listed[i].active && listed[j].active)
    &&& forall|i: int| 0 <= i < listed.len() ==> (#[trigger] listed[i]).slug@ != GUEST@
}

/// At most one radio is filled: no two cards of providers report that they play, and none does
/// while the guest card does.
pub proof fn one_radio_at_most(session: Session, listed: Seq<Provider>, left: int, right: int)
    requires
        distinct(listed),
        0 <= left < listed.len(),
        0 <= right < listed.len(),
    ensures
        left != right ==> !(account_of(session, listed[left]).active && account_of(
            session,
            listed[right],
        ).active),
        guest_of(session, listed) matches Some(guest) && guest.active ==> !account_of(
            session,
            listed[left],
        ).active,
{
    super::super::sign_in::the_guest_is_the_first_offered(listed, 0);
    if left < right {
        assert(listed[left].slug@ != listed[right].slug@);
    } else if right < left {
        assert(listed[right].slug@ != listed[left].slug@);
    }
    if let Some(guest) = guest_of(session, listed) {
        let place = guest_from(listed, 0)->0;
        if place < left {
            assert(!(listed[place].active && listed[left].active));
        } else if left < place {
            assert(!(listed[left].active && listed[place].active));
        }
        assert(listed[left].slug@ != GUEST@);
    }
}

/// The names of the providers.
pub open spec fn names_of(listed: Seq<Provider>) -> Seq<Seq<char>> {
    listed.map_values(|provider: Provider| provider.name@)
}

/// The words the accounts row answers a search with: every provider name, and the guest
/// entry, under its own title, when one is shown.
pub fn account_words(listed: &Vec<Provider>, guest: bool, title: &str) -> (words: String)
    ensures
        words@ == joined(
            if guest {
                names_of(listed@).push(title@)
            } else {
                names_of(listed@)
            },
            seq![' '],
        ),
{
    let mut names: Vec<String> = Vec::new();
    let mut index: usize = 0;
    proof {
        reveal_strlit(" ");
        assert(" "@ =~= seq![' ']);
    }
    assert(texts(names@) =~= names_of(listed@).take(0));
    while index < listed.len()
        invariant
            index <= listed@.len(),
            texts(names@) == names_of(listed@).take(index as int),
        decreases listed@.len() - index,
    {
        let ghost earlier = texts(names@);
        names.push(listed[index].name.clone());
        assert(texts(names@) =~= earlier.push(names_of(listed@)[index as int]));
        index = index + 1;
        assert(texts(names@) =~= names_of(listed@).take(index as int));
    }
    assert(texts(names@) =~= names_of(listed@));
    if guest {
        names.push(title.to_owned());
        assert(texts(names@) =~= names_of(listed@).push(title@));
    }
    join(&names, " ")
}

/// What a whole account card does when it is clicked.
#[derive(Clone, Copy, Debug, PartialEq, Eq, Structural)]
pub enum Press {
    /// Nothing.
    Nothing,
    /// The session switches to the account kept for it, and the card takes the radio.
    Switch,
    /// A sign-in is started.
    SignIn,
    /// A session without an account is started, and the card takes the radio.
    Anonymous,
}

/// What sits at the right end of a card: the one button it has while an account is
/// connected, the same shape carrying a cancel while a sign-in is in flight, and an arrow
/// for a card whose whole surface starts a sign-in.
#[derive(Clone, Copy, Debug, PartialEq, Eq, Structural)]
pub enum Trailing {
    Cancel,
    Arrow,
    SignOut { disabled: bool },
}

/// What a card comes down to.
#[derive(Clone, Copy, Debug, PartialEq, Eq)]
pub struct Card {
    pub status: Option<&'static str>,
    pub selected: bool,
    pub trailing: Trailing,
    pub press: Press,
}

/// What sits at the right end of a card.
pub open spec fn trailing_of(stored: bool, cancel: bool, pending: bool) -> Trailing {
    if cancel {
        Trailing::Cancel
    } else if !stored {
        Trailing::Arrow
    } else {
        Trailing::SignOut { disabled: pending }
    }
}

/// What a provider's card comes down to. Nothing on it is pressed while the session is on its
/// way, while its own sign-in is in flight, or while it is the one that plays.
pub open spec fn account_card_of(account: Account, pending: bool) -> Card {
    Card {
        status: Some(
            if account.active {
                "settings-provider-current"
            } else if account.stored {
                "settings-provider-connected"
            } else {
                "settings-provider-none"
            },
        ),
        selected: account.active,
        trailing: trailing_of(account.stored, account.cancel, pending),
        press: if pending || account.cancel || (account.stored && account.active) {
            Press::Nothing
        } else if account.stored {
            Press::Switch
        } else {
            Press::SignIn
        },
    }
}

/// What the guest card comes down to.
pub open spec fn guest_card_of(guest: Guest, pending: bool) -> Card {
    Card {
        status: if guest.active {
            Some("settings-provider-guest")
        } else {
            None
        },
        selected: guest.active,
        trailing: trailing_of(guest.active, false, pending),
        press: if pending || guest.active {
            Press::Nothing
        } else if guest.stored {
            Press::Switch
        } else {
            Press::Anonymous
        },
    }
}

/// What sits at the right end of a card.
pub fn trailing(stored: bool, cancel: bool, pending: bool) -> (end: Trailing)
    ensures
        end == trailing_of(stored, cancel, pending),
{
    if cancel {
        Trailing::Cancel
    } else if !stored {
        Trailing::Arrow
    } else {
        Trailing::SignOut { disabled: pending }
    }
}

/// What a provider's card comes down to.
pub fn account_card(account: Account, pending: bool) -> (card: Card)
    ensures
        card == account_card_of(account, pending),
{
    let status: &'static str = match (account.active, account.stored) {
        (true, _) => "settings-provider-current",
        (false, true) => "settings-provider-connected",
        (false, false) => "settings-provider-none",
    };
    let press = match (account.cancel, account.stored, account.active) {
        (true, _, _) | (_, true, true) => Press::Nothing,
        (false, true, false) => Press::Switch,
        (false, false, _) => Press::SignIn,
    };
    Card {
        status: Some(status),
        selected: account.active,
        trailing: trailing(account.stored, account.cancel, pending),
        press: if pending {
            Press::Nothing
        } else {
            press
        },
    }
}

/// What the guest card comes down to.
pub fn guest_card(guest: Guest, pending: bool) -> (card: Card)
    ensures
        card == guest_card_of(guest, pending),
{
    let press = match (guest.stored, guest.active) {
        (_, true) => Press::Nothing,
        (true, false) => Press::Switch,
        (false, false) => Press::Anonymous,
    };
    Card {
        status: if guest.active {
            Some("settings-provider-guest")
        } else {
            None
        },
        selected: guest.active,
        trailing: trailing(guest.active, false, pending),
        press: if pending {
            Press::Nothing
        } else {
            press
        },
    }
}

/// The ways to sign in a provider card lists. Anonymous never appears there, because guest
/// mode has a card of its own, and a stored account is asked for nothing.
pub open spec fn is_offered(method: SignIn, stored: bool) -> bool {
    match method {
        SignIn::Default | SignIn::Secret | SignIn::Credentials => !stored,
        SignIn::Anonymous | SignIn::Path => false,
    }
}

/// Which sign-in methods a provider card lists.
pub fn offered(method: SignIn, stored: bool) -> (yes: bool)
    ensures
        yes == is_offered(method, stored),
{
    match method {
        SignIn::Default | SignIn::Secret | SignIn::Credentials => !stored,
        SignIn::Anonymous | SignIn::Path => false,
    }
}

/// How many buttons one sign-in method draws.
pub open spec fn method_count_of(method: SignIn, web_sign_in: bool) -> nat {
    if method == SignIn::Secret && web_sign_in {
        2
    } else {
        1
    }
}

/// How many buttons one sign-in method draws: the method itself, and the manual paste beside
/// a cookie one. A provider that draws exactly one never opens the choice dialog.
pub fn method_count(method: SignIn, web_sign_in: bool) -> (count: usize)
    ensures
        count == method_count_of(method, web_sign_in),
{
    if method == SignIn::Secret && web_sign_in {
        2
    } else {
        1
    }
}

/// The methods a card without an account lists.
pub open spec fn methods_of(options: Seq<SignIn>) -> Seq<SignIn>
    decreases options.len(),
{
    if options.len() == 0 {
        Seq::empty()
    } else {
        let above = methods_of(options.drop_last());
        if is_offered(options.last(), false) {
            above.push(options.last())
        } else {
            above
        }
    }
}

/// How a sign-in starts.
#[derive(Clone, Copy, Debug, PartialEq, Eq, Structural)]
pub enum Start {
    /// It does not.
    Nothing,
    /// A server's address and credentials are asked for.
    Credentials,
    /// The cookies are to be pasted.
    Manual,
    /// Straight through.
    SignIn(SignIn),
    /// The choice is put up in a dialog.
    Choice,
}

/// How a sign-in starts: the way the provider asks for it. One method goes straight through,
/// a server asks for its address and credentials, and anything with a choice to make puts
/// the choice up in a dialog.
pub open spec fn start_of(options: Seq<SignIn>, web_sign_in: bool) -> Start {
    let methods = methods_of(options);
    if methods.len() == 0 {
        Start::Nothing
    } else if methods.len() > 1 {
        Start::Choice
    } else if methods[0] == SignIn::Credentials {
        Start::Credentials
    } else if method_count_of(methods[0], web_sign_in) != 1 {
        Start::Choice
    } else if methods[0] == SignIn::Secret {
        Start::Manual
    } else {
        Start::SignIn(methods[0])
    }
}

/// The methods a card without an account lists.
pub fn methods(options: &Vec<SignIn>) -> (listed: Vec<SignIn>)
    ensures
        listed@ == methods_of(options@),
{
    let mut listed: Vec<SignIn> = Vec::new();
    let mut index: usize = 0;
    assert(options@.take(0) =~= Seq::empty());
    while index < options.len()
        invariant
            index <= options@.len(),
            listed@ == methods_of(options@.take(index as int)),
        decreases options@.len() - index,
    {
        assert(options@.take(index + 1).drop_last() =~= options@.take(index as int));
        if offered(options[index], false) {
            listed.push(options[index]);
        }
        index = index + 1;
    }
    assert(options@.take(index as int) =~= options@);
    listed
}

/// How a sign-in starts.
pub fn start_sign_in(options: &Vec<SignIn>, web_sign_in: bool) -> (start: Start)
    ensures
        start == start_of(options@, web_sign_in),
{
    let methods = methods(options);
    if methods.len() == 0 {
        return Start::Nothing;
    }
    if methods.len() > 1 {
        return Start::Choice;
    }
    let method = methods[0];
    if method == SignIn::Credentials {
        return Start::Credentials;
    }
    if method_count(method, web_sign_in) != 1 {
        return Start::Choice;
    }
    if method == SignIn::Secret {
        return Start::Manual;
    }
    Start::SignIn(method)
}

/// A sign-in that goes straight through is one of the provider's own options, and never the
/// guest's.
pub proof fn straight_through_is_offered(options: Seq<SignIn>, web_sign_in: bool)
    ensures
        start_of(options, web_sign_in) matches Start::SignIn(method) ==> options.contains(method)
            && is_offered(method, false),
{
    lemma_methods_are_options(options);
}

proof fn lemma_methods_are_options(options: Seq<SignIn>)
    ensures
        forall|i: int|
            0 <= i < methods_of(options).len() ==> options.contains(
                #[trigger] methods_of(options)[i],
            ) && is_offered(methods_of(options)[i], false),
    decreases options.len(),
{
    if options.len() > 0 {
        let fewer = options.drop_last();
        lemma_methods_are_options(fewer);
        assert forall|i: int| 0 <= i < methods_of(options).len() implies options.contains(
            #[trigger] methods_of(options)[i],
        ) && is_offered(methods_of(options)[i], false) by {
            if i < methods_of(fewer).len() {
                let method = methods_of(fewer)[i];
                assert(fewer.contains(method));
                let k = choose|k: int| 0 <= k < fewer.len() && fewer[k] == method;
                assert(options[k] == method);
            } else {
                assert(options[options.len() - 1] == options.last());
            }
        }
    }
}

/// One button of the choice dialog.
#[derive(Clone, Debug, PartialEq, Eq)]
pub struct MethodButton {
    pub id: String,
    /// The key of its label.
    pub label: &'static str,
    /// The label names the provider.
    pub naming: bool,
    /// It stands out.
    pub primary: bool,
    pub disabled: bool,
    pub does: Pressed,
}

/// What a button of the choice dialog does.
#[derive(Clone, Copy, Debug, PartialEq, Eq, Structural)]
pub enum Pressed {
    /// A server's address and credentials are asked for.
    Credentials,
    /// The cookies are to be pasted.
    Manual,
    SignIn(SignIn),
}

/// One button of the choice dialog as mathematics.
pub struct MethodButtonModel {
    pub id: Seq<char>,
    pub label: &'static str,
    pub naming: bool,
    pub primary: bool,
    pub disabled: bool,
    pub does: Pressed,
}

impl View for MethodButton {
    type V = MethodButtonModel;

    open spec fn view(&self) -> MethodButtonModel {
        MethodButtonModel {
            id: self.id@,
            label: self.label,
            naming: self.naming,
            primary: self.primary,
            disabled: self.disabled,
            does: self.does,
        }
    }
}

/// Buttons as mathematics.
pub open spec fn seen_buttons(buttons: Seq<MethodButton>) -> Seq<MethodButtonModel> {
    buttons.map_values(|button: MethodButton| button@)
}

/// What the id of a method's button ends in.
pub open spec fn method_suffix(method: SignIn) -> Seq<char> {
    match method {
        SignIn::Default => ""@,
        SignIn::Anonymous => "-guest"@,
        SignIn::Secret => "-cookies"@,
        SignIn::Path => "-path"@,
        SignIn::Credentials => "-server"@,
    }
}

/// The button of one method.
pub open spec fn method_button_of(slug: Seq<char>, method: SignIn, pending: bool) ->
    MethodButtonModel {
    MethodButtonModel {
        id: "connect-"@ + slug + method_suffix(method),
        label: if method == SignIn::Anonymous {
            "login-guest-use"
        } else {
            "login-sign-in"
        },
        naming: method != SignIn::Anonymous,
        primary: true,
        disabled: pending,
        does: if method == SignIn::Credentials {
            Pressed::Credentials
        } else {
            Pressed::SignIn(method)
        },
    }
}

/// The buttons that start one sign-in method. A cookie sign-in yields the browser window
/// only where a backend can draw one, and always the manual paste beside it. None can be pressed
/// while the session is on its way.
pub open spec fn method_buttons_of(
    slug: Seq<char>,
    method: SignIn,
    web_sign_in: bool,
    pending: bool,
) -> Seq<MethodButtonModel> {
    if method == SignIn::Secret {
        (if web_sign_in {
            seq![method_button_of(slug, method, pending)]
        } else {
            Seq::empty()
        }).push(
            MethodButtonModel {
                id: "connect-"@ + slug + "-cookies-manual"@,
                label: "login-connect-cookies",
                naming: false,
                primary: false,
                disabled: pending,
                does: Pressed::Manual,
            },
        )
    } else {
        seq![method_button_of(slug, method, pending)]
    }
}

/// A method draws as many buttons as it is counted for.
pub proof fn methods_draw_what_they_count(
    slug: Seq<char>,
    method: SignIn,
    web_sign_in: bool,
    pending: bool,
)
    ensures
        method_buttons_of(slug, method, web_sign_in, pending).len() == method_count_of(
            method,
            web_sign_in,
        ),
{
}

/// The button of one method.
pub fn method_button(slug: &str, method: SignIn, pending: bool) -> (button: MethodButton)
    ensures
        button@ == method_button_of(slug@, method, pending),
{
    let suffix: &'static str = match method {
        SignIn::Default => "",
        SignIn::Anonymous => "-guest",
        SignIn::Secret => "-cookies",
        SignIn::Path => "-path",
        SignIn::Credentials => "-server",
    };
    let mut id = joined_pair("connect-", slug);
    id.append(suffix);
    let guest = method == SignIn::Anonymous;
    MethodButton {
        id,
        label: if guest {
            "login-guest-use"
        } else {
            "login-sign-in"
        },
        naming: !guest,
        primary: true,
        disabled: pending,
        does: if method == SignIn::Credentials {
            Pressed::Credentials
        } else {
            Pressed::SignIn(method)
        },
    }
}

/// The buttons that start one sign-in method.
pub fn method_buttons(slug: &str, method: SignIn, web_sign_in: bool, pending: bool) -> (buttons:
    Vec<MethodButton>)
    ensures
        seen_buttons(buttons@) == method_buttons_of(slug@, method, web_sign_in, pending),
{
    let mut buttons: Vec<MethodButton> = Vec::new();
    let manual = method == SignIn::Secret;
    if !manual || web_sign_in {
        buttons.push(method_button(slug, method, pending));
    }
    if manual {
        let mut id = joined_pair("connect-", slug);
        id.append("-cookies-manual");
        buttons.push(
            MethodButton {
                id,
                label: "login-connect-cookies",
                naming: false,
                primary: false,
                disabled: pending,
                does: Pressed::Manual,
            },
        );
    }
    assert(seen_buttons(buttons@) =~= method_buttons_of(slug@, method, web_sign_in, pending));
    buttons
}

/// The buttons of several methods, one method's behind the other's.
pub open spec fn all_buttons_of(
    slug: Seq<char>,
    methods: Seq<SignIn>,
    web_sign_in: bool,
    pending: bool,
) -> Seq<MethodButtonModel>
    decreases methods.len(),
{
    if methods.len() == 0 {
        Seq::empty()
    } else {
        all_buttons_of(slug, methods.drop_last(), web_sign_in, pending) + method_buttons_of(
            slug,
            methods.last(),
            web_sign_in,
            pending,
        )
    }
}

/// The slugs of the providers.
pub open spec fn slugs_of(listed: Seq<Provider>) -> Seq<Seq<char>> {
    listed.map_values(|provider: Provider| provider.slug@)
}

/// The buttons of the choice dialog of a provider: those of every method its card lists. There
/// are none for a provider that is gone.
pub open spec fn choice_buttons_of(listed: Seq<Provider>, slug: Seq<char>, pending: bool) -> Seq<
    MethodButtonModel,
> {
    match first_at(slugs_of(listed), slug) {
        Some(place) => all_buttons_of(
            slug,
            methods_of(listed[place].options@),
            listed[place].web_sign_in,
            pending,
        ),
        None => Seq::empty(),
    }
}

/// The buttons of several methods.
fn all_buttons(slug: &str, methods: &Vec<SignIn>, web_sign_in: bool, pending: bool) -> (buttons:
    Vec<MethodButton>)
    ensures
        seen_buttons(buttons@) == all_buttons_of(slug@, methods@, web_sign_in, pending),
{
    let mut buttons: Vec<MethodButton> = Vec::new();
    let mut index: usize = 0;
    assert(methods@.take(0) =~= Seq::empty());
    assert(seen_buttons(buttons@) =~= Seq::empty());
    while index < methods.len()
        invariant
            index <= methods@.len(),
            seen_buttons(buttons@) == all_buttons_of(
                slug@,
                methods@.take(index as int),
                web_sign_in,
                pending,
            ),
        decreases methods@.len() - index,
    {
        let ghost before = seen_buttons(buttons@);
        assert(methods@.take(index + 1).drop_last() =~= methods@.take(index as int));
        let mut more = method_buttons(slug, methods[index], web_sign_in, pending);
        let ghost added = seen_buttons(more@);
        buttons.append(&mut more);
        assert(seen_buttons(buttons@) =~= before + added);
        index = index + 1;
    }
    assert(methods@.take(index as int) =~= methods@);
    buttons
}

/// The provider with that slug, by its place.
fn provider_place(listed: &Vec<Provider>, slug: &str) -> (place: Option<usize>)
    ensures
        maybe_place(place) == first_at(slugs_of(listed@), slug@),
        place matches Some(place) ==> place < listed@.len(),
{
    let mut slugs: Vec<String> = Vec::new();
    let mut index: usize = 0;
    assert(texts(slugs@) =~= slugs_of(listed@).take(0));
    while index < listed.len()
        invariant
            index <= listed@.len(),
            texts(slugs@) == slugs_of(listed@).take(index as int),
        decreases listed@.len() - index,
    {
        let ghost before = texts(slugs@);
        slugs.push(listed[index].slug.as_str().to_owned());
        assert(texts(slugs@) =~= before.push(slugs_of(listed@)[index as int]));
        index = index + 1;
        assert(texts(slugs@) =~= slugs_of(listed@).take(index as int));
    }
    assert(texts(slugs@) =~= slugs_of(listed@));
    assert(texts(slugs@).len() == slugs@.len());
    position(slug, &slugs)
}

/// The buttons of the choice dialog of a provider.
pub fn choice_buttons(listed: &Vec<Provider>, slug: &str, pending: bool) -> (buttons: Vec<
    MethodButton,
>)
    ensures
        seen_buttons(buttons@) == choice_buttons_of(listed@, slug@, pending),
{
    match provider_place(listed, slug) {
        Some(place) => {
            let provider = &listed[place];
            let methods = methods(&provider.options);
            all_buttons(slug, &methods, provider.web_sign_in, pending)
        },
        None => {
            let none: Vec<MethodButton> = Vec::new();
            assert(seen_buttons(none@) =~= Seq::empty());
            none
        },
    }
}

proof fn lemma_buttons_cover_methods(
    slug: Seq<char>,
    methods: Seq<SignIn>,
    web_sign_in: bool,
    pending: bool,
)
    ensures
        all_buttons_of(slug, methods, web_sign_in, pending).len() >= methods.len(),
    decreases methods.len(),
{
    if methods.len() > 0 {
        lemma_buttons_cover_methods(slug, methods.drop_last(), web_sign_in, pending);
    }
}

/// The choice dialog is put up only where there is more than one button to choose from.
pub proof fn the_choice_is_a_choice(
    slug: Seq<char>,
    options: Seq<SignIn>,
    web_sign_in: bool,
    pending: bool,
)
    requires
        start_of(options, web_sign_in) == Start::Choice,
    ensures
        all_buttons_of(slug, methods_of(options), web_sign_in, pending).len() > 1,
{
    let methods = methods_of(options);
    lemma_buttons_cover_methods(slug, methods, web_sign_in, pending);
    if methods.len() == 1 {
        assert(methods.drop_last() =~= Seq::empty());
        assert(all_buttons_of(slug, methods.drop_last(), web_sign_in, pending).len() == 0);
    }
}

/// Every button of the choice dialog is disabled while the session is on its way, and none is
/// otherwise.
pub proof fn buttons_wait_for_the_session(
    slug: Seq<char>,
    methods: Seq<SignIn>,
    web_sign_in: bool,
    pending: bool,
)
    ensures
        forall|i: int|
            0 <= i < all_buttons_of(slug, methods, web_sign_in, pending).len() ==> (
            #[trigger] all_buttons_of(slug, methods, web_sign_in, pending)[i]).disabled == pending,
    decreases methods.len(),
{
    if methods.len() > 0 {
        let fewer = methods.drop_last();
        let before = all_buttons_of(slug, fewer, web_sign_in, pending);
        buttons_wait_for_the_session(slug, fewer, web_sign_in, pending);
        let all = all_buttons_of(slug, methods, web_sign_in, pending);
        assert forall|i: int| 0 <= i < all.len() implies (#[trigger] all[i]).disabled
            == pending by {
            if i < before.len() {
                assert(all[i] == before[i]);
            }
        }
    }
}

/// An account is stored unless it is a guest's. While a session is being switched to, what was
/// chosen is active, or what the provider says where nothing was; otherwise the provider that is
/// active is, as long as somebody is signed in.
pub proof fn an_account_is_active_once_chosen(session: Session, provider: Provider)
    ensures
        ({
            let shown = account_of(session, provider);
            &&& shown.stored <==> provider.stored && !provider.guest
            &&& shown.failed == provider.failed
            &&& shown.cancel ==> provider.pending && session.state is Authorizing
            &&& session.pending ==> (session.chosen matches Some(chosen) ==> (shown.active
                <==> chosen@ == provider.slug@))
            &&& session.pending && session.chosen is None ==> (shown.active <==> provider.active
                && !provider.guest)
            &&& !session.pending ==> (shown.active <==> provider.active && !(session.state
                is SignedOut) && session.authenticated)
        }),
{
}

/// The guest is active once chosen as such, or where the provider for guests is active and nobody
/// is signed in.
pub proof fn a_guest_is_active_once_chosen(session: Session, providers: Seq<Provider>)
    requires
        providers.len() <= usize::MAX,
    ensures
        guest_of(session, providers) matches Some(shown) ==> {
            let provider = providers[shown.place as int];
            &&& shown.place < providers.len()
            &&& offers_guest(provider)
            &&& shown.stored == provider.guest
            &&& session.pending ==> (session.chosen matches Some(chosen) ==> (shown.active
                <==> chosen@ == "guest"@))
            &&& session.pending && session.chosen is None ==> (shown.active <==> provider.active
                && provider.guest)
            &&& !session.pending ==> (shown.active <==> provider.active && !(session.state
                is SignedOut) && !session.authenticated)
        },
        guest_of(session, providers) is None ==> forall|i: int|
            0 <= i < providers.len() ==> !offers_guest(#[trigger] providers[i]),
{
    the_guest_is_the_first_offered(providers, 0);
}

/// A card says where its account stands, and a press does the next thing: nothing while something
/// is pending or where the account is in use, a switch where it is stored, a sign-in otherwise.
pub proof fn a_card_does_the_next_thing(account: Account, pending: bool)
    ensures
        ({
            let card = account_card_of(account, pending);
            &&& card.selected == account.active
            &&& account.active ==> card.status == Some("settings-provider-current")
            &&& !account.active && account.stored ==> card.status == Some(
                "settings-provider-connected",
            )
            &&& !account.active && !account.stored ==> card.status == Some("settings-provider-none")
            &&& card.press is Switch <==> !pending && !account.cancel && account.stored
                && !account.active
            &&& card.press is SignIn <==> !pending && !account.cancel && !account.stored
            &&& !(card.press is Anonymous)
            &&& card.trailing is Cancel <==> account.cancel
            &&& card.trailing is Arrow <==> !account.cancel && !account.stored
            &&& card.trailing matches Trailing::SignOut { disabled } ==> disabled == pending
        }),
{
}

/// The guest's card does the same: it switches where a guest is stored, and signs in as one
/// otherwise.
pub proof fn a_guest_card_does_the_next_thing(guest: Guest, pending: bool)
    ensures
        ({
            let card = guest_card_of(guest, pending);
            &&& card.selected == guest.active
            &&& guest.active ==> card.status == Some("settings-provider-guest")
            &&& !guest.active ==> card.status is None
            &&& card.press is Switch <==> !pending && !guest.active && guest.stored
            &&& card.press is Anonymous <==> !pending && !guest.active && !guest.stored
            &&& !(card.press is SignIn)
            &&& card.trailing is Arrow <==> !guest.active
            &&& guest.active ==> card.trailing == (Trailing::SignOut { disabled: pending })
        }),
{
}

/// The plain way, a secret and a password are offered to an account that is not stored; a guest
/// and a path never are.
pub proof fn three_ways_are_offered(method: SignIn, stored: bool)
    ensures
        stored ==> !is_offered(method, stored),
        !stored ==> (is_offered(method, stored) <==> method is Default || method is Secret || method
            is Credentials),
{
}

/// The ways that are offered are those of the provider's options that can be, in their order.
pub proof fn ways_stay_in_order(options: Seq<SignIn>, last: SignIn)
    ensures
        methods_of(Seq::empty()).len() == 0,
        last is Default || last is Secret || last is Credentials ==> methods_of(options.push(last))
            == methods_of(options).push(last),
        last is Anonymous || last is Path ==> methods_of(options.push(last)) == methods_of(options),
{
    assert(options.push(last).drop_last() =~= options);
}

/// Signing in starts at once where there is one way and one button for it, and asks otherwise.
pub proof fn one_way_starts_at_once(options: Seq<SignIn>, web_sign_in: bool)
    ensures
        methods_of(options).len() == 0 <==> start_of(options, web_sign_in) is Nothing,
        methods_of(options).len() > 1 ==> start_of(options, web_sign_in) is Choice,
        methods_of(options) == seq![SignIn::Credentials] ==> start_of(options, web_sign_in)
            is Credentials,
        methods_of(options) == seq![SignIn::Secret] && web_sign_in ==> start_of(
            options,
            web_sign_in,
        ) is Choice,
        methods_of(options) == seq![SignIn::Secret] && !web_sign_in ==> start_of(
            options,
            web_sign_in,
        ) is Manual,
        methods_of(options) == seq![SignIn::Default] ==> start_of(options, web_sign_in)
            == Start::SignIn(SignIn::Default),
{
}

/// A button starts its own way, and says so: a password opens the form, anything else signs in,
/// and a secret can always be pasted by hand as well.
pub proof fn a_method_button_starts_its_way(
    slug: Seq<char>,
    method: SignIn,
    web_sign_in: bool,
    pending: bool,
)
    ensures
        ({
            let buttons = method_buttons_of(slug, method, web_sign_in, pending);
            &&& method is Secret ==> buttons.last().does is Manual && buttons.last().label
                == "login-connect-cookies" && !buttons.last().primary && buttons.last().id
                == "connect-"@ + slug + "-cookies-manual"@
            &&& method is Secret && web_sign_in ==> buttons.len() == 2 && buttons[0].does
                == Pressed::SignIn(SignIn::Secret) && buttons[0].id == "connect-"@ + slug
                + "-cookies"@ && buttons[0].primary
            &&& method is Secret && !web_sign_in ==> buttons.len() == 1
            &&& method is Credentials ==> buttons.len() == 1 && buttons[0].does is Credentials
                && buttons[0].id == "connect-"@ + slug + "-server"@
            &&& method is Default ==> buttons.len() == 1 && buttons[0].does == Pressed::SignIn(
                SignIn::Default,
            ) && buttons[0].id == "connect-"@ + slug
            &&& method is Path ==> buttons.len() == 1 && buttons[0].does == Pressed::SignIn(
                SignIn::Path,
            ) && buttons[0].id == "connect-"@ + slug + "-path"@
            &&& method is Anonymous ==> buttons.len() == 1 && buttons[0].does == Pressed::SignIn(
                SignIn::Anonymous,
            ) && buttons[0].label == "login-guest-use" && !buttons[0].naming && buttons[0].id
                == "connect-"@ + slug + "-guest"@
            &&& !(method is Anonymous) && !(method is Secret) ==> buttons[0].label
                == "login-sign-in" && buttons[0].naming
        }),
{
    reveal_strlit("");
    assert("connect-"@ + slug + ""@ =~= "connect-"@ + slug);
}

/// The choice has the buttons of every way of the provider it is about, in their order, and none
/// for a provider that is not listed.
pub proof fn the_choice_is_about_its_provider(
    listed: Seq<Provider>,
    place: int,
    slug: Seq<char>,
    pending: bool,
    more: Seq<SignIn>,
    last: SignIn,
)
    requires
        0 <= place < listed.len(),
        listed[place].slug@ == slug,
        forall|i: int| 0 <= i < place ==> (#[trigger] listed[i]).slug@ != slug,
    ensures
        choice_buttons_of(listed, slug, pending) == all_buttons_of(
            slug,
            methods_of(listed[place].options@),
            listed[place].web_sign_in,
            pending,
        ),
        all_buttons_of(slug, more.push(last), listed[place].web_sign_in, pending) == all_buttons_of(
            slug,
            more,
            listed[place].web_sign_in,
            pending,
        ) + method_buttons_of(slug, last, listed[place].web_sign_in, pending),
{
    the_first_place_holds_the_text(slugs_of(listed), slug);
    assert(slugs_of(listed)[place] == slug);
    assert(slugs_of(listed).contains(slug));
    let first = first_at(slugs_of(listed), slug)->0;
    assert(slugs_of(listed)[first] == listed[first].slug@);
    assert(first == place) by {
        if first < place {
            assert(listed[first].slug@ != slug);
        }
    }
    assert(more.push(last).drop_last() =~= more);
}

} // verus!
