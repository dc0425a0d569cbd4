//! What signing in to a provider is made of, shared by the login screen and the settings page.

use vstd::prelude::*;

use crate::text::laws::{all_white, trimming_takes_white_space_alone};
use crate::text::{trim, trimmed};

verus! {

/// The ways to sign in.
#[derive(Clone, Copy, Debug, PartialEq, Eq, Structural)]
pub enum SignIn {
    /// The provider's own page.
    Default,
    /// No account at all.
    Anonymous,
    /// Cookies, from a window of the app's own or pasted.
    Secret,
    /// A folder.
    Path,
    /// A server's address, a name and a password.
    Credentials,
}

/// What a sign-in under way asks the user for.
#[derive(Clone, Copy, Debug, PartialEq, Eq, Structural)]
pub enum SignInPrompt {
    /// Which of several accounts.
    Accounts,
    /// The cookies.
    Secret,
    /// A code to be typed on another page.
    Code,
    /// A page to be opened.
    Url,
}

/// Where the session stands.
#[derive(Clone, Copy, Debug, PartialEq, Eq, Structural)]
pub enum SessionState {
    SignedOut,
    Restoring,
    Authorizing(Option<SignInPrompt>),
    SignedIn,
    Failed,
}

/// A provider as the session lists it.
#[derive(Clone, Debug, PartialEq, Eq)]
pub struct Provider {
    pub slug: String,
    pub name: String,
    pub options: Vec<SignIn>,
    /// A window of the app's own can be opened for it.
    pub web_sign_in: bool,
    /// The key of the label that window's button carries, where it has one of its own.
    pub web_sign_in_label: Option<String>,
    /// An account is kept for it.
    pub stored: bool,
    /// The account kept for it is a guest's.
    pub guest: bool,
    /// It is the one that plays.
    pub active: bool,
    /// A sign-in to it is under way.
    pub pending: bool,
    /// The last sign-in to it failed.
    pub failed: bool,
}

/// A provider offers a session without an account.
pub open spec fn offers_guest(provider: Provider) -> bool {
    exists|i: int|
        0 <= i < provider.options@.len() && (#[trigger] provider.options@[i]) == SignIn::Anonymous
}

/// The first provider that offers a session without an account.
pub open spec fn is_first_guest(providers: Seq<Provider>, place: Option<int>) -> bool {
    match place {
        Some(place) => 0 <= place < providers.len() && offers_guest(providers[place]) && forall|i: int|
            0 <= i < place ==> !offers_guest(#[trigger] providers[i]),
        None => forall|i: int| 0 <= i < providers.len() ==> !offers_guest(#[trigger] providers[i]),
    }
}

/// The place of the first provider that offers a session without an account.
pub open spec fn guest_from(providers: Seq<Provider>, from: int) -> Option<int>
    decreases providers.len() - from,
{
    if from >= providers.len() {
        None
    } else if offers_guest(providers[from]) {
        Some(from)
    } else {
        guest_from(providers, from + 1)
    }
}

/// Whether a provider offers a session without an account.
pub fn anonymous(provider: &Provider) -> (yes: bool)
    ensures
        yes == offers_guest(*provider),
{
    let mut index: usize = 0;
    while index < provider.options.len()
        invariant
            index <= provider.options@.len(),
            forall|i: int|
                0 <= i < index ==> (#[trigger] provider.options@[i]) != SignIn::Anonymous,
        decreases provider.options@.len() - index,
    {
        if provider.options[index] == SignIn::Anonymous {
            return true;
        }
        index = index + 1;
    }
    false
}

/// The place of the first provider that offers a session without an account.
pub fn guest_place(providers: &Vec<Provider>) -> (place: Option<usize>)
    ensures
        match place {
            Some(place) => guest_from(providers@, 0) == Some(place as int) && place
                < providers@.len(),
            None => guest_from(providers@, 0) is None,
        },
{
    let mut index: usize = 0;
    while index < providers.len()
        invariant
            index <= providers@.len(),
            guest_from(providers@, index as int) == guest_from(providers@, 0),
        decreases providers@.len() - index,
    {
        if anonymous(&providers[index]) {
            return Some(index);
        }
        index = index + 1;
    }
    None
}

/// The place found is that of the first provider that offers a session without an account, and
/// none is found only where no provider does.
pub proof fn the_guest_is_the_first_offered(providers: Seq<Provider>, from: int)
    requires
        0 <= from <= providers.len(),
        forall|i: int| 0 <= i < from ==> !offers_guest(#[trigger] providers[i]),
    ensures
        is_first_guest(providers, guest_from(providers, from)),
    decreases providers.len() - from,
{
    if from < providers.len() && !offers_guest(providers[from]) {
        the_guest_is_the_first_offered(providers, from + 1);
    }
}

/// A server's address, a name and a password are all filled in. White space fills in neither an
/// address nor a name, but may well be a password.
pub open spec fn filled_in(server: Seq<char>, username: Seq<char>, password: Seq<char>) -> bool {
    trimmed(server).len() > 0 && trimmed(username).len() > 0 && password.len() > 0
}

/// Whether a server's address, a name and a password are all filled in.
pub fn complete(server: &str, username: &str, password: &str) -> (yes: bool)
    ensures
        yes == filled_in(server@, username@, password@),
{
    !blank(server) && !blank(username) && !password.is_empty()
}

/// Whether a text is nothing but white space.
pub fn blank(text: &str) -> (yes: bool)
    ensures
        yes == (trimmed(text@).len() == 0),
{
    let rest = trim(text);
    rest.as_str().is_empty()
}

/// A sign-in under way waits for nothing the page itself asks: it is the account picker's turn
/// otherwise.
pub open spec fn is_waiting(state: SessionState) -> bool {
    state is Authorizing && state != SessionState::Authorizing(Some(SignInPrompt::Accounts))
}

/// Whether a sign-in is under way that waits for nothing the page itself asks.
pub fn waiting(state: SessionState) -> (yes: bool)
    ensures
        yes == is_waiting(state),
{
    match state {
        SessionState::Authorizing(Some(SignInPrompt::Accounts)) => false,
        SessionState::Authorizing(_) => true,
        _ => false,
    }
}

/// A sign-in is complete once a server, a name and a password are there; white space is no server
/// and no name, but may be a password.
pub proof fn all_three_are_asked_for(server: Seq<char>, username: Seq<char>, password: Seq<char>)
    ensures
        filled_in(server, username, password) <==> !all_white(server) && !all_white(username)
            && password.len() > 0,
{
    trimming_takes_white_space_alone(server);
    trimming_takes_white_space_alone(username);
}

/// A session waits while it is authorizing, unless it asks which account to use.
pub proof fn a_choice_of_accounts_is_no_wait(state: SessionState)
    ensures
        state matches SessionState::Authorizing(Some(prompt)) ==> (is_waiting(state) <==> !(prompt
            is Accounts)),
        state matches SessionState::Authorizing(None) ==> is_waiting(state),
        !(state is Authorizing) ==> !is_waiting(state),
{
}

/// A provider is open to guests exactly when signing in anonymously is one of its options, and
/// the first such provider is the one for guests.
pub proof fn a_guest_signs_in_anonymously(providers: Seq<Provider>, place: int, option: int)
    requires
        0 <= place < providers.len(),
        0 <= option < providers[place].options@.len(),
        providers[place].options@[option] is Anonymous,
    ensures
        offers_guest(providers[place]),
        guest_from(providers, 0) matches Some(first) && 0 <= first <= place,
{
    assert(providers[place].options@[option] == SignIn::Anonymous);
    the_guest_is_the_first_offered(providers, 0);
}

} // verus!
