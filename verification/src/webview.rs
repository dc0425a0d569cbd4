//! A native browser window with a throwaway session, for providers that sign in with cookies.
//!
//! The window loads a sign-in page in a data store that lives only as long as the window. Once
//! the proof cookies appear, their header is handed back and the window closes. No browser
//! profile ever holds that session, so nothing rotates the cookies behind the app's back the way
//! a shared browser session does.
//!
//! An account provider can finish the sign-in on an interstitial of its own that jumps straight
//! to the return url and skips the hop that hands the account to the provider's domain. The page
//! then comes up signed out. When that happens, the sign-in url is loaded once more: with the
//! account already in, it only runs the hop that was skipped, which is exactly what the page's
//! own sign-in button would do.
//!
//! The window itself is the host's. What it shows between two polls comes in as a [`Page`], and
//! what has to happen to it goes out as an [`Order`].

pub mod laws;

use vstd::prelude::*;

use crate::platform::Os;
use crate::text::{
    cut_once, ends_in, ends_with, join, joined, joined_pair, one_of, pieces, same, split,
    split_once, strip_front, stripped_front, texts, trim, trimmed,
};

verus! {

/// What a sign-in window is asked to do. `url` opens first. `landing` scopes cookie reads on
/// platforms whose cookie store asks for a URL. The user is through as soon as the cookies for
/// `domain` carry at least one of the `proof` names; a page on `domain` without them means the
/// hand-off was skipped, and `url` is loaded once more.
#[derive(Clone, Debug, PartialEq, Eq)]
pub struct Target {
    pub url: String,
    pub landing: String,
    pub domain: String,
    pub proof: Vec<String>,
    pub title: String,
    /// A user agent the window presents instead of the backend's default, when the provider
    /// needs one that matches the engine the backend drives.
    pub agent: Option<String>,
}

/// One cookie as the page holds it. `domain` keeps the leading dot when the browser stored one.
#[derive(Clone, Debug, PartialEq, Eq)]
pub struct Cookie {
    pub name: String,
    pub value: String,
    pub domain: String,
}

/// Where a sign-in window is between two polls.
#[derive(Clone, Debug, PartialEq, Eq)]
pub enum Poll {
    /// Still open, the user is not through yet.
    Pending,
    /// The user closed the window before signing in.
    Closed,
    /// The `Cookie` header for the target's domain. The window has closed itself.
    Cookies(String),
}

/// What the window shows at the moment of a poll: whether the user closed it, the cookies its
/// store holds once it has answered, and the host of the page it is on.
#[derive(Clone, Debug, PartialEq, Eq)]
pub struct Page {
    pub closed: bool,
    pub cookies: Option<Vec<Cookie>>,
    pub host: Option<String>,
}

/// What has to happen to the window after a poll.
#[derive(Clone, Debug, PartialEq, Eq)]
pub enum Order {
    /// Nothing.
    Stay,
    /// The window closes.
    Close,
    /// The sign-in url is loaded again.
    Load(String),
}

/// Whether a cookie stored for `stored` is sent to `domain` and its subdomains.
pub open spec fn sent_to(stored: Seq<char>, domain: Seq<char>) -> bool {
    let host = stripped_front(stored, '.');
    host == domain || ends_in(host, seq!['.'] + domain)
}

/// One cookie the way a header writes it.
pub open spec fn pair(cookie: Cookie) -> Seq<char> {
    cookie.name@ + seq!['='] + cookie.value@
}

/// The cookies a browser would send to `domain`, the way a header writes them.
pub open spec fn pairs(cookies: Seq<Cookie>, domain: Seq<char>) -> Seq<Seq<char>>
    decreases cookies.len(),
{
    if cookies.len() == 0 {
        Seq::empty()
    } else {
        let before = pairs(cookies.drop_last(), domain);
        if sent_to(cookies.last().domain@, domain) {
            before.push(pair(cookies.last()))
        } else {
            before
        }
    }
}

/// The `Cookie` header a browser would send to `domain`.
pub open spec fn header_for(cookies: Seq<Cookie>, domain: Seq<char>) -> Seq<char> {
    joined(pairs(cookies, domain), seq![';', ' '])
}

/// One pair of a header names a proof cookie and gives it a value. The name alone is not enough:
/// a signed-out page may already set the cookie with nothing in it.
pub open spec fn proves(pair: Seq<char>, proof: Seq<Seq<char>>) -> bool {
    match cut_once(trimmed(pair), seq!['=']) {
        Some((name, value)) => trimmed(value).len() > 0 && proof.contains(name),
        None => false,
    }
}

/// The header carries at least one of the proof cookies with a value.
pub open spec fn proved(header: Seq<char>, proof: Seq<Seq<char>>) -> bool {
    exists|i: int|
        0 <= i < pieces(header, ';').len() && proves(#[trigger] pieces(header, ';')[i], proof)
}

/// Whether a cookie stored for `stored` is sent to `domain` and its subdomains.
pub fn matches(stored: &str, domain: &str) -> (yes: bool)
    ensures
        yes == sent_to(stored@, domain@),
{
    let host = strip_front(stored, '.');
    let tail = joined_pair(".", domain);
    proof {
        reveal_strlit(".");
        assert("."@ =~= seq!['.']);
    }
    same(host.as_str(), domain) || ends_with(host.as_str(), tail.as_str())
}

/// Joins the cookies a browser would send to `domain` into a `Cookie` header value.
pub fn header(cookies: &[Cookie], domain: &str) -> (value: String)
    ensures
        value@ == header_for(cookies@, domain@),
{
    let mut parts: Vec<String> = Vec::new();
    let mut index: usize = 0;
    proof {
        reveal_strlit("=");
        reveal_strlit("; ");
        assert("="@ =~= seq!['=']);
        assert("; "@ =~= seq![';', ' ']);
        assert(cookies@.take(0) =~= Seq::empty());
        assert(texts(parts@) =~= Seq::empty());
    }
    while index < cookies.len()
        invariant
            "="@ == seq!['='],
            index <= cookies@.len(),
            texts(parts@) == pairs(cookies@.take(index as int), domain@),
        decreases cookies@.len() - index,
    {
        let cookie = &cookies[index];
        let ghost before = texts(parts@);
        proof {
            assert(cookies@.take(index + 1).drop_last() =~= cookies@.take(index as int));
            assert(cookies@.take(index + 1).last() == *cookie);
        }
        if matches(cookie.domain.as_str(), domain) {
            let mut part = joined_pair(cookie.name.as_str(), "=");
            part.append(cookie.value.as_str());
            parts.push(part);
            assert(texts(parts@) =~= before.push(pair(*cookie)));
        }
        index = index + 1;
    }
    assert(cookies@.take(index as int) =~= cookies@);
    join(&parts, "; ")
}

/// Whether the header carries at least one of the proof cookies with a value.
pub fn proven(header: &str, proof: &Vec<String>) -> (yes: bool)
    ensures
        yes == proved(header@, texts(proof@)),
{
    let parts = split(header, ';');
    let mut index: usize = 0;
    proof {
        reveal_strlit("=");
        assert("="@ =~= seq!['=']);
    }
    while index < parts.len()
        invariant
            "="@ == seq!['='],
            texts(parts@) == pieces(header@, ';'),
            index <= parts@.len(),
            forall|i: int|
                0 <= i < index ==> !proves(#[trigger] pieces(header@, ';')[i], texts(proof@)),
        decreases parts@.len() - index,
    {
        assert(pieces(header@, ';')[index as int] == parts@[index as int]@);
        let part = trim(parts[index].as_str());
        if let Some((name, value)) = split_once(part.as_str(), "=") {
            let held = trim(value.as_str());
            if !held.as_str().is_empty() && one_of(name.as_str(), proof) {
                return true;
            }
        }
        index = index + 1;
    }
    assert(pieces(header@, ';').len() == parts@.len());
    false
}

/// Why a window did not open.
#[derive(Clone, Debug, PartialEq, Eq)]
pub enum OpenError {
    /// The system has no backend.
    Unsupported,
    /// The backend could not open a window, and says why.
    Refused(String),
}

/// The systems there is a backend for.
pub open spec fn has_backend(os: Os) -> bool {
    os == Os::Linux || os == Os::Macos || os == Os::Windows
}

/// Whether there is a backend for a system.
fn native(os: Os) -> (yes: bool)
    ensures
        yes == has_backend(os),
{
    os == Os::Linux || os == Os::Macos || os == Os::Windows
}

/// Whether this platform can open a sign-in window at all. Where there is a backend, `ready` is
/// its own answer, which on Linux is only known once its engine has been looked for.
pub fn supported(os: Os, ready: bool) -> (yes: bool)
    ensures
        yes == (has_backend(os) && ready),
{
    native(os) && ready
}

/// A sign-in window. Open it on the main thread and poll it from there.
#[derive(Debug)]
pub struct Login {
    target: Target,
    /// Whether the sign-in url has already been loaded a second time. Once is the limit: a page
    /// that comes up signed out again is left to the user.
    retried: bool,
}

/// What a poll answers, as mathematics.
pub enum PollModel {
    Pending,
    Closed,
    Cookies(Seq<char>),
}

impl View for Poll {
    type V = PollModel;

    open spec fn view(&self) -> PollModel {
        match self {
            Poll::Pending => PollModel::Pending,
            Poll::Closed => PollModel::Closed,
            Poll::Cookies(header) => PollModel::Cookies(header@),
        }
    }
}

/// What has to happen to the window, as mathematics.
pub enum OrderModel {
    Stay,
    Close,
    Load(Seq<char>),
}

impl View for Order {
    type V = OrderModel;

    open spec fn view(&self) -> OrderModel {
        match self {
            Order::Stay => OrderModel::Stay,
            Order::Close => OrderModel::Close,
            Order::Load(url) => OrderModel::Load(url@),
        }
    }
}

/// The page is on the provider's domain. Any page of the domain counts, not only the landing: a
/// skipped hand-off can end on an error page of the provider's just as well.
pub open spec fn on_domain(page: Page, domain: Seq<char>) -> bool {
    match page.host {
        Some(host) => sent_to(host@, domain),
        None => false,
    }
}

/// What one poll of a window answers and orders, and whether the sign-in url has been loaded a
/// second time after it.
pub open spec fn polled(target: Target, retried: bool, page: Page) -> (
    PollModel,
    OrderModel,
    bool,
) {
    match page.cookies {
        _ if page.closed => (PollModel::Closed, OrderModel::Stay, retried),
        None => (PollModel::Pending, OrderModel::Stay, retried),
        Some(cookies) => {
            let header = header_for(cookies@, target.domain@);
            if proved(header, texts(target.proof@)) {
                (PollModel::Cookies(header), OrderModel::Close, retried)
            } else if !retried && on_domain(page, target.domain@) {
                (PollModel::Pending, OrderModel::Load(target.url@), true)
            } else {
                (PollModel::Pending, OrderModel::Stay, retried)
            }
        },
    }
}

impl Login {
    /// What the window was asked to do.
    pub closed spec fn target(self) -> Target {
        self.target
    }

    /// Whether the sign-in url has been loaded a second time.
    pub closed spec fn retried(self) -> bool {
        self.retried
    }

    /// Takes over a window that has started to load the target url. `opened` is what the backend
    /// answered when it was asked for one.
    pub fn open(target: Target, os: Os, opened: Result<(), String>) -> (login: Result<
        Self,
        OpenError,
    >)
        ensures
            match login {
                Ok(login) => has_backend(os) && opened is Ok && login.target() == target
                    && !login.retried(),
                Err(OpenError::Unsupported) => !has_backend(os),
                Err(OpenError::Refused(why)) => has_backend(os) && opened == Err::<(), String>(
                    why,
                ),
            },
    {
        if !native(os) {
            return Err(OpenError::Unsupported);
        }
        match opened {
            Ok(_) => Ok(Login { target, retried: false }),
            Err(why) => Err(OpenError::Refused(why)),
        }
    }

    /// Checks where the window is. Call it every few hundred milliseconds until it stops
    /// answering `Pending`; the cookies come back once, and the window closes on that poll.
    pub fn poll(&mut self, page: &Page) -> (answer: (Poll, Order))
        ensures
            final(self).target() == old(self).target(),
            (answer.0@, answer.1@, final(self).retried()) == polled(
                old(self).target(),
                old(self).retried(),
                *page,
            ),
    {
        if page.closed {
            return (Poll::Closed, Order::Stay);
        }
        let cookies = match &page.cookies {
            Some(cookies) => cookies,
            None => {
                return (Poll::Pending, Order::Stay);
            },
        };
        let value = header(cookies.as_slice(), self.target.domain.as_str());
        if proven(value.as_str(), &self.target.proof) {
            return (Poll::Cookies(value), Order::Close);
        }
        let order = self.retry(&page.host);
        (Poll::Pending, order)
    }

    /// Loads the sign-in url again when the page is on the provider's domain without a session,
    /// once.
    fn retry(&mut self, host: &Option<String>) -> (order: Order)
        ensures
            final(self).target() == old(self).target(),
            if !old(self).retried() && (host matches Some(host) && sent_to(
                host@,
                old(self).target().domain@,
            )) {
                order@ == OrderModel::Load(old(self).target().url@) && final(self).retried()
            } else {
                order@ == OrderModel::Stay && final(self).retried() == old(self).retried()
            },
    {
        if self.retried {
            return Order::Stay;
        }
        let host = match host {
            Some(host) => host,
            None => {
                return Order::Stay;
            },
        };
        if !matches(host.as_str(), self.target.domain.as_str()) {
            return Order::Stay;
        }
        self.retried = true;
        Order::Load(self.target.url.clone())
    }
}

/// How often polling a window over a series of pages loads the sign-in url again.
pub open spec fn loads(target: Target, retried: bool, pages: Seq<Page>) -> nat
    decreases pages.len(),
{
    if pages.len() == 0 {
        0
    } else {
        let (_, order, after) = polled(target, retried, pages[0]);
        let more = loads(target, after, pages.drop_first());
        if order is Load {
            more + 1
        } else {
            more
        }
    }
}

/// However long a window is polled and whatever it shows, the sign-in url is loaded again at most
/// once, and never by a window that has done so already.
pub proof fn once_is_the_limit(target: Target, retried: bool, pages: Seq<Page>)
    ensures
        loads(target, retried, pages) <= 1,
        retried ==> loads(target, retried, pages) == 0,
    decreases pages.len(),
{
    if pages.len() > 0 {
        let (_, _, after) = polled(target, retried, pages[0]);
        once_is_the_limit(target, after, pages.drop_first());
    }
}

/// The window closes on exactly the polls that hand back cookies, and what they hand back proves
/// a session.
pub proof fn cookies_close_the_window(target: Target, retried: bool, page: Page)
    ensures
        polled(target, retried, page).0 is Cookies <==> polled(target, retried, page).1 is Close,
        polled(target, retried, page).0 matches PollModel::Cookies(header) ==> proved(
            header,
            texts(target.proof@),
        ),
{
}

} // verus!
