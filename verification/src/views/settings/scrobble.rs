//! Linking a scrobbling service: what a row offers, what its dialog asks for, and what is handed
//! over.

use vstd::prelude::*;

verus! {

/// How a service is linked.
#[derive(Clone, Copy, Debug, PartialEq, Eq, Structural)]
pub enum Link {
    /// In the browser, with nothing to type.
    Browser,
    /// A key and a secret.
    Keys,
    /// A token.
    Token,
    /// A server and a key for it.
    Server,
}

/// What was stored for a service the last time.
#[derive(Clone, Debug, PartialEq, Eq)]
pub struct Stored {
    pub key: String,
    pub secret: String,
    pub session: String,
    pub server: String,
}

/// What is handed over to link a service.
#[derive(Clone, Debug, PartialEq, Eq)]
pub enum Secret {
    Nothing,
    Keys { key: String, secret: String },
    Token(String),
    Server { url: String, key: String },
}

/// One field of the scrobbling link dialog: which hint it carries, what it starts with, and
/// whether it holds a secret and so is drawn as dots.
#[derive(Clone, Debug, PartialEq, Eq)]
pub struct Field {
    pub hint: &'static str,
    pub value: String,
    pub masked: bool,
}

/// What starting a link does.
#[derive(Clone, Debug, PartialEq, Eq)]
pub enum Opened {
    /// It goes straight to the browser.
    Connect,
    /// The dialog is put up with those fields.
    Dialog { first: Field, second: Option<Field> },
}

/// A field of that hint, with that text in it.
pub open spec fn field_is(field: Field, hint: &'static str, value: Seq<char>, masked: bool) -> bool {
    field.hint == hint && field.value@ == value && field.masked == masked
}

/// Starts a link. A service with nothing to type goes straight to the browser; the rest put
/// up the dialog with whatever was stored last time already in the fields.
pub fn open_scrobble(link: Link, stored: &Stored) -> (opened: Opened)
    ensures
        match (link, opened) {
            (Link::Browser, Opened::Connect) => true,
            (Link::Keys, Opened::Dialog { first, second: Some(second) }) => field_is(
                first,
                "settings-scrobble-key",
                stored.key@,
                false,
            ) && field_is(second, "settings-scrobble-secret", stored.secret@, true),
            (Link::Token, Opened::Dialog { first, second: None }) => field_is(
                first,
                "settings-scrobble-token",
                stored.session@,
                true,
            ),
            (Link::Server, Opened::Dialog { first, second: Some(second) }) => field_is(
                first,
                "settings-scrobble-server",
                stored.server@,
                false,
            ) && field_is(second, "settings-scrobble-key", stored.session@, true),
            _ => false,
        },
{
    match link {
        Link::Browser => Opened::Connect,
        Link::Keys => Opened::Dialog {
            first: Field {
                hint: "settings-scrobble-key",
                value: stored.key.clone(),
                masked: false,
            },
            second: Some(
                Field {
                    hint: "settings-scrobble-secret",
                    value: stored.secret.clone(),
                    masked: true,
                },
            ),
        },
        Link::Token => Opened::Dialog {
            first: Field {
                hint: "settings-scrobble-token",
                value: stored.session.clone(),
                masked: true,
            },
            second: None,
        },
        Link::Server => Opened::Dialog {
            first: Field {
                hint: "settings-scrobble-server",
                value: stored.server.clone(),
                masked: false,
            },
            second: Some(
                Field {
                    hint: "settings-scrobble-key",
                    value: stored.session.clone(),
                    masked: true,
                },
            ),
        },
    }
}

/// What the dialog hands over, from the text of its fields.
pub fn link_scrobble(link: Link, first: String, second: String) -> (secret: Secret)
    ensures
        secret == (match link {
            Link::Browser => Secret::Nothing,
            Link::Keys => Secret::Keys { key: first, secret: second },
            Link::Token => Secret::Token(first),
            Link::Server => Secret::Server { url: first, key: second },
        }),
{
    match link {
        Link::Browser => Secret::Nothing,
        Link::Keys => Secret::Keys { key: first, secret: second },
        Link::Token => Secret::Token(first),
        Link::Server => Secret::Server { url: first, key: second },
    }
}

/// What the dialog shows beside its first field.
#[derive(Clone, Copy, Debug, PartialEq, Eq)]
pub struct Dialog {
    pub link: Link,
    /// The second field is there.
    pub second: bool,
    /// The key of the button that leads to where the service hands its secrets out.
    pub request: &'static str,
}

/// What the dialog shows. A service that is gone is asked for a token.
pub fn scrobble_modal(link: Option<Link>) -> (dialog: Dialog)
    ensures
        dialog == ({
            let link = match link {
                Some(link) => link,
                None => Link::Token,
            };
            Dialog {
                link,
                second: link != Link::Token,
                request: if link == Link::Token {
                    "settings-scrobble-token-request"
                } else {
                    "settings-scrobble-request"
                },
            }
        }),
{
    let link = match link {
        Some(link) => link,
        None => Link::Token,
    };
    Dialog {
        link,
        second: link != Link::Token,
        request: if link == Link::Token {
            "settings-scrobble-token-request"
        } else {
            "settings-scrobble-request"
        },
    }
}

/// What a service's row offers.
#[derive(Clone, Copy, Debug, PartialEq, Eq, Structural)]
pub enum Offer {
    /// A switch, and a button that ends the link.
    Linked { enabled: bool },
    /// A button that abandons the link under way.
    Cancel,
    /// A button that starts one.
    Connect,
}

/// What a service's row offers.
pub fn scrobble_row(linked: bool, linking: bool, enabled: bool) -> (offer: Offer)
    ensures
        offer == (if linked {
            Offer::Linked { enabled }
        } else if linking {
            Offer::Cancel
        } else {
            Offer::Connect
        }),
{
    if linked {
        Offer::Linked { enabled }
    } else if linking {
        Offer::Cancel
    } else {
        Offer::Connect
    }
}

/// What is asked for on linking a service is shown again as it was stored, secrets masked, and
/// what is filled in comes back in the same places.
pub proof fn what_is_asked_for_comes_back(link: Link, stored: Stored, opened: Opened, secret: Secret)
    requires
        call_ensures(open_scrobble, (link, &stored), opened),
        opened matches Opened::Dialog { first, second: Some(second) } ==> call_ensures(
            link_scrobble,
            (link, first.value, second.value),
            secret,
        ),
    ensures
        link is Browser <==> opened is Connect,
        link is Keys ==> (secret matches Secret::Keys { key, secret } && key@ == stored.key@
            && secret@ == stored.secret@),
        link is Server ==> (secret matches Secret::Server { url, key } && url@ == stored.server@
            && key@ == stored.session@),
        link is Token ==> (opened matches Opened::Dialog { first, second: None } && first.value@
            == stored.session@ && first.masked),
        opened matches Opened::Dialog { first, second: Some(second) } ==> !first.masked
            && second.masked,
{
}

/// A token comes back as a token, and a service linked in the browser keeps nothing.
pub proof fn a_link_keeps_its_own_secret(link: Link, first: String, second: String, secret: Secret)
    requires
        call_ensures(link_scrobble, (link, first, second), secret),
    ensures
        link is Browser <==> secret is Nothing,
        link is Keys <==> secret is Keys,
        link is Token <==> secret is Token,
        link is Server <==> secret is Server,
        link is Token ==> secret == Secret::Token(first),
{
}

/// The dialog asks for one thing where a token links the service, and for two otherwise; a link
/// that is not known is taken for a token.
pub proof fn a_token_is_asked_for_alone(link: Option<Link>, dialog: Dialog)
    requires
        call_ensures(scrobble_modal, (link,), dialog),
    ensures
        link matches Some(link) ==> dialog.link == link,
        link is None ==> dialog.link is Token,
        dialog.second <==> !(dialog.link is Token),
        dialog.link is Token ==> dialog.request == "settings-scrobble-token-request",
        !(dialog.link is Token) ==> dialog.request == "settings-scrobble-request",
{
}

/// A service that is linked can be switched, one that is being linked can be cancelled, and any
/// other can be connected.
pub proof fn a_service_offers_its_next_step(
    linked: bool,
    linking: bool,
    enabled: bool,
    offer: Offer,
)
    requires
        call_ensures(scrobble_row, (linked, linking, enabled), offer),
    ensures
        linked ==> offer == (Offer::Linked { enabled }),
        !linked && linking ==> offer is Cancel,
        !linked && !linking ==> offer is Connect,
{
}

} // verus!
