//! What a header says of the cookies it was made of.

use vstd::prelude::*;

use super::{
    has_backend,
    header_for,
    pair,
    pairs,
    polled,
    proved,
    proves,
    sent_to,
    Cookie,
    Login,
    OpenError,
    OrderModel,
    Page,
    PollModel,
    Target,
};
use crate::platform::Os;
use crate::text::laws::{a_text_ends_in_its_tail, lemma_longer_piece};
use crate::text::{
    cut_once,
    first_place,
    is_white,
    joined,
    pieces,
    stripped_front,
    texts,
    trimmed,
    trimmed_back,
    trimmed_front,
};

verus! {

/// A cookie the way browsers store them: neither `;` nor `=` in its name, no white space in front
/// of it, and no `;` in its value.
pub open spec fn storable(cookie: Cookie) -> bool {
    &&& !cookie.name@.contains(';')
    &&& !cookie.name@.contains('=')
    &&& cookie.name@.len() > 0 ==> !is_white(cookie.name@[0])
    &&& !cookie.value@.contains(';')
}

/// A cookie proves a session: it is sent to the domain, has one of the names, and holds something
/// besides white space.
pub open spec fn shows_session(cookie: Cookie, domain: Seq<char>, proof: Seq<Seq<char>>) -> bool {
    sent_to(cookie.domain@, domain) && proof.contains(cookie.name@) && trimmed(
        cookie.value@,
    ).len() > 0
}

/// A piece of a header as it lies between two separators.
pub open spec fn spaced(index: int, part: Seq<char>) -> Seq<char> {
    if index == 0 {
        part
    } else {
        seq![' '] + part
    }
}

/// Splitting a header gives back what was joined, each behind its space.
proof fn lemma_split_joined(parts: Seq<Seq<char>>)
    requires
        parts.len() > 0,
        forall|i: int| 0 <= i < parts.len() ==> !(#[trigger] parts[i]).contains(';'),
    ensures
        pieces(joined(parts, seq![';', ' ']), ';') == Seq::new(
            parts.len(),
            |i: int| spaced(i, parts[i]),
        ),
    decreases parts.len(),
{
    let separator = seq![';', ' '];
    let whole = Seq::new(parts.len(), |i: int| spaced(i, parts[i]));
    if parts.len() == 1 {
        let empty = Seq::<char>::empty();
        lemma_longer_piece(empty, parts[0], ';');
        assert(empty + parts[0] =~= parts[0]);
        assert(pieces(empty, ';') =~= seq![empty]);
        assert(pieces(empty, ';').last() + parts[0] =~= parts[0]);
        assert(pieces(parts[0], ';') =~= whole);
    } else {
        let less = parts.drop_last();
        lemma_split_joined(less);
        let front = joined(less, separator);
        let cut = front.push(';');
        assert(cut.drop_last() =~= front);
        let before = pieces(front, ';');
        assert(pieces(cut, ';') == before.push(Seq::empty()));
        let tail = seq![' '] + parts.last();
        assert forall|i: int| 0 <= i < tail.len() implies tail[i] != ';' by {
            if i > 0 {
                assert(parts[parts.len() - 1].contains(parts.last()[i - 1]));
            }
        }
        lemma_longer_piece(cut, tail, ';');
        assert(cut + tail =~= front + separator + parts.last());
        assert(before.push(Seq::empty()).drop_last() =~= before);
        assert(before.push(Seq::<char>::empty()).last() + tail =~= tail);
        assert(before.push(tail) =~= whole);
    }
}

/// A space in front does not change what is left without white space around it.
proof fn lemma_space_goes(text: Seq<char>)
    ensures
        trimmed(seq![' '] + text) == trimmed(text),
{
    let spaced = seq![' '] + text;
    assert(spaced.drop_first() =~= text);
    assert(trimmed_front(spaced) == trimmed_front(text));
}

/// The white space behind a value goes, and what stands in front of the value stays.
proof fn lemma_back_of_pair(front: Seq<char>, value: Seq<char>)
    requires
        front.len() > 0,
        !is_white(front.last()),
    ensures
        trimmed_back(front + value) == front + trimmed_back(value),
    decreases value.len(),
{
    if value.len() == 0 {
        assert(front + value =~= front);
        assert(front + trimmed_back(value) =~= front);
    } else if is_white(value.last()) {
        assert((front + value).drop_last() =~= front + value.drop_last());
        lemma_back_of_pair(front, value.drop_last());
    }
}

/// A name without the separator ends at the first one.
proof fn lemma_name_ends(name: Seq<char>, rest: Seq<char>)
    requires
        !name.contains('='),
    ensures
        first_place(name + seq!['='] + rest, seq!['=']) == Some(name.len() as int),
    decreases name.len(),
{
    let sought = seq!['='];
    let whole = name + sought + rest;
    if name.len() == 0 {
        assert(whole[0] == '=');
        assert(sought.is_prefix_of(whole));
    } else {
        assert(name.contains(name[0]));
        assert(whole[0] == name[0]);
        assert(!sought.is_prefix_of(whole)) by {
            assert(sought[0] == '=');
        }
        let less = name.drop_first();
        assert(whole.drop_first() =~= less + sought + rest);
        assert forall|i: int| 0 <= i < less.len() implies less[i] != '=' by {
            assert(name.contains(name[i + 1]));
        }
        lemma_name_ends(less, rest);
    }
}

/// A text holds something besides white space.
pub open spec fn holds_something(text: Seq<char>) -> bool {
    exists|i: int| 0 <= i < text.len() && !is_white(#[trigger] text[i])
}

/// Dropping white space in front keeps what is not white.
proof fn lemma_front_keeps(text: Seq<char>)
    ensures
        holds_something(trimmed_front(text)) == holds_something(text),
        (trimmed_front(text).len() > 0) == holds_something(text),
    decreases text.len(),
{
    if text.len() > 0 {
        if is_white(text[0]) {
            let less = text.drop_first();
            lemma_front_keeps(less);
            if holds_something(text) {
                let i = choose|i: int| 0 <= i < text.len() && !is_white(#[trigger] text[i]);
                assert(less[i - 1] == text[i]);
            }
            if holds_something(less) {
                let i = choose|i: int| 0 <= i < less.len() && !is_white(#[trigger] less[i]);
                assert(text[i + 1] == less[i]);
            }
        } else {
            assert(!is_white(text[0]));
        }
    }
}

/// Dropping white space behind keeps what is not white.
proof fn lemma_back_keeps(text: Seq<char>)
    ensures
        holds_something(trimmed_back(text)) == holds_something(text),
        (trimmed_back(text).len() > 0) == holds_something(text),
    decreases text.len(),
{
    if text.len() > 0 {
        if is_white(text.last()) {
            let less = text.drop_last();
            lemma_back_keeps(less);
            if holds_something(text) {
                let i = choose|i: int| 0 <= i < text.len() && !is_white(#[trigger] text[i]);
                assert(less[i] == text[i]);
            }
            if holds_something(less) {
                let i = choose|i: int| 0 <= i < less.len() && !is_white(#[trigger] less[i]);
                assert(text[i] == less[i]);
            }
        } else {
            assert(!is_white(text[text.len() - 1]));
        }
    }
}

/// Something is left without the white space around a text exactly when it holds something.
proof fn lemma_trimmed_holds(text: Seq<char>)
    ensures
        (trimmed(text).len() > 0) == holds_something(text),
{
    lemma_front_keeps(text);
    lemma_back_keeps(trimmed_front(text));
}

/// One pair of a header proves a session exactly when its cookie has one of the names and holds
/// something.
proof fn lemma_pair_proves(cookie: Cookie, index: int, proof: Seq<Seq<char>>)
    requires
        storable(cookie),
    ensures
        proves(spaced(index, pair(cookie)), proof) == (proof.contains(cookie.name@) && trimmed(
            cookie.value@,
        ).len() > 0),
{
    let name = cookie.name@;
    let value = cookie.value@;
    let written = pair(cookie);
    let front = name + seq!['='];
    lemma_space_goes(written);
    assert(written[0] == front[0]);
    assert(front.last() == '=');
    assert(trimmed_front(written) == written);
    assert(written =~= front + value);
    lemma_back_of_pair(front, value);
    let bare = trimmed_back(value);
    assert(trimmed(spaced(index, written)) == front + bare);
    assert(front + bare =~= name + seq!['='] + bare);
    lemma_name_ends(name, bare);
    let whole = name + seq!['='] + bare;
    assert(whole.take(name.len() as int) =~= name);
    assert(whole.skip(name.len() as int + 1) =~= bare);
    assert(cut_once(whole, seq!['=']) == Some((name, bare)));
    lemma_trimmed_holds(value);
    lemma_trimmed_holds(bare);
    lemma_back_keeps(value);
}

/// The cookies that are sent, one by one.
proof fn lemma_pairs(cookies: Seq<Cookie>, domain: Seq<char>, proof: Seq<Seq<char>>)
    requires
        forall|i: int| 0 <= i < cookies.len() ==> storable(#[trigger] cookies[i]),
    ensures
        forall|k: int|
            0 <= k < pairs(cookies, domain).len() ==> !(#[trigger] pairs(
                cookies,
                domain,
            )[k]).contains(';'),
        (exists|k: int|
            0 <= k < pairs(cookies, domain).len() && proves(
                spaced(k, #[trigger] pairs(cookies, domain)[k]),
                proof,
            )) <==> (exists|i: int|
            0 <= i < cookies.len() && shows_session(#[trigger] cookies[i], domain, proof)),
    decreases cookies.len(),
{
    if cookies.len() > 0 {
        let less = cookies.drop_last();
        let last = cookies.last();
        assert(forall|i: int| 0 <= i < less.len() ==> less[i] == cookies[i]);
        assert(storable(cookies[cookies.len() - 1]));
        lemma_pairs(less, domain, proof);
        let before = pairs(less, domain);
        let after = pairs(cookies, domain);
        if sent_to(last.domain@, domain) {
            assert(after == before.push(pair(last)));
            let written = pair(last);
            assert forall|i: int| 0 <= i < written.len() implies written[i] != ';' by {
                if i < last.name@.len() {
                    assert(last.name@.contains(last.name@[i]));
                } else if i > last.name@.len() {
                    assert(last.value@.contains(last.value@[i - last.name@.len() - 1]));
                }
            }
            assert forall|k: int| 0 <= k < after.len() implies !(#[trigger] after[k]).contains(
                ';',
            ) by {
                if k < before.len() {
                    assert(after[k] == before[k]);
                }
            }
            lemma_pair_proves(last, before.len() as int, proof);
            let some_before = exists|k: int|
                0 <= k < before.len() && proves(spaced(k, #[trigger] before[k]), proof);
            if some_before {
                let k = choose|k: int|
                    0 <= k < before.len() && proves(spaced(k, #[trigger] before[k]), proof);
                assert(after[k] == before[k]);
                let i = choose|i: int|
                    0 <= i < less.len() && shows_session(#[trigger] less[i], domain, proof);
                assert(shows_session(cookies[i], domain, proof));
            }
            if shows_session(last, domain, proof) {
                assert(after[before.len() as int] == written);
                assert(shows_session(cookies[cookies.len() - 1], domain, proof));
            }
            if exists|k: int|
                0 <= k < after.len() && proves(spaced(k, #[trigger] after[k]), proof) {
                let k = choose|k: int|
                    0 <= k < after.len() && proves(spaced(k, #[trigger] after[k]), proof);
                if k < before.len() {
                    assert(after[k] == before[k]);
                    assert(some_before);
                } else {
                    assert(shows_session(cookies[cookies.len() - 1], domain, proof));
                }
            }
            if exists|i: int|
                0 <= i < cookies.len() && shows_session(#[trigger] cookies[i], domain, proof) {
                let i = choose|i: int|
                    0 <= i < cookies.len() && shows_session(#[trigger] cookies[i], domain, proof);
                if i < less.len() {
                    assert(shows_session(less[i], domain, proof));
                    assert(some_before);
                } else {
                    assert(after[before.len() as int] == written);
                }
            }
        } else {
            assert(after == before);
            if exists|i: int|
                0 <= i < cookies.len() && shows_session(#[trigger] cookies[i], domain, proof) {
                let i = choose|i: int|
                    0 <= i < cookies.len() && shows_session(#[trigger] cookies[i], domain, proof);
                assert(i < less.len());
                assert(shows_session(less[i], domain, proof));
            }
            if exists|i: int|
                0 <= i < less.len() && shows_session(#[trigger] less[i], domain, proof) {
                let i = choose|i: int|
                    0 <= i < less.len() && shows_session(#[trigger] less[i], domain, proof);
                assert(shows_session(cookies[i], domain, proof));
            }
        }
    }
}

/// The header of a browser's cookies proves a session exactly when one of them does: one that is
/// sent to the domain, has one of the proof names, and is not empty.
pub proof fn a_session_shows_in_the_header(
    cookies: Seq<Cookie>,
    domain: Seq<char>,
    proof: Seq<Seq<char>>,
)
    requires
        forall|i: int| 0 <= i < cookies.len() ==> storable(#[trigger] cookies[i]),
    ensures
        proved(header_for(cookies, domain), proof) <==> (exists|i: int|
            0 <= i < cookies.len() && shows_session(#[trigger] cookies[i], domain, proof)),
{
    let sent = pairs(cookies, domain);
    lemma_pairs(cookies, domain, proof);
    let header = header_for(cookies, domain);
    let cut = pieces(header, ';');
    if sent.len() == 0 {
        assert(header =~= Seq::empty());
        assert(cut =~= seq![Seq::empty()]);
        assert(first_place(trimmed(cut[0]), seq!['=']) is None);
        assert(!proves(cut[0], proof));
    } else {
        lemma_split_joined(sent);
        assert(forall|k: int| 0 <= k < sent.len() ==> cut[k] == spaced(k, sent[k]));
        if exists|k: int| 0 <= k < sent.len() && proves(spaced(k, #[trigger] sent[k]), proof) {
            let k = choose|k: int|
                0 <= k < sent.len() && proves(spaced(k, #[trigger] sent[k]), proof);
            assert(proves(cut[k], proof));
        }
        if proved(header, proof) {
            let k = choose|k: int| 0 <= k < cut.len() && proves(#[trigger] cut[k], proof);
            assert(proves(spaced(k, sent[k]), proof));
        }
    }
}

/// The user is through as soon as the cookies of the domain prove a session, and not before: a
/// poll of an open window hands the header back exactly then.
pub proof fn a_session_ends_the_sign_in(target: Target, retried: bool, page: Page)
    requires
        !page.closed,
        page.cookies is Some,
        forall|i: int|
            0 <= i < page.cookies->0@.len() ==> storable(#[trigger] page.cookies->0@[i]),
    ensures
        ({
            let cookies = page.cookies->0@;
            let answer = polled(target, retried, page).0;
            let through = exists|i: int|
                0 <= i < cookies.len() && shows_session(
                    #[trigger] cookies[i],
                    target.domain@,
                    texts(target.proof@),
                );
            &&& answer is Cookies <==> through
            &&& through ==> answer == PollModel::Cookies(header_for(cookies, target.domain@))
        }),
{
    a_session_shows_in_the_header(page.cookies->0@, target.domain@, texts(target.proof@));
}

/// A cookie is sent to the domain it is stored for, and to any host below that domain, dots in
/// front or not.
pub proof fn a_domain_gets_its_own_cookies(domain: Seq<char>, below: Seq<char>)
    requires
        domain.len() > 0 ==> domain[0] != '.',
    ensures
        sent_to(domain, domain),
        sent_to(seq!['.'] + domain, domain),
        below.len() > 0 && below[0] != '.' ==> sent_to(below + seq!['.'] + domain, domain)
            && sent_to(seq!['.'] + below + seq!['.'] + domain, domain),
{
    let dotted = seq!['.'] + domain;
    assert(dotted.drop_first() =~= domain);
    assert(stripped_front(dotted, '.') == stripped_front(domain, '.'));
    if below.len() > 0 && below[0] != '.' {
        let host = below + seq!['.'] + domain;
        assert(host =~= below + dotted);
        a_text_ends_in_its_tail(below, dotted, host);
        let led = seq!['.'] + below + seq!['.'] + domain;
        assert(led.drop_first() =~= host);
        assert(stripped_front(led, '.') == stripped_front(host, '.'));
    }
}

/// No other host gets them: one that only ends in the same letters is another domain.
pub proof fn no_other_host_gets_a_cookie(stored: Seq<char>, domain: Seq<char>)
    requires
        stored.len() > 0,
        stored[0] != '.',
    ensures
        sent_to(stored, domain) ==> stored == domain || (stored.len() > domain.len() && stored
            == stored.take(stored.len() - domain.len()) + domain && stored[stored.len()
            - domain.len() - 1] == '.'),
{
    let dotted = seq!['.'] + domain;
    if sent_to(stored, domain) && stored != domain {
        a_text_ends_in_its_tail(Seq::empty(), dotted, stored);
        let front = stored.take(stored.len() - dotted.len());
        assert(stored == front + dotted);
        assert(stored.take(stored.len() - domain.len()) + domain =~= stored);
    }
}

/// The header holds every cookie that is sent to the domain and no other, written with its name,
/// an equals sign and its value.
pub proof fn the_header_holds_what_is_sent(cookies: Seq<Cookie>, domain: Seq<char>)
    ensures
        forall|i: int|
            0 <= i < cookies.len() && sent_to((#[trigger] cookies[i]).domain@, domain) ==> pairs(
                cookies,
                domain,
            ).contains(cookies[i].name@ + seq!['='] + cookies[i].value@),
        forall|k: int|
            0 <= k < pairs(cookies, domain).len() ==> is_pair_of_some(
                #[trigger] pairs(cookies, domain)[k],
                cookies,
                domain,
            ),
    decreases cookies.len(),
{
    if cookies.len() > 0 {
        let fewer = cookies.drop_last();
        the_header_holds_what_is_sent(fewer, domain);
        let before = pairs(fewer, domain);
        let after = pairs(cookies, domain);
        assert forall|i: int|
            0 <= i < cookies.len() && sent_to(
                (#[trigger] cookies[i]).domain@,
                domain,
            ) implies after.contains(cookies[i].name@ + seq!['='] + cookies[i].value@) by {
            let written = cookies[i].name@ + seq!['='] + cookies[i].value@;
            if i < fewer.len() {
                assert(fewer[i] == cookies[i]);
                let k = choose|k: int| 0 <= k < before.len() && before[k] == written;
                assert(after[k] == written);
            } else {
                assert(after[before.len() as int] == written);
            }
        }
        assert forall|k: int| 0 <= k < after.len() implies is_pair_of_some(
            #[trigger] after[k],
            cookies,
            domain,
        ) by {
            if k < before.len() {
                assert(after[k] == before[k]);
                assert(is_pair_of_some(before[k], fewer, domain));
                let i = choose|i: int|
                    0 <= i < fewer.len() && #[trigger] is_pair_of(before[k], fewer[i], domain);
                assert(is_pair_of(after[k], cookies[i], domain));
            } else {
                assert(is_pair_of(after[k], cookies[cookies.len() - 1], domain));
            }
        }
    }
}

/// The pair is that of the cookie, which is sent to the domain.
pub open spec fn is_pair_of(written: Seq<char>, cookie: Cookie, domain: Seq<char>) -> bool {
    sent_to(cookie.domain@, domain) && written == cookie.name@ + seq!['='] + cookie.value@
}

/// The pair is that of one of the cookies, which is sent to the domain.
pub open spec fn is_pair_of_some(
    written: Seq<char>,
    cookies: Seq<Cookie>,
    domain: Seq<char>,
) -> bool {
    exists|i: int| 0 <= i < cookies.len() && #[trigger] is_pair_of(written, cookies[i], domain)
}

/// The cookies stand in the header in the order in which they are stored, a semicolon and a space
/// between any two.
pub proof fn the_header_keeps_the_order(cookies: Seq<Cookie>, last: Cookie, domain: Seq<char>)
    ensures
        header_for(Seq::empty(), domain).len() == 0,
        !sent_to(last.domain@, domain) ==> header_for(cookies.push(last), domain) == header_for(
            cookies,
            domain,
        ),
        sent_to(last.domain@, domain) && pairs(cookies, domain).len() == 0 ==> header_for(
            cookies.push(last),
            domain,
        ) == last.name@ + seq!['='] + last.value@,
        sent_to(last.domain@, domain) && pairs(cookies, domain).len() > 0 ==> header_for(
            cookies.push(last),
            domain,
        ) == header_for(cookies, domain) + seq![';', ' '] + (last.name@ + seq!['='] + last.value@),
{
    let before = pairs(cookies, domain);
    assert(cookies.push(last).drop_last() =~= cookies);
    if sent_to(last.domain@, domain) {
        assert(before.push(pair(last)).drop_last() =~= before);
    }
}

/// What a look at the page comes to: a window that was closed is closed, a page whose cookies
/// cannot be read yet is waited for, and one that proves no session is loaded once more, at the
/// address that was asked for, exactly when it is on the domain and was not loaded before.
pub proof fn a_page_is_loaded_once_more(target: Target, retried: bool, page: Page)
    ensures
        ({
            let (answer, order, after) = polled(target, retried, page);
            let here = page.host matches Some(host) && sent_to(host@, target.domain@);
            &&& answer is Closed <==> page.closed
            &&& page.closed ==> order is Stay && after == retried
            &&& !page.closed && page.cookies is None ==> answer is Pending && order is Stay && after
                == retried
            &&& order is Load ==> order == OrderModel::Load(target.url@) && answer is Pending
            &&& order is Load <==> !page.closed && page.cookies is Some && !(answer is Cookies)
                && !retried && here
            &&& after <==> retried || order is Load
        }),
{
}

/// A window can be opened on Linux, macOS and Windows, and nowhere else.
pub proof fn three_systems_have_a_window(os: Os)
    ensures
        has_backend(os) <==> os is Linux || os is Macos || os is Windows,
        !has_backend(os) <==> os is Freebsd || os is Other,
{
}

/// A window opens where the system has one and it is not refused; it starts with its own target
/// and may still load its page once more.
pub proof fn a_window_opens_where_it_can(
    target: Target,
    os: Os,
    opened: Result<(), String>,
    login: Result<Login, OpenError>,
)
    requires
        call_ensures(Login::open, (target, os, opened), login),
    ensures
        login is Ok <==> (os is Linux || os is Macos || os is Windows) && opened is Ok,
        login matches Ok(login) ==> login.target() == target && !login.retried(),
        os is Freebsd || os is Other ==> login matches Err(OpenError::Unsupported),
        (os is Linux || os is Macos || os is Windows) && opened is Err ==> (login matches Err(
            OpenError::Refused(why),
        ) && opened == Err::<(), String>(why)),
{
}

} // verus!
