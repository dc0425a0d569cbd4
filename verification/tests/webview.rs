use sonora::platform::Os;
use sonora::webview::{
    header, proven, supported, Cookie, Login, OpenError, Order, Page, Poll, Target,
};

fn cookie(name: &str, domain: &str) -> Cookie {
    Cookie {
        name: name.to_string(),
        value: format!("{name}-value"),
        domain: domain.to_string(),
    }
}

fn target() -> Target {
    Target {
        url: "https://accounts.example.com/in".to_string(),
        landing: "https://music.youtube.com".to_string(),
        domain: "youtube.com".to_string(),
        proof: vec!["SAPISID".to_string()],
        title: "Sign in".to_string(),
        agent: None,
    }
}

fn page(cookies: Option<Vec<Cookie>>, host: Option<&str>) -> Page {
    Page {
        closed: false,
        cookies,
        host: host.map(|host| host.to_string()),
    }
}

fn opened() -> Login {
    Login::open(target(), Os::Linux, Ok(())).expect("there is a backend")
}

#[test]
fn keeps_the_domain_and_its_subdomains() {
    assert!(sonora::webview::matches(".youtube.com", "youtube.com"));
    assert!(sonora::webview::matches("youtube.com", "youtube.com"));
    assert!(sonora::webview::matches("music.youtube.com", "youtube.com"));
    assert!(!sonora::webview::matches(".google.com", "youtube.com"));
    assert!(!sonora::webview::matches("notyoutube.com", "youtube.com"));
}

#[test]
fn joins_only_the_matching_cookies() {
    let cookies = [
        cookie("SAPISID", ".youtube.com"),
        cookie("NID", ".google.com"),
        cookie("PREF", "music.youtube.com"),
    ];
    assert_eq!(
        header(&cookies, "youtube.com"),
        "SAPISID=SAPISID-value; PREF=PREF-value"
    );
}

#[test]
fn proof_needs_one_of_the_names() {
    let proof = vec!["SAPISID".to_string(), "__Secure-3PAPISID".to_string()];
    assert!(proven("VISITOR=1; __Secure-3PAPISID=x", &proof));
    assert!(!proven("VISITOR=1; PREF=x", &proof));
    assert!(!proven("", &proof));
}

#[test]
fn an_empty_proof_cookie_is_not_a_session() {
    let proof = vec!["media-user-token".to_string()];
    assert!(!proven("geo=PL; media-user-token=", &proof));
    assert!(!proven("media-user-token=   ", &proof));
    assert!(proven("media-user-token=AbCd", &proof));
}

#[test]
fn no_cookies_make_an_empty_header() {
    assert_eq!(header(&[], "youtube.com"), "");
    assert_eq!(header(&[cookie("NID", ".google.com")], "youtube.com"), "");
}

#[test]
fn only_three_systems_have_a_backend() {
    assert!(supported(Os::Linux, true));
    assert!(supported(Os::Macos, true));
    assert!(supported(Os::Windows, true));
    assert!(!supported(Os::Freebsd, true));
    assert!(!supported(Os::Other, true));
    assert!(!supported(Os::Linux, false));
}

#[test]
fn a_window_that_cannot_open_says_why() {
    assert_eq!(
        Login::open(target(), Os::Freebsd, Ok(())).err(),
        Some(OpenError::Unsupported)
    );
    assert_eq!(
        Login::open(target(), Os::Linux, Err("no display".to_string())).err(),
        Some(OpenError::Refused("no display".to_string()))
    );
}

#[test]
fn a_closed_window_ends_the_poll() {
    let mut login = opened();
    let shut = Page {
        closed: true,
        cookies: Some(vec![cookie("SAPISID", ".youtube.com")]),
        host: None,
    };
    assert_eq!(login.poll(&shut), (Poll::Closed, Order::Stay));
}

#[test]
fn a_window_without_cookies_yet_is_pending() {
    let mut login = opened();
    assert_eq!(
        login.poll(&page(None, Some("music.youtube.com"))),
        (Poll::Pending, Order::Stay)
    );
}

#[test]
fn proof_closes_the_window_with_its_header() {
    let mut login = opened();
    let through = page(
        Some(vec![
            cookie("SAPISID", ".youtube.com"),
            cookie("NID", ".google.com"),
        ]),
        Some("music.youtube.com"),
    );
    assert_eq!(
        login.poll(&through),
        (
            Poll::Cookies("SAPISID=SAPISID-value".to_string()),
            Order::Close
        )
    );
}

#[test]
fn a_signed_out_page_loads_the_url_once_more() {
    let mut login = opened();
    let elsewhere = page(Some(Vec::new()), Some("accounts.example.com"));
    let skipped = page(Some(Vec::new()), Some("music.youtube.com"));
    assert_eq!(login.poll(&elsewhere), (Poll::Pending, Order::Stay));
    assert_eq!(
        login.poll(&skipped),
        (
            Poll::Pending,
            Order::Load("https://accounts.example.com/in".to_string())
        )
    );
    assert_eq!(login.poll(&skipped), (Poll::Pending, Order::Stay));
    assert_eq!(login.poll(&skipped), (Poll::Pending, Order::Stay));
}

#[test]
fn a_page_without_a_host_is_left_alone() {
    let mut login = opened();
    assert_eq!(
        login.poll(&page(Some(Vec::new()), None)),
        (Poll::Pending, Order::Stay)
    );
}

#[test]
fn a_header_read_back_shows_the_session() {
    let proof = vec!["SAPISID".to_string()];
    let with = [
        cookie("PREF", ".youtube.com"),
        cookie("SAPISID", "youtube.com"),
    ];
    let without = [
        cookie("PREF", ".youtube.com"),
        cookie("SAPISID", ".google.com"),
    ];
    assert!(proven(&header(&with, "youtube.com"), &proof));
    assert!(!proven(&header(&without, "youtube.com"), &proof));
}
