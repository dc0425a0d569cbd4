use sonora::platform::{Arch, Os};
use sonora::widevine::source::{
    admits, component, library, newest, places, search, steps, version, walk, Base, Candidate, Machine,
    Settled, Walk,
};
use sonora::widevine::{
    available, cenc_header, find, installed, pssh, require, supported, Build, Found, Missing,
    Origin, SYSTEM_ID,
};

#[test]
fn the_cenc_header_is_protobuf() {
    assert_eq!(
        cenc_header(&[0xaa; 4]),
        vec![0x08, 0x01, 0x12, 0x04, 0xaa, 0xaa, 0xaa, 0xaa, 0x1a, 0x00, 0x32, 0x00]
    );
}

#[test]
fn a_long_key_id_gets_a_multibyte_length() {
    let encoded = cenc_header(&[0u8; 200]);
    assert_eq!(&encoded[2..5], &[0x12, 0xc8, 0x01], "200 as a varint");
    assert_eq!(encoded.len(), 2 + 3 + 200 + 2 + 2);
}

#[test]
fn the_pssh_box_declares_its_own_size() {
    let key_id = [0x11u8; 16];
    let boxed = pssh(&key_id);
    let declared = u32::from_be_bytes(boxed[0..4].try_into().unwrap()) as usize;
    assert_eq!(declared, boxed.len());
    assert_eq!(&boxed[4..8], b"pssh");
    assert_eq!(&boxed[8..12], &[0, 0, 0, 0], "version 0, no flags");
    assert_eq!(&boxed[12..28], &SYSTEM_ID);
    let payload = u32::from_be_bytes(boxed[28..32].try_into().unwrap()) as usize;
    assert_eq!(payload, boxed.len() - 32);
    assert!(boxed[32..].windows(16).any(|window| window == key_id));
}

#[test]
fn the_pssh_box_wraps_the_header() {
    let boxed = pssh(&[1, 2]);
    assert_eq!(boxed[32..], cenc_header(&[1, 2]));
    assert_eq!(boxed.len(), 32 + 10);
    assert_ne!(boxed, pssh(&[1, 3]));
    assert_ne!(boxed, pssh(&[1]));
}

fn here(path: &'static str, origin: Origin) -> Found<&'static str> {
    Found { path, origin }
}

#[test]
fn a_build_without_a_host_needs_no_module() {
    let cdm = here("/opt/cdm.so", Origin::Installed);
    let bare = Build { cdm: false };
    let full = Build { cdm: true };
    assert!(!supported(bare));
    assert!(supported(full));
    assert!(!available(bare, Some(&cdm)));
    assert!(available(full, Some(&cdm)));
    assert!(!available::<&str>(full, None));
    assert_eq!(require(bare, Some(&cdm)), Err(Missing::Host));
    assert_eq!(require::<&str>(bare, None), Err(Missing::Host));
    assert_eq!(require::<&str>(full, None), Err(Missing::Module));
    assert_eq!(require(full, Some(&cdm)), Ok(()));
    assert_eq!(
        Missing::Host.message(),
        "this build carries no widevine host"
    );
    assert_eq!(
        Missing::Module.message(),
        "no widevine module was found on this machine"
    );
}

#[test]
fn the_module_has_a_name_on_every_system() {
    assert_eq!(library(Os::Linux), "libwidevinecdm.so");
    assert_eq!(library(Os::Macos), "libwidevinecdm.dylib");
    assert_eq!(library(Os::Windows), "widevinecdm.dll");
    assert_eq!(
        component(Os::Linux, Arch::X64),
        "_platform_specific/linux_x64/libwidevinecdm.so"
    );
    assert_eq!(
        component(Os::Macos, Arch::Arm64),
        "_platform_specific/mac_arm64/libwidevinecdm.dylib"
    );
}

fn candidate(path: &'static str, names: &[&str]) -> Candidate<&'static str> {
    Candidate {
        path,
        names: names.iter().map(|name| name.to_string()).collect(),
    }
}

#[test]
fn a_version_is_read_off_a_path() {
    let names: Vec<String> = vec!["WidevineCdm".to_string(), "4.10.2557.0".to_string()];
    assert_eq!(version(&names), vec![4, 10, 2557, 0]);
    let plain: Vec<String> = vec!["WidevineCdm".to_string()];
    assert_eq!(version(&plain), Vec::<u64>::new());
    let signed: Vec<String> = vec!["4.10".to_string(), "+5.1".to_string()];
    assert_eq!(version(&signed), vec![4, 10]);
}

#[test]
fn the_newest_module_wins() {
    let held = vec![
        candidate("old", &["4.9.1"]),
        candidate("new", &["4.10.0"]),
        candidate("older", &["3.99.9"]),
    ];
    assert_eq!(newest(&held), Some(1));
    assert_eq!(newest::<&str>(&Vec::new()), None);
}

#[test]
fn the_first_place_with_a_module_answers() {
    let hunted = vec![
        Vec::new(),
        vec![candidate("a", &["1.0"]), candidate("b", &["2.0"])],
        vec![candidate("c", &["9.0"])],
    ];
    assert_eq!(installed(&hunted), Some((1, 1)));
    assert_eq!(installed::<&str>(&vec![Vec::new(), Vec::new()]), None);
}

#[test]
fn the_environment_comes_first() {
    assert_eq!(
        search(Some("set"), Some("found")),
        Some(here("set", Origin::Configured))
    );
    assert_eq!(
        search(None, Some("found")),
        Some(here("found", Origin::Installed))
    );
    assert_eq!(search::<&str>(None, None), None);
}

#[test]
fn only_a_search_that_found_something_is_remembered() {
    let mut settled: Settled<&'static str> = Settled::new();
    assert!(settled.known().is_none());
    assert!(find(&mut settled, None).is_none());
    assert_eq!(
        find(&mut settled, Some(here("first", Origin::Installed))),
        Some(&here("first", Origin::Installed))
    );
    assert_eq!(
        find(&mut settled, Some(here("second", Origin::Configured))),
        Some(&here("first", Origin::Installed))
    );
    assert_eq!(find(&mut settled, None).map(|found| found.path), Some("first"));
}

#[test]
fn a_path_is_walked_level_by_level() {
    let under = steps("Cdm/*/lib.so");
    assert_eq!(under, vec!["Cdm", "*", "lib.so"]);
    assert_eq!(walk(&under, 0), Walk::Into);
    assert_eq!(walk(&under, 1), Walk::Every);
    assert_eq!(walk(&under, 2), Walk::Into);
    assert_eq!(walk(&under, 3), Walk::Arrived);
    let bundled = steps("*.app/Contents");
    assert_eq!(walk(&bundled, 0), Walk::Every);
    assert!(admits("*.app", "Google Chrome.app"));
    assert!(!admits("*.app", "Utilities"));
    assert!(admits("*", "anything"));
}

#[test]
fn a_machine_without_a_home_is_searched_elsewhere() {
    let bare = Machine {
        os: Os::Linux,
        arch: Arch::X64,
        home: false,
        program_files: false,
        program_files_x86: false,
        local_app_data: false,
        app_data: false,
    };
    let housed = Machine { home: true, ..bare };
    let without = places(bare);
    let with = places(housed);
    assert!(without
        .iter()
        .all(|place| !matches!(place.base, Base::Home(_))));
    assert!(with
        .iter()
        .any(|place| matches!(place.base, Base::Home(_))));
    assert!(with.len() > without.len());
}
