//! Finding a CDM, which is never the app's to ship or to fetch.
//!
//! The Widevine module is licensed to browser and device vendors and nothing of it may be
//! redistributed, so a release can never carry one and the app never goes looking for one on the
//! network either. What it does is use a copy the machine already has: every Chromium-family
//! browser bundles or component-updates one, Firefox fetches one the first time a page asks for
//! protected playback, and `SONORA_WIDEVINE_CDM` names one directly for anything those patterns
//! miss. Every copy is read where it lies, never copied.
//!
//! A path is whatever the host uses for one; the library reads nothing of it but the names of
//! its folders.

use vstd::prelude::*;

use crate::platform::{Arch, Os};
use crate::text::laws::{
    a_number_reads_back, a_text_ends_in_its_tail, joined_texts_are_cut_apart, lemma_longer_piece,
    only_digits_are_a_number,
};
use crate::text::{
    decimal, ends_in, ends_with, joined, joined_pair, number_in, parse_number, pieces, split,
    starts_with, texts,
};

verus! {

/// How a CDM was come by.
#[derive(Clone, Copy, Debug, PartialEq, Eq, Structural)]
pub enum Origin {
    /// Named by `SONORA_WIDEVINE_CDM`.
    Configured,
    /// A copy a browser or another application on this machine already had.
    Installed,
}

/// A CDM on disk and where it came from.
#[derive(Clone, Debug, PartialEq, Eq)]
pub struct Found<P> {
    pub path: P,
    pub origin: Origin,
}

/// A file a place turned out to hold, with the names along its path that are text, the outermost
/// first.
#[derive(Clone, Debug, PartialEq, Eq)]
pub struct Candidate<P> {
    pub path: P,
    pub names: Vec<String>,
}

/// Where a place starts: a directory of its own, one below the user's home, or the one an
/// environment variable names.
#[derive(Clone, Copy, Debug)]
pub enum Base {
    At(&'static str),
    Home(&'static str),
    Variable(&'static str),
}

/// A place to look: a directory that exists on this platform, and the names below it, where a
/// `*` stands for every name at that level, or for every one that ends in what follows it.
#[derive(Clone, Debug)]
pub struct Place {
    pub base: Base,
    pub under: Vec<String>,
}

/// What is known of the machine before the search: the system, the processor, whether there is a
/// home directory, and which of the directories Windows names by variables it has.
#[derive(Clone, Copy, Debug, PartialEq, Eq, Structural)]
pub struct Machine {
    pub os: Os,
    pub arch: Arch,
    pub home: bool,
    pub program_files: bool,
    pub program_files_x86: bool,
    pub local_app_data: bool,
    pub app_data: bool,
}

/// The file name the CDM has on a platform.
pub open spec fn library_of(os: Os) -> Seq<char> {
    match os {
        Os::Windows => "widevinecdm.dll"@,
        Os::Macos => "libwidevinecdm.dylib"@,
        _ => "libwidevinecdm.so"@,
    }
}

/// The operating system as the `_platform_specific` folders of a component name it.
pub open spec fn os_name(os: Os) -> Seq<char> {
    match os {
        Os::Windows => "win"@,
        Os::Macos => "mac"@,
        _ => "linux"@,
    }
}

/// The processor those folders name, empty on a machine there is no CDM for.
pub open spec fn arch_name(arch: Arch) -> Seq<char> {
    match arch {
        Arch::X64 => "x64"@,
        Arch::Arm64 => "arm64"@,
        Arch::Other => ""@,
    }
}

/// The component layout below a version folder.
pub open spec fn component_of(os: Os, arch: Arch) -> Seq<char> {
    "_platform_specific/"@ + os_name(os) + "_"@ + arch_name(arch) + "/"@ + library_of(os)
}

/// The file name the CDM has on a platform.
pub fn library(os: Os) -> (name: &'static str)
    ensures
        name@ == library_of(os),
{
    match os {
        Os::Windows => "widevinecdm.dll",
        Os::Macos => "libwidevinecdm.dylib",
        _ => "libwidevinecdm.so",
    }
}

/// The component layout below a version folder.
pub fn component(os: Os, arch: Arch) -> (path: String)
    ensures
        path@ == component_of(os, arch),
{
    let system: &'static str = match os {
        Os::Windows => "win",
        Os::Macos => "mac",
        _ => "linux",
    };
    let processor: &'static str = match arch {
        Arch::X64 => "x64",
        Arch::Arm64 => "arm64",
        Arch::Other => "",
    };
    let mut path = joined_pair("_platform_specific/", system);
    path.append("_");
    path.append(processor);
    path.append("/");
    path.append(library(os));
    path
}

/// A place as mathematics: where it starts, and the names below.
pub type PlaceModel = (Base, Seq<Seq<char>>);

/// Places as mathematics.
pub open spec fn seen_places(places: Seq<Place>) -> Seq<PlaceModel> {
    places.map_values(|one: Place| (one.base, texts(one.under@)))
}

/// The place below `base` whose names are `front`, then `tail`, written with slashes.
pub open spec fn place_at(base: Base, front: Seq<char>, tail: Seq<char>) -> PlaceModel {
    (base, pieces(front + tail, '/'))
}

/// Where Linux applications keep a CDM. Chromium-family applications either bundle the component
/// beside the browser or let the component updater put it under their own config folder, and
/// Firefox keeps its copy in the profile it fetched it for.
pub open spec fn linux_places(machine: Machine) -> Seq<PlaceModel> {
    let component = component_of(Os::Linux, machine.arch);
    let library = library_of(Os::Linux);
    let opt = Base::At("/opt");
    let lib = Base::At("/usr/lib");
    let lib64 = Base::At("/usr/lib64");
    let config = Base::Home(".config");
    let bundled = seq![
        place_at(opt, "google/chrome/WidevineCdm/*/"@, component),
        place_at(opt, "google/chrome-beta/WidevineCdm/*/"@, component),
        place_at(opt, "google/chrome-unstable/WidevineCdm/*/"@, component),
        place_at(opt, "microsoft/msedge/WidevineCdm/*/"@, component),
        place_at(opt, "microsoft/msedge-beta/WidevineCdm/*/"@, component),
        place_at(opt, "brave.com/brave/WidevineCdm/*/"@, component),
        place_at(opt, "vivaldi/WidevineCdm/*/"@, component),
        place_at(lib, "chromium/WidevineCdm/*/"@, component),
        place_at(lib, "chromium-browser/WidevineCdm/*/"@, component),
        place_at(lib, "opera/WidevineCdm/*/"@, component),
        place_at(lib, "vivaldi/WidevineCdm/*/"@, component),
        place_at(lib64, "chromium/WidevineCdm/*/"@, component),
        place_at(lib64, "chromium-browser/WidevineCdm/*/"@, component),
        place_at(lib64, "opera/WidevineCdm/*/"@, component),
        place_at(lib64, "vivaldi/WidevineCdm/*/"@, component),
    ];
    let fetched = seq![
        place_at(config, "*/WidevineCdm/*/"@, component),
        place_at(config, "*/*/WidevineCdm/*/"@, component),
        place_at(Base::Home(".var/app"), "*/config/*/WidevineCdm/*/"@, component),
        place_at(Base::Home(".mozilla/firefox"), "*/gmp-widevinecdm/*/"@, library),
        place_at(
            Base::Home(".var/app/org.mozilla.firefox/.mozilla/firefox"),
            "*/gmp-widevinecdm/*/"@,
            library,
        ),
        place_at(
            Base::Home("snap/firefox/common/.mozilla/firefox"),
            "*/gmp-widevinecdm/*/"@,
            library,
        ),
    ];
    if machine.home {
        bundled + fetched
    } else {
        bundled
    }
}

/// The macOS places. A Chromium-family browser keeps the component inside the versioned
/// framework of its own bundle, so one pattern finds every one of them.
pub open spec fn macos_places(machine: Machine) -> Seq<PlaceModel> {
    let component = component_of(Os::Macos, machine.arch);
    let library = library_of(Os::Macos);
    let bundle =
        "*.app/Contents/Frameworks/*.framework/Versions/*/Libraries/WidevineCdm/"@;
    let support = Base::Home("Library/Application Support");
    let shared = seq![place_at(Base::At("/Applications"), bundle, component)];
    let own = seq![
        place_at(Base::Home("Applications"), bundle, component),
        place_at(support, "*/WidevineCdm/*/"@, component),
        place_at(support, "*/*/WidevineCdm/*/"@, component),
        place_at(
            Base::Home("Library/Application Support/Firefox/Profiles"),
            "*/gmp-widevinecdm/*/"@,
            library,
        ),
    ];
    if machine.home {
        shared + own
    } else {
        shared
    }
}

/// The places below one of the directories Windows names by a variable, none when it has none.
pub open spec fn windows_root(machine: Machine, root: Base, set: bool) -> Seq<PlaceModel> {
    let component = component_of(Os::Windows, machine.arch);
    let library = library_of(Os::Windows);
    if set {
        seq![
            place_at(root, "*/*/Application/*/WidevineCdm/"@, component),
            place_at(root, "*/*/User Data/WidevineCdm/*/"@, component),
            place_at(root, "*/*/*/User Data/WidevineCdm/*/"@, component),
            place_at(root, "Mozilla/Firefox/Profiles/*/gmp-widevinecdm/*/"@, library),
        ]
    } else {
        Seq::empty()
    }
}

/// The Windows places. A browser keeps its copy beside the versioned application, with a
/// component-updated copy under the browser's user data.
pub open spec fn windows_places(machine: Machine) -> Seq<PlaceModel> {
    windows_root(machine, Base::Variable("ProgramFiles"), machine.program_files) + windows_root(
        machine,
        Base::Variable("ProgramFiles(x86)"),
        machine.program_files_x86,
    ) + windows_root(machine, Base::Variable("LOCALAPPDATA"), machine.local_app_data)
        + windows_root(machine, Base::Variable("APPDATA"), machine.app_data)
}

/// Where another application's CDM may be, in the order the places are listed. Every other
/// platform has nowhere to look, which is the same answer as having no host.
pub open spec fn places_of(machine: Machine) -> Seq<PlaceModel> {
    match machine.os {
        Os::Linux => linux_places(machine),
        Os::Macos => macos_places(machine),
        Os::Windows => windows_places(machine),
        _ => Seq::empty(),
    }
}

/// Splits a slash-separated tail into the names a search walks.
pub fn steps(under: &str) -> (names: Vec<String>)
    ensures
        texts(names@) == pieces(under@, '/'),
{
    split(under, '/')
}

/// Adds one place to the list.
fn push_place(places: &mut Vec<Place>, base: Base, front: &str, tail: &str)
    ensures
        seen_places(final(places)@) == seen_places(old(places)@).push(
            place_at(base, front@, tail@),
        ),
{
    let whole = joined_pair(front, tail);
    let under = steps(whole.as_str());
    places.push(Place { base, under });
    assert(seen_places(places@) =~= seen_places(old(places)@).push(
        place_at(base, front@, tail@),
    ));
}

/// Adds the places below one of the directories Windows names by a variable.
fn push_windows(places: &mut Vec<Place>, machine: Machine, root: Base, set: bool)
    ensures
        seen_places(final(places)@) == seen_places(old(places)@) + windows_root(
            machine,
            root,
            set,
        ),
{
    if set {
        let component = component(Os::Windows, machine.arch);
        let library = library(Os::Windows);
        push_place(places, root, "*/*/Application/*/WidevineCdm/", component.as_str());
        push_place(places, root, "*/*/User Data/WidevineCdm/*/", component.as_str());
        push_place(places, root, "*/*/*/User Data/WidevineCdm/*/", component.as_str());
        push_place(places, root, "Mozilla/Firefox/Profiles/*/gmp-widevinecdm/*/", library);
    }
    assert(seen_places(places@) =~= seen_places(old(places)@) + windows_root(machine, root, set));
}

/// Where another application's CDM may be, in the order the places are listed.
pub fn places(machine: Machine) -> (list: Vec<Place>)
    ensures
        seen_places(list@) == places_of(machine),
{
    let mut list: Vec<Place> = Vec::new();
    assert(seen_places(list@) =~= Seq::empty());
    match machine.os {
        Os::Linux => {
            let held = component(Os::Linux, machine.arch);
            let part = held.as_str();
            let library = library(Os::Linux);
            let opt = Base::At("/opt");
            let lib = Base::At("/usr/lib");
            let lib64 = Base::At("/usr/lib64");
            push_place(&mut list, opt, "google/chrome/WidevineCdm/*/", part);
            push_place(&mut list, opt, "google/chrome-beta/WidevineCdm/*/", part);
            push_place(&mut list, opt, "google/chrome-unstable/WidevineCdm/*/", part);
            push_place(&mut list, opt, "microsoft/msedge/WidevineCdm/*/", part);
            push_place(&mut list, opt, "microsoft/msedge-beta/WidevineCdm/*/", part);
            push_place(&mut list, opt, "brave.com/brave/WidevineCdm/*/", part);
            push_place(&mut list, opt, "vivaldi/WidevineCdm/*/", part);
            push_place(&mut list, lib, "chromium/WidevineCdm/*/", part);
            push_place(&mut list, lib, "chromium-browser/WidevineCdm/*/", part);
            push_place(&mut list, lib, "opera/WidevineCdm/*/", part);
            push_place(&mut list, lib, "vivaldi/WidevineCdm/*/", part);
            push_place(&mut list, lib64, "chromium/WidevineCdm/*/", part);
            push_place(&mut list, lib64, "chromium-browser/WidevineCdm/*/", part);
            push_place(&mut list, lib64, "opera/WidevineCdm/*/", part);
            push_place(&mut list, lib64, "vivaldi/WidevineCdm/*/", part);
            if machine.home {
                // Chromium-family applications that component-update their own copy, one and two
                // folders deep: Chrome and Chromium are the first, Brave is the second.
                let config = Base::Home(".config");
                push_place(&mut list, config, "*/WidevineCdm/*/", part);
                push_place(&mut list, config, "*/*/WidevineCdm/*/", part);
                push_place(&mut list, Base::Home(".var/app"), "*/config/*/WidevineCdm/*/", part);
                push_place(
                    &mut list,
                    Base::Home(".mozilla/firefox"),
                    "*/gmp-widevinecdm/*/",
                    library,
                );
                push_place(
                    &mut list,
                    Base::Home(".var/app/org.mozilla.firefox/.mozilla/firefox"),
                    "*/gmp-widevinecdm/*/",
                    library,
                );
                push_place(
                    &mut list,
                    Base::Home("snap/firefox/common/.mozilla/firefox"),
                    "*/gmp-widevinecdm/*/",
                    library,
                );
            }
            assert(seen_places(list@) =~= linux_places(machine));
        },
        Os::Macos => {
            let held = component(Os::Macos, machine.arch);
            let part = held.as_str();
            let library = library(Os::Macos);
            let bundle =
                "*.app/Contents/Frameworks/*.framework/Versions/*/Libraries/WidevineCdm/";
            push_place(&mut list, Base::At("/Applications"), bundle, part);
            if machine.home {
                let support = Base::Home("Library/Application Support");
                push_place(&mut list, Base::Home("Applications"), bundle, part);
                push_place(&mut list, support, "*/WidevineCdm/*/", part);
                push_place(&mut list, support, "*/*/WidevineCdm/*/", part);
                push_place(
                    &mut list,
                    Base::Home("Library/Application Support/Firefox/Profiles"),
                    "*/gmp-widevinecdm/*/",
                    library,
                );
            }
            assert(seen_places(list@) =~= macos_places(machine));
        },
        Os::Windows => {
            push_windows(
                &mut list,
                machine,
                Base::Variable("ProgramFiles"),
                machine.program_files,
            );
            push_windows(
                &mut list,
                machine,
                Base::Variable("ProgramFiles(x86)"),
                machine.program_files_x86,
            );
            push_windows(
                &mut list,
                machine,
                Base::Variable("LOCALAPPDATA"),
                machine.local_app_data,
            );
            push_windows(&mut list, machine, Base::Variable("APPDATA"), machine.app_data);
            assert(seen_places(list@) =~= windows_places(machine));
        },
        _ => {},
    }
    list
}

/// What a search does with the next name of a place.
#[derive(Clone, Copy, Debug, PartialEq, Eq, Structural)]
pub enum Walk {
    /// The names are used up: what is here counts if it is a file.
    Arrived,
    /// The one entry of that name is walked into.
    Into,
    /// Every entry that the name [`admits`] is walked into.
    Every,
}

/// The name stands for many: a `*` in front leaves open how they start.
pub open spec fn is_open(name: Seq<char>) -> bool {
    name.len() > 0 && name[0] == '*'
}

/// What a search does at one level of a place.
pub fn walk(under: &Vec<String>, level: usize) -> (next: Walk)
    ensures
        next == (if level >= under@.len() {
            Walk::Arrived
        } else if is_open(under@[level as int]@) {
            Walk::Every
        } else {
            Walk::Into
        }),
{
    proof {
        reveal_strlit("*");
        assert("*"@ =~= seq!['*']);
    }
    if level >= under.len() {
        return Walk::Arrived;
    }
    let ghost name = under@[level as int]@;
    assert("*"@.is_prefix_of(name) == is_open(name)) by {
        if name.len() > 0 {
            assert(name.subrange(0, 1)[0] == name[0]);
            assert(name.subrange(0, 1) =~= seq![name[0]]);
        }
    }
    if starts_with(under[level].as_str(), "*") {
        Walk::Every
    } else {
        Walk::Into
    }
}

/// Whether an entry is one of those a name stands for: it ends in what follows the `*`, so that a
/// `*` alone stands for every one.
pub fn admits(name: &str, entry: &str) -> (yes: bool)
    requires
        is_open(name@),
    ensures
        yes == ends_in(entry@, name@.drop_first()),
{
    let length: usize = name.unicode_len();
    let tail = name.substring_char(1, length);
    assert(tail@ =~= name@.drop_first());
    ends_with(entry, tail)
}

/// A `*` alone stands for every entry.
pub proof fn a_star_stands_for_every_name(entry: Seq<char>)
    ensures
        is_open(seq!['*']),
        ends_in(entry, seq!['*'].drop_first()),
{
    assert(entry.skip(entry.len() as int) =~= seq!['*'].drop_first());
}

/// The numbers between the dots, when there are at least two and nothing else.
pub open spec fn version_in(name: Seq<char>) -> Option<Seq<u64>> {
    let parts = pieces(name, '.');
    if parts.len() > 1 && forall|i: int|
        0 <= i < parts.len() ==> number_in(#[trigger] parts[i]) is Some {
        Some(Seq::new(parts.len(), |i: int| number_in(parts[i])->0))
    } else {
        None
    }
}

/// The version a path carries: that of the deepest folder whose name is one. A path with no such
/// folder has none.
pub open spec fn version_of(names: Seq<Seq<char>>) -> Seq<u64>
    decreases names.len(),
{
    if names.len() == 0 {
        Seq::empty()
    } else {
        match version_in(names.last()) {
            Some(version) => version,
            None => version_of(names.drop_last()),
        }
    }
}

/// One version is no newer than another: the first number that differs decides, and a version
/// that only goes on longer is newer.
pub open spec fn no_newer(left: Seq<u64>, right: Seq<u64>) -> bool
    decreases left.len(),
{
    if left.len() == 0 {
        true
    } else if right.len() == 0 {
        false
    } else if left[0] != right[0] {
        left[0] < right[0]
    } else {
        no_newer(left.drop_first(), right.drop_first())
    }
}

/// A version is no newer than itself.
pub proof fn no_newer_than_itself(one: Seq<u64>)
    ensures
        no_newer(one, one),
    decreases one.len(),
{
    if one.len() > 0 {
        no_newer_than_itself(one.drop_first());
    }
}

/// Of two versions one is no newer than the other, and if each is, they are the same.
pub proof fn versions_compare(left: Seq<u64>, right: Seq<u64>)
    ensures
        no_newer(left, right) || no_newer(right, left),
        no_newer(left, right) && no_newer(right, left) ==> left == right,
    decreases left.len(),
{
    if left.len() > 0 && right.len() > 0 {
        versions_compare(left.drop_first(), right.drop_first());
        if no_newer(left, right) && no_newer(right, left) {
            assert(left =~= seq![left[0]] + left.drop_first());
            assert(right =~= seq![right[0]] + right.drop_first());
        }
    } else if left.len() == 0 && right.len() == 0 {
        assert(left =~= right);
    }
}

/// What is no newer than a version is no newer than anything newer than that.
pub proof fn versions_chain(left: Seq<u64>, middle: Seq<u64>, right: Seq<u64>)
    requires
        no_newer(left, middle),
        no_newer(middle, right),
    ensures
        no_newer(left, right),
    decreases left.len(),
{
    if left.len() > 0 && left[0] == middle[0] && middle[0] == right[0] {
        versions_chain(left.drop_first(), middle.drop_first(), right.drop_first());
    }
}

/// A path without a version sorts below every path that has one, and a version found in a folder's
/// name is never empty.
pub proof fn no_version_sorts_lowest(names: Seq<Seq<char>>, version: Seq<u64>)
    requires
        version.len() > 0,
    ensures
        (forall|i: int| 0 <= i < names.len() ==> version_in(#[trigger] names[i]) is None)
            <==> version_of(names).len() == 0,
        version_of(names).len() == 0 ==> no_newer(version_of(names), version) && !no_newer(
            version,
            version_of(names),
        ),
    decreases names.len(),
{
    if names.len() > 0 {
        let fewer = names.drop_last();
        no_version_sorts_lowest(fewer, version);
        assert(forall|i: int| 0 <= i < fewer.len() ==> fewer[i] == names[i]);
        assert(names[names.len() - 1] == names.last());
    }
}

/// Reads the numbers between the dots of a name.
fn read_version(name: &str) -> (version: Option<Vec<u64>>)
    ensures
        match version {
            Some(version) => version_in(name@) == Some(version@),
            None => version_in(name@) is None,
        },
{
    let parts = split(name, '.');
    let ghost names = pieces(name@, '.');
    if parts.len() < 2 {
        assert(names.len() == parts@.len());
        return None;
    }
    let mut numbers: Vec<u64> = Vec::new();
    let mut index: usize = 0;
    while index < parts.len()
        invariant
            texts(parts@) == names,
            names == pieces(name@, '.'),
            index == numbers@.len(),
            index <= parts@.len(),
            forall|i: int|
                0 <= i < index ==> number_in(#[trigger] names[i]) == Some(numbers@[i]),
        decreases parts@.len() - index,
    {
        assert(names[index as int] == parts@[index as int]@);
        match parse_number(parts[index].as_str()) {
            Some(number) => numbers.push(number),
            None => {
                assert(version_in(name@) is None);
                return None;
            },
        }
        index = index + 1;
    }
    assert(names.len() == parts@.len());
    assert(numbers@ =~= Seq::new(names.len(), |i: int| number_in(names[i])->0));
    Some(numbers)
}

/// The version a path carries, read from the deepest folder that is nothing but numbers and
/// dots. A path with no such folder sorts below every path that has one.
pub fn version(names: &Vec<String>) -> (found: Vec<u64>)
    ensures
        found@ == version_of(texts(names@)),
{
    let mut left: usize = names.len();
    let ghost all = texts(names@);
    assert(all.take(left as int) =~= all);
    while left > 0
        invariant
            left <= names@.len(),
            all == texts(names@),
            version_of(all.take(left as int)) == version_of(all),
        decreases left,
    {
        assert(all.take(left as int).drop_last() =~= all.take(left - 1));
        assert(all.take(left as int).last() == names@[left - 1]@);
        if let Some(found) = read_version(names[left - 1].as_str()) {
            return found;
        }
        left = left - 1;
    }
    Vec::new()
}

/// Whether one version is no newer than another.
fn compare(left: &Vec<u64>, right: &Vec<u64>) -> (older: bool)
    ensures
        older == no_newer(left@, right@),
{
    let mut index: usize = 0;
    assert(left@.skip(0) =~= left@);
    assert(right@.skip(0) =~= right@);
    while index < left.len()
        invariant
            index <= left@.len(),
            index <= right@.len(),
            no_newer(left@.skip(index as int), right@.skip(index as int)) == no_newer(
                left@,
                right@,
            ),
        decreases left@.len() - index,
    {
        if index == right.len() {
            return false;
        }
        if left[index] != right[index] {
            return left[index] < right[index];
        }
        assert(left@.skip(index as int).drop_first() =~= left@.skip(index + 1));
        assert(right@.skip(index as int).drop_first() =~= right@.skip(index + 1));
        index = index + 1;
    }
    true
}

/// The version one of the candidates carries.
pub open spec fn candidate_version<P>(candidates: Seq<Candidate<P>>, index: int) -> Seq<u64> {
    version_of(texts(candidates[index].names@))
}

/// The candidate at `best` is the newest: none is newer, and of several that are as new it is
/// the last one.
pub open spec fn is_newest<P>(candidates: Seq<Candidate<P>>, best: int) -> bool {
    &&& 0 <= best < candidates.len()
    &&& forall|i: int|
        0 <= i < candidates.len() ==> no_newer(
            #[trigger] candidate_version(candidates, i),
            candidate_version(candidates, best),
        )
    &&& forall|i: int|
        best < i < candidates.len() ==> !no_newer(
            candidate_version(candidates, best),
            #[trigger] candidate_version(candidates, i),
        )
}

/// The path holding the highest version number, so several copies of different ages pick the
/// newest rather than whichever the filesystem listed first.
pub fn newest<P>(candidates: &Vec<Candidate<P>>) -> (best: Option<usize>)
    ensures
        match best {
            Some(best) => is_newest(candidates@, best as int),
            None => candidates@.len() == 0,
        },
{
    if candidates.len() == 0 {
        return None;
    }
    let mut best: usize = 0;
    let mut held = version(&candidates[0].names);
    let mut index: usize = 1;
    proof {
        no_newer_than_itself(held@);
    }
    while index < candidates.len()
        invariant
            1 <= index <= candidates@.len(),
            best < index,
            held@ == candidate_version(candidates@, best as int),
            forall|i: int|
                0 <= i < index ==> no_newer(
                    #[trigger] candidate_version(candidates@, i),
                    held@,
                ),
            forall|i: int|
                best < i < index ==> !no_newer(
                    held@,
                    #[trigger] candidate_version(candidates@, i),
                ),
        decreases candidates@.len() - index,
    {
        let next = version(&candidates[index].names);
        assert(next@ == candidate_version(candidates@, index as int));
        if compare(&held, &next) {
            proof {
                assert forall|i: int| 0 <= i < index implies no_newer(
                    #[trigger] candidate_version(candidates@, i),
                    next@,
                ) by {
                    versions_chain(candidate_version(candidates@, i), held@, next@);
                }
                no_newer_than_itself(next@);
            }
            best = index;
            held = next;
        } else {
            proof {
                versions_compare(held@, next@);
            }
        }
        index = index + 1;
    }
    Some(best)
}

/// The newest CDM belonging to something else on this machine. `hunted` is what each place
/// turned out to hold, in the order of [`places`]: the first place that has one answers, with
/// the place and which of its files it is.
pub fn installed<P>(hunted: &Vec<Vec<Candidate<P>>>) -> (found: Option<(usize, usize)>)
    ensures
        match found {
            Some((place, file)) => {
                &&& place < hunted@.len()
                &&& is_newest(hunted@[place as int]@, file as int)
                &&& forall|i: int| 0 <= i < place ==> (#[trigger] hunted@[i])@.len() == 0
            },
            None => forall|i: int|
                0 <= i < hunted@.len() ==> (#[trigger] hunted@[i])@.len() == 0,
        },
{
    let mut place: usize = 0;
    while place < hunted.len()
        invariant
            place <= hunted@.len(),
            forall|i: int| 0 <= i < place ==> (#[trigger] hunted@[i])@.len() == 0,
        decreases hunted@.len() - place,
    {
        if let Some(file) = newest(&hunted[place]) {
            return Some((place, file));
        }
        place = place + 1;
    }
    None
}

/// The environment first, so a package that ships its own module can say where it is, then
/// whatever else on the machine has one.
pub fn search<P>(configured: Option<P>, installed: Option<P>) -> (found: Option<Found<P>>)
    ensures
        found == (match (configured, installed) {
            (Some(path), _) => Some(Found { path, origin: Origin::Configured }),
            (None, Some(path)) => Some(Found { path, origin: Origin::Installed }),
            (None, None) => None,
        }),
{
    match configured {
        Some(path) => Some(Found { path, origin: Origin::Configured }),
        None => match installed {
            Some(path) => Some(Found { path, origin: Origin::Installed }),
            None => None,
        },
    }
}

/// The CDM this process settled on. Only a search that found something is remembered: with
/// nothing found the next call looks again, so a browser installed part way through a run is
/// picked up without a restart.
#[derive(Debug)]
pub struct Settled<P> {
    found: Option<Found<P>>,
}

impl<P> Settled<P> {
    /// What was settled on.
    pub closed spec fn found(self) -> Option<Found<P>> {
        self.found
    }

    /// Nothing found yet.
    pub fn new() -> (settled: Self)
        ensures
            settled.found() is None,
    {
        Settled { found: None }
    }

    /// What was settled on, when a search has found something. There is no need to search again.
    pub fn known(&self) -> (found: Option<&Found<P>>)
        ensures
            match found {
                Some(found) => self.found() == Some(*found),
                None => self.found() is None,
            },
    {
        match &self.found {
            Some(found) => Some(found),
            None => None,
        }
    }
}

/// The CDM this process would use, or nothing when the machine has none. What an earlier call
/// settled on stays, whatever a later search comes up with.
pub fn find<P>(settled: &mut Settled<P>, searched: Option<Found<P>>) -> (found: Option<&Found<P>>)
    ensures
        final(settled).found() == (if old(settled).found() is Some {
            old(settled).found()
        } else {
            searched
        }),
        match found {
            Some(found) => final(settled).found() == Some(*found),
            None => final(settled).found() is None,
        },
{
    if settled.found.is_none() {
        settled.found = searched;
    }
    settled.known()
}

/// A version that was written out with dots reads back number for number.
pub proof fn a_version_reads_back(version: Seq<u64>)
    requires
        version.len() > 1,
    ensures
        version_in(
            joined(
                Seq::new(version.len(), |i: int| decimal(version[i] as nat)),
                seq!['.'],
            ),
        ) == Some(version),
{
    let parts = Seq::new(version.len(), |i: int| decimal(version[i] as nat));
    assert forall|i: int| 0 <= i < parts.len() implies !(#[trigger] parts[i]).contains('.')
        && number_in(parts[i]) == Some(version[i]) by {
        a_number_reads_back(version[i]);
        if parts[i].contains('.') {
            let k = choose|k: int| 0 <= k < parts[i].len() && parts[i][k] == '.';
            assert('0' <= parts[i][k]);
        }
    }
    joined_texts_are_cut_apart(parts, '.');
    let name = joined(parts, seq!['.']);
    assert(version_in(name)->0 =~= version);
}

/// A name without a dot is no version, and neither is one with anything but digits between two.
pub proof fn only_dotted_numbers_are_a_version(parts: Seq<Seq<char>>, place: int, at: int)
    requires
        parts.len() > 0,
        forall|i: int| 0 <= i < parts.len() ==> !(#[trigger] parts[i]).contains('.'),
    ensures
        parts.len() == 1 ==> version_in(joined(parts, seq!['.'])) is None,
        0 <= place < parts.len() && parts[place].len() == 0 ==> version_in(
            joined(parts, seq!['.']),
        ) is None,
        0 <= place < parts.len() && 0 <= at < parts[place].len() && !('0' <= parts[place][at]
            <= '9') ==> version_in(joined(parts, seq!['.'])) is None,
{
    joined_texts_are_cut_apart(parts, '.');
    if 0 <= place < parts.len() {
        only_digits_are_a_number(parts[place], at);
    }
}

/// The version nearest the file counts: what stands above it does not.
pub proof fn the_innermost_version_counts(names: Seq<Seq<char>>, name: Seq<char>)
    ensures
        version_in(name) matches Some(version) ==> version_of(names.push(name)) == version,
        version_in(name) is None ==> version_of(names.push(name)) == version_of(names),
{
    assert(names.push(name).drop_last() =~= names);
}

/// Of two versions that are the same up to some number, the one with the greater number there is
/// the newer, and one that goes on is newer than one that ends there.
pub proof fn the_first_difference_decides(
    common: Seq<u64>,
    a: u64,
    left: Seq<u64>,
    b: u64,
    right: Seq<u64>,
)
    ensures
        a < b ==> no_newer(common + seq![a] + left, common + seq![b] + right),
        a > b ==> !no_newer(common + seq![a] + left, common + seq![b] + right),
        no_newer(common, common + seq![b] + right),
        !no_newer(common + seq![b] + right, common),
    decreases common.len(),
{
    let one = common + seq![a] + left;
    let other = common + seq![b] + right;
    if common.len() > 0 {
        let less = common.drop_first();
        the_first_difference_decides(less, a, left, b, right);
        assert(one.drop_first() =~= less + seq![a] + left);
        assert(other.drop_first() =~= less + seq![b] + right);
    } else {
        assert(one[0] == a && other[0] == b);
    }
}

/// The file that is taken is the newest there is: no other is newer, and of those that are as new
/// the last is taken.
pub proof fn the_newest_file_is_taken<P>(candidates: Vec<Candidate<P>>, best: Option<usize>, i: int)
    requires
        call_ensures(newest::<P>, (&candidates,), best),
        0 <= i < candidates@.len(),
    ensures
        best matches Some(best) && best < candidates@.len() && {
            let taken = version_of(texts(candidates@[best as int].names@));
            let other = version_of(texts(candidates@[i].names@));
            no_newer(other, taken) && (i > best ==> !no_newer(taken, other))
        },
{
    assert(no_newer(
        candidate_version(candidates@, i),
        candidate_version(candidates@, best->0 as int),
    ));
    if i > best->0 {
        assert(!no_newer(
            candidate_version(candidates@, best->0 as int),
            candidate_version(candidates@, i),
        ));
    }
}

/// What was configured comes before what is installed, and each is told from the other.
pub proof fn what_is_configured_comes_first<P>(
    configured: Option<P>,
    installed: Option<P>,
    found: Option<Found<P>>,
)
    requires
        call_ensures(search::<P>, (configured, installed), found),
    ensures
        configured matches Some(path) ==> (found matches Some(found) && found.path == path
            && found.origin is Configured),
        configured is None ==> (installed matches Some(path) ==> (found matches Some(found)
            && found.path == path && found.origin is Installed)),
        configured is None && installed is None ==> found is None,
{
}

/// The module's own path, on every kind of machine that has one.
pub proof fn the_module_has_a_path_of_its_own(os: Os, arch: Arch)
    ensures
        os is Linux && arch is X64 ==> component_of(os, arch)
            == "_platform_specific/linux_x64/libwidevinecdm.so"@,
        os is Linux && arch is Arm64 ==> component_of(os, arch)
            == "_platform_specific/linux_arm64/libwidevinecdm.so"@,
        os is Macos && arch is X64 ==> component_of(os, arch)
            == "_platform_specific/mac_x64/libwidevinecdm.dylib"@,
        os is Macos && arch is Arm64 ==> component_of(os, arch)
            == "_platform_specific/mac_arm64/libwidevinecdm.dylib"@,
        os is Windows && arch is X64 ==> component_of(os, arch)
            == "_platform_specific/win_x64/widevinecdm.dll"@,
        os is Windows && arch is Arm64 ==> component_of(os, arch)
            == "_platform_specific/win_arm64/widevinecdm.dll"@,
{
    reveal_strlit("_platform_specific/");
    reveal_strlit("/");
    reveal_strlit("_");
    reveal_strlit("linux");
    reveal_strlit("mac");
    reveal_strlit("win");
    reveal_strlit("x64");
    reveal_strlit("arm64");
    reveal_strlit("libwidevinecdm.so");
    reveal_strlit("libwidevinecdm.dylib");
    reveal_strlit("widevinecdm.dll");
    reveal_strlit("_platform_specific/linux_x64/libwidevinecdm.so");
    reveal_strlit("_platform_specific/linux_arm64/libwidevinecdm.so");
    reveal_strlit("_platform_specific/mac_x64/libwidevinecdm.dylib");
    reveal_strlit("_platform_specific/mac_arm64/libwidevinecdm.dylib");
    reveal_strlit("_platform_specific/win_x64/widevinecdm.dll");
    reveal_strlit("_platform_specific/win_arm64/widevinecdm.dll");
}

proof fn lemma_last_step(base: Base, front: Seq<char>, tail: Seq<char>, name: Seq<char>)
    requires
        !name.contains('/'),
        (front + tail).len() > name.len(),
        ends_in(front + tail, seq!['/'] + name),
    ensures
        place_at(base, front, tail).1.last() == name,
{
    let whole = front + tail;
    let lead = whole.take(whole.len() - name.len() - 1);
    a_text_ends_in_its_tail(lead, seq!['/'] + name, whole);
    let head = lead.push('/');
    assert(whole =~= head + name);
    assert(head.drop_last() =~= lead);
    lemma_longer_piece(head, name, '/');
    assert(pieces(head, '/').last() =~= Seq::empty());
    assert(Seq::<char>::empty() + name =~= name);
}

proof fn lemma_library_is_a_name(os: Os)
    ensures
        !library_of(os).contains('/'),
{
    reveal_strlit("libwidevinecdm.so");
    reveal_strlit("libwidevinecdm.dylib");
    reveal_strlit("widevinecdm.dll");
}

proof fn lemma_place_of_component(os: Os, arch: Arch)
    ensures
        forall|base: Base, front: Seq<char>| (#[trigger]
            place_at(base, front, component_of(os, arch))).1.last() == library_of(os),
{
    let library = library_of(os);
    lemma_library_is_a_name(os);
    reveal_strlit("/");
    assert forall|base: Base, front: Seq<char>| (#[trigger]
        place_at(base, front, component_of(os, arch))).1.last() == library by {
        let lead = front + ("_platform_specific/"@ + os_name(os) + "_"@ + arch_name(arch));
        let whole = front + component_of(os, arch);
        assert(whole =~= lead + (seq!['/'] + library));
        a_text_ends_in_its_tail(lead, seq!['/'] + library, whole);
        lemma_last_step(base, front, component_of(os, arch), library);
    }
}

proof fn lemma_place_of_library(os: Os)
    ensures
        forall|base: Base, front: Seq<char>|
            front.len() > 0 && front.last() == '/' ==> (#[trigger] place_at(
                base,
                front,
                library_of(os),
            )).1.last() == library_of(os),
{
    let library = library_of(os);
    lemma_library_is_a_name(os);
    assert forall|base: Base, front: Seq<char>|
        front.len() > 0 && front.last() == '/' implies (#[trigger] place_at(
        base,
        front,
        library,
    )).1.last() == library by {
        let lead = front.drop_last();
        let whole = front + library;
        assert(whole =~= lead + (seq!['/'] + library));
        a_text_ends_in_its_tail(lead, seq!['/'] + library, whole);
        lemma_last_step(base, front, library, library);
    }
}

/// Every place that is searched leads to the file the machine's own module is called, and only
/// machines that have a home, or a root that is set, are searched there.
pub proof fn every_place_leads_to_the_module(machine: Machine, i: int)
    requires
        0 <= i < places_of(machine).len(),
    ensures
        machine.os is Linux ==> places_of(machine)[i].1.last() == "libwidevinecdm.so"@,
        machine.os is Macos ==> places_of(machine)[i].1.last() == "libwidevinecdm.dylib"@,
        machine.os is Windows ==> places_of(machine)[i].1.last() == "widevinecdm.dll"@,
        machine.os is Linux || machine.os is Macos || machine.os is Windows,
        places_of(machine)[i].0 is Home ==> machine.home,
{
    lemma_place_of_component(machine.os, machine.arch);
    lemma_place_of_library(machine.os);
    reveal_strlit("*/gmp-widevinecdm/*/");
    reveal_strlit("Mozilla/Firefox/Profiles/*/gmp-widevinecdm/*/");
}

/// How many places are searched: those of the machine, and those of the home or of every root
/// that is set.
pub proof fn as_many_places_as_are_set(machine: Machine)
    ensures
        machine.os is Linux ==> places_of(machine).len() == (if machine.home {
            21nat
        } else {
            15
        }),
        machine.os is Macos ==> places_of(machine).len() == (if machine.home {
            5nat
        } else {
            1
        }),
        machine.os is Windows ==> places_of(machine).len() == (if machine.program_files {
            4nat
        } else {
            0
        }) + (if machine.program_files_x86 {
            4nat
        } else {
            0
        }) + (if machine.local_app_data {
            4nat
        } else {
            0
        }) + (if machine.app_data {
            4nat
        } else {
            0
        }),
        machine.os is Freebsd || machine.os is Other ==> places_of(machine).len() == 0,
{
}

/// What was found once stays found, and is not looked for again.
pub proof fn what_was_found_stays_found<P>(
    settled: &mut Settled<P>,
    searched: Option<Found<P>>,
    found: Option<&Found<P>>,
)
    requires
        call_ensures(find::<P>, (settled, searched), found),
    ensures
        old(settled).found() is Some ==> final(settled).found() == old(settled).found(),
        old(settled).found() is None ==> final(settled).found() == searched,
        found matches Some(found) ==> final(settled).found() == Some(*found),
        found is None ==> old(settled).found() is None && searched is None,
{
}

} // verus!
