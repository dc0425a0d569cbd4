//! The typeface picker: which typefaces it lists, and which of them are drawn in their own face.
//!
//! Loading a face is slow, so only the entries in view are ever drawn in theirs, and only a few
//! of those are loaded in one frame; while some are still to come the list asks to be drawn again.

use vstd::prelude::*;

use super::super::popups::{answers, held_inside, matches_query, PopupModel, SearchPopup};
use crate::lists::{
    at_most, first_places, places_set, seen_places, set_places_are_those_set,
    the_first_places_are_kept,
};
use crate::text::{
    before, first_at, lowered, maybe_place, position, precedes, same, starts_with, texts,
    texts_chain, texts_compare, the_first_place_holds_the_text,
};

verus! {

/// How many typefaces are listed at most.
pub const TYPEFACE_LIMIT: usize = 200;

/// How many entries around those in view are drawn in their face too.
pub const TYPEFACE_LEAD: usize = 2;

/// How many entries are taken to be in view before a measurement.
pub const TYPEFACE_GUESS: usize = 24;

/// How many faces are loaded in one frame.
pub const TYPEFACE_BATCH: usize = 3;

/// Which of the typefaces answer a query: the system's own, under its label, then the installed
/// ones under their names.
pub open spec fn hits_of(
    system: Seq<char>,
    label: Seq<char>,
    installed: Seq<Seq<char>>,
    query: Seq<char>,
) -> Seq<bool> {
    Seq::new(
        installed.len() + 1,
        |i: int|
            if i == 0 {
                answers(lowered(system), lowered(label), query)
            } else {
                answers(lowered(installed[i - 1]), lowered(installed[i - 1]), query)
            },
    )
}

/// The typefaces a query lists, no more than the list holds. Place zero is the system's own
/// typeface, and the others are the installed ones in order.
pub fn typeface_entries(
    system: &str,
    label: &str,
    installed: &Vec<String>,
    query: &str,
) -> (places: Vec<usize>)
    ensures
        seen_places(places@) == at_most(
            places_set(hits_of(system@, label@, texts(installed@), query@)),
            TYPEFACE_LIMIT as nat,
        ),
        forall|i: int| 0 <= i < places@.len() ==> #[trigger] places@[i] <= installed@.len(),
{
    let mut hits: Vec<bool> = Vec::new();
    hits.push(matches_query(system, label, query));
    let ghost wanted = hits_of(system@, label@, texts(installed@), query@);
    let mut index: usize = 0;
    assert(hits@ =~= wanted.take(1));
    while index < installed.len()
        invariant
            index <= installed@.len(),
            wanted == hits_of(system@, label@, texts(installed@), query@),
            hits@ == wanted.take(index + 1),
        decreases installed@.len() - index,
    {
        let name = installed[index].as_str();
        assert(texts(installed@)[index as int] == name@);
        hits.push(matches_query(name, name, query));
        index = index + 1;
        assert(hits@ =~= wanted.take(index + 1));
    }
    assert(hits@ =~= wanted);
    first_places(&hits, TYPEFACE_LIMIT)
}

/// The entries that are drawn in their face, from the first to behind the last: those in view and
/// a few around them, or those from the cursor on before the list has been measured.
pub open spec fn previewed_of(measured: Option<(usize, usize)>, cursor: usize) -> (int, int) {
    let (first, shown): (int, int) = match measured {
        Some((first, shown)) => (first as int, shown as int),
        None => (cursor as int, TYPEFACE_GUESS as int),
    };
    let end = first + shown + TYPEFACE_LEAD;
    (
        if first < TYPEFACE_LEAD {
            0
        } else {
            first - TYPEFACE_LEAD
        },
        if end > usize::MAX {
            usize::MAX as int
        } else {
            end
        },
    )
}

/// The entries that are drawn in their face: those in view and a few around them. Before the list
/// has been measured, those from the cursor on are taken to be in view.
pub fn previewed(measured: Option<(usize, usize)>, cursor: usize) -> (range: (usize, usize))
    ensures
        (range.0 as int, range.1 as int) == previewed_of(measured, cursor),
{
    let (first, shown): (usize, usize) = match measured {
        Some((first, shown)) => (first, shown),
        None => (cursor, TYPEFACE_GUESS),
    };
    let start: usize = if first < TYPEFACE_LEAD {
        0
    } else {
        first - TYPEFACE_LEAD
    };
    (start, first.saturating_add(shown).saturating_add(TYPEFACE_LEAD))
}

/// The entry is to be drawn in its face.
pub open spec fn wants_face(
    names: Seq<Seq<char>>,
    system: Seq<char>,
    start: int,
    end: int,
    place: int,
) -> bool {
    names[place] != system && start <= place < end
}

/// The faces that stay loaded: those of entries still in view. The others are forgotten, so
/// scrolling back loads them again a few at a time rather than all at once.
pub open spec fn kept(names: Seq<Seq<char>>, start: int, end: int, faced: Set<Seq<char>>) -> Set<
    Seq<char>,
> {
    Set::new(
        |name: Seq<char>|
            faced.contains(name) && exists|place: int|
                0 <= place < names.len() && start <= place < end && #[trigger] names[place]
                    == name,
    )
}

/// What drawing the entries from one of them on does: which are drawn in their face, which faces
/// are loaded after it, and whether some had to wait.
pub open spec fn faces_from(
    names: Seq<Seq<char>>,
    system: Seq<char>,
    start: int,
    end: int,
    place: int,
    faced: Set<Seq<char>>,
    budget: nat,
) -> (Seq<bool>, Set<Seq<char>>, bool)
    decreases names.len() - place,
{
    if place >= names.len() {
        (Seq::empty(), faced, false)
    } else if !wants_face(names, system, start, end, place) {
        let (shows, after, waiting) = faces_from(
            names,
            system,
            start,
            end,
            place + 1,
            faced,
            budget,
        );
        (seq![false] + shows, after, waiting)
    } else if faced.contains(names[place]) {
        let (shows, after, waiting) = faces_from(
            names,
            system,
            start,
            end,
            place + 1,
            faced,
            budget,
        );
        (seq![true] + shows, after, waiting)
    } else if budget == 0 {
        let (shows, after, _) = faces_from(names, system, start, end, place + 1, faced, budget);
        (seq![false] + shows, after, true)
    } else {
        let (shows, after, waiting) = faces_from(
            names,
            system,
            start,
            end,
            place + 1,
            faced.insert(names[place]),
            (budget - 1) as nat,
        );
        (seq![true] + shows, after, waiting)
    }
}

/// What one frame of the list shows.
#[derive(Clone, Debug, PartialEq, Eq)]
pub struct Faces {
    /// Which entries are drawn in their face.
    pub shows: Vec<bool>,
    /// The faces that are loaded.
    pub faced: Vec<String>,
    /// Whether some entry waits for the next frame.
    pub waiting: bool,
}

/// The names of a list as a set.
pub open spec fn name_set(names: Seq<String>) -> Set<Seq<char>> {
    texts(names).to_set()
}

/// Whether a name is among some.
fn among(name: &str, names: &Vec<String>) -> (yes: bool)
    ensures
        yes == name_set(names@).contains(name@),
{
    crate::text::one_of(name, names)
}

/// Whether an entry in view has that name.
fn in_view(names: &Vec<String>, start: usize, end: usize, name: &str) -> (yes: bool)
    ensures
        yes == exists|place: int|
            0 <= place < names@.len() && start <= place < end && #[trigger] texts(names@)[place]
                == name@,
{
    let mut place: usize = start;
    while place < end && place < names.len()
        invariant
            start <= place,
            forall|i: int|
                start <= i < place && i < names@.len() ==> #[trigger] texts(names@)[i] != name@,
        decreases names@.len() - place,
    {
        assert(texts(names@)[place as int] == names@[place as int]@);
        if same(names[place].as_str(), name) {
            return true;
        }
        place = place + 1;
    }
    false
}

/// One more name in a list is one more in its set.
proof fn lemma_one_more(names: Seq<Seq<char>>, name: Seq<char>)
    ensures
        names.push(name).to_set() == names.to_set().insert(name),
{
    let after = names.push(name);
    assert forall|one: Seq<char>| after.to_set().contains(one) <==> names.to_set().insert(
        name,
    ).contains(one) by {
        if names.contains(one) {
            let k = choose|k: int| 0 <= k < names.len() && names[k] == one;
            assert(after[k] == one);
        }
        assert(after[names.len() as int] == name);
    }
    assert(after.to_set() =~= names.to_set().insert(name));
}

/// The faces that stay loaded.
fn retain(names: &Vec<String>, start: usize, end: usize, faced: &Vec<String>) -> (held: Vec<String>)
    ensures
        name_set(held@) == kept(texts(names@), start as int, end as int, name_set(faced@)),
{
    let ghost all = texts(names@);
    let ghost listed = texts(faced@);
    let mut held: Vec<String> = Vec::new();
    let mut index: usize = 0;
    assert(name_set(held@) =~= kept(all, start as int, end as int, listed.take(0).to_set()));
    while index < faced.len()
        invariant
            index <= faced@.len(),
            all == texts(names@),
            listed == texts(faced@),
            name_set(held@) == kept(
                all,
                start as int,
                end as int,
                listed.take(index as int).to_set(),
            ),
        decreases faced@.len() - index,
    {
        let name = faced[index].as_str();
        let ghost earlier = texts(held@);
        proof {
            assert(listed.take(index + 1) =~= listed.take(index as int).push(name@));
            lemma_one_more(listed.take(index as int), name@);
            lemma_one_more(earlier, name@);
        }
        if in_view(names, start, end, name) {
            held.push(faced[index].clone());
            assert(texts(held@) =~= earlier.push(name@));
        }
        index = index + 1;
        assert(name_set(held@) =~= kept(
            all,
            start as int,
            end as int,
            listed.take(index as int).to_set(),
        ));
    }
    assert(listed.take(index as int) =~= listed);
    held
}

/// Draws one frame of the list: of the entries from `start` up to `end` that have a face of their
/// own, those whose face is loaded are drawn in it, and a few more are loaded.
pub fn faces(
    names: &Vec<String>,
    system: &str,
    start: usize,
    end: usize,
    faced: &Vec<String>,
) -> (frame: Faces)
    ensures
        (frame.shows@, name_set(frame.faced@), frame.waiting) == faces_from(
            texts(names@),
            system@,
            start as int,
            end as int,
            0,
            kept(texts(names@), start as int, end as int, name_set(faced@)),
            TYPEFACE_BATCH as nat,
        ),
{
    let ghost all = texts(names@);
    let mut held = retain(names, start, end, faced);
    let ghost whole = faces_from(
        all,
        system@,
        start as int,
        end as int,
        0,
        name_set(held@),
        TYPEFACE_BATCH as nat,
    );
    let mut shows: Vec<bool> = Vec::new();
    let mut waiting = false;
    let mut budget: usize = TYPEFACE_BATCH;
    let mut place: usize = 0;
    assert(shows@ + whole.0 =~= whole.0);
    while place < names.len()
        invariant
            place <= names@.len(),
            all == texts(names@),
            ({
                let rest = faces_from(
                    all,
                    system@,
                    start as int,
                    end as int,
                    place as int,
                    name_set(held@),
                    budget as nat,
                );
                &&& shows@ + rest.0 == whole.0
                &&& rest.1 == whole.1
                &&& (waiting || rest.2) == whole.2
            }),
        decreases names@.len() - place,
    {
        let name = names[place].as_str();
        let ghost earlier = shows@;
        let ghost set = name_set(held@);
        let ghost rest = faces_from(
            all,
            system@,
            start as int,
            end as int,
            place as int,
            set,
            budget as nat,
        );
        assert(all[place as int] == name@);
        let wanted = !same(name, system) && start <= place && place < end;
        let show = if !wanted {
            false
        } else if among(name, &held) {
            true
        } else if budget == 0 {
            waiting = true;
            false
        } else {
            budget = budget - 1;
            let ghost listed = texts(held@);
            held.push(names[place].clone());
            assert(texts(held@) =~= listed.push(name@));
            proof {
                lemma_one_more(listed, name@);
            }
            true
        };
        shows.push(show);
        place = place + 1;
        assert(rest.0 =~= seq![show] + rest.0.drop_first());
        assert(earlier + rest.0 =~= shows@ + rest.0.drop_first());
        assert(faces_from(
            all,
            system@,
            start as int,
            end as int,
            place as int,
            name_set(held@),
            budget as nat,
        ).0 =~= rest.0.drop_first());
    }
    assert(shows@ =~= whole.0);
    Faces { shows, faced: held, waiting }
}

/// A frame draws an entry in its face only where it is to be, and every one of those unless some
/// wait for the next frame. Faces that were loaded stay loaded.
pub proof fn a_frame_shows_what_is_in_view(
    names: Seq<Seq<char>>,
    system: Seq<char>,
    start: int,
    end: int,
    place: int,
    faced: Set<Seq<char>>,
    budget: nat,
)
    requires
        0 <= place <= names.len(),
    ensures
        ({
            let (shows, after, waiting) = faces_from(
                names,
                system,
                start,
                end,
                place,
                faced,
                budget,
            );
            &&& shows.len() == names.len() - place
            &&& faced.subset_of(after)
            &&& forall|i: int|
                place <= i < names.len() && #[trigger] shows[i - place] ==> wants_face(
                    names,
                    system,
                    start,
                    end,
                    i,
                ) && after.contains(names[i])
            &&& !waiting ==> forall|i: int|
                place <= i < names.len() && wants_face(names, system, start, end, i)
                    ==> #[trigger] shows[i - place]
        }),
    decreases names.len() - place,
{
    if place < names.len() {
        let wanted = wants_face(names, system, start, end, place);
        let (next, left) = if wanted && !faced.contains(names[place]) && budget > 0 {
            (faced.insert(names[place]), (budget - 1) as nat)
        } else {
            (faced, budget)
        };
        a_frame_shows_what_is_in_view(names, system, start, end, place + 1, next, left);
        let (shows, after, waiting) = faces_from(names, system, start, end, place, faced, budget);
        let (rest, _, _) = faces_from(names, system, start, end, place + 1, next, left);
        assert(shows =~= seq![shows[0]] + rest);
        assert forall|i: int| place <= i < names.len() && #[trigger] shows[i - place] implies
            wants_face(names, system, start, end, i) && after.contains(names[i]) by {
            if i > place {
                assert(shows[i - place] == rest[i - (place + 1)]);
            }
        }
        if !waiting {
            assert forall|i: int|
                place <= i < names.len() && wants_face(
                    names,
                    system,
                    start,
                    end,
                    i,
                ) implies #[trigger] shows[i - place] by {
                if i > place {
                    assert(shows[i - place] == rest[i - (place + 1)]);
                }
            }
        }
    }
}

/// A frame loads no more faces than its budget, and leaves an entry waiting only when the budget
/// is spent.
pub proof fn a_frame_keeps_to_its_budget(
    names: Seq<Seq<char>>,
    system: Seq<char>,
    start: int,
    end: int,
    place: int,
    faced: Set<Seq<char>>,
    budget: nat,
)
    requires
        0 <= place <= names.len(),
        faced.finite(),
    ensures
        ({
            let (_, after, waiting) = faces_from(names, system, start, end, place, faced, budget);
            &&& after.finite()
            &&& faced.len() <= after.len() <= faced.len() + budget
            &&& waiting ==> after.len() == faced.len() + budget
        }),
    decreases names.len() - place,
{
    if place < names.len() {
        let wanted = wants_face(names, system, start, end, place);
        if wanted && !faced.contains(names[place]) && budget > 0 {
            a_frame_keeps_to_its_budget(
                names,
                system,
                start,
                end,
                place + 1,
                faced.insert(names[place]),
                (budget - 1) as nat,
            );
        } else {
            a_frame_keeps_to_its_budget(names, system, start, end, place + 1, faced, budget);
        }
    }
}

/// What stands at the end of the list.
#[derive(Clone, Copy, Debug, PartialEq, Eq)]
pub enum ListNote {
    Nothing,
    /// A disabled entry of that id and label.
    Note(&'static str, &'static str),
}

/// What stands at the end of the list: that the typefaces are still being read, or that none
/// answers.
pub fn list_note(picking: bool, count: usize, loading: bool) -> (note: ListNote)
    ensures
        note == list_note_of(picking, count as nat, loading),
{
    if loading {
        ListNote::Note("typeface-loading", "settings-typeface-loading")
    } else if picking && count == 0 {
        ListNote::Note("typeface-empty", "settings-typeface-none")
    } else {
        ListNote::Nothing
    }
}

/// Texts in order, none of them twice.
pub open spec fn in_order(names: Seq<Seq<char>>) -> bool {
    forall|i: int, j: int|
        0 <= i < j < names.len() ==> precedes(#[trigger] names[i], #[trigger] names[j])
}

/// The typefaces a picker can list out of those the system names: each once, in order, without
/// the hidden ones whose names start with a dot.
pub fn usable_fonts(all: &Vec<String>) -> (names: Vec<String>)
    ensures
        in_order(texts(names@)),
        forall|name: Seq<char>|
            #![trigger texts(names@).contains(name)]
            texts(names@).contains(name) <==> texts(all@).contains(name) && !seq!['.'].is_prefix_of(
                name,
            ),
{
    let mut names: Vec<String> = Vec::new();
    let mut index: usize = 0;
    proof {
        reveal_strlit(".");
        assert("."@ =~= seq!['.']);
    }
    assert(texts(names@) =~= Seq::empty());
    assert(texts(all@).take(0) =~= Seq::empty());
    while index < all.len()
        invariant
            "."@ == seq!['.'],
            index <= all@.len(),
            in_order(texts(names@)),
            forall|name: Seq<char>|
                #![trigger texts(names@).contains(name)]
                texts(names@).contains(name) <==> texts(all@).take(index as int).contains(name)
                    && !seq!['.'].is_prefix_of(name),
        decreases all@.len() - index,
    {
        let name = all[index].as_str();
        let ghost earlier = texts(names@);
        let ghost seen = texts(all@).take(index as int);
        let ghost more = texts(all@).take(index + 1);
        assert(more =~= seen.push(name@));
        proof {
            assert forall|one: Seq<char>| #[trigger] more.contains(one) <==> seen.contains(one)
                || one == name@ by {
                if seen.contains(one) {
                    let k = choose|k: int| 0 <= k < seen.len() && seen[k] == one;
                    assert(more[k] == one);
                }
                if one == name@ {
                    assert(more[index as int] == one);
                }
            }
        }
        if !starts_with(name, ".") {
            insert_name(&mut names, &all[index]);
        } else {
            assert forall|one: Seq<char>|
                #![trigger texts(names@).contains(one)]
                texts(names@).contains(one) <==> more.contains(one) && !seq!['.'].is_prefix_of(
                    one,
                ) by {}
        }
        index = index + 1;
    }
    assert(texts(all@).take(index as int) =~= texts(all@));
    names
}

/// Puts a name where it belongs in a list in order, unless it is there already.
fn insert_name(names: &mut Vec<String>, name: &String)
    requires
        in_order(texts(old(names)@)),
    ensures
        in_order(texts(final(names)@)),
        forall|one: Seq<char>|
            #![trigger texts(final(names)@).contains(one)]
            texts(final(names)@).contains(one) <==> texts(old(names)@).contains(one) || one
                == name@,
{
    let ghost earlier = texts(names@);
    let mut place: usize = names.len();
    while place > 0 && before(name.as_str(), names[place - 1].as_str())
        invariant
            place <= names@.len(),
            earlier == texts(names@),
            forall|i: int| place <= i < earlier.len() ==> precedes(name@, #[trigger] earlier[i]),
        decreases place,
    {
        place = place - 1;
    }
    if place > 0 && same(names[place - 1].as_str(), name.as_str()) {
        assert(earlier[place - 1] == name@);
        return ;
    }
    names.insert(place, name.clone());
    let ghost after = texts(names@);
    assert(after =~= earlier.insert(place as int, name@));
    proof {
        assert forall|i: int, j: int| 0 <= i < j < after.len() implies precedes(
            #[trigger] after[i],
            #[trigger] after[j],
        ) by {
            if j == place {
                assert(after[i] == earlier[i]);
                texts_compare(name@, earlier[place - 1]);
                if i < place - 1 {
                    assert(precedes(earlier[i], earlier[place - 1]));
                    texts_chain(earlier[i], earlier[place - 1], name@);
                }
            } else if i != place {
                let k = if i < place {
                    i
                } else {
                    i - 1
                };
                let l = if j < place {
                    j
                } else {
                    j - 1
                };
                assert(precedes(earlier[k], earlier[l]));
            }
        }
        assert forall|one: Seq<char>| #[trigger] after.contains(one) <==> earlier.contains(one)
            || one == name@ by {
            if earlier.contains(one) {
                let k = choose|k: int| 0 <= k < earlier.len() && earlier[k] == one;
                if k < place {
                    assert(after[k] == one);
                } else {
                    assert(after[k + 1] == one);
                }
            }
            if one == name@ {
                assert(after[place as int] == one);
            }
            if after.contains(one) {
                let k = choose|k: int| 0 <= k < after.len() && after[k] == one;
                if k < place {
                    assert(earlier[k] == one);
                } else if k > place {
                    assert(earlier[k - 1] == one);
                }
            }
        }
    }
}

/// The typeface in use, and the one that stands for the system's own.
#[derive(Clone, Debug, PartialEq, Eq)]
pub struct FontChoice {
    /// The typeface in use.
    pub font: String,
    /// The name that stands for the system's own.
    pub system: String,
    /// What the system's own is called.
    pub label: String,
}

/// The places the list holds: zero for the system's own typeface, the others for the installed
/// ones.
pub open spec fn entry_places(
    choice: FontChoice,
    installed: Seq<Seq<char>>,
    query: Seq<char>,
) -> Seq<int> {
    at_most(
        places_set(hits_of(choice.system@, choice.label@, installed, query)),
        TYPEFACE_LIMIT as nat,
    )
}

/// The typeface at a place.
pub open spec fn name_at(system: Seq<char>, installed: Seq<Seq<char>>, place: int) -> Seq<char> {
    if place == 0 {
        system
    } else {
        installed[place - 1]
    }
}

/// The typefaces the list holds, by name.
pub open spec fn entry_names(
    choice: FontChoice,
    installed: Seq<Seq<char>>,
    query: Seq<char>,
) -> Seq<Seq<char>> {
    entry_places(choice, installed, query).map_values(
        |place: int| name_at(choice.system@, installed, place),
    )
}

/// The entry of the typeface in use, which the list opens on.
pub open spec fn entry_in_use(
    choice: FontChoice,
    installed: Seq<Seq<char>>,
    query: Seq<char>,
) -> Option<int> {
    first_at(entry_names(choice, installed, query), choice.font@)
}

/// The names of the entries at some places.
fn names_at(choice: &FontChoice, installed: &Vec<String>, places: &Vec<usize>) -> (names: Vec<
    String,
>)
    requires
        forall|i: int| 0 <= i < places@.len() ==> #[trigger] places@[i] <= installed@.len(),
    ensures
        texts(names@) == seen_places(places@).map_values(
            |place: int| name_at(choice.system@, texts(installed@), place),
        ),
{
    let ghost wanted = seen_places(places@).map_values(
        |place: int| name_at(choice.system@, texts(installed@), place),
    );
    let mut names: Vec<String> = Vec::new();
    let mut index: usize = 0;
    assert(texts(names@) =~= wanted.take(0));
    while index < places.len()
        invariant
            index <= places@.len(),
            wanted.len() == places@.len(),
            forall|i: int| 0 <= i < places@.len() ==> #[trigger] places@[i] <= installed@.len(),
            forall|i: int|
                0 <= i < wanted.len() ==> #[trigger] wanted[i] == name_at(
                    choice.system@,
                    texts(installed@),
                    places@[i] as int,
                ),
            texts(names@) == wanted.take(index as int),
        decreases places@.len() - index,
    {
        let place = places[index];
        let ghost before = texts(names@);
        let name = if place == 0 {
            choice.system.as_str().to_owned()
        } else {
            installed[place - 1].as_str().to_owned()
        };
        assert(name@ == wanted[index as int]);
        names.push(name);
        assert(texts(names@) =~= before.push(wanted[index as int]));
        index = index + 1;
        assert(texts(names@) =~= wanted.take(index as int));
    }
    assert(wanted.take(index as int) =~= wanted);
    names
}

/// The typefaces a query lists, by name.
pub fn listed_names(choice: &FontChoice, installed: &Vec<String>, query: &str) -> (names: Vec<
    String,
>)
    ensures
        texts(names@) == entry_names(*choice, texts(installed@), query@),
{
    let places = typeface_entries(
        choice.system.as_str(),
        choice.label.as_str(),
        installed,
        query,
    );
    names_at(choice, installed, &places)
}

/// The entry of the typeface in use, which the list opens on. There is none while the query
/// leaves it out.
pub fn typeface_selected(choice: &FontChoice, installed: &Vec<String>, query: &str) -> (place:
    Option<usize>)
    ensures
        maybe_place(place) == entry_in_use(*choice, texts(installed@), query@),
{
    let names = listed_names(choice, installed, query);
    position(choice.font.as_str(), &names)
}

/// What the picker's button says.
#[derive(Clone, Debug, PartialEq, Eq)]
pub enum Current {
    /// The text at that key, for the system's own typeface.
    Key(&'static str),
    /// The name of the typeface.
    Named(String),
}

/// What the picker's button says, as mathematics.
pub enum CurrentModel {
    Key(&'static str),
    Named(Seq<char>),
}

impl View for Current {
    type V = CurrentModel;

    open spec fn view(&self) -> CurrentModel {
        match self {
            Current::Key(key) => CurrentModel::Key(key),
            Current::Named(name) => CurrentModel::Named(name@),
        }
    }
}

/// What the picker's button says: the typeface in use.
pub open spec fn current_of(choice: FontChoice) -> CurrentModel {
    if choice.font@ == choice.system@ {
        CurrentModel::Key("settings-typeface-system")
    } else {
        CurrentModel::Named(choice.font@)
    }
}

/// What the picker's button says.
pub fn typeface_current(choice: &FontChoice) -> (current: Current)
    ensures
        current@ == current_of(*choice),
{
    if same(choice.font.as_str(), choice.system.as_str()) {
        Current::Key("settings-typeface-system")
    } else {
        Current::Named(choice.font.as_str().to_owned())
    }
}

/// One entry of the picker.
#[derive(Clone, Debug, PartialEq, Eq)]
pub struct FaceItem {
    pub name: String,
    /// It stands for the system's own typeface, and is labelled as that.
    pub system: bool,
    /// The cursor is on it.
    pub selected: bool,
    /// It is the typeface in use.
    pub checked: bool,
    /// It is drawn in its own face.
    pub faced: bool,
}

/// One entry of the picker as mathematics.
pub struct FaceItemModel {
    pub name: Seq<char>,
    pub system: bool,
    pub selected: bool,
    pub checked: bool,
    pub faced: bool,
}

impl View for FaceItem {
    type V = FaceItemModel;

    open spec fn view(&self) -> FaceItemModel {
        FaceItemModel {
            name: self.name@,
            system: self.system,
            selected: self.selected,
            checked: self.checked,
            faced: self.faced,
        }
    }
}

/// Entries as mathematics.
pub open spec fn seen_items(items: Seq<FaceItem>) -> Seq<FaceItemModel> {
    items.map_values(|item: FaceItem| item@)
}

/// The row of the typeface picker.
#[derive(Clone, Debug, PartialEq, Eq)]
pub struct TypefaceRow {
    pub current: Current,
    /// The entries, while the picker is open.
    pub items: Vec<FaceItem>,
    /// The faces that are loaded.
    pub faced: Vec<String>,
    /// Whether some entry waits for the next frame.
    pub waiting: bool,
    pub note: ListNote,
}

/// The row of the typeface picker as mathematics.
#[verifier::ext_equal]
pub struct TypefaceRowModel {
    pub current: CurrentModel,
    pub items: Seq<FaceItemModel>,
    pub faced: Set<Seq<char>>,
    pub waiting: bool,
    pub note: ListNote,
}

impl View for TypefaceRow {
    type V = TypefaceRowModel;

    open spec fn view(&self) -> TypefaceRowModel {
        TypefaceRowModel {
            current: self.current@,
            items: seen_items(self.items@),
            faced: name_set(self.faced@),
            waiting: self.waiting,
            note: self.note,
        }
    }
}

/// What stands at the end of the list.
pub open spec fn list_note_of(picking: bool, count: nat, loading: bool) -> ListNote {
    if loading {
        ListNote::Note("typeface-loading", "settings-typeface-loading")
    } else if picking && count == 0 {
        ListNote::Note("typeface-empty", "settings-typeface-none")
    } else {
        ListNote::Nothing
    }
}

/// The row of the typeface picker. While the picker is closed it lists nothing and leaves the
/// loaded faces alone.
pub open spec fn typeface_row_of(
    picking: bool,
    choice: FontChoice,
    installed: Seq<Seq<char>>,
    popup: PopupModel,
    measured: Option<(usize, usize)>,
    faced: Set<Seq<char>>,
    loading: bool,
) -> TypefaceRowModel {
    let places = entry_places(choice, installed, popup.asked);
    let names = entry_names(choice, installed, popup.asked);
    let cursor = held_inside(popup.at as nat, names.len()) as usize;
    let (start, end) = previewed_of(measured, cursor);
    let (shows, after, waiting) = faces_from(
        names,
        choice.system@,
        start,
        end,
        0,
        kept(names, start, end, faced),
        TYPEFACE_BATCH as nat,
    );
    if picking {
        TypefaceRowModel {
            current: current_of(choice),
            items: Seq::new(
                names.len(),
                |i: int|
                    FaceItemModel {
                        name: names[i],
                        system: places[i] == 0,
                        selected: i == cursor,
                        checked: names[i] == choice.font@,
                        faced: shows[i],
                    },
            ),
            faced: after,
            waiting,
            note: list_note_of(true, names.len(), loading),
        }
    } else {
        TypefaceRowModel {
            current: current_of(choice),
            items: Seq::empty(),
            faced,
            waiting: false,
            note: list_note_of(false, 0, loading),
        }
    }
}

/// Every entry is drawn in its face or not.
proof fn lemma_faces_cover(
    names: Seq<Seq<char>>,
    system: Seq<char>,
    start: int,
    end: int,
    place: int,
    faced: Set<Seq<char>>,
    budget: nat,
)
    requires
        0 <= place <= names.len(),
    ensures
        faces_from(names, system, start, end, place, faced, budget).0.len() == names.len() - place,
    decreases names.len() - place,
{
    if place < names.len() {
        if wants_face(names, system, start, end, place) && !faced.contains(names[place]) && budget
            > 0 {
            lemma_faces_cover(
                names,
                system,
                start,
                end,
                place + 1,
                faced.insert(names[place]),
                (budget - 1) as nat,
            );
        } else {
            lemma_faces_cover(names, system, start, end, place + 1, faced, budget);
        }
    }
}

/// The row of the typeface picker: what its button says, and while it is open its entries, with
/// the cursor, the typeface in use and the faces that are loaded marked.
pub fn typeface_row(
    picking: bool,
    choice: &FontChoice,
    installed: &Vec<String>,
    popup: &SearchPopup,
    measured: Option<(usize, usize)>,
    faced: &Vec<String>,
    loading: bool,
) -> (row: TypefaceRow)
    ensures
        row@ == typeface_row_of(
            picking,
            *choice,
            texts(installed@),
            popup@,
            measured,
            name_set(faced@),
            loading,
        ),
{
    let current = typeface_current(choice);
    if !picking {
        let row = TypefaceRow {
            current,
            items: Vec::new(),
            faced: copied_all(faced),
            waiting: false,
            note: list_note(false, 0, loading),
        };
        assert(row@.items =~= Seq::empty());
        return row;
    }
    let places = typeface_entries(
        choice.system.as_str(),
        choice.label.as_str(),
        installed,
        popup.query(),
    );
    let names = names_at(choice, installed, &places);
    let ghost all = entry_names(*choice, texts(installed@), popup@.asked);
    assert(texts(names@).len() == names@.len());
    assert(seen_places(places@).len() == places@.len());
    let count = names.len();
    let cursor = popup.cursor(count);
    let (start, end) = previewed(measured, cursor);
    let frame = faces(&names, choice.system.as_str(), start, end, faced);
    proof {
        lemma_faces_cover(
            all,
            choice.system@,
            start as int,
            end as int,
            0,
            kept(all, start as int, end as int, name_set(faced@)),
            TYPEFACE_BATCH as nat,
        );
    }
    let ghost wanted = typeface_row_of(
        picking,
        *choice,
        texts(installed@),
        popup@,
        measured,
        name_set(faced@),
        loading,
    ).items;
    let mut items: Vec<FaceItem> = Vec::new();
    let mut index: usize = 0;
    assert(seen_items(items@) =~= wanted.take(0));
    while index < count
        invariant
            index <= count,
            count == names@.len(),
            count == places@.len(),
            count == frame.shows@.len(),
            wanted.len() == count,
            forall|i: int|
                0 <= i < count ==> #[trigger] wanted[i] == (FaceItemModel {
                    name: names@[i]@,
                    system: places@[i] == 0,
                    selected: i == cursor,
                    checked: names@[i]@ == choice.font@,
                    faced: frame.shows@[i],
                }),
            seen_items(items@) == wanted.take(index as int),
        decreases count - index,
    {
        let ghost before = seen_items(items@);
        let item = FaceItem {
            name: names[index].as_str().to_owned(),
            system: places[index] == 0,
            selected: index == cursor,
            checked: same(names[index].as_str(), choice.font.as_str()),
            faced: frame.shows[index],
        };
        assert(item@ == wanted[index as int]);
        items.push(item);
        assert(seen_items(items@) =~= before.push(wanted[index as int]));
        index = index + 1;
        assert(seen_items(items@) =~= wanted.take(index as int));
    }
    assert(wanted.take(index as int) =~= wanted);
    TypefaceRow {
        current,
        items,
        faced: frame.faced,
        waiting: frame.waiting,
        note: list_note(true, count, loading),
    }
}

/// The same names again.
fn copied_all(names: &Vec<String>) -> (copy: Vec<String>)
    ensures
        texts(copy@) == texts(names@),
{
    let mut copy: Vec<String> = Vec::new();
    let mut index: usize = 0;
    assert(texts(copy@) =~= texts(names@).take(0));
    while index < names.len()
        invariant
            index <= names@.len(),
            texts(copy@) == texts(names@).take(index as int),
        decreases names@.len() - index,
    {
        let ghost before = texts(copy@);
        copy.push(names[index].as_str().to_owned());
        assert(texts(copy@) =~= before.push(texts(names@)[index as int]));
        index = index + 1;
        assert(texts(copy@) =~= texts(names@).take(index as int));
    }
    assert(texts(names@).take(index as int) =~= texts(names@));
    copy
}

/// The typeface in use is checked wherever it is listed, and the first such entry is where the
/// list opens.
pub proof fn the_list_opens_on_what_is_checked(
    choice: FontChoice,
    installed: Seq<Seq<char>>,
    popup: PopupModel,
    measured: Option<(usize, usize)>,
    faced: Set<Seq<char>>,
    loading: bool,
)
    ensures
        ({
            let row = typeface_row_of(true, choice, installed, popup, measured, faced, loading);
            match entry_in_use(choice, installed, popup.asked) {
                Some(place) => 0 <= place < row.items.len() && row.items[place].checked && forall|
                    i: int,
                |
                    0 <= i < place ==> !(#[trigger] row.items[i]).checked,
                None => forall|i: int|
                    0 <= i < row.items.len() ==> !(#[trigger] row.items[i]).checked,
            }
        }),
{
    let names = entry_names(choice, installed, popup.asked);
    let row = typeface_row_of(true, choice, installed, popup, measured, faced, loading);
    the_first_place_holds_the_text(names, choice.font@);
    if entry_in_use(choice, installed, popup.asked) is None {
        assert forall|i: int| 0 <= i < row.items.len() implies !(
        #[trigger] row.items[i]).checked by {
            assert(names.contains(names[i]));
        }
    } else {
        let place = entry_in_use(choice, installed, popup.asked)->0;
        assert forall|i: int| 0 <= i < place implies !(#[trigger] row.items[i]).checked by {
            assert(names[i] != choice.font@);
        }
    }
}

/// The typefaces listed are the first two hundred that answer the search, the system's own before
/// those that are installed.
pub proof fn the_typefaces_that_answer_are_listed(
    choice: FontChoice,
    installed: Seq<Seq<char>>,
    query: Seq<char>,
    i: int,
)
    requires
        0 <= i <= installed.len(),
    ensures
        entry_places(choice, installed, query).len() <= 200,
        entry_names(choice, installed, query).len() == entry_places(choice, installed, query).len(),
        entry_places(choice, installed, query).contains(i) ==> (if i == 0 {
            answers(lowered(choice.system@), lowered(choice.label@), query)
        } else {
            answers(lowered(installed[i - 1]), lowered(installed[i - 1]), query)
        }),
        entry_places(choice, installed, query).len() < 200 && i == 0 && answers(
            lowered(choice.system@),
            lowered(choice.label@),
            query,
        ) ==> entry_names(choice, installed, query).contains(choice.system@),
        entry_places(choice, installed, query).len() < 200 && i > 0 && answers(
            lowered(installed[i - 1]),
            lowered(installed[i - 1]),
            query,
        ) ==> entry_names(choice, installed, query).contains(installed[i - 1]),
        forall|j: int, k: int|
            0 <= j < k < entry_places(choice, installed, query).len() ==> entry_places(
                choice,
                installed,
                query,
            )[j] < entry_places(choice, installed, query)[k],
{
    let flags = hits_of(choice.system@, choice.label@, installed, query);
    let all = places_set(flags);
    let places = entry_places(choice, installed, query);
    let names = entry_names(choice, installed, query);
    set_places_are_those_set(flags);
    assert(flags[i] <==> all.contains(i));
    if places.contains(i) {
        let k = choose|k: int| 0 <= k < places.len() && places[k] == i;
        assert(all[k] == i);
    }
    if places.len() < 200 {
        assert(places == all);
        if all.contains(i) {
            let k = choose|k: int| 0 <= k < all.len() && all[k] == i;
            assert(names[k] == name_at(choice.system@, installed, i));
        }
    }
    assert forall|j: int, k: int| 0 <= j < k < places.len() implies places[j] < places[k] by {
        assert(all[j] < all[k]);
        assert(places[j] == all[j] && places[k] == all[k]);
    }
}

/// What is shown in its own face reaches from two entries above what is on screen to two below;
/// before the list was measured that is taken to be 24 entries from the cursor on.
pub proof fn the_preview_reaches_past_the_screen(first: usize, shown: usize, cursor: usize)
    requires
        first + shown + 2 <= usize::MAX,
        cursor + 26 <= usize::MAX,
    ensures
        first >= 2 ==> previewed_of(Some((first, shown)), cursor) == (
            first - 2,
            first + shown + 2,
        ),
        first < 2 ==> previewed_of(Some((first, shown)), cursor) == (0int, first + shown + 2),
        cursor >= 2 ==> previewed_of(None, cursor) == (cursor - 2, cursor + 26),
        cursor < 2 ==> previewed_of(None, cursor) == (0int, cursor + 26),
{
}

/// No frame shows more than three faces that were not shown before.
pub proof fn three_faces_at_a_time(
    names: Vec<String>,
    system: &str,
    start: usize,
    end: usize,
    faced: Vec<String>,
    frame: Faces,
)
    requires
        call_ensures(faces, (&names, system, start, end, &faced), frame),
    ensures
        ({
            let before = kept(texts(names@), start as int, end as int, name_set(faced@));
            &&& before.len() <= name_set(frame.faced@).len() <= before.len() + 3
            &&& frame.waiting ==> name_set(frame.faced@).len() == before.len() + 3
            &&& frame.shows@.len() == names@.len()
        }),
{
    let before = kept(texts(names@), start as int, end as int, name_set(faced@));
    vstd::seq_lib::seq_to_set_is_finite(texts(faced@));
    assert(before.subset_of(name_set(faced@)));
    vstd::set_lib::lemma_set_subset_finite(name_set(faced@), before);
    a_frame_keeps_to_its_budget(
        texts(names@),
        system@,
        start as int,
        end as int,
        0,
        before,
        TYPEFACE_BATCH as nat,
    );
    a_frame_shows_what_is_in_view(
        texts(names@),
        system@,
        start as int,
        end as int,
        0,
        before,
        TYPEFACE_BATCH as nat,
    );
}

/// The typeface in use is named, but for the system's own.
pub proof fn the_typeface_in_use_is_named(choice: FontChoice)
    ensures
        choice.font@ == choice.system@ ==> current_of(choice) == CurrentModel::Key(
            "settings-typeface-system",
        ),
        choice.font@ != choice.system@ ==> current_of(choice) == CurrentModel::Named(choice.font@),
{
}

/// The list says that it is being read while it is, and that nothing matches when nothing does.
pub proof fn the_list_says_why_it_is_empty(picking: bool, count: nat, loading: bool)
    ensures
        loading ==> list_note_of(picking, count, loading) == ListNote::Note(
            "typeface-loading",
            "settings-typeface-loading",
        ),
        !loading && picking && count == 0 ==> list_note_of(picking, count, loading)
            == ListNote::Note("typeface-empty", "settings-typeface-none"),
        !loading && (!picking || count > 0) ==> list_note_of(picking, count, loading) is Nothing,
{
}

/// Every entry of the list is one of the names that answer, the one in use is checked, the cursor
/// stands on one of them, and the system's own is told from the rest. A list that is not open has
/// none.
pub proof fn the_list_is_of_the_names_that_answer(
    choice: FontChoice,
    installed: Seq<Seq<char>>,
    popup: PopupModel,
    measured: Option<(usize, usize)>,
    faced: Set<Seq<char>>,
    loading: bool,
    i: int,
)
    ensures
        typeface_row_of(
            false,
            choice,
            installed,
            popup,
            measured,
            faced,
            loading,
        ).items.len() == 0,
        ({
            let row = typeface_row_of(true, choice, installed, popup, measured, faced, loading);
            let names = entry_names(choice, installed, popup.asked);
            &&& row.items.len() == names.len()
            &&& 0 <= i < names.len() ==> {
                &&& row.items[i].name == names[i]
                &&& row.items[i].checked <==> names[i] == choice.font@
                &&& popup.at < names.len() ==> (row.items[i].selected <==> i == popup.at)
                &&& popup.at >= names.len() ==> (row.items[i].selected <==> i == names.len() - 1)
                &&& row.items[i].system ==> row.items[i].name == choice.system@
            }
        }),
{
    let places = entry_places(choice, installed, popup.asked);
    let names = entry_names(choice, installed, popup.asked);
    the_first_places_are_kept(
        places_set(hits_of(choice.system@, choice.label@, installed, popup.asked)),
        TYPEFACE_LIMIT as nat,
        i,
    );
    if 0 <= i < names.len() {
        assert(names[i] == name_at(choice.system@, installed, places[i]));
    }
    assert(names.len() <= usize::MAX);
}

} // verus!
