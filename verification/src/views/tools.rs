//! The tools of a list: which columns it has, how it is ordered and narrowed, and how it is laid
//! out.

use vstd::prelude::*;

use super::artist::Mode;
use super::transport::Tint;
use crate::text::{same, texts};

verus! {

/// The way a column is ordered.
#[derive(Clone, Copy, Debug, PartialEq, Eq, Structural)]
pub enum Sort {
    Ascending,
    Descending,
}

/// The sliders that were asked for, each by its key. A slider keeps its place.
#[derive(Clone, Debug, PartialEq, Eq)]
pub struct Sliders {
    known: Vec<String>,
}

impl View for Sliders {
    type V = Seq<Seq<char>>;

    closed spec fn view(&self) -> Seq<Seq<char>> {
        texts(self.known@)
    }
}

/// No key stands at two places.
pub open spec fn no_key_twice(keys: Seq<Seq<char>>) -> bool {
    forall|i: int, j: int| 0 <= i < j < keys.len() ==> #[trigger] keys[i] != #[trigger] keys[j]
}

/// The sliders once a key was asked for.
pub open spec fn with_key(keys: Seq<Seq<char>>, key: Seq<char>) -> Seq<Seq<char>> {
    if keys.contains(key) {
        keys
    } else {
        keys.push(key)
    }
}

impl Sliders {
    /// No sliders yet.
    pub fn new() -> (sliders: Self)
        ensures
            sliders@ == Seq::<Seq<char>>::empty(),
            no_key_twice(sliders@),
    {
        let sliders = Sliders { known: Vec::new() };
        assert(sliders@ =~= Seq::<Seq<char>>::empty());
        sliders
    }

    /// The place of the slider of a key, which is the one it had before if it was asked for
    /// before. A new slider takes the next place.
    pub fn state(&mut self, key: &str) -> (place: usize)
        requires
            no_key_twice(old(self)@),
        ensures
            final(self)@ == with_key(old(self)@, key@),
            no_key_twice(final(self)@),
            place < final(self)@.len(),
            final(self)@[place as int] == key@,
    {
        let mut index: usize = 0;
        while index < self.known.len()
            invariant
                *self == *old(self),
                index <= self.known@.len(),
                no_key_twice(self@),
                forall|i: int| 0 <= i < index ==> #[trigger] self@[i] != key@,
            decreases self.known@.len() - index,
        {
            if same(self.known[index].as_str(), key) {
                assert(self@[index as int] == key@);
                return index;
            }
            assert(self@[index as int] != key@);
            index = index + 1;
        }
        let ghost before = self@;
        assert(!before.contains(key@));
        self.known.push(key.to_owned());
        assert(self@ =~= before.push(key@));
        index
    }
}

/// A slider that was asked for keeps its place whatever is asked for next.
pub proof fn a_slider_keeps_its_place(keys: Seq<Seq<char>>, key: Seq<char>, place: int)
    requires
        0 <= place < keys.len(),
    ensures
        place < with_key(keys, key).len(),
        with_key(keys, key)[place] == keys[place],
{
}

/// The arrow beside a column that the list is ordered by.
pub open spec fn arrow_of(order: Option<Sort>) -> Option<&'static str> {
    match order {
        Some(Sort::Ascending) => Some("icons/chevron-up.svg"),
        Some(Sort::Descending) => Some("icons/chevron-down.svg"),
        None => None,
    }
}

/// A column that the list can be ordered by.
#[derive(Clone, Copy, Debug, PartialEq, Eq)]
pub struct SortEntry {
    pub selected: bool,
    pub arrow: Option<&'static str>,
}

/// The entry of a column.
pub open spec fn sort_entry_of(order: Option<Sort>) -> SortEntry {
    SortEntry { selected: order is Some, arrow: arrow_of(order) }
}

/// The entries of the menu of orders, and the colour of its button: the accent colour while the
/// list is ordered by anything.
pub fn sorts(orders: &Vec<Option<Sort>>) -> (menu: (Tint, Vec<SortEntry>))
    ensures
        menu.0 == (if exists|i: int| 0 <= i < orders@.len() && (#[trigger] orders@[i]) is Some {
            Tint::Accent
        } else {
            Tint::Muted
        }),
        menu.1@ == orders@.map_values(|order: Option<Sort>| sort_entry_of(order)),
{
    let mut sorted = false;
    let mut entries: Vec<SortEntry> = Vec::new();
    let mut index: usize = 0;
    while index < orders.len()
        invariant
            index <= orders@.len(),
            entries@.len() == index,
            forall|i: int| 0 <= i < index ==> #[trigger] entries@[i] == sort_entry_of(orders@[i]),
            sorted == exists|i: int| 0 <= i < index && (#[trigger] orders@[i]) is Some,
        decreases orders@.len() - index,
    {
        let order = orders[index];
        let arrow = match order {
            Some(Sort::Ascending) => Some("icons/chevron-up.svg"),
            Some(Sort::Descending) => Some("icons/chevron-down.svg"),
            None => None,
        };
        sorted = sorted || order.is_some();
        entries.push(SortEntry { selected: order.is_some(), arrow });
        assert(orders@[index as int] == order);
        index = index + 1;
    }
    assert(entries@ =~= orders@.map_values(|order: Option<Sort>| sort_entry_of(order)));
    (
        if sorted {
            Tint::Accent
        } else {
            Tint::Muted
        },
        entries,
    )
}

/// One way the list is narrowed.
#[derive(Clone, Copy, Debug, PartialEq, Eq, Structural)]
pub enum Filter {
    /// A range, and whether it leaves anything out.
    Range(bool),
    /// A flag that is on or off.
    Flag(bool),
}

/// The way leaves something out.
pub open spec fn narrows(filter: Filter) -> bool {
    match filter {
        Filter::Range(narrowed) => narrowed,
        Filter::Flag(on) => on,
    }
}

/// An entry of the menu of filters.
#[derive(Clone, Copy, Debug, PartialEq, Eq, Structural)]
pub enum FilterEntry {
    /// The slider of the range at this place.
    Slider(usize),
    /// The flag at this place, whether it is on, and what a click makes it.
    Switch(usize, bool, bool),
    Separator,
    Reset,
}

/// The entry of a filter.
pub open spec fn filter_entry_of(place: usize, filter: Filter) -> FilterEntry {
    match filter {
        Filter::Range(_) => FilterEntry::Slider(place),
        Filter::Flag(on) => FilterEntry::Switch(place, on, !on),
    }
}

/// The entries of the menu of filters: one for each, and at the end the one that resets them.
pub open spec fn filter_entries_of(filters: Seq<Filter>) -> Seq<FilterEntry> {
    Seq::new(filters.len(), |i: int| filter_entry_of(i as usize, filters[i])).push(
        FilterEntry::Separator,
    ).push(FilterEntry::Reset)
}

/// The entries of the menu of filters, and the colour of its button: the accent colour while
/// anything is left out.
pub fn filters(axes: &Vec<Filter>) -> (menu: (Tint, Vec<FilterEntry>))
    ensures
        menu.0 == (if exists|i: int| 0 <= i < axes@.len() && narrows(#[trigger] axes@[i]) {
            Tint::Accent
        } else {
            Tint::Muted
        }),
        menu.1@ == filter_entries_of(axes@),
{
    let mut narrowed = false;
    let mut entries: Vec<FilterEntry> = Vec::new();
    let mut index: usize = 0;
    while index < axes.len()
        invariant
            index <= axes@.len(),
            entries@.len() == index,
            forall|i: int|
                0 <= i < index ==> #[trigger] entries@[i] == filter_entry_of(i as usize, axes@[i]),
            narrowed == exists|i: int| 0 <= i < index && narrows(#[trigger] axes@[i]),
        decreases axes@.len() - index,
    {
        let (entry, narrow) = match axes[index] {
            Filter::Range(narrow) => (FilterEntry::Slider(index), narrow),
            Filter::Flag(on) => (FilterEntry::Switch(index, on, !on), on),
        };
        assert(narrow == narrows(axes@[index as int]));
        narrowed = narrowed || narrow;
        entries.push(entry);
        index = index + 1;
    }
    entries.push(FilterEntry::Separator);
    entries.push(FilterEntry::Reset);
    assert(entries@ =~= filter_entries_of(axes@));
    (
        if narrowed {
            Tint::Accent
        } else {
            Tint::Muted
        },
        entries,
    )
}

/// The other layout.
pub open spec fn other_mode(mode: Mode) -> Mode {
    match mode {
        Mode::List => Mode::Grid,
        Mode::Grid => Mode::List,
    }
}

/// The layout that the button for it leads to.
pub fn views(mode: Mode) -> (next: Mode)
    ensures
        next == other_mode(mode),
{
    match mode {
        Mode::List => Mode::Grid,
        Mode::Grid => Mode::List,
    }
}

/// Changing the layout twice leads back.
pub proof fn two_layouts(mode: Mode)
    ensures
        other_mode(mode) != mode,
        other_mode(other_mode(mode)) == mode,
{
}

/// A column that orders the table says which way, by an arrow up when its values rise and down
/// when they fall; one that does not says nothing.
pub proof fn an_arrow_says_which_way(orders: Vec<Option<Sort>>, menu: (Tint, Vec<SortEntry>), i: int)
    requires
        call_ensures(sorts, (&orders,), menu),
        0 <= i < orders@.len(),
    ensures
        menu.1@.len() == orders@.len(),
        menu.1@[i].selected <==> orders@[i] is Some,
        orders@[i] matches Some(Sort::Ascending) ==> menu.1@[i].arrow == Some(
            "icons/chevron-up.svg",
        ),
        orders@[i] matches Some(Sort::Descending) ==> menu.1@[i].arrow == Some(
            "icons/chevron-down.svg",
        ),
        orders@[i] is None ==> menu.1@[i].arrow is None,
        orders@[i] is Some ==> menu.0 is Accent,
        menu.0 is Accent ==> exists|k: int| 0 <= k < orders@.len() && (#[trigger] orders@[k]) is Some,
{
}

/// Every axis has an entry at its own place, a slider for a range and a switch for a flag that
/// shows how it stands and asks for the opposite; behind them stands the entry that resets all.
pub proof fn every_axis_has_its_entry(
    axes: Vec<Filter>,
    menu: (Tint, Vec<FilterEntry>),
    i: int,
)
    requires
        call_ensures(filters, (&axes,), menu),
        0 <= i < axes@.len(),
    ensures
        menu.1@.len() == axes@.len() + 2,
        axes@[i] is Range ==> menu.1@[i] == FilterEntry::Slider(i as usize),
        axes@[i] matches Filter::Flag(on) ==> menu.1@[i] == FilterEntry::Switch(
            i as usize,
            on,
            !on,
        ),
        menu.1@[axes@.len() as int] is Separator,
        menu.1@.last() is Reset,
        (axes@[i] matches Filter::Range(narrowed) && narrowed) ==> menu.0 is Accent,
        (axes@[i] matches Filter::Flag(on) && on) ==> menu.0 is Accent,
        menu.0 is Accent ==> exists|k: int| 0 <= k < axes@.len() && narrows(#[trigger] axes@[k]),
{
    if narrows(axes@[i]) {
        assert(menu.0 is Accent);
    }
}

/// A slider that is new goes behind the others, and one that is known is not added again.
pub proof fn a_new_slider_goes_last(keys: Seq<Seq<char>>, key: Seq<char>)
    ensures
        with_key(keys, key).contains(key),
        keys.contains(key) ==> with_key(keys, key).len() == keys.len(),
        !keys.contains(key) ==> with_key(keys, key).len() == keys.len() + 1 && with_key(
            keys,
            key,
        ).last() == key,
{
    if !keys.contains(key) {
        assert(keys.push(key)[keys.len() as int] == key);
    }
}

} // verus!
