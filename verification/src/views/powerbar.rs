//! The bar that searches everything: what it lists, what is selected and where that leads.

use vstd::prelude::*;

use crate::text::laws::{all_white, trimming_takes_white_space_alone};
use crate::text::{joined_pair, maybe_text, number_text, trim, trimmed};

verus! {

/// The most results shown of each kind.
pub const MAX_PER_KIND: usize = 3;

/// What kind of thing was found.
#[derive(Clone, Copy, Debug, PartialEq, Eq, Structural)]
pub enum Kind {
    Song,
    Artist,
    Album,
    Playlist,
}

/// How much was found of one kind.
#[derive(Clone, Copy, Debug, PartialEq, Eq, Structural)]
pub struct Group {
    pub kind: Kind,
    pub hits: usize,
}

/// The key of a kind's title.
pub fn category_title(kind: Kind) -> (key: &'static str)
    ensures
        key == (match kind {
            Kind::Song => "search-songs",
            Kind::Artist => "search-artists",
            Kind::Album => "nav-albums",
            Kind::Playlist => "nav-playlists",
        }),
{
    match kind {
        Kind::Song => "search-songs",
        Kind::Artist => "search-artists",
        Kind::Album => "nav-albums",
        Kind::Playlist => "nav-playlists",
    }
}

/// The groups that are listed of what was found: those with anything in them, cut to the most
/// that is shown.
pub open spec fn groups_of(found: Seq<Group>) -> Seq<Group>
    decreases found.len(),
{
    if found.len() == 0 {
        Seq::empty()
    } else {
        let before = groups_of(found.drop_last());
        let last = found.last();
        if last.hits == 0 {
            before
        } else if last.hits <= MAX_PER_KIND {
            before.push(last)
        } else {
            before.push(Group { kind: last.kind, hits: MAX_PER_KIND })
        }
    }
}

/// No group is empty or longer than what is shown of a kind.
pub open spec fn groups_fit(groups: Seq<Group>) -> bool {
    forall|i: int| 0 <= i < groups.len() ==> 0 < (#[trigger] groups[i]).hits <= MAX_PER_KIND
}

/// How many results the groups hold together.
pub open spec fn total_of(groups: Seq<Group>) -> nat
    decreases groups.len(),
{
    if groups.len() == 0 {
        0
    } else {
        total_of(groups.drop_last()) + groups.last().hits as nat
    }
}

/// Where each group starts among the results.
pub open spec fn starts_of(groups: Seq<Group>) -> Seq<nat>
    decreases groups.len(),
{
    if groups.len() == 0 {
        Seq::empty()
    } else {
        starts_of(groups.drop_last()).push(total_of(groups.drop_last()))
    }
}

/// Which row of the list each result is. Every group has a title in front of its results.
pub open spec fn children_of(groups: Seq<Group>) -> Seq<nat>
    decreases groups.len(),
{
    if groups.len() == 0 {
        Seq::empty()
    } else {
        let before = groups.drop_last();
        children_of(before) + Seq::new(
            groups.last().hits as nat,
            |i: int| (total_of(before) + groups.len() + i) as nat,
        )
    }
}

/// The result at a place stands in this group, at this place of it.
pub open spec fn stands_in(groups: Seq<Group>, place: int, group: int, within: int) -> bool {
    &&& 0 <= group < groups.len()
    &&& 0 <= within < groups[group].hits
    &&& place == total_of(groups.take(group)) + within
}

/// The first start behind a place.
pub open spec fn next_start(starts: Seq<nat>, place: int) -> Option<nat>
    decreases starts.len(),
{
    if starts.len() == 0 {
        None
    } else if starts[0] > place {
        Some(starts[0])
    } else {
        next_start(starts.drop_first(), place)
    }
}

/// The last start in front of a place.
pub open spec fn previous_start(starts: Seq<nat>, place: int) -> Option<nat>
    decreases starts.len(),
{
    if starts.len() == 0 {
        None
    } else if starts.last() < place {
        Some(starts.last())
    } else {
        previous_start(starts.drop_last(), place)
    }
}

/// The place that counts as selected when a group is asked for.
pub open spec fn anchor(selected: Option<usize>) -> int {
    match selected {
        Some(place) => place as int,
        None => 0,
    }
}

/// The result selected when the next group is asked for, the first one after the last.
pub open spec fn next_category_of(starts: Seq<nat>, selected: Option<usize>) -> nat {
    match next_start(starts, anchor(selected)) {
        Some(start) => start,
        None => starts[0],
    }
}

/// The result selected when the group before is asked for, the last one before the first.
pub open spec fn previous_category_of(starts: Seq<nat>, selected: Option<usize>) -> nat {
    match previous_start(starts, anchor(selected)) {
        Some(start) => start,
        None => starts.last(),
    }
}

/// A list that grew by its last element is counted as one.
proof fn lemma_total_step(groups: Seq<Group>, count: int)
    requires
        0 <= count < groups.len(),
    ensures
        total_of(groups.take(count + 1)) == total_of(groups.take(count)) + groups[count].hits,
{
    assert(groups.take(count + 1).drop_last() =~= groups.take(count));
}

/// The groups in front hold no more than all of them.
proof fn lemma_total_grows(groups: Seq<Group>, less: int, more: int)
    requires
        0 <= less <= more <= groups.len(),
    ensures
        total_of(groups.take(less)) <= total_of(groups.take(more)),
        groups_fit(groups) && less < more ==> total_of(groups.take(less)) < total_of(
            groups.take(more),
        ),
    decreases more - less,
{
    if less < more {
        lemma_total_grows(groups, less, more - 1);
        lemma_total_step(groups, more - 1);
    }
}

/// A group starts where those in front of it end.
proof fn lemma_start(groups: Seq<Group>, index: int)
    requires
        0 <= index < groups.len(),
    ensures
        starts_of(groups).len() == groups.len(),
        starts_of(groups)[index] == total_of(groups.take(index)),
    decreases groups.len(),
{
    let before = groups.drop_last();
    assert(groups.take(groups.len() - 1) =~= before);
    lemma_starts_length(before);
    if index < groups.len() - 1 {
        lemma_start(before, index);
        assert(before.take(index) =~= groups.take(index));
    }
}

/// There are as many starts as groups.
proof fn lemma_starts_length(groups: Seq<Group>)
    ensures
        starts_of(groups).len() == groups.len(),
    decreases groups.len(),
{
    if groups.len() > 0 {
        lemma_starts_length(groups.drop_last());
    }
}

/// There are as many rows with results as results.
proof fn lemma_children_length(groups: Seq<Group>)
    ensures
        children_of(groups).len() == total_of(groups),
    decreases groups.len(),
{
    if groups.len() > 0 {
        lemma_children_length(groups.drop_last());
    }
}

/// The groups start one behind the other: the first at the first result, and each where there is
/// a result to select.
pub proof fn groups_start_in_order(groups: Seq<Group>)
    requires
        groups_fit(groups),
    ensures
        starts_of(groups).len() == groups.len(),
        groups.len() > 0 ==> starts_of(groups)[0] == 0,
        forall|i: int|
            0 <= i < groups.len() ==> (#[trigger] starts_of(groups)[i]) < total_of(groups),
        forall|i: int, j: int|
            0 <= i < j < groups.len() ==> #[trigger] starts_of(groups)[i]
                < #[trigger] starts_of(groups)[j],
{
    lemma_starts_length(groups);
    assert(groups.take(groups.len() as int) =~= groups);
    if groups.len() > 0 {
        lemma_start(groups, 0);
        assert(groups.take(0) =~= Seq::empty());
    }
    assert forall|i: int| 0 <= i < groups.len() implies (#[trigger] starts_of(groups)[i])
        < total_of(groups) by {
        lemma_start(groups, i);
        lemma_total_grows(groups, i, groups.len() as int);
    }
    assert forall|i: int, j: int| 0 <= i < j < groups.len() implies #[trigger] starts_of(groups)[i]
        < #[trigger] starts_of(groups)[j] by {
        lemma_start(groups, i);
        lemma_start(groups, j);
        lemma_total_grows(groups, i, j);
    }
}

/// The row of a result is the result's place, moved by the titles of its own group and of those
/// in front.
pub proof fn a_row_counts_the_titles(groups: Seq<Group>, place: int, group: int, within: int)
    requires
        stands_in(groups, place, group, within),
    ensures
        place < children_of(groups).len(),
        children_of(groups)[place] == place + group + 1,
    decreases groups.len(),
{
    let before = groups.drop_last();
    lemma_children_length(groups);
    lemma_children_length(before);
    assert(groups.take(groups.len() - 1) =~= before);
    if group < groups.len() - 1 {
        assert(before.take(group) =~= groups.take(group));
        a_row_counts_the_titles(before, place, group, within);
    }
}

/// Every result stands in exactly one group, at exactly one place of it.
pub proof fn a_result_stands_in_one_group(groups: Seq<Group>, place: int)
    requires
        0 <= place < total_of(groups),
    ensures
        exists|group: int, within: int| stands_in(groups, place, group, within),
        forall|g1: int, w1: int, g2: int, w2: int|
            #![trigger stands_in(groups, place, g1, w1), stands_in(groups, place, g2, w2)]
            stands_in(groups, place, g1, w1) && stands_in(groups, place, g2, w2) ==> g1 == g2 && w1
                == w2,
    decreases groups.len(),
{
    let before = groups.drop_last();
    assert(groups.take(groups.len() - 1) =~= before);
    if place < total_of(before) {
        a_result_stands_in_one_group(before, place);
        let (group, within) = choose|group: int, within: int|
            stands_in(before, place, group, within);
        assert(before.take(group) =~= groups.take(group));
        assert(stands_in(groups, place, group, within));
    } else {
        assert(stands_in(groups, place, groups.len() - 1, place - total_of(before)));
    }
    assert forall|g1: int, w1: int, g2: int, w2: int|
        #![trigger stands_in(groups, place, g1, w1), stands_in(groups, place, g2, w2)]
        stands_in(groups, place, g1, w1) && stands_in(groups, place, g2, w2) implies g1 == g2 && w1
        == w2 by {
        lemma_total_step(groups, g1);
        lemma_total_step(groups, g2);
        if g1 < g2 {
            lemma_total_grows(groups, g1 + 1, g2);
        } else if g2 < g1 {
            lemma_total_grows(groups, g2 + 1, g1);
        }
    }
}

/// The first start behind one start is the one after it.
proof fn lemma_next_start(starts: Seq<nat>, index: int)
    requires
        0 <= index < starts.len(),
        forall|i: int, j: int|
            0 <= i < j < starts.len() ==> #[trigger] starts[i] < #[trigger] starts[j],
    ensures
        next_start(starts, starts[index] as int) == (if index + 1 < starts.len() {
            Some(starts[index + 1])
        } else {
            None
        }),
    decreases starts.len(),
{
    let rest = starts.drop_first();
    assert(forall|i: int| 0 <= i < rest.len() ==> rest[i] == starts[i + 1]);
    if index == 0 {
        if rest.len() > 0 {
            assert(starts[0] < starts[1]);
            assert(next_start(rest, starts[0] as int) == Some(rest[0]));
        } else {
            assert(next_start(rest, starts[0] as int) is None);
        }
    } else {
        assert(starts[0] < starts[index]);
        assert forall|i: int, j: int| 0 <= i < j < rest.len() implies #[trigger] rest[i]
            < #[trigger] rest[j] by {
            assert(starts[i + 1] < starts[j + 1]);
        }
        lemma_next_start(rest, index - 1);
    }
}

/// The last start in front of one start is the one before it.
proof fn lemma_previous_start(starts: Seq<nat>, index: int)
    requires
        0 <= index < starts.len(),
        forall|i: int, j: int|
            0 <= i < j < starts.len() ==> #[trigger] starts[i] < #[trigger] starts[j],
    ensures
        previous_start(starts, starts[index] as int) == (if index > 0 {
            Some(starts[index - 1])
        } else {
            None
        }),
    decreases starts.len(),
{
    let rest = starts.drop_last();
    if index == starts.len() - 1 {
        if rest.len() > 0 {
            assert(rest.last() == starts[index - 1]);
            assert(starts[index - 1] < starts[index]);
            assert(previous_start(rest, starts[index] as int) == Some(rest.last()));
        } else {
            assert(previous_start(rest, starts[index] as int) is None);
        }
    } else {
        assert(starts[index] < starts.last());
        assert(rest[index] == starts[index]);
        lemma_previous_start(rest, index);
    }
}

/// Going from the start of one group to the next group, round the end, and back again leads to
/// where it began.
pub proof fn the_groups_go_round(groups: Seq<Group>, index: int)
    requires
        groups_fit(groups),
        0 <= index < groups.len(),
        total_of(groups) <= usize::MAX,
    ensures
        ({
            let starts = starts_of(groups);
            let here = Some(starts[index] as usize);
            let there = next_category_of(starts, here);
            &&& there == starts[if index + 1 < groups.len() {
                index + 1
            } else {
                0
            }]
            &&& previous_category_of(starts, Some(there as usize)) == starts[index]
        }),
{
    let starts = starts_of(groups);
    groups_start_in_order(groups);
    assert(starts[index] < total_of(groups));
    lemma_next_start(starts, index);
    let after = if index + 1 < groups.len() {
        index + 1
    } else {
        0
    };
    assert(starts[after] < total_of(groups));
    lemma_previous_start(starts, after);
}

/// Where the keyboard goes.
#[derive(Clone, Copy, Debug, PartialEq, Eq, Structural)]
pub enum Focus {
    List,
    Input,
}

/// What the bar does once the selection moved.
#[derive(Clone, Copy, Debug, PartialEq, Eq, Structural)]
pub struct Moved {
    /// The row scrolled to.
    pub row: usize,
    pub focus: Focus,
}

/// What opening the bar does: its input takes the keyboard, and everything is searched for what
/// the input holds.
#[derive(Clone, Debug, PartialEq, Eq)]
pub struct Opened {
    pub focus: Focus,
    pub ask: String,
}

/// What closing the bar does: its input is emptied, everything is searched for what it then
/// holds, and the keyboard goes back to where it was, if it was anywhere.
#[derive(Clone, Debug, PartialEq, Eq)]
pub struct Closed {
    pub ask: String,
    pub focus: Option<u64>,
}

/// What opening or closing the bar does.
#[derive(Clone, Debug, PartialEq, Eq)]
pub enum Toggled {
    Opened(Opened),
    Closed(Closed),
}

/// The bar that searches everything.
#[derive(Clone, Debug, PartialEq, Eq)]
pub struct Powerbar {
    open: bool,
    /// What the input holds.
    text: String,
    /// What had the keyboard before the bar opened, by its number.
    restore: Option<u64>,
    groups: Vec<Group>,
    selected: Option<usize>,
    item_to_child: Vec<usize>,
    category_starts: Vec<usize>,
}

/// The bar as mathematics.
#[verifier::ext_equal]
pub struct PowerbarModel {
    pub open: bool,
    pub text: Seq<char>,
    pub restore: Option<u64>,
    pub groups: Seq<Group>,
    pub selected: Option<usize>,
}

impl View for Powerbar {
    type V = PowerbarModel;

    closed spec fn view(&self) -> PowerbarModel {
        PowerbarModel {
            open: self.open,
            text: self.text@,
            restore: self.restore,
            groups: self.groups@,
            selected: self.selected,
        }
    }
}

/// Numbers as mathematics.
pub open spec fn as_nats(numbers: Seq<usize>) -> Seq<nat> {
    numbers.map_values(|number: usize| number as nat)
}

/// A bar that lists groups and selects this.
pub open spec fn selecting(bar: PowerbarModel, place: nat) -> PowerbarModel {
    PowerbarModel { selected: Some(place as usize), ..bar }
}

/// Whether some result is at a place, and where its group holds it.
pub open spec fn is_hit(groups: Seq<Group>, place: int, hit: Option<(usize, usize)>) -> bool {
    match hit {
        Some((group, within)) => stands_in(groups, place, group as int, within as int),
        None => place >= total_of(groups),
    }
}

/// The bar once it opened.
pub open spec fn shown_of(bar: PowerbarModel, focused: Option<u64>) -> PowerbarModel {
    PowerbarModel { open: true, selected: None, restore: focused, ..bar }
}

/// The bar once it closed.
pub open spec fn closed_of(bar: PowerbarModel) -> PowerbarModel {
    PowerbarModel { open: false, selected: None, text: Seq::empty(), restore: None, ..bar }
}

/// Opening the bar and closing it again gives the keyboard back to what had it, and leaves no
/// query behind.
pub proof fn closing_undoes_opening(bar: PowerbarModel, focused: Option<u64>)
    ensures
        shown_of(bar, focused).restore == focused,
        closed_of(shown_of(bar, focused)) == closed_of(bar),
        closed_of(bar).text.len() == 0,
        closed_of(bar).restore is None,
{
}

impl Powerbar {
    /// The rows and starts are those of the groups, and what is selected is listed.
    pub closed spec fn well_formed(&self) -> bool {
        &&& groups_fit(self.groups@)
        &&& as_nats(self.item_to_child@) == children_of(self.groups@)
        &&& as_nats(self.category_starts@) == starts_of(self.groups@)
        &&& self.selected matches Some(place) ==> place < total_of(self.groups@)
    }

    /// What a bar that is well formed shows.
    pub proof fn a_listed_result_is_selected(&self)
        requires
            self.well_formed(),
        ensures
            groups_fit(self@.groups),
            self@.selected matches Some(place) ==> place < total_of(self@.groups),
            total_of(self@.groups) <= usize::MAX,
    {
        lemma_children_length(self.groups@);
        assert(as_nats(self.item_to_child@).len() == self.item_to_child@.len());
        assert(self.item_to_child.len() == self.item_to_child@.len());
    }

    /// A bar that is closed and lists nothing.
    pub fn new() -> (bar: Self)
        ensures
            bar.well_formed(),
            bar@ == (PowerbarModel {
                open: false,
                text: Seq::empty(),
                restore: None,
                groups: Seq::empty(),
                selected: None,
            }),
    {
        let bar = Powerbar {
            open: false,
            text: String::new(),
            restore: None,
            groups: Vec::new(),
            selected: None,
            item_to_child: Vec::new(),
            category_starts: Vec::new(),
        };
        assert(as_nats(bar.item_to_child@) =~= Seq::empty());
        assert(as_nats(bar.category_starts@) =~= Seq::empty());
        assert(bar.groups@ =~= Seq::empty());
        bar
    }

    /// Something was typed. The answer is what everything is searched for.
    pub fn typed(&mut self, text: &str) -> (ask: String)
        requires
            old(self).well_formed(),
        ensures
            final(self).well_formed(),
            final(self)@ == (PowerbarModel { text: text@, ..old(self)@ }),
            ask@ == text@,
    {
        self.text = text.to_owned();
        text.to_owned()
    }

    /// Opens the bar, with nothing selected, and remembers what has the keyboard.
    pub fn show(&mut self, focused: Option<u64>) -> (opened: Opened)
        requires
            old(self).well_formed(),
        ensures
            final(self).well_formed(),
            final(self)@ == shown_of(old(self)@, focused),
            opened.focus == Focus::Input,
            opened.ask@ == old(self)@.text,
    {
        self.restore = focused;
        self.open = true;
        self.selected = None;
        Opened { focus: Focus::Input, ask: self.text.as_str().to_owned() }
    }

    /// Closes the bar, with nothing selected.
    pub fn close(&mut self) -> (closed: Closed)
        requires
            old(self).well_formed(),
        ensures
            final(self).well_formed(),
            final(self)@ == closed_of(old(self)@),
            closed.ask@ == Seq::<char>::empty(),
            closed.focus == old(self)@.restore,
    {
        self.open = false;
        self.selected = None;
        self.text = String::new();
        let focus = self.restore;
        self.restore = None;
        Closed { ask: String::new(), focus }
    }

    /// Opens the bar when it is closed, and closes it when it is open.
    pub fn toggle(&mut self, focused: Option<u64>) -> (toggled: Toggled)
        requires
            old(self).well_formed(),
        ensures
            final(self).well_formed(),
            match toggled {
                Toggled::Opened(opened) => {
                    &&& !old(self)@.open
                    &&& final(self)@ == shown_of(old(self)@, focused)
                    &&& opened.focus == Focus::Input
                    &&& opened.ask@ == old(self)@.text
                },
                Toggled::Closed(closed) => {
                    &&& old(self)@.open
                    &&& final(self)@ == closed_of(old(self)@)
                    &&& closed.ask@ == Seq::<char>::empty()
                    &&& closed.focus == old(self)@.restore
                },
            },
    {
        if self.open {
            Toggled::Closed(self.close())
        } else {
            Toggled::Opened(self.show(focused))
        }
    }

    /// Lists what was found, kind by kind, with nothing selected. A blank query lists nothing.
    pub fn rebuild_items(&mut self, query: &str, found: &Vec<Group>)
        requires
            found@.len() <= usize::MAX / 4,
        ensures
            final(self).well_formed(),
            final(self)@ == (PowerbarModel {
                groups: if trimmed(query@).len() == 0 {
                    Seq::empty()
                } else {
                    groups_of(found@)
                },
                selected: None,
                ..old(self)@
            }),
    {
        let mut groups: Vec<Group> = Vec::new();
        let mut item_to_child: Vec<usize> = Vec::new();
        let mut category_starts: Vec<usize> = Vec::new();
        let mut child_count: usize = 0;
        let mut flat: usize = 0;
        let mut index: usize = 0;
        let blank = trim(query).as_str().is_empty();
        proof {
            assert(found@.take(0) =~= Seq::empty());
            assert(as_nats(item_to_child@) =~= Seq::empty());
            assert(as_nats(category_starts@) =~= Seq::empty());
            assert(groups@ =~= Seq::empty());
        }
        while !blank && index < found.len()
            invariant
                found@.len() <= usize::MAX / 4,
                index <= found@.len(),
                groups@ == groups_of(found@.take(index as int)),
                groups@.len() <= index,
                groups_fit(groups@),
                flat == total_of(groups@),
                flat <= 3 * index,
                child_count == flat + groups@.len(),
                as_nats(item_to_child@) == children_of(groups@),
                as_nats(category_starts@) == starts_of(groups@),
                blank ==> index == 0,
            decreases found@.len() - index,
        {
            let one = found[index];
            let ghost before = groups@;
            assert(found@.take(index + 1).drop_last() =~= found@.take(index as int));
            let hits: usize = if one.hits <= MAX_PER_KIND {
                one.hits
            } else {
                MAX_PER_KIND
            };
            if hits > 0 {
                let ghost starts = as_nats(category_starts@);
                category_starts.push(flat);
                assert(as_nats(category_starts@) =~= starts.push(flat as nat));
                child_count = child_count + 1;
                let ghost rows = as_nats(item_to_child@);
                let mut step: usize = 0;
                let ghost base = child_count as nat;
                assert(as_nats(item_to_child@) =~= rows + Seq::new(0, |i: int| (base + i) as nat));
                while step < hits
                    invariant
                        step <= hits,
                        hits <= MAX_PER_KIND,
                        base <= usize::MAX - 4,
                        child_count == base + step,
                        flat + hits - step <= usize::MAX,
                        flat == total_of(before) + step,
                        as_nats(item_to_child@) == rows + Seq::new(
                            step as nat,
                            |i: int| (base + i) as nat,
                        ),
                    decreases hits - step,
                {
                    let ghost so_far = as_nats(item_to_child@);
                    item_to_child.push(child_count);
                    assert(as_nats(item_to_child@) =~= so_far.push(child_count as nat));
                    child_count = child_count + 1;
                    flat = flat + 1;
                    step = step + 1;
                    assert(as_nats(item_to_child@) =~= rows + Seq::new(
                        step as nat,
                        |i: int| (base + i) as nat,
                    ));
                }
                groups.push(Group { kind: one.kind, hits });
                proof {
                    assert(groups@.drop_last() =~= before);
                    assert(as_nats(item_to_child@) =~= children_of(groups@));
                    assert(as_nats(category_starts@) =~= starts_of(groups@));
                    assert(groups@ =~= groups_of(found@.take(index + 1)));
                }
            }
            index = index + 1;
        }
        assert(found@.take(found@.len() as int) =~= found@);
        self.groups = groups;
        self.item_to_child = item_to_child;
        self.category_starts = category_starts;
        self.selected = None;
    }

    /// How many results are listed.
    pub fn total_items(&self) -> (total: usize)
        requires
            self.well_formed(),
        ensures
            total == total_of(self@.groups),
    {
        proof {
            lemma_children_length(self.groups@);
        }
        self.item_to_child.len()
    }

    /// Selects a result that is listed.
    fn choose_place(&mut self, place: usize) -> (moved: Moved)
        requires
            old(self).well_formed(),
            place < total_of(old(self)@.groups),
        ensures
            final(self).well_formed(),
            final(self)@ == selecting(old(self)@, place as nat),
            moved.focus == Focus::List,
            moved.row == children_of(old(self)@.groups)[place as int],
    {
        proof {
            lemma_children_length(self.groups@);
            assert(as_nats(self.item_to_child@)[place as int] == self.item_to_child@[place as int]);
        }
        self.selected = Some(place);
        Moved { row: self.item_to_child[place], focus: Focus::List }
    }

    /// Selects the next result, or the first one, and stays at the last one. There is nothing to
    /// select when nothing is listed.
    pub fn select_next(&mut self) -> (moved: Option<Moved>)
        requires
            old(self).well_formed(),
        ensures
            final(self).well_formed(),
            ({
                let total = total_of(old(self)@.groups);
                let next = match old(self)@.selected {
                    None => 0,
                    Some(place) => if place + 1 < total {
                        place + 1
                    } else {
                        total - 1
                    },
                };
                if total == 0 {
                    moved is None && final(self)@ == old(self)@
                } else {
                    moved == Some(
                        Moved {
                            row: children_of(old(self)@.groups)[next] as usize,
                            focus: Focus::List,
                        },
                    ) && final(self)@ == selecting(old(self)@, next as nat)
                }
            }),
    {
        let total = self.total_items();
        if total == 0 {
            return None;
        }
        let next: usize = match self.selected {
            None => 0,
            Some(place) => if place < total - 1 {
                place + 1
            } else {
                total - 1
            },
        };
        Some(self.choose_place(next))
    }

    /// Selects the result before. In front of the first one stands the input itself.
    pub fn select_previous(&mut self) -> (moved: Option<Moved>)
        requires
            old(self).well_formed(),
        ensures
            final(self).well_formed(),
            match old(self)@.selected {
                None => moved is None && final(self)@ == old(self)@,
                Some(place) => if place == 0 {
                    moved == Some(Moved { row: 0, focus: Focus::Input }) && final(self)@ == (
                    PowerbarModel { selected: None, ..old(self)@ })
                } else {
                    moved == Some(
                        Moved {
                            row: children_of(old(self)@.groups)[place - 1] as usize,
                            focus: Focus::List,
                        },
                    ) && final(self)@ == selecting(old(self)@, (place - 1) as nat)
                },
            },
    {
        match self.selected {
            None => None,
            Some(place) => if place == 0 {
                self.selected = None;
                Some(Moved { row: 0, focus: Focus::Input })
            } else {
                Some(self.choose_place(place - 1))
            },
        }
    }

    /// Selects the first result of the next group, and after the last group that of the first.
    pub fn select_next_category(&mut self) -> (moved: Option<Moved>)
        requires
            old(self).well_formed(),
        ensures
            final(self).well_formed(),
            ({
                let groups = old(self)@.groups;
                let next = next_category_of(starts_of(groups), old(self)@.selected);
                if groups.len() == 0 {
                    moved is None && final(self)@ == old(self)@
                } else {
                    moved == Some(
                        Moved { row: children_of(groups)[next as int] as usize, focus: Focus::List },
                    ) && final(self)@ == selecting(old(self)@, next)
                }
            }),
    {
        proof {
            groups_start_in_order(self.groups@);
            assert(as_nats(self.category_starts@).len() == self.category_starts@.len());
        }
        if self.category_starts.len() == 0 {
            return None;
        }
        let current: usize = match self.selected {
            Some(place) => place,
            None => 0,
        };
        let ghost starts = as_nats(self.category_starts@);
        let mut index: usize = 0;
        let mut next: usize = self.category_starts[0];
        assert(starts.skip(0) =~= starts);
        assert(starts[0] == next);
        while index < self.category_starts.len()
            invariant_except_break
                next_start(starts, current as int) == next_start(
                    starts.skip(index as int),
                    current as int,
                ),
                next == starts[0],
            invariant
                starts == as_nats(self.category_starts@),
                index <= self.category_starts@.len(),
                self.category_starts@.len() > 0,
            ensures
                match next_start(starts, current as int) {
                    Some(start) => next == start && starts.contains(start),
                    None => next == starts[0],
                },
            decreases self.category_starts@.len() - index,
        {
            let start = self.category_starts[index];
            assert(starts.skip(index as int)[0] == start);
            if start > current {
                assert(starts[index as int] == start);
                next = start;
                break;
            }
            assert(starts.skip(index as int).drop_first() =~= starts.skip(index + 1));
            index = index + 1;
        }
        assert(next == next_category_of(starts, self.selected));
        assert(starts.contains(next as nat));
        Some(self.choose_place(next))
    }

    /// Selects the first result of the group before, and before the first group that of the last.
    pub fn select_prev_category(&mut self) -> (moved: Option<Moved>)
        requires
            old(self).well_formed(),
        ensures
            final(self).well_formed(),
            ({
                let groups = old(self)@.groups;
                let previous = previous_category_of(starts_of(groups), old(self)@.selected);
                if groups.len() == 0 {
                    moved is None && final(self)@ == old(self)@
                } else {
                    moved == Some(
                        Moved {
                            row: children_of(groups)[previous as int] as usize,
                            focus: Focus::List,
                        },
                    ) && final(self)@ == selecting(old(self)@, previous)
                }
            }),
    {
        proof {
            groups_start_in_order(self.groups@);
            assert(as_nats(self.category_starts@).len() == self.category_starts@.len());
        }
        let count = self.category_starts.len();
        if count == 0 {
            return None;
        }
        let current: usize = match self.selected {
            Some(place) => place,
            None => 0,
        };
        let ghost starts = as_nats(self.category_starts@);
        let mut index: usize = count;
        let mut previous: usize = self.category_starts[count - 1];
        assert(starts.take(count as int) =~= starts);
        assert(starts.last() == previous);
        while index > 0
            invariant_except_break
                previous_start(starts, current as int) == previous_start(
                    starts.take(index as int),
                    current as int,
                ),
                previous == starts.last(),
            invariant
                starts == as_nats(self.category_starts@),
                index <= self.category_starts@.len(),
                self.category_starts@.len() > 0,
            ensures
                match previous_start(starts, current as int) {
                    Some(start) => previous == start && starts.contains(start),
                    None => previous == starts.last(),
                },
            decreases index,
        {
            let start = self.category_starts[index - 1];
            assert(starts.take(index as int).last() == start);
            if start < current {
                assert(starts[index - 1] == start);
                previous = start;
                break;
            }
            assert(starts.take(index as int).drop_last() =~= starts.take(index - 1));
            index = index - 1;
        }
        assert(previous == previous_category_of(starts, self.selected));
        assert(starts.contains(previous as nat));
        Some(self.choose_place(previous))
    }

    /// The result at a place: the group it stands in, and its place there.
    pub fn hit_at(&self, place: usize) -> (hit: Option<(usize, usize)>)
        ensures
            is_hit(self@.groups, place as int, hit),
    {
        let mut rest: usize = place;
        let mut group: usize = 0;
        assert(self.groups@.take(0) =~= Seq::empty());
        while group < self.groups.len()
            invariant
                group <= self.groups@.len(),
                place == total_of(self.groups@.take(group as int)) + rest,
            decreases self.groups@.len() - group,
        {
            let hits = self.groups[group].hits;
            if rest < hits {
                return Some((group, rest));
            }
            proof {
                lemma_total_step(self.groups@, group as int);
            }
            rest = rest - hits;
            group = group + 1;
        }
        assert(self.groups@.take(group as int) =~= self.groups@);
        None
    }

    /// Takes the selected result, or the first one, and closes the bar. Nothing is taken only
    /// when nothing is listed.
    pub fn activate(&mut self) -> (taken: (Option<(usize, usize)>, Closed))
        requires
            old(self).well_formed(),
        ensures
            final(self).well_formed(),
            final(self)@ == closed_of(old(self)@),
            taken.1.ask@ == Seq::<char>::empty(),
            taken.1.focus == old(self)@.restore,
            is_hit(old(self)@.groups, anchor(old(self)@.selected), taken.0),
            taken.0 is None <==> total_of(old(self)@.groups) == 0,
    {
        let place: usize = match self.selected {
            Some(place) => place,
            None => 0,
        };
        let hit = self.hit_at(place);
        proof {
            if hit is Some {
                let (group, within) = hit->0;
                lemma_total_step(self.groups@, group as int);
                lemma_total_grows(self.groups@, group + 1, self.groups@.len() as int);
                assert(self.groups@.take(self.groups@.len() as int) =~= self.groups@);
            }
        }
        (hit, self.close())
    }
}

/// Something that was found.
#[derive(Clone, Debug, PartialEq, Eq)]
pub enum Hit {
    Song { id: Option<String>, name: String, artists: String, album: String },
    Artist { id: Option<String>, name: String },
    Album { id: String, name: String, artists: String },
    Playlist { id: String, name: String, owner: String },
}

/// Where a result leads: its kind and its id.
pub open spec fn destination_of(hit: Hit) -> Option<(Kind, Seq<char>)> {
    match hit {
        Hit::Song { id, .. } => match id {
            Some(id) => Some((Kind::Song, id@)),
            None => None,
        },
        Hit::Artist { id, .. } => match id {
            Some(id) => Some((Kind::Artist, id@)),
            None => None,
        },
        Hit::Album { id, .. } => Some((Kind::Album, id@)),
        Hit::Playlist { id, .. } => Some((Kind::Playlist, id@)),
    }
}

/// A destination as mathematics.
pub open spec fn seen_destination(to: Option<(Kind, String)>) -> Option<(Kind, Seq<char>)> {
    match to {
        Some((kind, id)) => Some((kind, id@)),
        None => None,
    }
}

/// Where a result leads. A song or an artist without an id leads nowhere.
pub fn navigate_hit(hit: &Hit) -> (to: Option<(Kind, String)>)
    ensures
        seen_destination(to) == destination_of(*hit),
{
    match hit {
        Hit::Song { id, .. } => match id {
            Some(id) => Some((Kind::Song, id.as_str().to_owned())),
            None => None,
        },
        Hit::Artist { id, .. } => match id {
            Some(id) => Some((Kind::Artist, id.as_str().to_owned())),
            None => None,
        },
        Hit::Album { id, .. } => Some((Kind::Album, id.as_str().to_owned())),
        Hit::Playlist { id, .. } => Some((Kind::Playlist, id.as_str().to_owned())),
    }
}

/// What playing a result starts.
#[derive(Clone, Debug, PartialEq, Eq)]
pub enum Start {
    Nothing,
    /// The radio of the song.
    Radio,
    /// Everything of the artist, album or playlist with this id, under this name.
    Origin(Kind, String, String),
}

/// Playing the result starts this.
pub open spec fn starts(hit: Hit, start: Start) -> bool {
    match hit {
        Hit::Song { .. } => start is Radio,
        _ => match destination_of(hit) {
            Some((kind, id)) => start matches Start::Origin(started, from, named) && started == kind
                && from@ == id && named@ == name_of(hit),
            None => start is Nothing,
        },
    }
}

/// The name of a result.
pub open spec fn name_of(hit: Hit) -> Seq<char> {
    match hit {
        Hit::Song { name, .. } => name@,
        Hit::Artist { name, .. } => name@,
        Hit::Album { name, .. } => name@,
        Hit::Playlist { name, .. } => name@,
    }
}

/// What playing a result starts: the radio of a song, and everything of the others. An artist
/// without an id starts nothing.
pub fn play_hit(hit: &Hit) -> (start: Start)
    ensures
        starts(*hit, start),
{
    match hit {
        Hit::Song { .. } => Start::Radio,
        Hit::Artist { id, name } => match id {
            Some(id) => Start::Origin(
                Kind::Artist,
                id.as_str().to_owned(),
                name.as_str().to_owned(),
            ),
            None => Start::Nothing,
        },
        Hit::Album { id, name, .. } => Start::Origin(
            Kind::Album,
            id.as_str().to_owned(),
            name.as_str().to_owned(),
        ),
        Hit::Playlist { id, name, .. } => Start::Origin(
            Kind::Playlist,
            id.as_str().to_owned(),
            name.as_str().to_owned(),
        ),
    }
}

/// What a row says of its result.
#[derive(Clone, Debug, PartialEq, Eq)]
pub struct Described {
    pub label: String,
    /// What stands below the name. An artist's row says there that it is one.
    pub subtitle: Option<String>,
    /// What stands in for a cover.
    pub icon: &'static str,
    /// The cover is round.
    pub round: bool,
}

/// What stands below the name of a result, unless it is an artist.
pub open spec fn subtitle_of(hit: Hit) -> Option<Seq<char>> {
    match hit {
        Hit::Song { artists, album, .. } => Some(artists@ + " · "@ + album@),
        Hit::Artist { .. } => None,
        Hit::Album { artists, .. } => Some(artists@),
        Hit::Playlist { owner, .. } => Some(owner@),
    }
}

/// What stands in for the cover of a result.
pub open spec fn icon_of(hit: Hit) -> &'static str {
    match hit {
        Hit::Song { .. } => "icons/music.svg",
        Hit::Artist { .. } => "icons/user.svg",
        Hit::Album { .. } => "icons/disc-3.svg",
        Hit::Playlist { .. } => "icons/list.svg",
    }
}

/// What a row says of its result.
pub fn describe_hit(hit: &Hit) -> (row: Described)
    ensures
        row.label@ == name_of(*hit),
        maybe_text(row.subtitle) == subtitle_of(*hit),
        row.icon == icon_of(*hit),
        row.round == hit is Artist,
{
    match hit {
        Hit::Song { name, artists, album, .. } => {
            let mut subtitle = joined_pair(artists.as_str(), " · ");
            subtitle.append(album.as_str());
            Described {
                label: name.as_str().to_owned(),
                subtitle: Some(subtitle),
                icon: "icons/music.svg",
                round: false,
            }
        },
        Hit::Artist { name, .. } => Described {
            label: name.as_str().to_owned(),
            subtitle: None,
            icon: "icons/user.svg",
            round: true,
        },
        Hit::Album { name, artists, .. } => Described {
            label: name.as_str().to_owned(),
            subtitle: Some(artists.as_str().to_owned()),
            icon: "icons/disc-3.svg",
            round: false,
        },
        Hit::Playlist { name, owner, .. } => Described {
            label: name.as_str().to_owned(),
            subtitle: Some(owner.as_str().to_owned()),
            icon: "icons/list.svg",
            round: false,
        },
    }
}

/// The name that ties a row to what shows while the pointer is over it.
pub fn row_group(place: u64) -> (name: String)
    ensures
        name@ == "row-"@ + crate::text::decimal(place as nat),
{
    joined_pair("row-", number_text(place).as_str())
}

/// Whatever a result leads to is of the result's own kind and has its id, and a result leads
/// somewhere exactly when it has an id.
pub proof fn a_result_leads_to_its_own_kind(hit: Hit)
    ensures
        hit matches Hit::Song { id: Some(id), .. } ==> destination_of(hit) == Some(
            (Kind::Song, id@),
        ),
        hit matches Hit::Artist { id: Some(id), .. } ==> destination_of(hit) == Some(
            (Kind::Artist, id@),
        ),
        hit matches Hit::Album { id, .. } ==> destination_of(hit) == Some((Kind::Album, id@)),
        hit matches Hit::Playlist { id, .. } ==> destination_of(hit) == Some(
            (Kind::Playlist, id@),
        ),
        destination_of(hit) is None <==> (hit matches Hit::Song { id: None, .. }) || (
        hit matches Hit::Artist { id: None, .. }),
        hit matches Hit::Song { id: None, .. } ==> destination_of(hit) is None,
        hit matches Hit::Artist { id: None, .. } ==> destination_of(hit) is None,
{
}

/// Whatever playing a result starts is of the result's own kind, with its id and under its name:
/// a song starts the radio and nothing else, and only an artist without an id starts nothing.
pub proof fn a_result_starts_its_own_kind(hit: Hit, start: Start)
    requires
        starts(hit, start),
    ensures
        hit matches Hit::Song { .. } ==> start is Radio,
        hit matches Hit::Artist { id: Some(id), name } ==> (start matches Start::Origin(
            kind,
            from,
            named,
        ) && kind is Artist && from@ == id@ && named@ == name@),
        hit matches Hit::Artist { id: None, .. } ==> start is Nothing,
        hit matches Hit::Album { id, name, .. } ==> (start matches Start::Origin(kind, from, named)
            && kind is Album && from@ == id@ && named@ == name@),
        hit matches Hit::Playlist { id, name, .. } ==> (start matches Start::Origin(
            kind,
            from,
            named,
        ) && kind is Playlist && from@ == id@ && named@ == name@),
{
}

/// What stands in a row is the result's own: its name, below it the artists and the album of a
/// song, the artists of an album, the owner of a playlist and nothing of an artist, and a picture
/// that tells the kinds apart.
pub proof fn a_row_says_what_its_result_is(hit: Hit)
    ensures
        hit matches Hit::Song { name, artists, album, .. } ==> name_of(hit) == name@ && subtitle_of(
            hit,
        ) == Some(artists@ + seq![' ', '\u{b7}', ' '] + album@) && icon_of(hit)
            == "icons/music.svg",
        hit matches Hit::Artist { name, .. } ==> name_of(hit) == name@ && subtitle_of(hit) is None
            && icon_of(hit) == "icons/user.svg",
        hit matches Hit::Album { name, artists, .. } ==> name_of(hit) == name@ && subtitle_of(hit)
            == Some(artists@) && icon_of(hit) == "icons/disc-3.svg",
        hit matches Hit::Playlist { name, owner, .. } ==> name_of(hit) == name@ && subtitle_of(hit)
            == Some(owner@) && icon_of(hit) == "icons/list.svg",
{
    reveal_strlit(" · ");
    assert(" · "@ =~= seq![' ', '\u{b7}', ' ']);
}

/// Every kind has a title of its own.
pub proof fn every_kind_has_its_title(kind: Kind, key: &'static str)
    requires
        call_ensures(category_title, (kind,), key),
    ensures
        kind is Song <==> key@ == "search-songs"@,
        kind is Artist <==> key@ == "search-artists"@,
        kind is Album <==> key@ == "nav-albums"@,
        kind is Playlist <==> key@ == "nav-playlists"@,
{
    reveal_strlit("search-songs");
    reveal_strlit("search-artists");
    reveal_strlit("nav-albums");
    reveal_strlit("nav-playlists");
    assert("search-songs"@[7] != "search-artists"@[7]);
    assert("nav-albums"@[4] != "nav-playlists"@[4]);
    assert("search-songs"@[0] != "nav-albums"@[0]);
    assert("search-songs"@[0] != "nav-playlists"@[0]);
    assert("search-artists"@[0] != "nav-albums"@[0]);
    assert("search-artists"@[0] != "nav-playlists"@[0]);
}

/// What was found of a kind is listed unless nothing was, three of it at most, and the kinds stay
/// in the order in which they were found.
pub proof fn three_of_each_kind_are_listed(found: Seq<Group>, last: Group)
    ensures
        groups_of(Seq::empty()).len() == 0,
        last.hits == 0 ==> groups_of(found.push(last)) == groups_of(found),
        1 <= last.hits <= 3 ==> groups_of(found.push(last)) == groups_of(found).push(last),
        last.hits > 3 ==> groups_of(found.push(last)) == groups_of(found).push(
            Group { kind: last.kind, hits: 3 },
        ),
{
    assert(found.push(last).drop_last() =~= found);
}

/// Every kind of which anything was found has its group.
pub proof fn what_was_found_has_its_group(found: Seq<Group>, i: int)
    requires
        0 <= i < found.len(),
        found[i].hits > 0,
    ensures
        groups_of(found).contains(
            Group {
                kind: found[i].kind,
                hits: if found[i].hits < 3 {
                    found[i].hits
                } else {
                    3
                },
            },
        ),
    decreases found.len(),
{
    let listed = Group {
        kind: found[i].kind,
        hits: if found[i].hits < 3 {
            found[i].hits
        } else {
            3
        },
    };
    let fewer = found.drop_last();
    let before = groups_of(fewer);
    if i < fewer.len() {
        what_was_found_has_its_group(fewer, i);
        let k = choose|k: int| 0 <= k < before.len() && before[k] == listed;
        assert(groups_of(found)[k] == listed);
    } else {
        assert(groups_of(found)[before.len() as int] == listed);
    }
}

/// No kind is listed of which nothing was found.
pub proof fn nothing_else_is_listed(found: Seq<Group>, k: int)
    requires
        0 <= k < groups_of(found).len(),
    ensures
        1 <= groups_of(found)[k].hits <= 3,
        exists|i: int|
            0 <= i < found.len() && (#[trigger] found[i]).kind == groups_of(found)[k].kind
                && found[i].hits >= groups_of(found)[k].hits,
    decreases found.len(),
{
    let fewer = found.drop_last();
    let before = groups_of(fewer);
    if k < before.len() {
        nothing_else_is_listed(fewer, k);
        assert(groups_of(found)[k] == before[k]);
        let i = choose|i: int|
            0 <= i < fewer.len() && (#[trigger] fewer[i]).kind == before[k].kind && fewer[i].hits
                >= before[k].hits;
        assert(found[i] == fewer[i]);
    } else {
        assert(found[found.len() - 1].hits > 0);
    }
}

/// Going down selects the first result, then the next, and stays at the last; where nothing is
/// listed nothing is selected. Nothing but the selection changes.
pub proof fn a_step_down_selects_the_next(bar: &mut Powerbar, moved: Option<Moved>)
    requires
        call_ensures(Powerbar::select_next, (bar,), moved),
    ensures
        total_of(old(bar)@.groups) == 0 ==> moved is None && final(bar)@ == old(bar)@,
        total_of(old(bar)@.groups) > 0 ==> {
            &&& moved matches Some(moved) && moved.focus is List
            &&& final(bar)@ == (PowerbarModel { selected: final(bar)@.selected, ..old(bar)@ })
            &&& old(bar)@.selected is None ==> final(bar)@.selected == Some(0usize)
            &&& old(bar)@.selected matches Some(place) ==> {
                &&& place + 1 < total_of(old(bar)@.groups) && place < usize::MAX
                    ==> final(bar)@.selected == Some((place + 1) as usize)
                &&& place + 1 == total_of(old(bar)@.groups) ==> final(bar)@.selected == Some(place)
            }
        },
{
}

/// Going up selects the result before; from the first one it goes back to the input, with nothing
/// selected.
pub proof fn a_step_up_selects_the_one_before(bar: &mut Powerbar, moved: Option<Moved>)
    requires
        call_ensures(Powerbar::select_previous, (bar,), moved),
    ensures
        final(bar)@ == (PowerbarModel { selected: final(bar)@.selected, ..old(bar)@ }),
        old(bar)@.selected is None ==> moved is None && final(bar)@.selected is None,
        old(bar)@.selected matches Some(place) ==> {
            &&& place == 0 ==> final(bar)@.selected is None && (moved matches Some(moved)
                && moved.focus is Input)
            &&& place > 0 ==> final(bar)@.selected == Some((place - 1) as usize) && (
            moved matches Some(moved) && moved.focus is List)
        },
{
}

/// A step down and a step up leave the selection where it was, unless it was at the end.
pub proof fn a_step_up_undoes_a_step_down(
    bar: &mut Powerbar,
    down: Option<Moved>,
    after: &mut Powerbar,
    up: Option<Moved>,
)
    requires
        call_ensures(Powerbar::select_next, (bar,), down),
        call_ensures(Powerbar::select_previous, (after,), up),
        old(after)@ == final(bar)@,
        old(bar)@.selected matches Some(place) && place + 1 < total_of(old(bar)@.groups) && place
            < usize::MAX,
    ensures
        final(after)@ == old(bar)@,
{
    a_step_down_selects_the_next(bar, down);
    a_step_up_selects_the_one_before(after, up);
}

/// A query of white space lists nothing; any other lists what was found. What is typed and whether
/// the bar is open stay as they are.
pub proof fn a_blank_query_lists_nothing(
    bar: &mut Powerbar,
    query: &str,
    found: Vec<Group>,
    done: (),
)
    requires
        call_ensures(Powerbar::rebuild_items, (bar, query, &found), done),
    ensures
        all_white(query@) ==> final(bar)@.groups.len() == 0,
        !all_white(query@) ==> final(bar)@.groups == groups_of(found@),
        final(bar)@.selected is None,
        final(bar)@.text == old(bar)@.text,
        final(bar)@.open == old(bar)@.open,
        final(bar)@.restore == old(bar)@.restore,
{
    trimming_takes_white_space_alone(query@);
}

/// Toggling opens a bar that is closed and closes one that is open, and the keyboard goes to the
/// input and back to what had it.
pub proof fn toggling_opens_and_closes(bar: &mut Powerbar, focused: Option<u64>, toggled: Toggled)
    requires
        call_ensures(Powerbar::toggle, (bar, focused), toggled),
    ensures
        final(bar)@.open == !old(bar)@.open,
        final(bar)@.selected is None,
        !old(bar)@.open ==> final(bar)@.restore == focused && final(bar)@.text == old(bar)@.text
            && (toggled matches Toggled::Opened(opened) && opened.focus is Input && opened.ask@
            == old(bar)@.text),
        old(bar)@.open ==> final(bar)@.restore is None && final(bar)@.text.len() == 0 && (
        toggled matches Toggled::Closed(closed) && closed.focus == old(bar)@.restore
            && closed.ask@.len() == 0),
{
}

/// What is taken is what is selected, or the first result where nothing is; the bar closes.
pub proof fn what_is_selected_is_taken(
    bar: &mut Powerbar,
    taken: (Option<(usize, usize)>, Closed),
)
    requires
        call_ensures(Powerbar::activate, (bar,), taken),
    ensures
        !final(bar)@.open && final(bar)@.text.len() == 0,
        taken.0 is None <==> total_of(old(bar)@.groups) == 0,
        taken.0 matches Some((group, within)) ==> {
            let place = total_of(old(bar)@.groups.take(group as int)) + within;
            &&& group < old(bar)@.groups.len()
            &&& within < old(bar)@.groups[group as int].hits
            &&& old(bar)@.selected matches Some(selected) ==> place == selected
            &&& old(bar)@.selected is None ==> place == 0
        },
{
}

/// The next group is the nearest that starts behind the place, and the one before is the nearest
/// that starts in front of it; there is none only where no group does.
pub proof fn the_nearest_group_is_found(starts: Seq<nat>, place: int)
    requires
        forall|i: int, j: int|
            0 <= i < j < starts.len() ==> #[trigger] starts[i] < #[trigger] starts[j],
    ensures
        next_start(starts, place) matches Some(start) ==> start > place && starts.contains(start)
            && forall|i: int| 0 <= i < starts.len() && starts[i] > place ==> start <= starts[i],
        next_start(starts, place) is None ==> forall|i: int|
            0 <= i < starts.len() ==> starts[i] <= place,
        previous_start(starts, place) matches Some(start) ==> start < place && starts.contains(
            start,
        ) && forall|i: int| 0 <= i < starts.len() && starts[i] < place ==> starts[i] <= start,
        previous_start(starts, place) is None ==> forall|i: int|
            0 <= i < starts.len() ==> starts[i] >= place,
{
    lemma_nearest_behind(starts, place);
    lemma_nearest_in_front(starts, place);
}

proof fn lemma_nearest_behind(starts: Seq<nat>, place: int)
    requires
        forall|i: int, j: int|
            0 <= i < j < starts.len() ==> #[trigger] starts[i] < #[trigger] starts[j],
    ensures
        next_start(starts, place) matches Some(start) ==> start > place && starts.contains(start)
            && forall|i: int| 0 <= i < starts.len() && starts[i] > place ==> start <= starts[i],
        next_start(starts, place) is None ==> forall|i: int|
            0 <= i < starts.len() ==> starts[i] <= place,
    decreases starts.len(),
{
    if starts.len() > 0 {
        if starts[0] > place {
            assert(starts.contains(starts[0]));
            assert forall|i: int| 0 <= i < starts.len() && #[trigger] starts[i]
                > place implies starts[0] <= starts[i] by {
                if i > 0 {
                    assert(starts[0] < starts[i]);
                }
            }
        } else {
            let rest = starts.drop_first();
            assert forall|i: int, j: int| 0 <= i < j < rest.len() implies #[trigger] rest[i]
                < #[trigger] rest[j] by {
                assert(starts[i + 1] < starts[j + 1]);
            }
            lemma_nearest_behind(rest, place);
            assert(forall|i: int| 0 < i < starts.len() ==> starts[i] == rest[i - 1]);
            if let Some(start) = next_start(rest, place) {
                let k = choose|k: int| 0 <= k < rest.len() && rest[k] == start;
                assert(starts[k + 1] == start);
            }
        }
    }
}

proof fn lemma_nearest_in_front(starts: Seq<nat>, place: int)
    requires
        forall|i: int, j: int|
            0 <= i < j < starts.len() ==> #[trigger] starts[i] < #[trigger] starts[j],
    ensures
        previous_start(starts, place) matches Some(start) ==> start < place && starts.contains(
            start,
        ) && forall|i: int| 0 <= i < starts.len() && starts[i] < place ==> starts[i] <= start,
        previous_start(starts, place) is None ==> forall|i: int|
            0 <= i < starts.len() ==> starts[i] >= place,
    decreases starts.len(),
{
    if starts.len() > 0 {
        let last = starts[starts.len() - 1];
        if last < place {
            assert(starts.contains(last));
            assert forall|i: int| 0 <= i < starts.len() && #[trigger] starts[i]
                < place implies starts[i] <= last by {
                if i < starts.len() - 1 {
                    assert(starts[i] < starts[starts.len() - 1]);
                }
            }
        } else {
            let rest = starts.drop_last();
            assert forall|i: int, j: int| 0 <= i < j < rest.len() implies #[trigger] rest[i]
                < #[trigger] rest[j] by {
                assert(starts[i] < starts[j]);
            }
            lemma_nearest_in_front(rest, place);
            assert(forall|i: int| 0 <= i < starts.len() - 1 ==> starts[i] == rest[i]);
            if let Some(start) = previous_start(rest, place) {
                let k = choose|k: int| 0 <= k < rest.len() && rest[k] == start;
                assert(starts[k] == start);
            }
        }
    }
}

/// Where no group is left the other end is gone on from: behind the last group comes the first,
/// and in front of the first the last.
pub proof fn the_other_end_is_gone_on_from(starts: Seq<nat>, place: usize)
    requires
        starts.len() > 0,
        forall|i: int, j: int|
            0 <= i < j < starts.len() ==> #[trigger] starts[i] < #[trigger] starts[j],
    ensures
        (forall|i: int| 0 <= i < starts.len() ==> starts[i] <= place) ==> next_category_of(
            starts,
            Some(place),
        ) == starts[0],
        (forall|i: int| 0 <= i < starts.len() ==> starts[i] >= place) ==> previous_category_of(
            starts,
            Some(place),
        ) == starts.last(),
        next_category_of(starts, None) == next_category_of(starts, Some(0)),
        previous_category_of(starts, None) == previous_category_of(starts, Some(0)),
{
    the_nearest_group_is_found(starts, place as int);
    if let Some(start) = next_start(starts, place as int) {
        let k = choose|k: int| 0 <= k < starts.len() && starts[k] == start;
        assert(starts[k] > place);
    }
    if let Some(start) = previous_start(starts, place as int) {
        let k = choose|k: int| 0 <= k < starts.len() && starts[k] == start;
        assert(starts[k] < place);
    }
}

} // verus!
