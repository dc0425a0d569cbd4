//! The page of what was played.

use vstd::prelude::*;

use super::artist::{TableAction, TableEvent};

verus! {

/// How far the history is.
#[derive(Clone, Copy, Debug, PartialEq, Eq, Structural)]
pub enum HistoryState {
    Loading,
    Failed,
    Ready,
}

/// What the page says in place of tracks, by its key.
pub open spec fn note_of(state: HistoryState, rows: nat, filtering: bool) -> Option<&'static str> {
    match state {
        HistoryState::Loading => None,
        HistoryState::Failed => Some("history-not-loaded"),
        HistoryState::Ready => if rows > 0 {
            None
        } else if filtering {
            Some("library-no-matches")
        } else {
            Some("history-empty")
        },
    }
}

/// What the page says in place of tracks, by its key.
pub fn note(state: HistoryState, rows: usize, filtering: bool) -> (key: Option<&'static str>)
    ensures
        key == note_of(state, rows as nat, filtering),
{
    match state {
        HistoryState::Loading => None,
        HistoryState::Failed => Some("history-not-loaded"),
        HistoryState::Ready => if rows > 0 {
            None
        } else if filtering {
            Some("library-no-matches")
        } else {
            Some("history-empty")
        },
    }
}

/// How long the tracks take together.
pub open spec fn total_of(durations: Seq<u64>) -> nat
    decreases durations.len(),
{
    if durations.len() == 0 {
        0
    } else {
        total_of(durations.drop_last()) + durations.last() as nat
    }
}

/// More tracks take no less time.
proof fn lemma_total_grows(durations: Seq<u64>, count: int)
    requires
        0 <= count <= durations.len(),
    ensures
        total_of(durations.take(count)) <= total_of(durations),
    decreases durations.len() - count,
{
    if count < durations.len() {
        assert(durations.take(count + 1).drop_last() =~= durations.take(count));
        lemma_total_grows(durations, count + 1);
    } else {
        assert(durations.take(count) =~= durations);
    }
}

/// What the head of the page says.
#[derive(Clone, Copy, Debug, PartialEq, Eq, Structural)]
pub struct Header {
    pub count: usize,
    /// How long the tracks take together, unless they take no time at all.
    pub duration: Option<u64>,
    /// The button that clears the history does nothing.
    pub clear_disabled: bool,
}

/// What the head of the page says of tracks that take so long.
pub fn header(durations: &Vec<u64>) -> (head: Header)
    requires
        total_of(durations@) <= u64::MAX,
    ensures
        head == (Header {
            count: durations@.len() as usize,
            duration: if total_of(durations@) == 0 {
                None
            } else {
                Some(total_of(durations@) as u64)
            },
            clear_disabled: durations@.len() == 0,
        }),
{
    let mut total: u64 = 0;
    let mut index: usize = 0;
    assert(durations@.take(0) =~= Seq::empty());
    while index < durations.len()
        invariant
            index <= durations@.len(),
            total_of(durations@) <= u64::MAX,
            total == total_of(durations@.take(index as int)),
        decreases durations@.len() - index,
    {
        proof {
            lemma_total_grows(durations@, index + 1);
            assert(durations@.take(index + 1).drop_last() =~= durations@.take(index as int));
        }
        total = total + durations[index];
        index = index + 1;
    }
    assert(durations@.take(index as int) =~= durations@);
    Header {
        count: durations.len(),
        duration: if total == 0 {
            None
        } else {
            Some(total)
        },
        clear_disabled: durations.len() == 0,
    }
}

/// What the page does when something happens to a row. How the table is arranged is not kept.
pub fn table_action(event: TableEvent) -> (action: Option<TableAction>)
    ensures
        action == (match event {
            TableEvent::DoubleClicked(row) => Some(TableAction::Play(row)),
            TableEvent::Activated(row) => Some(TableAction::PlayOrToggle(row)),
            TableEvent::Removed => Some(TableAction::Drop),
            TableEvent::Arranged => None,
        }),
{
    match event {
        TableEvent::DoubleClicked(row) => Some(TableAction::Play(row)),
        TableEvent::Activated(row) => Some(TableAction::PlayOrToggle(row)),
        TableEvent::Removed => Some(TableAction::Drop),
        TableEvent::Arranged => None,
    }
}

/// The page, which asks before it clears the history.
#[derive(Clone, Copy, Debug, PartialEq, Eq, Structural)]
pub struct HistoryView {
    /// The page asks.
    pub clearing: bool,
}

impl HistoryView {
    /// A page that asks nothing.
    pub fn new() -> (view: Self)
        ensures
            !view.clearing,
    {
        HistoryView { clearing: false }
    }

    /// The button that clears the history is pressed.
    pub fn ask(&mut self)
        ensures
            final(self).clearing,
    {
        self.clearing = true;
    }

    /// The question is answered or put away. The answer is whether the history is cleared.
    pub fn dismiss(&mut self, confirmed: bool) -> (clears: bool)
        ensures
            !final(self).clearing,
            clears == (confirmed && old(self).clearing),
    {
        let clears = confirmed && self.clearing;
        self.clearing = false;
        clears
    }
}

/// The page says that the history did not load exactly when it failed to, that nothing matches
/// exactly when a filter leaves nothing, and that it is empty exactly when there is nothing.
pub proof fn the_page_says_why_it_is_empty(state: HistoryState, rows: nat, filtering: bool)
    ensures
        state is Failed ==> note_of(state, rows, filtering) == Some("history-not-loaded"),
        state is Loading ==> note_of(state, rows, filtering) is None,
        state is Ready && rows > 0 ==> note_of(state, rows, filtering) is None,
        state is Ready && rows == 0 && filtering ==> note_of(state, rows, filtering) == Some(
            "library-no-matches",
        ),
        state is Ready && rows == 0 && !filtering ==> note_of(state, rows, filtering) == Some(
            "history-empty",
        ),
{
}

/// The whole duration is that of every track together.
pub proof fn every_duration_counts(durations: Seq<u64>, more: Seq<u64>)
    ensures
        total_of(durations + more) == total_of(durations) + total_of(more),
        more.len() == 1 ==> total_of(more) == more[0],
        total_of(Seq::empty()) == 0,
    decreases more.len(),
{
    if more.len() == 0 {
        assert(durations + more =~= durations);
    } else {
        every_duration_counts(durations, more.drop_last());
        assert((durations + more).drop_last() =~= durations + more.drop_last());
        if more.len() == 1 {
            assert(more.drop_last() =~= Seq::empty());
            assert(total_of(more.drop_last()) == 0);
        }
    }
}

/// A row that is clicked twice is played, one that is activated is played or stopped, the
/// selection that is removed is dropped, and arranging the table does nothing more.
pub proof fn a_row_is_played_or_dropped(event: TableEvent, action: Option<TableAction>)
    requires
        call_ensures(table_action, (event,), action),
    ensures
        event matches TableEvent::DoubleClicked(row) ==> (action matches Some(TableAction::Play(
            played,
        )) && played == row),
        event matches TableEvent::Activated(row) ==> (action matches Some(
            TableAction::PlayOrToggle(played),
        ) && played == row),
        event is Removed ==> action matches Some(TableAction::Drop),
        event is Arranged ==> action is None,
{
}

/// The history is cleared exactly when that was asked for and confirmed, and the question goes
/// away either way.
pub proof fn clearing_takes_a_confirmation(view: &mut HistoryView, confirmed: bool, clears: bool)
    requires
        call_ensures(HistoryView::dismiss, (view, confirmed), clears),
    ensures
        !final(view).clearing,
        clears ==> confirmed,
        clears ==> old(view).clearing,
        confirmed && old(view).clearing ==> clears,
{
}

/// The head of the page counts the tracks and says how long they take, unless they take no time;
/// what is empty cannot be cleared.
pub proof fn the_head_counts_the_tracks(durations: Vec<u64>, head: Header)
    requires
        call_ensures(header, (&durations,), head),
        total_of(durations@) <= u64::MAX,
    ensures
        head.count == durations@.len(),
        head.clear_disabled <==> durations@.len() == 0,
        total_of(durations@) > 0 ==> head.duration == Some(total_of(durations@) as u64),
        total_of(durations@) == 0 ==> head.duration is None,
{
    assert(durations.len() == durations@.len());
}

} // verus!
