//! The dial that arms the sleep timer: off at the left, end of track at the right, minutes in
//! between, with the quarter hours of the first hour widened so that they are easy to hit.

use vstd::prelude::*;

verus! {

/// The longest the timer runs, in minutes.
pub const SLEEP_MAX_MINUTES: u64 = 120;

/// The minutes that are widened.
pub const SLEEP_MAGNETS: [u64; 4] = [15, 30, 45, 60];

/// How many slots a widened minute takes.
pub const SLEEP_MAGNET_WEIGHT: usize = 4;

/// The last slot of the dial.
pub const SLEEP_LAST: usize = 120 + 4 * (SLEEP_MAGNET_WEIGHT - 1) + 1;

/// When the timer stops playback: at the end of the track, or after so many seconds.
#[derive(Clone, Copy, Debug, PartialEq, Eq, Structural)]
pub enum Sleep {
    EndOfTrack,
    After(u64),
}

/// What the dial says.
#[derive(Clone, Copy, Debug, PartialEq, Eq)]
pub struct Reading {
    pub key: &'static str,
    pub count: Option<u64>,
}

/// The minute is widened.
pub open spec fn is_magnet(minute: int) -> bool {
    minute == 15 || minute == 30 || minute == 45 || minute == 60
}

/// How many slots a minute takes.
pub open spec fn width_of(minute: int) -> int {
    if is_magnet(minute) {
        SLEEP_MAGNET_WEIGHT as int
    } else {
        1
    }
}

/// The first slot of a minute. The slot before the first minute is for off.
pub open spec fn first_slot(minute: int) -> int
    decreases minute,
{
    if minute <= 1 {
        1
    } else {
        first_slot(minute - 1) + width_of(minute - 1)
    }
}

/// A minute the dial has.
pub open spec fn dialled(minutes: int) -> int {
    if minutes < 1 {
        1
    } else if minutes > SLEEP_MAX_MINUTES {
        SLEEP_MAX_MINUTES as int
    } else {
        minutes
    }
}

/// The slot a minute is shown at: its own, or the one just left of the middle of a widened one.
pub open spec fn slot_of_minute(minutes: int) -> int {
    first_slot(dialled(minutes)) + (width_of(dialled(minutes)) - 1) / 2
}

/// The minute whose slots reach past a slot, looked for from `minute` on, or the last one.
pub open spec fn minute_from(slot: int, minute: int) -> int
    decreases SLEEP_MAX_MINUTES - minute,
{
    if minute >= SLEEP_MAX_MINUTES || slot < first_slot(minute) + width_of(minute) {
        minute
    } else {
        minute_from(slot, minute + 1)
    }
}

/// The minute a slot stands for.
pub open spec fn minute_of_slot(slot: int) -> int {
    minute_from(slot, 1)
}

/// The slot the dial shows for a timer.
pub open spec fn slot_of(sleep: Option<Sleep>) -> int {
    match sleep {
        None => 0,
        Some(Sleep::EndOfTrack) => SLEEP_LAST as int,
        Some(Sleep::After(seconds)) => slot_of_minute(seconds as int / 60),
    }
}

/// The timer a slot of the dial stands for.
pub open spec fn sleep_of(slot: int) -> Option<Sleep> {
    if slot == 0 {
        None
    } else if slot == SLEEP_LAST {
        Some(Sleep::EndOfTrack)
    } else {
        Some(Sleep::After((minute_of_slot(slot) * 60) as u64))
    }
}

/// How many widened minutes come before a minute.
pub open spec fn magnets_before(minute: int) -> int {
    (if 15 < minute {
        1int
    } else {
        0
    }) + (if 30 < minute {
        1int
    } else {
        0
    }) + (if 45 < minute {
        1int
    } else {
        0
    }) + (if 60 < minute {
        1int
    } else {
        0
    })
}

proof fn lemma_first_slot(minute: int)
    requires
        1 <= minute,
    ensures
        first_slot(minute) == minute + 3 * magnets_before(minute),
    decreases minute,
{
    if minute > 1 {
        lemma_first_slot(minute - 1);
    }
}

proof fn lemma_minute_found(slot: int, minute: int, from: int)
    requires
        1 <= from <= minute <= SLEEP_MAX_MINUTES,
        first_slot(minute) <= slot < first_slot(minute) + width_of(minute),
    ensures
        minute_from(slot, from) == minute,
    decreases minute - from,
{
    if from < minute {
        lemma_first_slot(from);
        lemma_first_slot(from + 1);
        lemma_first_slot(minute);
        assert(first_slot(from + 1) <= first_slot(minute));
        lemma_minute_found(slot, minute, from + 1);
    }
}

/// Every minute the dial has is read back from the slot it is shown at, and that slot lies
/// between off and the end of the track.
pub proof fn a_minute_reads_back(minutes: int)
    requires
        1 <= minutes <= SLEEP_MAX_MINUTES,
    ensures
        minute_of_slot(slot_of_minute(minutes)) == minutes,
        0 < slot_of_minute(minutes) < SLEEP_LAST,
{
    lemma_first_slot(minutes);
    lemma_minute_found(slot_of_minute(minutes), minutes, 1);
}

/// A timer of whole minutes that the dial has, the end of the track and no timer at all are each
/// read back from the slot they are shown at.
pub proof fn a_timer_reads_back(sleep: Option<Sleep>)
    requires
        sleep matches Some(Sleep::After(seconds)) ==> seconds % 60 == 0 && 60 <= seconds
            <= SLEEP_MAX_MINUTES * 60,
    ensures
        sleep_of(slot_of(sleep)) == sleep,
{
    if let Some(Sleep::After(seconds)) = sleep {
        a_minute_reads_back(seconds as int / 60);
    }
}

/// Turning the dial to the right never shortens the timer.
pub proof fn later_slots_last_longer(left: int, right: int, from: int)
    requires
        left <= right,
        1 <= from <= SLEEP_MAX_MINUTES,
    ensures
        minute_from(left, from) <= minute_from(right, from),
        from <= minute_from(left, from) <= SLEEP_MAX_MINUTES,
        minute_from(right, from) <= SLEEP_MAX_MINUTES,
    decreases SLEEP_MAX_MINUTES - from,
{
    if from < SLEEP_MAX_MINUTES {
        later_slots_last_longer(left, right, from + 1);
        later_slots_last_longer(left, left, from + 1);
        later_slots_last_longer(right, right, from + 1);
    }
}

/// The slot a minute is shown at.
pub fn minute_slot(minutes: u64) -> (slot: usize)
    ensures
        slot == slot_of_minute(minutes as int),
        0 < slot < SLEEP_LAST,
{
    let minute: u64 = if minutes < 1 {
        1
    } else if minutes > SLEEP_MAX_MINUTES {
        SLEEP_MAX_MINUTES
    } else {
        minutes
    };
    let mut earlier: usize = 0;
    if SLEEP_MAGNETS[0] < minute {
        earlier = earlier + 1;
    }
    if SLEEP_MAGNETS[1] < minute {
        earlier = earlier + 1;
    }
    if SLEEP_MAGNETS[2] < minute {
        earlier = earlier + 1;
    }
    if SLEEP_MAGNETS[3] < minute {
        earlier = earlier + 1;
    }
    let width: usize = if magnet(minute) {
        SLEEP_MAGNET_WEIGHT
    } else {
        1
    };
    proof {
        lemma_first_slot(minute as int);
        a_minute_reads_back(minute as int);
    }
    minute as usize + earlier * (SLEEP_MAGNET_WEIGHT - 1) + (width - 1) / 2
}

/// Whether a minute is widened.
fn magnet(minute: u64) -> (yes: bool)
    ensures
        yes == is_magnet(minute as int),
{
    minute == SLEEP_MAGNETS[0] || minute == SLEEP_MAGNETS[1] || minute == SLEEP_MAGNETS[2] || minute
        == SLEEP_MAGNETS[3]
}

/// The minute a slot stands for.
pub fn slot_minute(slot: usize) -> (minute: u64)
    ensures
        minute == minute_of_slot(slot as int),
        1 <= minute <= SLEEP_MAX_MINUTES,
{
    let mut first: usize = 1;
    let mut minute: u64 = 1;
    while minute < SLEEP_MAX_MINUTES
        invariant
            1 <= minute <= SLEEP_MAX_MINUTES,
            first == first_slot(minute as int),
            first <= 4 * minute,
            minute_from(slot as int, minute as int) == minute_of_slot(slot as int),
        decreases SLEEP_MAX_MINUTES - minute,
    {
        let width: usize = if magnet(minute) {
            SLEEP_MAGNET_WEIGHT
        } else {
            1
        };
        if slot < first + width {
            return minute;
        }
        first = first + width;
        minute = minute + 1;
    }
    SLEEP_MAX_MINUTES
}

/// The slot the dial shows for a timer.
pub fn sleep_slot(sleep: Option<Sleep>) -> (slot: usize)
    ensures
        slot == slot_of(sleep),
        slot <= SLEEP_LAST,
{
    match sleep {
        None => 0,
        Some(Sleep::EndOfTrack) => SLEEP_LAST,
        Some(Sleep::After(seconds)) => minute_slot(seconds / 60),
    }
}

/// The timer a slot of the dial stands for.
pub fn sleep_at_slot(slot: usize) -> (sleep: Option<Sleep>)
    ensures
        sleep == sleep_of(slot as int),
{
    if slot == 0 {
        None
    } else if slot == SLEEP_LAST {
        Some(Sleep::EndOfTrack)
    } else {
        Some(Sleep::After(slot_minute(slot) * 60))
    }
}

/// What the dial says about a timer.
pub fn sleep_label(sleep: Option<Sleep>) -> (reading: Reading)
    ensures
        reading == (match sleep {
            Some(Sleep::EndOfTrack) => Reading { key: "settings-sleep-end-of-track", count: None },
            Some(Sleep::After(seconds)) => Reading {
                key: "settings-sleep-minutes",
                count: Some((seconds / 60) as u64),
            },
            None => Reading { key: "settings-sleep-off", count: None },
        }),
{
    match sleep {
        Some(Sleep::EndOfTrack) => Reading { key: "settings-sleep-end-of-track", count: None },
        Some(Sleep::After(seconds)) => Reading {
            key: "settings-sleep-minutes",
            count: Some(seconds / 60),
        },
        None => Reading { key: "settings-sleep-off", count: None },
    }
}

/// The dial while it is turned: what it is turned to counts for nothing until it is let go.
#[derive(Clone, Copy, Debug, PartialEq, Eq, Structural)]
pub struct Dial {
    pub pending: Option<Option<Sleep>>,
}

impl Dial {
    /// What the dial shows: what it is being turned to, else the timer that runs.
    pub fn current(&self, running: Option<Sleep>) -> (shown: Option<Sleep>)
        ensures
            shown == (match self.pending {
                Some(pending) => pending,
                None => running,
            }),
    {
        match self.pending {
            Some(pending) => pending,
            None => running,
        }
    }

    /// The dial is turned to a slot.
    pub fn turn(&mut self, slot: usize)
        ensures
            final(self).pending == Some(sleep_of(slot as int)),
    {
        self.pending = Some(sleep_at_slot(slot));
    }

    /// The dial is let go, and answers the timer to set. A dial that was not turned sets none.
    pub fn release(&mut self) -> (set: Option<Option<Sleep>>)
        ensures
            set == old(self).pending,
            final(self).pending is None,
    {
        let set = self.pending;
        self.pending = None;
        set
    }
}

/// What switching the timer does when it is on: it is switched off, the dial closes and whatever
/// was armed is disarmed. Switching it on arms nothing.
#[derive(Clone, Copy, Debug, PartialEq, Eq, Structural)]
pub struct Switched {
    pub on: bool,
    pub disarm: bool,
}

/// What the switch of the timer does.
pub fn switch_sleep(on: bool) -> (switched: Switched)
    ensures
        switched == (Switched { on: !on, disarm: on }),
{
    Switched { on: !on, disarm: on }
}

/// The dial has a slot for every minute up to two hours, and four for each quarter of the first
/// hour, so that these are easy to hit. In front of them it is off, and behind them it waits for
/// the end of the track.
pub proof fn a_quarter_is_four_slots_wide(minute: int, slot: int)
    requires
        1 <= minute <= 120,
        ({
            let first = minute + (if minute > 15 {
                3int
            } else {
                0
            }) + (if minute > 30 {
                3int
            } else {
                0
            }) + (if minute > 45 {
                3int
            } else {
                0
            }) + (if minute > 60 {
                3int
            } else {
                0
            });
            first <= slot < first + (if minute == 15 || minute == 30 || minute == 45 || minute == 60 {
                4int
            } else {
                1
            })
        }),
    ensures
        minute_of_slot(slot) == minute,
        sleep_of(slot) == Some(Sleep::After((60 * minute) as u64)),
        sleep_of(0) is None,
        sleep_of(133) == Some(Sleep::EndOfTrack),
        slot_of(None) == 0,
        slot_of(Some(Sleep::EndOfTrack)) == 133,
{
    lemma_first_slot(minute);
    lemma_minute_found(slot, minute, 1);
}

/// A timer shorter than a minute is dialled as one, and one longer than two hours as two hours.
pub proof fn the_dial_has_two_ends(seconds: u64)
    ensures
        seconds < 60 ==> slot_of(Some(Sleep::After(seconds))) == slot_of(Some(Sleep::After(60))),
        seconds > 7200 ==> slot_of(Some(Sleep::After(seconds))) == slot_of(
            Some(Sleep::After(7200)),
        ),
        60 <= seconds < 7200 ==> sleep_of(slot_of(Some(Sleep::After(seconds)))) == Some(
            Sleep::After((seconds / 60 * 60) as u64),
        ),
{
    if 60 <= seconds < 7200 {
        a_minute_reads_back(seconds as int / 60);
    }
}

/// What the dial says of a timer: its whole minutes, that it waits for the track, or that it is
/// off.
pub proof fn the_dial_says_how_long(sleep: Option<Sleep>, reading: Reading)
    requires
        call_ensures(sleep_label, (sleep,), reading),
    ensures
        sleep is None ==> reading.key == "settings-sleep-off" && reading.count is None,
        sleep matches Some(Sleep::EndOfTrack) ==> reading.key == "settings-sleep-end-of-track"
            && reading.count is None,
        sleep matches Some(Sleep::After(seconds)) ==> reading.key == "settings-sleep-minutes"
            && reading.count == Some(seconds / 60),
{
}

/// Switching the timer off disarms it, and switching it on does not.
pub proof fn switching_off_disarms(on: bool, switched: Switched)
    requires
        call_ensures(switch_sleep, (on,), switched),
    ensures
        switched.on != on,
        switched.disarm <==> !switched.on,
{
}

/// What the dial is turned to is shown while it is turned, and set once it is let go of.
pub proof fn the_dial_is_set_when_let_go(
    dial: &mut Dial,
    slot: usize,
    done: (),
    after: &mut Dial,
    set: Option<Option<Sleep>>,
)
    requires
        call_ensures(Dial::turn, (dial, slot), done),
        call_ensures(Dial::release, (after,), set),
        *old(after) == *final(dial),
    ensures
        set == Some(sleep_of(slot as int)),
        final(after).pending is None,
{
}

/// What is pending is shown before what runs.
pub proof fn what_is_dialled_is_shown(dial: Dial, running: Option<Sleep>, shown: Option<Sleep>)
    requires
        call_ensures(Dial::current, (&dial, running), shown),
    ensures
        dial.pending matches Some(pending) ==> shown == pending,
        dial.pending is None ==> shown == running,
{
}

} // verus!
