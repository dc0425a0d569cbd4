//! What moves on the stage around the artwork, as far as it is counted in whole numbers.

use vstd::prelude::*;

use super::transport::PlaybackState;

verus! {

/// How many frames the loop may run on without the view having been drawn.
pub const GRACE: u32 = 3;

/// The frames the stage's own motion needs. Drawing the view refreshes the allowance, so that
/// while the stage is on screen the loop never runs dry; once the view stops asking, it winds
/// down on its own.
#[derive(Clone, Copy, Debug, PartialEq, Eq, Structural)]
pub struct Drive {
    /// A loop is running.
    pub armed: bool,
    /// The frames it may still run on.
    pub beats: u32,
}

/// The drive once the view was drawn, and whether a loop starts.
pub open spec fn ran(drive: Drive, live: bool) -> (Drive, bool) {
    let beats = if live {
        GRACE
    } else {
        0
    };
    (Drive { armed: drive.armed || live, beats }, live && !drive.armed)
}

/// The drive once a frame came, and whether the view is drawn again and the loop goes on.
pub open spec fn stepped(drive: Drive) -> (Drive, bool) {
    if drive.beats == 0 {
        (Drive { armed: false, beats: 0 }, false)
    } else {
        (Drive { armed: drive.armed, beats: (drive.beats - 1) as u32 }, true)
    }
}

impl Default for Drive {
    fn default() -> (drive: Self)
        ensures
            drive == (Drive { armed: false, beats: 0 }),
    {
        Drive { armed: false, beats: 0 }
    }
}

impl Drive {
    /// The view is drawn, with something on the stage that moves or nothing. The answer is whether
    /// a loop starts.
    pub fn run(&mut self, live: bool) -> (starts: bool)
        ensures
            (*final(self), starts) == ran(*old(self), live),
    {
        self.beats = if live {
            GRACE
        } else {
            0
        };
        if !live || self.armed {
            return false;
        }
        self.armed = true;
        true
    }

    /// A frame came. The answer is whether the view is drawn again and the loop goes on.
    pub fn step(&mut self) -> (goes_on: bool)
        ensures
            (*final(self), goes_on) == stepped(*old(self)),
    {
        if self.beats == 0 {
            self.armed = false;
            return false;
        }
        self.beats = self.beats - 1;
        true
    }
}

/// So many frames one after the other, with the view never drawn between them.
pub open spec fn stepped_times(drive: Drive, frames: nat) -> Drive
    decreases frames,
{
    if frames == 0 {
        drive
    } else {
        stepped(stepped_times(drive, (frames - 1) as nat)).0
    }
}

/// There is only ever one loop: a second one starts only after the first one ended.
pub proof fn one_loop_at_most(drive: Drive, live: bool, again: bool)
    ensures
        ran(drive, live).1 ==> !drive.armed && ran(drive, live).0.armed,
        ran(drive, live).1 ==> !ran(ran(drive, live).0, again).1,
        drive.armed ==> !ran(drive, live).1,
{
}

/// What is left after some frames that nobody drew the view in.
proof fn lemma_frames(drive: Drive, frames: nat)
    requires
        frames <= drive.beats,
    ensures
        stepped_times(drive, frames) == (Drive {
            armed: drive.armed,
            beats: (drive.beats - frames) as u32,
        }),
    decreases frames,
{
    if frames > 0 {
        lemma_frames(drive, (frames - 1) as nat);
    }
}

/// A loop that nobody refreshes ends: after as many frames as are left of the allowance it still
/// ran, and with one more it is over. Where nothing moves any more the next frame ends it.
pub proof fn a_loop_winds_down(drive: Drive)
    requires
        drive.armed,
    ensures
        stepped_times(drive, drive.beats as nat).armed,
        !stepped_times(drive, (drive.beats + 1) as nat).armed,
        !stepped(ran(drive, false).0).0.armed,
{
    lemma_frames(drive, drive.beats as nat);
}

/// A fixed scattering of a seed over the whole numbers below two to the twenty-fourth: the usual
/// integer mixing, of which only that it is even and repeatable matters.
pub open spec fn scattered(seed: u32) -> u32 {
    let mixed = seed.wrapping_mul(0x9E37_79B9).wrapping_add(0x85EB_CA6B);
    let mixed = mixed ^ (mixed >> 13);
    let mixed = mixed.wrapping_mul(0xC2B2_AE35);
    let mixed = mixed ^ (mixed >> 16);
    mixed >> 8
}

/// A fixed scattering of a seed over the whole numbers below two to the twenty-fourth.
pub fn scatter(seed: u32) -> (place: u32)
    ensures
        place == scattered(seed),
        place < 0x100_0000,
{
    let mut mixed: u32 = seed.wrapping_mul(0x9E37_79B9).wrapping_add(0x85EB_CA6B);
    mixed = mixed ^ (mixed >> 13);
    mixed = mixed.wrapping_mul(0xC2B2_AE35);
    mixed = mixed ^ (mixed >> 16);
    assert((mixed >> 8) < 0x100_0000u32) by (bit_vector);
    mixed >> 8
}

/// The band that a bar of the ring shows: the bands go round the rim once, and once more mirrored.
pub open spec fn band_of(post: int, bands: int) -> int {
    if post < bands {
        post
    } else {
        2 * bands - 1 - post
    }
}

/// The band that a bar of the ring shows.
pub fn post_band(post: usize, bands: usize) -> (band: usize)
    requires
        post < 2 * bands,
    ensures
        band == band_of(post as int, bands as int),
        band < bands,
{
    if post < bands {
        post
    } else {
        bands - 1 - (post - bands)
    }
}

/// The ring is symmetric: a bar and its mirror image show the same band, and every band is shown
/// by exactly such a pair.
pub proof fn the_ring_is_mirrored(post: int, other: int, bands: int)
    requires
        0 <= post < 2 * bands,
        0 <= other < 2 * bands,
    ensures
        0 <= band_of(post, bands) < bands,
        band_of(2 * bands - 1 - post, bands) == band_of(post, bands),
        band_of(other, bands) == band_of(post, bands) ==> other == post || other == 2 * bands - 1
            - post,
{
}

/// The points around one of a closed curve: the one behind it, the next, and the one after that.
pub fn around(index: usize, count: usize) -> (points: (usize, usize, usize))
    requires
        index < count,
        2 <= count <= usize::MAX / 2,
    ensures
        points.0 == (index + count - 1) % count as int,
        points.1 == (index + 1) % count as int,
        points.2 == (index + 2) % count as int,
{
    ((index + count - 1) % count, (index + 1) % count, (index + 2) % count)
}

/// What the glow around the artwork does.
#[derive(Clone, Copy, Debug, PartialEq, Eq, Structural)]
pub struct GlowShown {
    /// It follows the sound; otherwise it follows silence.
    pub follows: bool,
    /// It asks for another frame.
    pub frames: bool,
    pub drawn: bool,
}

/// What the glow around the artwork does. It is off unless the settings ask for a visualizer and
/// things may move; it fades out once the music stops, and asks for frames until it has.
pub fn frame_glow(
    visualizer: bool,
    animates: bool,
    state: PlaybackState,
    bright: bool,
) -> (shown: GlowShown)
    ensures
        shown == ({
            let playing = state == PlaybackState::Playing;
            GlowShown {
                follows: visualizer && animates && playing,
                frames: visualizer && animates && (playing || bright),
                drawn: visualizer && animates && bright,
            }
        }),
{
    let playing = state.plays();
    let allowed = visualizer && animates;
    GlowShown {
        follows: allowed && playing,
        frames: allowed && (playing || bright),
        drawn: allowed && bright,
    }
}

/// A loop is started exactly when there is something to draw and none runs, and it keeps going
/// for three more frames once that is gone.
pub proof fn a_loop_starts_when_it_is_needed(drive: Drive, live: bool)
    ensures
        ran(drive, live).1 <==> live && !drive.armed,
        live ==> ran(drive, live).0.armed && ran(drive, live).0.beats == 3,
        !live ==> ran(drive, live).0.armed == drive.armed && ran(drive, live).0.beats == 0,
        stepped(drive).1 <==> drive.beats > 0,
        drive.beats > 0 ==> stepped(drive).0.beats == drive.beats - 1 && stepped(drive).0.armed
            == drive.armed,
        drive.beats == 0 ==> !stepped(drive).0.armed && stepped(drive).0.beats == 0,
{
}

/// Going round the ring, the bands rise from the lowest to the highest and fall back again.
pub proof fn the_ring_rises_and_falls(post: int, bands: int)
    requires
        0 <= post < 2 * bands - 1,
    ensures
        band_of(0, bands) == 0,
        post + 1 < bands ==> band_of(post + 1, bands) == band_of(post, bands) + 1,
        post + 1 == bands ==> band_of(post + 1, bands) == band_of(post, bands),
        post + 1 > bands ==> band_of(post + 1, bands) == band_of(post, bands) - 1,
{
}

/// The neighbours of a point in a ring: the one in front of it and the two behind it, going on at
/// the other end.
pub proof fn a_ring_goes_on_at_the_other_end(
    index: usize,
    count: usize,
    points: (usize, usize, usize),
)
    requires
        call_ensures(around, (index, count), points),
        index < count,
        2 <= count <= usize::MAX / 2,
    ensures
        index > 0 ==> points.0 == index - 1,
        index == 0 ==> points.0 == count - 1,
        index + 1 < count ==> points.1 == index + 1,
        index + 1 == count ==> points.1 == 0,
        index + 2 < count ==> points.2 == index + 2,
        index + 2 == count ==> points.2 == 0,
        index + 1 == count ==> points.2 == 1,
{
    let size = count as int;
    let place = index as int;
    lemma_wraps(place - 1, size);
    lemma_wraps(place + 1, size);
    lemma_wraps(place + 2, size);
    assert(place + size - 1 == place - 1 + size);
    assert((place - 1 + size) % size == (place - 1) % size) by (nonlinear_arith)
        requires
            size >= 2,
    ;
}

/// A number taken once round: it stays where it is inside, and lands at the other end outside.
proof fn lemma_wraps(number: int, size: int)
    requires
        2 <= size,
        -1 <= number < 2 * size,
    ensures
        0 <= number < size ==> number % size == number,
        size <= number ==> number % size == number - size,
        number < 0 ==> number % size == number + size,
{
    if number >= size {
        assert(number % size == number - size) by (nonlinear_arith)
            requires
                size <= number < 2 * size,
        ;
    } else if number >= 0 {
        assert(number % size == number) by (nonlinear_arith)
            requires
                0 <= number < size,
        ;
    } else {
        assert(number % size == number + size) by (nonlinear_arith)
            requires
                -size <= number < 0,
        ;
    }
}

/// The glow follows the music only while it plays, and is drawn only while it is bright; without
/// the visualizer or without motion there is none.
pub proof fn the_glow_follows_the_music(
    visualizer: bool,
    animates: bool,
    state: PlaybackState,
    bright: bool,
    shown: GlowShown,
)
    requires
        call_ensures(frame_glow, (visualizer, animates, state, bright), shown),
    ensures
        !visualizer || !animates ==> !shown.follows && !shown.frames && !shown.drawn,
        visualizer && animates ==> {
            &&& shown.follows <==> state is Playing
            &&& shown.drawn <==> bright
            &&& shown.frames <==> shown.follows || shown.drawn
        },
{
}

} // verus!
