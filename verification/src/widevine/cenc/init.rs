//! The init segment: where it ends, which sample entries are encrypted, and how to relabel them.

use vstd::prelude::*;

use super::boxes::{
    box_at, child, child_of, descendant, descendant_of, field32, or_else, read, same_kind,
    u32_below, Bx, Header,
};

verus! {


/// The Widevine sample entry this relabels, and the AAC one it relabels it to.
pub const ENCA: [u8; 4] = [0x65, 0x6e, 0x63, 0x61];

pub const MP4A: [u8; 4] = [0x6d, 0x70, 0x34, 0x61];

/// The kinds of the boxes the init segment is read from.
pub const MOOV: [u8; 4] = [0x6d, 0x6f, 0x6f, 0x76];

pub const TRAK: [u8; 4] = [0x74, 0x72, 0x61, 0x6b];

pub const TKHD: [u8; 4] = [0x74, 0x6b, 0x68, 0x64];

pub const MDIA: [u8; 4] = [0x6d, 0x64, 0x69, 0x61];

pub const MDHD: [u8; 4] = [0x6d, 0x64, 0x68, 0x64];

pub const STSD: [u8; 4] = [0x73, 0x74, 0x73, 0x64];

pub const SINF: [u8; 4] = [0x73, 0x69, 0x6e, 0x66];

pub const SCHI: [u8; 4] = [0x73, 0x63, 0x68, 0x69];

pub const TENC: [u8; 4] = [0x74, 0x65, 0x6e, 0x63];

/// What the init segment says about one encrypted track.
#[derive(Clone, Copy, Debug, PartialEq, Eq, Structural)]
pub struct Encrypted {
    pub track: u32,
    /// The per-sample IV size `tenc` declares. `senc` is read against it first and against the
    /// other sizes in use if that does not account for the box exactly.
    pub iv_size: u8,
}

/// The init segment: where it ends, which sample entries claim encryption, and what each
/// encrypted track needs.
#[derive(Clone, Debug, PartialEq, Eq)]
pub struct Init {
    /// One past the last byte of `moov`, which is where the first fragment starts.
    pub end: usize,
    /// Offsets of the `enca` boxes, so they can be relabelled `mp4a` once the samples under
    /// them are cleartext.
    pub entries: Vec<usize>,
    pub tracks: Vec<Encrypted>,
    /// Ticks per second of the media timeline, from `mdhd`. Every fragment's decode time is in
    /// these, so without it a position cannot be turned into a place in the file.
    pub timescale: u32,
}

/// The init segment as mathematics.
#[verifier::ext_equal]
pub struct InitModel {
    pub end: int,
    pub entries: Seq<int>,
    pub tracks: Seq<Encrypted>,
    pub timescale: u32,
}

impl View for Init {
    type V = InitModel;

    open spec fn view(&self) -> InitModel {
        InitModel {
            end: self.end as int,
            entries: self.entries@.map_values(|at: usize| at as int),
            tracks: self.tracks@,
            timescale: self.timescale,
        }
    }
}

impl Default for Init {
    fn default() -> (init: Self)
        ensures
            init@ == (InitModel {
                end: 0,
                entries: Seq::empty(),
                tracks: Seq::empty(),
                timescale: 0,
            }),
    {
        let init = Init { end: 0, entries: Vec::new(), tracks: Vec::new(), timescale: 0 };
        assert(init@.entries =~= Seq::empty());
        init
    }
}

/// The first `moov` among the boxes from `at` on, or nothing when a header in front of it is not
/// whole.
pub open spec fn moov_from(data: Seq<u8>, at: int) -> Option<Header>
    decreases data.len() - at,
{
    match box_at(data, at) {
        None => None,
        Some(bx) => if bx.kind == MOOV@ {
            Some(bx)
        } else {
            moov_from(data, bx.end)
        },
    }
}

/// The number a `tkhd` or an `mdhd` carries behind its times, which take eight bytes in version
/// zero and sixteen in every other.
pub open spec fn behind_times(data: Seq<u8>, bx: Header) -> Option<u32> {
    let lead: int = if data[bx.body] == 0 {
        12
    } else {
        20
    };
    u32_below(data, bx.body + lead, bx.end)
}

/// The track id of the `trak` whose body this is.
pub open spec fn track_id_of(data: Seq<u8>, body: int, end: int) -> Option<u32> {
    match child_of(data, body, end, TKHD@) {
        Some(tkhd) => behind_times(data, tkhd),
        None => None,
    }
}

/// The media timescale of the `trak` whose body this is. Zero ticks a second is no timescale.
pub open spec fn timescale_of(data: Seq<u8>, body: int, end: int) -> Option<u32> {
    match child_of(data, body, end, MDIA@) {
        Some(mdia) => match child_of(data, mdia.body, mdia.end, MDHD@) {
            Some(mdhd) => match behind_times(data, mdhd) {
                Some(ticks) => if ticks > 0 {
                    Some(ticks)
                } else {
                    None
                },
                None => None,
            },
            None => None,
        },
        None => None,
    }
}

/// The default IV size in the `sinf/schi/tenc` below: the eighth byte of the `tenc` body.
pub open spec fn iv_size_of(data: Seq<u8>, body: int, end: int) -> Option<u8> {
    match child_of(data, body, end, SINF@) {
        Some(sinf) => match child_of(data, sinf.body, sinf.end, SCHI@) {
            Some(schi) => match child_of(data, schi.body, schi.end, TENC@) {
                Some(tenc) => if tenc.body + 8 <= tenc.end {
                    Some(data[tenc.body + 7])
                } else {
                    None
                },
                None => None,
            },
            None => None,
        },
        None => None,
    }
}

/// The encrypted sample entries among the boxes from `at` on, each with where it starts. An
/// audio sample entry carries 28 bytes of its own before its children, and one that does not
/// name an IV size uses sixteen bytes.
pub open spec fn encas_from(data: Seq<u8>, at: int, end: int, track: u32) -> Seq<(int, Encrypted)>
    decreases end - at,
{
    match box_at(data, at) {
        Some(bx) => if bx.end > end {
            Seq::empty()
        } else if bx.kind == ENCA@ {
            seq![
                (
                    at,
                    Encrypted {
                        track,
                        iv_size: or_else(iv_size_of(data, bx.body + 28, bx.end), 16u8),
                    },
                ),
            ] + encas_from(data, bx.end, end, track)
        } else {
            encas_from(data, bx.end, end, track)
        },
        None => Seq::empty(),
    }
}

/// The encrypted sample entries of one `trak`: those of the first `stsd` anywhere inside it,
/// which start behind its version, its flags and its entry count.
pub open spec fn encas_of(data: Seq<u8>, trak: Header) -> Seq<(int, Encrypted)> {
    match descendant_of(data, trak.body, trak.end, STSD@) {
        Some(stsd) => encas_from(
            data,
            stsd.body + 8,
            stsd.end,
            or_else(track_id_of(data, trak.body, trak.end), 0u32),
        ),
        None => Seq::empty(),
    }
}

/// The encrypted sample entries of every `trak` among the boxes from `at` on, in order.
pub open spec fn trak_encas(data: Seq<u8>, at: int, end: int) -> Seq<(int, Encrypted)>
    decreases end - at,
{
    match box_at(data, at) {
        Some(bx) => if bx.end > end {
            Seq::empty()
        } else if bx.kind == TRAK@ {
            encas_of(data, bx) + trak_encas(data, bx.end, end)
        } else {
            trak_encas(data, bx.end, end)
        },
        None => Seq::empty(),
    }
}

/// The timescale of the last `trak` from `at` on that names one, or `known` when none does.
pub open spec fn trak_timescale(data: Seq<u8>, at: int, end: int, known: u32) -> u32
    decreases end - at,
{
    match box_at(data, at) {
        Some(bx) => if bx.end > end {
            known
        } else if bx.kind == TRAK@ {
            trak_timescale(
                data,
                bx.end,
                end,
                or_else(timescale_of(data, bx.body, bx.end), known),
            )
        } else {
            trak_timescale(data, bx.end, end, known)
        },
        None => known,
    }
}

/// Where each of the entries starts.
pub open spec fn starts(encas: Seq<(int, Encrypted)>) -> Seq<int> {
    encas.map_values(|one: (int, Encrypted)| one.0)
}

/// What the track of each of the entries needs.
pub open spec fn needs(encas: Seq<(int, Encrypted)>) -> Seq<Encrypted> {
    encas.map_values(|one: (int, Encrypted)| one.1)
}

/// What the init segment at the front of the data says, once its `moov` is there whole.
pub open spec fn init_of(data: Seq<u8>) -> Option<InitModel> {
    match moov_from(data, 0) {
        None => None,
        Some(moov) => {
            let encas = trak_encas(data, moov.body, moov.end);
            Some(
                InitModel {
                    end: moov.end,
                    entries: starts(encas),
                    tracks: needs(encas),
                    timescale: trak_timescale(data, moov.body, moov.end, 0),
                },
            )
        },
    }
}

/// An init segment that may not be there, as mathematics.
pub open spec fn seen_init(found: Option<Init>) -> Option<InitModel> {
    match found {
        Some(init) => Some(init@),
        None => None,
    }
}

/// The number a `tkhd` or an `mdhd` carries behind its times.
fn read_behind_times(data: &[u8], bx: &Bx) -> (out: Option<u32>)
    requires
        bx.body <= bx.end <= data@.len(),
    ensures
        out == behind_times(data@, bx@),
{
    if bx.body >= data.len() {
        return None;
    }
    let lead: usize = if data[bx.body] == 0 {
        12
    } else {
        20
    };
    if bx.end - bx.body < lead {
        return None;
    }
    field32(data, bx.body + lead, bx.end)
}

/// The track id out of `tkhd`, whose layout depends on its own version byte.
pub fn track_id(data: &[u8], body: usize, end: usize) -> (id: Option<u32>)
    ensures
        id == track_id_of(data@, body as int, end as int),
{
    match child(data, body, end, &TKHD) {
        Some(tkhd) => read_behind_times(data, &tkhd),
        None => None,
    }
}

/// The media timescale, from `mdia/mdhd`, whose layout depends on its own version byte.
pub fn timescale(data: &[u8], body: usize, end: usize) -> (ticks: Option<u32>)
    ensures
        ticks == timescale_of(data@, body as int, end as int),
{
    let mdia = match child(data, body, end, &MDIA) {
        Some(mdia) => mdia,
        None => {
            return None;
        },
    };
    let mdhd = match child(data, mdia.body, mdia.end, &MDHD) {
        Some(mdhd) => mdhd,
        None => {
            return None;
        },
    };
    match read_behind_times(data, &mdhd) {
        Some(ticks) => if ticks > 0 {
            Some(ticks)
        } else {
            None
        },
        None => None,
    }
}

/// The default per-sample IV size, from `sinf/schi/tenc`.
pub fn iv_size(data: &[u8], body: usize, end: usize) -> (size: Option<u8>)
    ensures
        size == iv_size_of(data@, body as int, end as int),
{
    let sinf = match child(data, body, end, &SINF) {
        Some(sinf) => sinf,
        None => {
            return None;
        },
    };
    let schi = match child(data, sinf.body, sinf.end, &SCHI) {
        Some(schi) => schi,
        None => {
            return None;
        },
    };
    let tenc = match child(data, schi.body, schi.end, &TENC) {
        Some(tenc) => tenc,
        None => {
            return None;
        },
    };
    // tenc body: version and flags, a reserved byte, default_isProtected, then the IV size.
    if tenc.end - tenc.body >= 8 {
        Some(data[tenc.body + 7])
    } else {
        None
    }
}

/// Adds the encrypted sample entries of one `trak` to what the init segment says.
fn read_trak(data: &[u8], trak: &Bx, init: &mut Init)
    requires
        trak.body <= trak.end <= data@.len(),
    ensures
        final(init)@.entries == old(init)@.entries + starts(encas_of(data@, trak@)),
        final(init)@.tracks == old(init)@.tracks + needs(encas_of(data@, trak@)),
        final(init).timescale == or_else(
            timescale_of(data@, trak.body as int, trak.end as int),
            old(init).timescale,
        ),
        final(init).end == old(init).end,
{
    let track: u32 = match track_id(data, trak.body, trak.end) {
        Some(track) => track,
        None => 0,
    };
    if let Some(ticks) = timescale(data, trak.body, trak.end) {
        init.timescale = ticks;
    }
    let stsd = match descendant(data, trak.body, trak.end, &STSD) {
        Some(stsd) => stsd,
        None => {
            assert(init@.entries =~= old(init)@.entries + starts(encas_of(data@, trak@)));
            assert(init@.tracks =~= old(init)@.tracks + needs(encas_of(data@, trak@)));
            return ;
        },
    };
    // stsd body: version and flags, an entry count, then the sample entries.
    if stsd.end - stsd.body < 8 {
        assert(init@.entries =~= old(init)@.entries + starts(encas_of(data@, trak@)));
        assert(init@.tracks =~= old(init)@.tracks + needs(encas_of(data@, trak@)));
        return ;
    }
    let ghost all = encas_of(data@, trak@);
    let ghost mut done: Seq<(int, Encrypted)> = Seq::empty();
    let mut at: usize = stsd.body + 8;
    proof {
        assert(done + encas_from(data@, at as int, stsd.end as int, track) =~= all);
        assert(init@.entries =~= old(init)@.entries + starts(done));
        assert(init@.tracks =~= old(init)@.tracks + needs(done));
    }
    let ghost held = init.timescale;
    loop
        invariant
            stsd.end <= data@.len(),
            done + encas_from(data@, at as int, stsd.end as int, track) == all,
            init@.entries == old(init)@.entries + starts(done),
            init@.tracks == old(init)@.tracks + needs(done),
            init.timescale == held,
            init.end == old(init).end,
        ensures
            done == all,
        decreases data@.len() - at,
    {
        let entry = match read(data, at) {
            Some(entry) => entry,
            None => {
                assert(done =~= all);
                break;
            },
        };
        if entry.end > stsd.end {
            assert(done =~= all);
            break;
        }
        if same_kind(&entry.kind, &ENCA) {
            // An audio sample entry carries 28 bytes of its own before its children.
            let size: u8 = if entry.end - entry.body < 28 {
                assert(box_at(data@, entry.body + 28) matches Some(bx) ==> bx.end > entry.end);
                16
            } else {
                match iv_size(data, entry.body + 28, entry.end) {
                    Some(size) => size,
                    None => 16,
                }
            };
            let found = Encrypted { track, iv_size: size };
            let ghost rest = encas_from(data@, entry.end as int, stsd.end as int, track);
            let ghost entries = init@.entries;
            init.entries.push(at);
            init.tracks.push(found);
            proof {
                let one = (at as int, found);
                assert(done + (seq![one] + rest) =~= done.push(one) + rest);
                assert(init@.entries =~= entries.push(at as int));
                assert(starts(done.push(one)) =~= starts(done).push(at as int));
                assert(needs(done.push(one)) =~= needs(done).push(found));
                done = done.push(one);
            }
        }
        at = entry.end;
    }
}

/// Reads the init segment out of the front of the file. `None` means `moov` has not arrived
/// whole yet, which is the ordinary answer while the first bytes are still landing.
pub fn read_init(data: &[u8]) -> (found: Option<Init>)
    ensures
        seen_init(found) == init_of(data@),
{
    let mut at: usize = 0;
    let moov: Bx;
    loop
        invariant
            moov_from(data@, at as int) == moov_from(data@, 0),
        ensures
            moov_from(data@, 0) == Some(moov@),
            moov.body <= moov.end <= data@.len(),
        decreases data@.len() - at,
    {
        let bx = match read(data, at) {
            Some(bx) => bx,
            None => {
                return None;
            },
        };
        if same_kind(&bx.kind, &MOOV) {
            moov = bx;
            break;
        }
        at = bx.end;
    }
    let ghost all = trak_encas(data@, moov.body as int, moov.end as int);
    let ghost ticks = trak_timescale(data@, moov.body as int, moov.end as int, 0);
    let ghost mut done: Seq<(int, Encrypted)> = Seq::empty();
    let mut init = Init { end: moov.end, entries: Vec::new(), tracks: Vec::new(), timescale: 0 };
    let mut at: usize = moov.body;
    proof {
        assert(done + all =~= all);
        assert(init@.entries =~= starts(done));
        assert(init@.tracks =~= needs(done));
    }
    loop
        invariant
            moov.end <= data@.len(),
            done + trak_encas(data@, at as int, moov.end as int) == all,
            init@.entries == starts(done),
            init@.tracks == needs(done),
            init.end == moov.end,
            trak_timescale(data@, at as int, moov.end as int, init.timescale) == ticks,
        ensures
            done == all,
            init.timescale == ticks,
        decreases data@.len() - at,
    {
        let bx = match read(data, at) {
            Some(bx) => bx,
            None => {
                assert(done =~= all);
                break;
            },
        };
        if bx.end > moov.end {
            assert(done =~= all);
            break;
        }
        if same_kind(&bx.kind, &TRAK) {
            let ghost rest = trak_encas(data@, bx.end as int, moov.end as int);
            let ghost own = encas_of(data@, bx@);
            read_trak(data, &bx, &mut init);
            proof {
                assert(done + (own + rest) =~= (done + own) + rest);
                assert(starts(done + own) =~= starts(done)
                    + starts(own));
                assert(needs(done + own) =~= needs(done)
                    + needs(own));
                done = done + own;
            }
        }
        at = bx.end;
    }
    Some(init)
}

/// The data with the four characters of one sample entry's kind replaced, when it holds them.
pub open spec fn relabelled_one(data: Seq<u8>, at: int) -> Seq<u8> {
    if at + 8 <= data.len() {
        Seq::new(
            data.len(),
            |i: int|
                if at + 4 <= i < at + 8 {
                    MP4A@[i - at - 4]
                } else {
                    data[i]
                },
        )
    } else {
        data
    }
}

/// The data with each of the sample entries relabelled in turn.
pub open spec fn relabelled(data: Seq<u8>, entries: Seq<int>) -> Seq<u8>
    decreases entries.len(),
{
    if entries.len() == 0 {
        data
    } else {
        relabelled_one(relabelled(data, entries.drop_last()), entries.last())
    }
}

/// Relabels every `enca` sample entry as `mp4a`, so a decoder reads the now cleartext track as
/// plain AAC. Only the four-byte kind changes, so every offset in the file survives.
pub fn unlock(buf: &mut [u8], init: &Init)
    ensures
        final(buf)@ == relabelled(old(buf)@, init@.entries),
        final(buf)@.len() == old(buf)@.len(),
{
    let mut index: usize = 0;
    proof {
        assert(init@.entries.take(0) =~= Seq::empty());
    }
    while index < init.entries.len()
        invariant
            index <= init.entries@.len(),
            buf@ == relabelled(old(buf)@, init@.entries.take(index as int)),
            buf@.len() == old(buf)@.len(),
        decreases init.entries@.len() - index,
    {
        let at = init.entries[index];
        let ghost before = buf@;
        if buf.len() >= 8 && at <= buf.len() - 8 {
            buf[at + 4] = MP4A[0];
            buf[at + 5] = MP4A[1];
            buf[at + 6] = MP4A[2];
            buf[at + 7] = MP4A[3];
        }
        proof {
            assert(buf@ =~= relabelled_one(before, at as int));
            assert(init@.entries.take(index + 1).drop_last() =~= init@.entries.take(index as int));
            assert(init@.entries.take(index + 1).last() == at as int);
        }
        index = index + 1;
    }
    proof {
        assert(init@.entries.take(index as int) =~= init@.entries);
    }
}

} // verus!
