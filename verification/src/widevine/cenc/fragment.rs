//! One fragment: the position, IV and subsample layout of every encrypted sample in it.

use vstd::prelude::*;

use super::boxes::{
    box_at, child, child_of, field32, field64, or_else, read, same_kind, u32_below, u64_below, Bx,
    Header,
};
use super::init::Encrypted;
use super::laws::a_step_stays_inside;
use crate::bytes::{be16, be32, u16_at, u32_at};

verus! {

/// The kinds of the boxes a fragment is read from.
pub const MOOF: [u8; 4] = [0x6d, 0x6f, 0x6f, 0x66];

pub const MDAT: [u8; 4] = [0x6d, 0x64, 0x61, 0x74];

pub const TRAF: [u8; 4] = [0x74, 0x72, 0x61, 0x66];

pub const TFHD: [u8; 4] = [0x74, 0x66, 0x68, 0x64];

pub const TFDT: [u8; 4] = [0x74, 0x66, 0x64, 0x74];

pub const TRUN: [u8; 4] = [0x74, 0x72, 0x75, 0x6e];

pub const SENC: [u8; 4] = [0x73, 0x65, 0x6e, 0x63];

/// How many samples one fragment may declare. A `trun` claiming more than this is malformed
/// rather than long: at 1024 frames a sample it is already over four hours.
pub const SAMPLE_LIMIT: usize = 0x10_0000;

/// One encrypted sample. Offsets are absolute and identical in ciphertext and cleartext.
#[derive(Clone, Debug, PartialEq, Eq)]
pub struct Sample {
    pub start: usize,
    pub len: usize,
    pub iv: [u8; 16],
    /// `(clear, encrypted)` byte runs. Empty means the whole sample is encrypted, which is what
    /// audio uses.
    pub subs: Vec<(u32, u32)>,
}

/// One encrypted sample as mathematics.
#[verifier::ext_equal]
pub struct SampleModel {
    pub start: int,
    pub len: int,
    pub iv: Seq<u8>,
    pub subs: Seq<(u32, u32)>,
}

impl View for Sample {
    type V = SampleModel;

    open spec fn view(&self) -> SampleModel {
        SampleModel {
            start: self.start as int,
            len: self.len as int,
            iv: self.iv@,
            subs: self.subs@,
        }
    }
}

impl Sample {
    /// One past the last byte of the sample.
    pub fn end(&self) -> (end: usize)
        requires
            self.start + self.len <= usize::MAX,
        ensures
            end == self@.start + self@.len,
    {
        self.start + self.len
    }
}

/// Samples as mathematics.
pub open spec fn seen_samples(samples: Seq<Sample>) -> Seq<SampleModel> {
    samples.map_values(|one: Sample| one@)
}

/// What a walk of one box found.
#[derive(Clone, Debug, PartialEq, Eq)]
pub enum Step {
    /// A `moof`/`mdat` pair, and where the next box starts. `decode` is the fragment's start on
    /// the media timeline, from `tfdt`, which is what makes a position findable in the file.
    Fragment { samples: Vec<Sample>, next: usize, decode: Option<u64> },
    /// A box that is not a fragment, skipped.
    Other { next: usize },
    /// Not all of the box has arrived yet.
    Partial,
}

/// What a walk of one box found, as mathematics.
pub enum StepModel {
    Fragment { samples: Seq<SampleModel>, next: int, decode: Option<u64> },
    Other { next: int },
    Partial,
}

impl View for Step {
    type V = StepModel;

    open spec fn view(&self) -> StepModel {
        match self {
            Step::Fragment { samples, next, decode } => StepModel::Fragment {
                samples: seen_samples(samples@),
                next: *next as int,
                decode: *decode,
            },
            Step::Other { next } => StepModel::Other { next: *next as int },
            Step::Partial => StepModel::Partial,
        }
    }
}

/// Where a fragment starts on the media timeline: four bytes in version zero of `tfdt`, eight in
/// every other, behind the version and the flags.
pub open spec fn decode_time_of(data: Seq<u8>, traf: Header) -> Option<u64> {
    match child_of(data, traf.body, traf.end, TFDT@) {
        Some(tfdt) => if data[tfdt.body] == 0 {
            match u32_below(data, tfdt.body + 4, tfdt.end) {
                Some(ticks) => Some(ticks as u64),
                None => None,
            }
        } else {
            u64_below(data, tfdt.body + 4, tfdt.end)
        },
        None => None,
    }
}

/// Where a fragment starts on the media timeline, from `tfdt`.
pub fn decode_time(data: &[u8], traf: &Bx) -> (ticks: Option<u64>)
    ensures
        ticks == decode_time_of(data@, traf@),
{
    let tfdt = match child(data, traf.body, traf.end, &TFDT) {
        Some(tfdt) => tfdt,
        None => {
            return None;
        },
    };
    if tfdt.end - tfdt.body < 4 {
        return None;
    }
    if data[tfdt.body] == 0 {
        match field32(data, tfdt.body + 4, tfdt.end) {
            Some(ticks) => Some(ticks as u64),
            None => None,
        }
    } else {
        field64(data, tfdt.body + 4, tfdt.end)
    }
}

/// The `tfhd` fields this needs: an explicit data base, and a default sample size for a `trun`
/// that lists none.
#[derive(Clone, Copy, Debug, PartialEq, Eq)]
pub struct Tfhd {
    pub base: Option<u64>,
    pub default_size: Option<u32>,
}

impl Default for Tfhd {
    fn default() -> (tfhd: Self)
        ensures
            tfhd == (Tfhd { base: None, default_size: None }),
    {
        Tfhd { base: None, default_size: None }
    }
}

/// The flags of a box whose body starts with its version and flags: the low three bytes.
pub open spec fn flags_of(data: Seq<u8>, bx: Header) -> Option<u32> {
    match u32_below(data, bx.body, bx.end) {
        Some(word) => Some(word & 0x00ff_ffff),
        None => None,
    }
}

/// How many bytes a field takes that is there only when one of the flags is set.
pub open spec fn width_if(flags: u32, bit: u32, width: int) -> int {
    if flags & bit != 0 {
        width
    } else {
        0
    }
}

/// What a `tfhd` says: behind the track id stand a data base, a description index, a default
/// duration and a default size, each only when its flag is set.
pub open spec fn tfhd_of(data: Seq<u8>, tfhd: Header) -> Tfhd {
    match flags_of(data, tfhd) {
        None => Tfhd { base: None, default_size: None },
        Some(flags) => {
            let at = tfhd.body + 8;
            let size_at = at + width_if(flags, 0x01, 8) + width_if(flags, 0x02, 4) + width_if(
                flags,
                0x08,
                4,
            );
            Tfhd {
                base: if flags & 0x01 != 0 {
                    u64_below(data, at, tfhd.end)
                } else {
                    None
                },
                default_size: if flags & 0x10 != 0 {
                    match u32_below(data, size_at, tfhd.end) {
                        Some(size) => if size > 0 {
                            Some(size)
                        } else {
                            None
                        },
                        None => None,
                    }
                } else {
                    None
                },
            }
        },
    }
}

/// The flags of a box whose body starts with its version and flags.
fn read_flags(data: &[u8], bx: &Bx) -> (flags: Option<u32>)
    ensures
        flags == flags_of(data@, bx@),
{
    match field32(data, bx.body, bx.end) {
        Some(word) => Some(word & 0x00ff_ffff),
        None => None,
    }
}

/// How many bytes a field takes that is there only when one of the flags is set.
fn optional(flags: u32, bit: u32, width: usize) -> (taken: usize)
    ensures
        taken == width_if(flags, bit, width as int),
{
    if flags & bit != 0 {
        width
    } else {
        0
    }
}

/// Reads the fields of a `tfhd`.
pub fn read_tfhd(data: &[u8], tfhd: &Bx) -> (found: Tfhd)
    ensures
        found == tfhd_of(data@, tfhd@),
{
    let flags = match read_flags(data, tfhd) {
        Some(flags) => flags,
        None => {
            return Tfhd { base: None, default_size: None };
        },
    };
    let at: usize = tfhd.body.saturating_add(8);
    let base: Option<u64> = if flags & 0x01 != 0 {
        field64(data, at, tfhd.end)
    } else {
        None
    };
    let size_at: usize = at.saturating_add(optional(flags, 0x01, 8)).saturating_add(
        optional(flags, 0x02, 4),
    ).saturating_add(optional(flags, 0x08, 4));
    let default_size: Option<u32> = if flags & 0x10 != 0 {
        match field32(data, size_at, tfhd.end) {
            Some(size) => if size > 0 {
                Some(size)
            } else {
                None
            },
            None => None,
        }
    } else {
        None
    };
    Tfhd { base, default_size }
}

/// One `trun`: where its samples start relative to the fragment's base, and how long each is.
#[derive(Clone, Debug, PartialEq, Eq)]
pub struct Trun {
    pub offset: i64,
    pub sizes: Vec<u32>,
}

/// One `trun` as mathematics.
#[verifier::ext_equal]
pub struct TrunModel {
    pub offset: int,
    pub sizes: Seq<u32>,
}

impl View for Trun {
    type V = TrunModel;

    open spec fn view(&self) -> TrunModel {
        TrunModel { offset: self.offset as int, sizes: self.sizes@ }
    }
}

/// A `trun` that may not be there, as mathematics.
pub open spec fn seen_trun(found: Option<Trun>) -> Option<TrunModel> {
    match found {
        Some(trun) => Some(trun@),
        None => None,
    }
}

/// The number the same four bytes spell in two's complement.
pub open spec fn signed(word: u32) -> int {
    if word < 0x8000_0000 {
        word as int
    } else {
        word - 0x1_0000_0000
    }
}

/// How many bytes each sample of a run takes: a duration, a size, flags of its own and a
/// composition offset, each only when its flag is set.
pub open spec fn sample_stride(flags: u32) -> int {
    width_if(flags, 0x0100, 4) + width_if(flags, 0x0200, 4) + width_if(flags, 0x0400, 4) + width_if(
        flags,
        0x0800,
        4,
    )
}

/// Where the samples of a run are described: behind the flags, the count, the data offset and
/// the flags of the first sample, the latter two only when their flag is set.
pub open spec fn run_start(body: int, flags: u32) -> int {
    body + 8 + width_if(flags, 0x01, 4) + width_if(flags, 0x04, 4)
}

/// The size of one sample of a run. It stands behind the duration, or is the default when the
/// run lists no sizes.
pub open spec fn size_in_run(data: Seq<u8>, body: int, flags: u32, fallback: u32, i: int) -> u32 {
    if flags & 0x0200 != 0 {
        u32_at(
            data,
            run_start(body, flags) + i * sample_stride(flags) + width_if(flags, 0x0100, 4),
        )->0
    } else {
        fallback
    }
}

/// What a `trun` says, unless it is cut short, declares more samples than a fragment may have,
/// or lists no sizes where there is no default.
pub open spec fn trun_of(data: Seq<u8>, trun: Header, tfhd: Tfhd) -> Option<TrunModel> {
    match (flags_of(data, trun), u32_below(data, trun.body + 4, trun.end)) {
        (Some(flags), Some(count)) => {
            let offset = if flags & 0x01 != 0 {
                u32_below(data, trun.body + 8, trun.end)
            } else {
                Some(0u32)
            };
            if count > SAMPLE_LIMIT || offset is None {
                None
            } else if count > 0 && run_start(trun.body, flags) + count * sample_stride(flags)
                > trun.end {
                None
            } else if count > 0 && flags & 0x0200 == 0 && tfhd.default_size is None {
                None
            } else {
                Some(
                    TrunModel {
                        offset: signed(offset->0),
                        sizes: Seq::new(
                            count as nat,
                            |i: int|
                                size_in_run(data, trun.body, flags, tfhd.default_size->0, i),
                        ),
                    },
                )
            }
        },
        _ => None,
    }
}

/// Reads a `trun`. Nothing is set aside for its samples before the box is known to hold them.
pub fn read_trun(data: &[u8], trun: &Bx, tfhd: &Tfhd) -> (found: Option<Trun>)
    requires
        trun.end <= data@.len(),
    ensures
        seen_trun(found) == trun_of(data@, trun@, *tfhd),
        found matches Some(run) ==> run.sizes@.len() <= SAMPLE_LIMIT && -0x8000_0000 <= run.offset
            < 0x8000_0000,
{
    let flags = match read_flags(data, trun) {
        Some(flags) => flags,
        None => {
            return None;
        },
    };
    let declared = match field32(data, trun.body.saturating_add(4), trun.end) {
        Some(count) => count,
        None => {
            return None;
        },
    };
    let count: usize = declared as usize;
    if count > SAMPLE_LIMIT {
        return None;
    }
    let word: u32 = if flags & 0x01 != 0 {
        match field32(data, trun.body.saturating_add(8), trun.end) {
            Some(word) => word,
            None => {
                return None;
            },
        }
    } else {
        0
    };
    let offset: i64 = if word < 0x8000_0000 {
        word as i64
    } else {
        word as i64 - 0x1_0000_0000
    };

    let lead: usize = optional(flags, 0x0100, 4);
    let stride: usize = lead + optional(flags, 0x0200, 4) + optional(flags, 0x0400, 4) + optional(
        flags,
        0x0800,
        4,
    );
    let header: usize = 8 + optional(flags, 0x01, 4) + optional(flags, 0x04, 4);
    let mut sizes: Vec<u32> = Vec::new();
    if count == 0 {
        proof {
            assert(sizes@ =~= Seq::new(
                0,
                |i: int| size_in_run(data@, trun.body as int, flags, tfhd.default_size->0, i),
            ));
        }
        return Some(Trun { offset, sizes });
    }
    assert(0 <= count * stride <= 0x100_0000) by (nonlinear_arith)
        requires
            0 <= count <= 0x10_0000,
            0 <= stride <= 16,
    ;
    if trun.end - trun.body < header + count * stride {
        return None;
    }
    let first: usize = trun.body + header;
    if flags & 0x0200 == 0 && tfhd.default_size.is_none() {
        return None;
    }
    let ghost fallback: u32 = tfhd.default_size->0;
    let mut index: usize = 0;
    while index < count
        invariant
            index <= count,
            count <= 0x10_0000,
            0 <= stride <= 16,
            first == run_start(trun.body as int, flags),
            stride == sample_stride(flags),
            lead == width_if(flags, 0x0100, 4),
            lead + width_if(flags, 0x0200, 4) <= stride,
            first + count * stride <= trun.end <= data@.len(),
            flags & 0x0200 == 0 ==> tfhd.default_size is Some,
            fallback == tfhd.default_size->0,
            sizes@ == Seq::new(
                index as nat,
                |i: int| size_in_run(data@, trun.body as int, flags, fallback, i),
            ),
        decreases count - index,
    {
        assert(index * stride + stride <= count * stride && 0 <= index * stride) by (nonlinear_arith)
            requires
                0 <= index < count,
                0 <= stride,
        ;
        let size: u32 = if flags & 0x0200 != 0 {
            let at: usize = first + index * stride + lead;
            match be32(data, at) {
                Some(size) => size,
                None => {
                    assert(false);
                    return None;
                },
            }
        } else {
            match tfhd.default_size {
                Some(size) => size,
                None => {
                    assert(false);
                    return None;
                },
            }
        };
        sizes.push(size);
        index = index + 1;
        assert(sizes@ =~= Seq::new(
            index as nat,
            |i: int| size_in_run(data@, trun.body as int, flags, fallback, i),
        ));
    }
    Some(Trun { offset, sizes })
}

/// Per-sample IVs and subsample runs out of a `senc` box.
pub type Senc = (Vec<[u8; 16]>, Vec<Vec<(u32, u32)>>);

/// Per-sample IVs and subsample runs as mathematics.
pub type SencModel = (Seq<Seq<u8>>, Seq<Seq<(u32, u32)>>);

/// IVs and runs as mathematics.
pub open spec fn seen_senc(senc: Senc) -> SencModel {
    (
        senc.0@.map_values(|iv: [u8; 16]| iv@),
        senc.1@.map_values(|runs: Vec<(u32, u32)>| runs@),
    )
}

/// No IVs and no runs.
pub open spec fn no_senc() -> SencModel {
    (Seq::empty(), Seq::empty())
}

/// An IV of `size` bytes at `at`, zero padded to sixteen; what a longer one holds past its
/// sixteenth byte is left out.
pub open spec fn iv_at(raw: Seq<u8>, at: int, size: int) -> Seq<u8> {
    Seq::new(
        16,
        |i: int|
            if i < size {
                raw[at + i]
            } else {
                0u8
            },
    )
}

/// The `(clear, encrypted)` runs of one sample: a count of two bytes, then six bytes a run. A
/// box without subsamples spends no bytes on them. With the runs comes where they end.
pub open spec fn runs_at(raw: Seq<u8>, at: int, subsampled: bool) -> Option<
    (Seq<(u32, u32)>, int),
> {
    if !subsampled {
        Some((Seq::empty(), at))
    } else {
        match u16_at(raw, at) {
            None => None,
            Some(runs) => if at + 2 + 6 * runs <= raw.len() {
                Some(
                    (
                        Seq::new(
                            runs as nat,
                            |i: int|
                                (
                                    u16_at(raw, at + 2 + 6 * i)->0 as u32,
                                    u32_at(raw, at + 4 + 6 * i)->0,
                                ),
                        ),
                        at + 2 + 6 * runs,
                    ),
                )
            } else {
                None
            },
        }
    }
}

/// The IVs and runs of `count` samples from `at` on, each sample an IV of `iv_size` bytes and its
/// runs, when they end exactly where the box does.
pub open spec fn senc_from(
    raw: Seq<u8>,
    at: int,
    iv_size: u8,
    count: nat,
    subsampled: bool,
) -> Option<SencModel>
    decreases count,
{
    if count == 0 {
        if at == raw.len() {
            Some(no_senc())
        } else {
            None
        }
    } else if at + iv_size > raw.len() {
        None
    } else {
        match runs_at(raw, at + iv_size, subsampled) {
            None => None,
            Some((runs, next)) => ahead(
                if iv_size > 0 {
                    seq![iv_at(raw, at, iv_size as int)]
                } else {
                    Seq::empty()
                },
                seq![runs],
                senc_from(raw, next, iv_size, (count - 1) as nat, subsampled),
            ),
        }
    }
}

/// What was read before, in front of what follows.
pub open spec fn ahead(
    ivs: Seq<Seq<u8>>,
    subs: Seq<Seq<(u32, u32)>>,
    rest: Option<SencModel>,
) -> Option<SencModel> {
    match rest {
        Some((more_ivs, more_subs)) => Some((ivs + more_ivs, subs + more_subs)),
        None => None,
    }
}

/// Reads `count` entries at one IV size, or `None` when they do not account for the box
/// exactly.
pub fn fit_senc(raw: &[u8], iv_size: u8, count: usize, subsampled: bool) -> (found: Option<Senc>)
    ensures
        match found {
            Some(senc) => senc_from(raw@, 0, iv_size, count as nat, subsampled) == Some(
                seen_senc(senc),
            ),
            None => senc_from(raw@, 0, iv_size, count as nat, subsampled) is None,
        },
{
    let mut at: usize = 0;
    let mut ivs: Vec<[u8; 16]> = Vec::new();
    let mut subs: Vec<Vec<(u32, u32)>> = Vec::new();
    let mut left: usize = count;
    let ghost whole = senc_from(raw@, 0, iv_size, count as nat, subsampled);
    proof {
        assert(seen_senc((ivs, subs)).0 =~= Seq::empty());
        assert(seen_senc((ivs, subs)).1 =~= Seq::empty());
        if let Some(all) = whole {
            assert(Seq::<Seq<u8>>::empty() + all.0 =~= all.0);
            assert(Seq::<Seq<(u32, u32)>>::empty() + all.1 =~= all.1);
        }
    }
    while left > 0
        invariant
            at <= raw@.len(),
            left <= count,
            ahead(
                seen_senc((ivs, subs)).0,
                seen_senc((ivs, subs)).1,
                senc_from(raw@, at as int, iv_size, left as nat, subsampled),
            ) == whole,
            whole == senc_from(raw@, 0, iv_size, count as nat, subsampled),
        decreases left,
    {
        let ghost start = at as int;
        let ghost ivs_before = seen_senc((ivs, subs)).0;
        let ghost subs_before = seen_senc((ivs, subs)).1;
        let step: usize = iv_size as usize;
        if raw.len() - at < step {
            return None;
        }
        if iv_size > 0 {
            let kept: usize = if step < 16 {
                step
            } else {
                16
            };
            let mut iv: [u8; 16] = [0; 16];
            let mut index: usize = 0;
            while index < kept
                invariant
                    index <= kept <= 16,
                    kept <= step,
                    at + step <= raw.len(),
                    forall|i: int| 0 <= i < index ==> iv@[i] == raw@[at + i],
                    forall|i: int| index <= i < 16 ==> iv@[i] == 0,
                decreases kept - index,
            {
                iv[index] = raw[at + index];
                index = index + 1;
            }
            ivs.push(iv);
            proof {
                assert(iv@ =~= iv_at(raw@, start, step as int));
                assert(seen_senc((ivs, subs)).0 =~= ivs_before.push(iv@));
            }
        }
        at = at + step;
        let ghost first: Seq<Seq<u8>> = if iv_size > 0 {
            seq![iv_at(raw@, start, iv_size as int)]
        } else {
            Seq::empty()
        };
        proof {
            assert(seen_senc((ivs, subs)).0 =~= ivs_before + first);
        }
        let mut pattern: Vec<(u32, u32)> = Vec::new();
        if subsampled {
            let runs: usize = match be16(raw, at) {
                Some(runs) => runs as usize,
                None => {
                    return None;
                },
            };
            if raw.len() - at - 2 < 6 * runs {
                return None;
            }
            let ghost list_at = at as int;
            at = at + 2;
            let mut index: usize = 0;
            while index < runs
                invariant
                    index <= runs <= 0xffff,
                    at == list_at + 2 + 6 * index,
                    list_at + 2 + 6 * runs <= raw.len(),
                    pattern@ == Seq::new(
                        index as nat,
                        |i: int|
                            (
                                u16_at(raw@, list_at + 2 + 6 * i)->0 as u32,
                                u32_at(raw@, list_at + 4 + 6 * i)->0,
                            ),
                    ),
                decreases runs - index,
            {
                let (clear, encrypted) = match (be16(raw, at), be32(raw, at + 2)) {
                    (Some(clear), Some(encrypted)) => (clear, encrypted),
                    _ => {
                        assert(false);
                        return None;
                    },
                };
                pattern.push((clear as u32, encrypted));
                at = at + 6;
                index = index + 1;
                assert(pattern@ =~= Seq::new(
                    index as nat,
                    |i: int|
                        (
                            u16_at(raw@, list_at + 2 + 6 * i)->0 as u32,
                            u32_at(raw@, list_at + 4 + 6 * i)->0,
                        ),
                ));
            }
        }
        proof {
            let found = runs_at(raw@, start + iv_size, subsampled);
            assert(found is Some);
            let (runs, next) = found->0;
            assert(runs =~= pattern@);
            assert(next == at);
        }
        let ghost own = pattern@;
        subs.push(pattern);
        left = left - 1;
        proof {
            assert(seen_senc((ivs, subs)).1 =~= subs_before.push(own));
            let rest = senc_from(raw@, at as int, iv_size, left as nat, subsampled);
            if let Some((more_ivs, more_subs)) = rest {
                assert(ivs_before + (first + more_ivs) =~= (ivs_before + first) + more_ivs);
                assert(subs_before + (seq![own] + more_subs) =~= subs_before.push(own)
                    + more_subs);
            }
        }
    }
    if at == raw.len() {
        proof {
            assert(seen_senc((ivs, subs)).0 + Seq::<Seq<u8>>::empty() =~= seen_senc((ivs, subs)).0);
            assert(seen_senc((ivs, subs)).1 + Seq::<Seq<(u32, u32)>>::empty() =~= seen_senc(
                (ivs, subs),
            ).1);
        }
        Some((ivs, subs))
    } else {
        None
    }
}

/// The first of the IV sizes at which the entries account for the box exactly.
pub open spec fn senc_fit(
    raw: Seq<u8>,
    sizes: Seq<u8>,
    count: nat,
    subsampled: bool,
) -> SencModel
    decreases sizes.len(),
{
    if sizes.len() == 0 {
        no_senc()
    } else {
        match senc_from(raw, 0, sizes[0], count, subsampled) {
            Some(found) => found,
            None => senc_fit(raw, sizes.drop_first(), count, subsampled),
        }
    }
}

/// How many IVs a `senc` may declare for a run of so many samples.
pub open spec fn senc_limit(samples: nat) -> int {
    let wanted = 2 * (if samples == 0 {
        1int
    } else {
        samples as int
    });
    if wanted < SAMPLE_LIMIT {
        wanted
    } else {
        SAMPLE_LIMIT as int
    }
}

/// What a `senc` holds: behind its flags and its count, the entries at the declared IV size, or
/// at the other sizes in use when that one does not fit.
pub open spec fn senc_of(data: Seq<u8>, senc: Header, declared: u8, samples: nat) -> SencModel {
    match (flags_of(data, senc), u32_below(data, senc.body + 4, senc.end)) {
        (Some(flags), Some(count)) => if count > senc_limit(samples) {
            no_senc()
        } else {
            senc_fit(
                data.subrange(senc.body + 8, senc.end),
                seq![declared, 16u8, 8u8, 0u8],
                count as nat,
                flags & 0x02 != 0,
            )
        },
        _ => no_senc(),
    }
}

/// Reads `senc` against the IV size `tenc` declared, and against the other sizes in use when
/// that does not account for the box exactly. A wrong size produces IVs that are silently
/// wrong rather than an error, so the length check is what makes this safe.
pub fn read_senc(data: &[u8], senc: &Bx, declared: u8, samples: usize) -> (found: Senc)
    requires
        senc.end <= data@.len(),
    ensures
        seen_senc(found) == senc_of(data@, senc@, declared, samples as nat),
{
    let none: Senc = (Vec::new(), Vec::new());
    proof {
        assert(seen_senc(none).0 =~= Seq::empty());
        assert(seen_senc(none).1 =~= Seq::empty());
    }
    let flags = match read_flags(data, senc) {
        Some(flags) => flags,
        None => {
            return none;
        },
    };
    let count: usize = match field32(data, senc.body.saturating_add(4), senc.end) {
        Some(count) => count as usize,
        None => {
            return none;
        },
    };
    let limit: usize = if samples >= SAMPLE_LIMIT / 2 {
        SAMPLE_LIMIT
    } else if samples == 0 {
        2
    } else {
        samples * 2
    };
    if count > limit {
        return none;
    }
    let raw: &[u8] = vstd::slice::slice_subrange(data, senc.body + 8, senc.end);
    let subsampled: bool = flags & 0x02 != 0;
    let sizes: [u8; 4] = [declared, 16, 8, 0];
    let mut index: usize = 0;
    proof {
        assert(sizes@ =~= seq![declared, 16u8, 8u8, 0u8]);
        assert(sizes@.skip(0) =~= sizes@);
    }
    while index < 4
        invariant
            index <= 4,
            sizes@.len() == 4,
            senc_fit(raw@, sizes@.skip(index as int), count as nat, subsampled) == senc_of(
                data@,
                senc@,
                declared,
                samples as nat,
            ),
        decreases 4 - index,
    {
        proof {
            assert(sizes@.skip(index as int).drop_first() =~= sizes@.skip(index + 1));
        }
        if let Some(found) = fit_senc(raw, sizes[index], count, subsampled) {
            return found;
        }
        index = index + 1;
    }
    none
}

/// The first track of that id.
pub open spec fn track_known(tracks: Seq<Encrypted>, track: u32) -> Option<Encrypted>
    decreases tracks.len(),
{
    if tracks.len() == 0 {
        None
    } else if tracks[0].track == track {
        Some(tracks[0])
    } else {
        track_known(tracks.drop_first(), track)
    }
}

/// The track samples belong to. A single-track asset is matched whatever its ids say, since an
/// audio-only encode has nowhere else for the samples to belong.
pub open spec fn track_for(tracks: Seq<Encrypted>, track: u32) -> Option<Encrypted> {
    match track_known(tracks, track) {
        Some(known) => Some(known),
        None => if tracks.len() == 1 {
            Some(tracks[0])
        } else {
            None
        },
    }
}

/// The track samples belong to.
pub fn pick_track(tracks: &[Encrypted], track: u32) -> (found: Option<Encrypted>)
    ensures
        found == track_for(tracks@, track),
{
    let mut index: usize = 0;
    proof {
        assert(tracks@.skip(0) =~= tracks@);
    }
    while index < tracks.len()
        invariant
            index <= tracks@.len(),
            track_known(tracks@.skip(index as int), track) == track_known(tracks@, track),
        decreases tracks@.len() - index,
    {
        proof {
            assert(tracks@.skip(index as int).drop_first() =~= tracks@.skip(index + 1));
        }
        if tracks[index].track == track {
            return Some(tracks[index]);
        }
        index = index + 1;
    }
    if tracks.len() == 1 {
        Some(tracks[0])
    } else {
        None
    }
}

/// The IV of one sample: its own, or the last one there is when there are fewer IVs than
/// samples.
pub open spec fn iv_for(ivs: Seq<Seq<u8>>, index: int) -> Seq<u8> {
    if ivs.len() == 0 {
        Seq::new(16, |i: int| 0u8)
    } else if index < ivs.len() {
        ivs[index]
    } else {
        ivs.last()
    }
}

/// The runs of one sample, none when the box lists none for it.
pub open spec fn runs_for(subs: Seq<Seq<(u32, u32)>>, index: int) -> Seq<(u32, u32)> {
    if index < subs.len() {
        subs[index]
    } else {
        Seq::empty()
    }
}

/// The samples of a run from one of them on. They stand one behind the other from `at`; the
/// first that runs past `limit` ends the run, and an empty one is left out.
pub open spec fn samples_from(
    sizes: Seq<u32>,
    senc: SencModel,
    index: int,
    at: int,
    limit: int,
) -> Seq<SampleModel>
    decreases sizes.len() - index,
{
    if index >= sizes.len() || at + sizes[index] > limit {
        Seq::empty()
    } else {
        let rest = samples_from(sizes, senc, index + 1, at + sizes[index], limit);
        if sizes[index] > 0 {
            seq![
                SampleModel {
                    start: at,
                    len: sizes[index] as int,
                    iv: iv_for(senc.0, index),
                    subs: runs_for(senc.1, index),
                },
            ] + rest
        } else {
            rest
        }
    }
}

/// The IVs and runs of a track fragment, none when it has no `senc`.
pub open spec fn senc_in(data: Seq<u8>, traf: Header, declared: u8, samples: nat) -> SencModel {
    match child_of(data, traf.body, traf.end, SENC@) {
        Some(senc) => senc_of(data, senc, declared, samples),
        None => no_senc(),
    }
}

/// The `tfhd` fields of a track fragment, none when it has no `tfhd`.
pub open spec fn tfhd_in(data: Seq<u8>, traf: Header) -> Tfhd {
    match child_of(data, traf.body, traf.end, TFHD@) {
        Some(tfhd) => tfhd_of(data, tfhd),
        None => Tfhd { base: None, default_size: None },
    }
}

/// The id of the track a fragment is for, zero when it does not say.
pub open spec fn track_in(data: Seq<u8>, traf: Header) -> u32 {
    match child_of(data, traf.body, traf.end, TFHD@) {
        Some(tfhd) => or_else(u32_below(data, tfhd.body + 4, tfhd.end), 0u32),
        None => 0,
    }
}

/// The run of a track fragment.
pub open spec fn trun_in(data: Seq<u8>, traf: Header) -> Option<TrunModel> {
    match child_of(data, traf.body, traf.end, TRUN@) {
        Some(trun) => trun_of(data, trun, tfhd_in(data, traf)),
        None => None,
    }
}

/// Where the samples of a run start: offset from the enclosing `moof`, unless `tfhd` names a
/// base of its own.
pub open spec fn run_base(tfhd: Tfhd, moof_at: int, offset: int) -> int {
    match tfhd.base {
        Some(base) => base + offset,
        None => moof_at + offset,
    }
}

/// The encrypted samples of one track fragment. There are none when no known track is theirs,
/// when there is no run, when the run starts outside the `mdat`, or when the track has IVs of
/// its own and the fragment carries none.
pub open spec fn traf_samples(
    data: Seq<u8>,
    moof_at: int,
    mdat: Header,
    traf: Header,
    tracks: Seq<Encrypted>,
) -> Seq<SampleModel> {
    match (track_for(tracks, track_in(data, traf)), trun_in(data, traf)) {
        (Some(encrypted), Some(run)) => {
            let start = run_base(tfhd_in(data, traf), moof_at, run.offset);
            let senc = senc_in(data, traf, encrypted.iv_size, run.sizes.len());
            if start < mdat.body || start > mdat.end {
                Seq::empty()
            } else if senc.0.len() == 0 && encrypted.iv_size != 0 {
                Seq::empty()
            } else {
                samples_from(run.sizes, senc, 0, start, mdat.end)
            }
        },
        _ => Seq::empty(),
    }
}

/// The encrypted samples of one track fragment.
pub fn read_traf(
    data: &[u8],
    moof_at: usize,
    mdat: &Bx,
    traf: &Bx,
    tracks: &[Encrypted],
) -> (samples: Vec<Sample>)
    ensures
        seen_samples(samples@) == traf_samples(data@, moof_at as int, mdat@, traf@, tracks@),
{
    let mut samples: Vec<Sample> = Vec::new();
    proof {
        assert(seen_samples(samples@) =~= Seq::empty());
    }
    let head = child(data, traf.body, traf.end, &TFHD);
    let track: u32 = match &head {
        Some(tfhd) => match field32(data, tfhd.body.saturating_add(4), tfhd.end) {
            Some(track) => track,
            None => 0,
        },
        None => 0,
    };
    let tfhd: Tfhd = match &head {
        Some(tfhd) => read_tfhd(data, tfhd),
        None => Tfhd { base: None, default_size: None },
    };
    let encrypted = match pick_track(tracks, track) {
        Some(encrypted) => encrypted,
        None => {
            return samples;
        },
    };
    let trun = match child(data, traf.body, traf.end, &TRUN) {
        Some(trun) => trun,
        None => {
            return samples;
        },
    };
    let run = match read_trun(data, &trun, &tfhd) {
        Some(run) => run,
        None => {
            return samples;
        },
    };

    // The sample data is offset from the enclosing moof, unless tfhd names a base of its own.
    let base: u64 = match tfhd.base {
        Some(base) => base,
        None => moof_at as u64,
    };
    let place: i128 = base as i128 + run.offset as i128;
    if place < mdat.body as i128 || place > mdat.end as i128 {
        return samples;
    }
    let start: usize = place as usize;

    let senc: Senc = match child(data, traf.body, traf.end, &SENC) {
        Some(senc) => read_senc(data, &senc, encrypted.iv_size, run.sizes.len()),
        None => (Vec::new(), Vec::new()),
    };
    let ghost model = senc_in(data@, traf@, encrypted.iv_size, run.sizes@.len());
    proof {
        assert(seen_senc(senc).0 =~= model.0);
        assert(seen_senc(senc).1 =~= model.1);
    }
    let (ivs, subs) = senc;
    if ivs.len() == 0 && encrypted.iv_size != 0 {
        return samples;
    }
    let ghost whole = samples_from(run.sizes@, model, 0, start as int, mdat.end as int);
    let mut at: usize = start;
    let mut iv: [u8; 16] = [0; 16];
    let mut index: usize = 0;
    proof {
        assert(seen_samples(samples@) + whole =~= whole);
        assert(iv@ =~= Seq::new(16, |i: int| 0u8));
    }
    while index < run.sizes.len()
        invariant
            index <= run.sizes@.len(),
            at <= mdat.end,
            seen_senc((ivs, subs)) == model,
            index == 0 ==> iv@ == Seq::new(16, |i: int| 0u8),
            index > 0 ==> iv@ == iv_for(model.0, index - 1),
            seen_samples(samples@) + samples_from(
                run.sizes@,
                model,
                index as int,
                at as int,
                mdat.end as int,
            ) == whole,
        ensures
            seen_samples(samples@) == whole,
        decreases run.sizes@.len() - index,
    {
        let len: usize = run.sizes[index] as usize;
        if mdat.end - at < len {
            assert(seen_samples(samples@) + Seq::<SampleModel>::empty() =~= seen_samples(samples@));
            break;
        }
        if index < ivs.len() {
            iv = ivs[index];
        }
        proof {
            assert(iv@ =~= iv_for(model.0, index as int));
        }
        let ghost before = seen_samples(samples@);
        let ghost rest = samples_from(
            run.sizes@,
            model,
            index + 1,
            at + len,
            mdat.end as int,
        );
        if len > 0 {
            let own: Vec<(u32, u32)> = if index < subs.len() {
                copied(&subs[index])
            } else {
                Vec::new()
            };
            let sample = Sample { start: at, len, iv, subs: own };
            proof {
                assert(sample@.subs =~= runs_for(model.1, index as int));
                assert(before + (seq![sample@] + rest) =~= before.push(sample@) + rest);
            }
            samples.push(sample);
            proof {
                assert(seen_samples(samples@) =~= before.push(sample@));
            }
        }
        at = at + len;
        index = index + 1;
        proof {
            if index == run.sizes@.len() {
                assert(seen_samples(samples@) + Seq::<SampleModel>::empty() =~= seen_samples(
                    samples@,
                ));
            }
        }
    }
    samples
}

/// The same runs again.
fn copied(runs: &Vec<(u32, u32)>) -> (copy: Vec<(u32, u32)>)
    ensures
        copy@ == runs@,
{
    vstd::slice::slice_to_vec(runs.as_slice())
}

/// The encrypted samples of every `traf` among the boxes from `at` on, in order.
pub open spec fn trafs_samples(
    data: Seq<u8>,
    at: int,
    end: int,
    moof_at: int,
    mdat: Header,
    tracks: Seq<Encrypted>,
) -> Seq<SampleModel>
    decreases end - at,
{
    match box_at(data, at) {
        Some(bx) => if bx.end > end {
            Seq::empty()
        } else if bx.kind == TRAF@ {
            traf_samples(data, moof_at, mdat, bx, tracks) + trafs_samples(
                data,
                bx.end,
                end,
                moof_at,
                mdat,
                tracks,
            )
        } else {
            trafs_samples(data, bx.end, end, moof_at, mdat, tracks)
        },
        None => Seq::empty(),
    }
}

/// The decode time of the first `traf` from `at` on that has one.
pub open spec fn trafs_decode(data: Seq<u8>, at: int, end: int) -> Option<u64>
    decreases end - at,
{
    match box_at(data, at) {
        Some(bx) => if bx.end > end {
            None
        } else if bx.kind == TRAF@ && decode_time_of(data, bx) is Some {
            decode_time_of(data, bx)
        } else {
            trafs_decode(data, bx.end, end)
        },
        None => None,
    }
}

/// What a walk of the one box at `at` finds. A `moof` counts as a fragment only with its `mdat`
/// right behind it.
pub open spec fn step_at(data: Seq<u8>, at: int, tracks: Seq<Encrypted>) -> StepModel {
    match box_at(data, at) {
        None => StepModel::Partial,
        Some(moof) => if moof.kind != MOOF@ {
            StepModel::Other { next: moof.end }
        } else {
            match box_at(data, moof.end) {
                None => StepModel::Partial,
                Some(mdat) => if mdat.kind != MDAT@ {
                    StepModel::Other { next: moof.end }
                } else {
                    StepModel::Fragment {
                        samples: trafs_samples(data, moof.body, moof.end, at, mdat, tracks),
                        next: mdat.end,
                        decode: trafs_decode(data, moof.body, moof.end),
                    }
                },
            }
        },
    }
}

/// Walks the one box at `at`, collecting the encrypted samples of a `moof`/`mdat` pair.
///
/// A fragment is only reported once both its `moof` and the `mdat` behind it have arrived
/// whole, so the samples it hands back always index into bytes that are there.
pub fn read_fragment(data: &[u8], at: usize, tracks: &[Encrypted]) -> (step: Step)
    ensures
        step@ == step_at(data@, at as int, tracks@),
        step matches Step::Fragment { samples, .. } ==> forall|i: int|
            0 <= i < samples@.len() ==> (#[trigger] samples@[i]).start + samples@[i].len
                <= data@.len(),
{
    let moof = match read(data, at) {
        Some(moof) => moof,
        None => {
            return Step::Partial;
        },
    };
    if !same_kind(&moof.kind, &MOOF) {
        return Step::Other { next: moof.end };
    }
    let mdat = match read(data, moof.end) {
        Some(mdat) => mdat,
        None => {
            return Step::Partial;
        },
    };
    if !same_kind(&mdat.kind, &MDAT) {
        // A moof whose media is not the box behind it is not a shape these assets use, and
        // skipping its samples is better than guessing where they live.
        return Step::Other { next: moof.end };
    }
    let ghost whole = trafs_samples(
        data@,
        moof.body as int,
        moof.end as int,
        at as int,
        mdat@,
        tracks@,
    );
    let ghost time = trafs_decode(data@, moof.body as int, moof.end as int);
    let mut samples: Vec<Sample> = Vec::new();
    let mut decode: Option<u64> = None;
    let mut place: usize = moof.body;
    proof {
        assert(seen_samples(samples@) + whole =~= whole);
    }
    loop
        invariant
            mdat.body <= mdat.end <= data@.len(),
            moof.end <= data@.len(),
            seen_samples(samples@) + trafs_samples(
                data@,
                place as int,
                moof.end as int,
                at as int,
                mdat@,
                tracks@,
            ) == whole,
            decode is Some ==> decode == time,
            decode is None ==> trafs_decode(data@, place as int, moof.end as int) == time,
        ensures
            seen_samples(samples@) == whole,
            decode == time,
        decreases data@.len() - place,
    {
        let ghost before = seen_samples(samples@);
        let traf = match read(data, place) {
            Some(traf) => traf,
            None => {
                assert(before + Seq::<SampleModel>::empty() =~= before);
                break;
            },
        };
        if traf.end > moof.end {
            assert(before + Seq::<SampleModel>::empty() =~= before);
            break;
        }
        if same_kind(&traf.kind, &TRAF) {
            if decode.is_none() {
                decode = decode_time(data, &traf);
            }
            let mut own = read_traf(data, at, &mdat, &traf, tracks);
            let ghost found = seen_samples(own@);
            let ghost rest = trafs_samples(
                data@,
                traf.end as int,
                moof.end as int,
                at as int,
                mdat@,
                tracks@,
            );
            samples.append(&mut own);
            proof {
                assert(seen_samples(samples@) =~= before + found);
                assert(before + (found + rest) =~= (before + found) + rest);
            }
        }
        place = traf.end;
    }
    proof {
        a_step_stays_inside(data@, at as int, tracks@);
        assert forall|i: int| 0 <= i < samples@.len() implies (#[trigger] samples@[i]).start
            + samples@[i].len <= data@.len() by {
            assert(seen_samples(samples@)[i] == samples@[i]@);
        }
    }
    Step::Fragment { samples, next: mdat.end, decode }
}

} // verus!
