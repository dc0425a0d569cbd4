//! What reading is for: a box that was written out field by field gives those fields back.
//!
//! The boxes are written here the way the format lays them out, byte by byte and without asking
//! the reader anything; every law says that reading such bytes gives what was written.

use vstd::prelude::*;

use super::boxes::{box_at, boxes_from, child_of, descendant_of, u32_below, Header};
use super::fragment::{
    decode_time_of, flags_of, iv_at, iv_for, run_base, runs_at, runs_for, sample_stride,
    samples_from, senc_fit, senc_from, senc_in, senc_of, size_in_run, step_at, tfhd_in, tfhd_of,
    track_for, track_in, track_known, traf_samples, trafs_decode, trafs_samples, trun_in, trun_of,
    width_if, SampleModel, SencModel, Step, StepModel, Tfhd, TrunModel, MDAT, MOOF, SENC, TFDT,
    TFHD, TRAF, TRUN,
};
use super::init::{
    behind_times, encas_from, encas_of, init_of, iv_size_of, moov_from, relabelled, timescale_of,
    trak_encas, trak_timescale, Encrypted, Init, ENCA, MDHD, MDIA, MOOV, SCHI, SINF, STSD, TENC,
    TKHD, TRAK,
};
use crate::bytes::{
    be_at, be_value, lemma_be_value_2, lemma_be_value_4, lemma_be_value_8, u16_at, u32_at,
    u32_bytes, u64_at,
};

verus! {

/// The two bytes that spell a number, most significant first.
pub open spec fn u16_bytes(value: u16) -> Seq<u8> {
    seq![(value / 0x100) as u8, (value % 0x100) as u8]
}

/// The eight bytes that spell a number, most significant first.
pub open spec fn u64_bytes(value: u64) -> Seq<u8> {
    u32_bytes((value / 0x1_0000_0000) as u32) + u32_bytes((value % 0x1_0000_0000) as u32)
}

/// The data holds these bytes at a place.
pub open spec fn holds(data: Seq<u8>, at: int, bytes: Seq<u8>) -> bool {
    0 <= at && at + bytes.len() <= data.len() && forall|i: int|
        0 <= i < bytes.len() ==> #[trigger] data[at + i] == bytes[i]
}

/// Bytes that are written only under a flag.
pub open spec fn only_if(written: bool, bytes: Seq<u8>) -> Seq<u8> {
    if written {
        bytes
    } else {
        Seq::empty()
    }
}

/// What is held one behind the other is held each at its place.
proof fn lemma_split(data: Seq<u8>, at: int, left: Seq<u8>, right: Seq<u8>)
    requires
        holds(data, at, left + right),
    ensures
        holds(data, at, left),
        holds(data, at + left.len(), right),
{
    let all = left + right;
    assert forall|i: int| 0 <= i < left.len() implies #[trigger] data[at + i] == left[i] by {
        assert(all[i] == left[i]);
    }
    assert forall|i: int| 0 <= i < right.len() implies #[trigger] data[at + left.len() + i]
        == right[i] by {
        assert(all[left.len() + i] == right[i]);
        assert(data[at + (left.len() + i)] == all[left.len() + i]);
    }
}

/// Bytes that are held are those that stand there.
proof fn lemma_held(data: Seq<u8>, at: int, bytes: Seq<u8>)
    requires
        holds(data, at, bytes),
    ensures
        data.subrange(at, at + bytes.len()) == bytes,
{
    let cut = data.subrange(at, at + bytes.len());
    assert forall|i: int| 0 <= i < bytes.len() implies cut[i] == bytes[i] by {
        assert(data[at + i] == bytes[i]);
    }
    assert(cut =~= bytes);
}

/// A number of two bytes reads back, wherever it was written.
pub proof fn a_short_reads_back(data: Seq<u8>, at: int, value: u16)
    requires
        holds(data, at, u16_bytes(value)),
    ensures
        u16_at(data, at) == Some(value),
{
    lemma_held(data, at, u16_bytes(value));
    lemma_be_value_2(u16_bytes(value));
}

/// A number of four bytes reads back, wherever it was written.
pub proof fn a_word_reads_back(data: Seq<u8>, at: int, value: u32)
    requires
        holds(data, at, u32_bytes(value)),
    ensures
        u32_at(data, at) == Some(value),
        be_at(data, at, 4) == Some(value as nat),
{
    lemma_held(data, at, u32_bytes(value));
    lemma_be_value_4(u32_bytes(value));
}

proof fn lemma_word_value(value: u32)
    ensures
        u32_bytes(value).len() == 4,
        be_value(u32_bytes(value)) == value,
{
    lemma_be_value_4(u32_bytes(value));
}

/// A number of eight bytes reads back, wherever it was written.
pub proof fn a_long_reads_back(data: Seq<u8>, at: int, value: u64)
    requires
        holds(data, at, u64_bytes(value)),
    ensures
        u64_at(data, at) == Some(value),
        be_at(data, at, 8) == Some(value as nat),
{
    let high = (value / 0x1_0000_0000) as u32;
    let low = (value % 0x1_0000_0000) as u32;
    lemma_word_value(high);
    lemma_word_value(low);
    lemma_held(data, at, u64_bytes(value));
    lemma_halves(u32_bytes(high), u32_bytes(low));
}

proof fn lemma_halves(high: Seq<u8>, low: Seq<u8>)
    requires
        high.len() == 4,
        low.len() == 4,
    ensures
        (high + low).len() == 8,
        be_value(high + low) == be_value(high) * 0x1_0000_0000 + be_value(low),
{
    lemma_be_value_8(high + low);
    assert((high + low).subrange(0, 4) =~= high);
    assert((high + low).subrange(4, 8) =~= low);
}

/// A box: its size, its kind and its body.
pub open spec fn boxed(kind: Seq<u8>, body: Seq<u8>) -> Seq<u8> {
    u32_bytes((8 + body.len()) as u32) + kind + body
}

/// A box whose size takes eight bytes behind its kind.
pub open spec fn boxed_wide(kind: Seq<u8>, body: Seq<u8>) -> Seq<u8> {
    u32_bytes(1) + kind + u64_bytes((16 + body.len()) as u64) + body
}

/// A kind and a body that make a box.
pub open spec fn fits_box(kind: Seq<u8>, body: Seq<u8>) -> bool {
    kind.len() == 4 && 8 + body.len() < 0x1_0000_0000
}

/// A box that was written is found where it stands: its kind, its body behind eight bytes, and
/// its end right behind the body.
pub proof fn a_box_reads_back(data: Seq<u8>, at: int, kind: Seq<u8>, body: Seq<u8>)
    requires
        fits_box(kind, body),
        holds(data, at, boxed(kind, body)),
    ensures
        box_at(data, at) == Some(
            Header {
                kind,
                body: at + 8,
                end: at + 8 + body.len(),
                total: 8 + body.len() as int,
            },
        ),
        holds(data, at + 8, body),
{
    let size = u32_bytes((8 + body.len()) as u32);
    lemma_split(data, at, size + kind, body);
    lemma_split(data, at, size, kind);
    a_word_reads_back(data, at, (8 + body.len()) as u32);
    lemma_held(data, at + 4, kind);
}

/// So is one whose size takes eight bytes, with its body behind sixteen.
pub proof fn a_wide_box_reads_back(data: Seq<u8>, at: int, kind: Seq<u8>, body: Seq<u8>)
    requires
        kind.len() == 4,
        16 + body.len() <= u64::MAX,
        holds(data, at, boxed_wide(kind, body)),
    ensures
        box_at(data, at) == Some(
            Header {
                kind,
                body: at + 16,
                end: at + 16 + body.len(),
                total: 16 + body.len() as int,
            },
        ),
        holds(data, at + 16, body),
{
    let one = u32_bytes(1);
    let wide = u64_bytes((16 + body.len()) as u64);
    lemma_split(data, at, one + kind + wide, body);
    lemma_split(data, at, one + kind, wide);
    lemma_split(data, at, one, kind);
    a_word_reads_back(data, at, 1);
    a_long_reads_back(data, at + 8, (16 + body.len()) as u64);
    lemma_held(data, at + 4, kind);
}

/// Boxes one behind the other, each a kind and a body.
pub open spec fn boxes_bytes(boxes: Seq<(Seq<u8>, Seq<u8>)>) -> Seq<u8>
    decreases boxes.len(),
{
    if boxes.len() == 0 {
        Seq::empty()
    } else {
        boxed(boxes[0].0, boxes[0].1) + boxes_bytes(boxes.drop_first())
    }
}

/// All of them make boxes.
pub open spec fn fit_boxes(boxes: Seq<(Seq<u8>, Seq<u8>)>) -> bool {
    forall|i: int| 0 <= i < boxes.len() ==> fits_box((#[trigger] boxes[i]).0, boxes[i].1)
}

/// Of boxes that were written one behind the other the first of a kind is found, whatever stands
/// in front of it and behind it, and none where there is none.
pub proof fn the_first_of_a_kind_is_found(
    data: Seq<u8>,
    at: int,
    boxes: Seq<(Seq<u8>, Seq<u8>)>,
    kind: Seq<u8>,
    place: int,
)
    requires
        fit_boxes(boxes),
        holds(data, at, boxes_bytes(boxes)),
        0 <= place <= boxes.len(),
        forall|i: int| 0 <= i < place ==> (#[trigger] boxes[i]).0 != kind,
        place < boxes.len() ==> boxes[place].0 == kind,
    ensures
        place < boxes.len() ==> ({
            let start = at + boxes_bytes(boxes.take(place)).len();
            &&& child_of(data, at, at + boxes_bytes(boxes).len(), kind) == Some(
                Header {
                    kind,
                    body: start + 8,
                    end: start + 8 + boxes[place].1.len(),
                    total: 8 + boxes[place].1.len() as int,
                },
            )
            &&& holds(data, start + 8, boxes[place].1)
        }),
        place == boxes.len() ==> child_of(data, at, at + boxes_bytes(boxes).len(), kind) is None,
    decreases boxes.len(),
{
    let end = at + boxes_bytes(boxes).len();
    if boxes.len() > 0 {
        let first = boxed(boxes[0].0, boxes[0].1);
        let rest = boxes.drop_first();
        assert(fits_box(boxes[0].0, boxes[0].1));
        assert(boxes_bytes(boxes) == first + boxes_bytes(rest));
        lemma_split(data, at, first, boxes_bytes(rest));
        a_box_reads_back(data, at, boxes[0].0, boxes[0].1);
        assert(first.len() == 8 + boxes[0].1.len());
        if place == 0 {
            assert(boxes.take(0) =~= Seq::empty());
        } else {
            assert(boxes[0].0 != kind);
            assert forall|i: int| 0 <= i < rest.len() implies fits_box(
                (#[trigger] rest[i]).0,
                rest[i].1,
            ) by {
                assert(rest[i] == boxes[i + 1]);
            }
            assert forall|i: int| 0 <= i < place - 1 implies (#[trigger] rest[i]).0 != kind by {
                assert(rest[i] == boxes[i + 1]);
            }
            the_first_of_a_kind_is_found(data, at + first.len(), rest, kind, place - 1);
            assert(boxes.take(place).drop_first() =~= rest.take(place - 1));
            assert(boxes.take(place)[0] == boxes[0]);
        }
    } else {
        if let Some(bx) = box_at(data, at) {
            assert(bx.end > end);
        }
    }
}

/// The version and the flags that a body starts with.
pub open spec fn version_and_flags(version: u8, flags: u32) -> u32 {
    (version * 0x100_0000 + flags) as u32
}

/// The flags of a body are those that were written, whatever its version.
pub proof fn flags_read_back(data: Seq<u8>, bx: Header, version: u8, flags: u32)
    requires
        flags < 0x100_0000,
        bx.body + 4 <= bx.end,
        holds(data, bx.body, u32_bytes(version_and_flags(version, flags))),
    ensures
        flags_of(data, bx) == Some(flags),
{
    let word = version_and_flags(version, flags);
    a_word_reads_back(data, bx.body, word);
    let wide = version as u32;
    assert(word == wide * 0x100_0000 + flags);
    assert(word & 0x00ff_ffff == flags) by (bit_vector)
        requires
            word == wide * 0x100_0000 + flags,
            wide <= 0xff,
            flags < 0x100_0000,
    ;
}

/// A number that may be negative, as the four bytes of its two's complement.
pub open spec fn complement(value: int) -> u32 {
    if value < 0 {
        (value + 0x1_0000_0000) as u32
    } else {
        value as u32
    }
}

/// What a run says of one sample.
pub struct RunEntry {
    pub duration: u32,
    pub size: u32,
    pub flags: u32,
    pub composition: u32,
}

/// One sample of a run: the fields its flags name, in the order duration, size, flags,
/// composition offset.
pub open spec fn entry_bytes(flags: u32, entry: RunEntry) -> Seq<u8> {
    only_if(flags & 0x0100 != 0, u32_bytes(entry.duration)) + only_if(
        flags & 0x0200 != 0,
        u32_bytes(entry.size),
    ) + only_if(flags & 0x0400 != 0, u32_bytes(entry.flags)) + only_if(
        flags & 0x0800 != 0,
        u32_bytes(entry.composition),
    )
}

/// The samples of a run, one behind the other.
pub open spec fn entries_bytes(flags: u32, entries: Seq<RunEntry>) -> Seq<u8>
    decreases entries.len(),
{
    if entries.len() == 0 {
        Seq::empty()
    } else {
        entry_bytes(flags, entries[0]) + entries_bytes(flags, entries.drop_first())
    }
}

/// The body of a `trun`: version and flags, the count, the data offset and the flags of the
/// first sample where the flags name them, then the samples.
pub open spec fn trun_bytes(
    version: u8,
    flags: u32,
    offset: int,
    first_flags: u32,
    entries: Seq<RunEntry>,
) -> Seq<u8> {
    u32_bytes(version_and_flags(version, flags)) + u32_bytes(entries.len() as u32) + only_if(
        flags & 0x01 != 0,
        u32_bytes(complement(offset)),
    ) + only_if(flags & 0x04 != 0, u32_bytes(first_flags)) + entries_bytes(flags, entries)
}

proof fn lemma_entry_length(flags: u32, entry: RunEntry)
    ensures
        entry_bytes(flags, entry).len() == sample_stride(flags),
{
}

proof fn lemma_entries_length(flags: u32, entries: Seq<RunEntry>)
    ensures
        entries_bytes(flags, entries).len() == entries.len() * sample_stride(flags),
    decreases entries.len(),
{
    if entries.len() > 0 {
        lemma_entries_length(flags, entries.drop_first());
        lemma_entry_length(flags, entries[0]);
        let n = entries.len() as int;
        let stride = sample_stride(flags);
        assert((n - 1) * stride + stride == n * stride) by (nonlinear_arith);
    } else {
        assert(0 * sample_stride(flags) == 0);
    }
}

/// The size of one sample stands where it was written.
proof fn lemma_size_stands(data: Seq<u8>, at: int, flags: u32, entries: Seq<RunEntry>, i: int)
    requires
        holds(data, at, entries_bytes(flags, entries)),
        0 <= i < entries.len(),
        flags & 0x0200 != 0,
    ensures
        u32_at(data, at + i * sample_stride(flags) + width_if(flags, 0x0100, 4)) == Some(
            entries[i].size,
        ),
    decreases i,
{
    let first = entry_bytes(flags, entries[0]);
    let rest = entries.drop_first();
    let stride = sample_stride(flags);
    lemma_split(data, at, first, entries_bytes(flags, rest));
    lemma_entry_length(flags, entries[0]);
    if i == 0 {
        let a = only_if(flags & 0x0100 != 0, u32_bytes(entries[0].duration));
        let b = only_if(flags & 0x0200 != 0, u32_bytes(entries[0].size));
        let c = only_if(flags & 0x0400 != 0, u32_bytes(entries[0].flags));
        let d = only_if(flags & 0x0800 != 0, u32_bytes(entries[0].composition));
        lemma_split(data, at, a + b + c, d);
        lemma_split(data, at, a + b, c);
        lemma_split(data, at, a, b);
        a_word_reads_back(data, at + a.len(), entries[0].size);
        assert(0 * stride == 0);
    } else {
        lemma_size_stands(data, at + first.len(), flags, rest, i - 1);
        assert(rest[i - 1] == entries[i]);
        assert((i - 1) * stride + stride == i * stride) by (nonlinear_arith);
    }
}

/// A `trun` that was written reads back: its data offset, and exactly the sizes that were
/// written, whatever else its flags have every sample carry. Where it carries no sizes, every
/// sample has the default one.
pub proof fn a_run_reads_back(
    data: Seq<u8>,
    trun: Header,
    tfhd: Tfhd,
    version: u8,
    flags: u32,
    offset: int,
    first_flags: u32,
    entries: Seq<RunEntry>,
)
    requires
        flags < 0x100_0000,
        -0x8000_0000 <= offset < 0x8000_0000,
        entries.len() <= 0x10_0000,
        flags & 0x0200 == 0 ==> tfhd.default_size is Some,
        holds(data, trun.body, trun_bytes(version, flags, offset, first_flags, entries)),
        trun.end == trun.body + trun_bytes(version, flags, offset, first_flags, entries).len(),
    ensures
        trun_of(data, trun, tfhd) matches Some(run) && {
            &&& run.offset == (if flags & 0x01 != 0 {
                offset
            } else {
                0
            })
            &&& run.sizes.len() == entries.len()
            &&& forall|i: int|
                0 <= i < entries.len() ==> #[trigger] run.sizes[i] == (if flags & 0x0200 != 0 {
                    entries[i].size
                } else {
                    tfhd.default_size->0
                })
        },
{
    let head = u32_bytes(version_and_flags(version, flags));
    let count = u32_bytes(entries.len() as u32);
    let shift = only_if(flags & 0x01 != 0, u32_bytes(complement(offset)));
    let lead = only_if(flags & 0x04 != 0, u32_bytes(first_flags));
    let body = entries_bytes(flags, entries);
    let at = trun.body;
    lemma_split(data, at, head + count + shift + lead, body);
    lemma_split(data, at, head + count + shift, lead);
    lemma_split(data, at, head + count, shift);
    lemma_split(data, at, head, count);
    flags_read_back(data, trun, version, flags);
    a_word_reads_back(data, at + 4, entries.len() as u32);
    if flags & 0x01 != 0 {
        a_word_reads_back(data, at + 8, complement(offset));
    }
    lemma_entries_length(flags, entries);
    let start = super::fragment::run_start(at, flags);
    assert(start == at + (head + count + shift + lead).len());
    assert(trun_of(data, trun, tfhd) is Some);
    let run = trun_of(data, trun, tfhd)->0;
    assert forall|i: int| 0 <= i < entries.len() implies #[trigger] run.sizes[i] == (if flags
        & 0x0200 != 0 {
        entries[i].size
    } else {
        tfhd.default_size->0
    }) by {
        assert(run.sizes[i] == size_in_run(data, at, flags, tfhd.default_size->0, i));
        if flags & 0x0200 != 0 {
            lemma_size_stands(data, start, flags, entries, i);
        }
    }
}

/// A run that declares more samples than a fragment may hold is refused, whatever else it says,
/// and so is one that is cut short of the samples it declares.
pub proof fn an_oversized_run_is_refused(
    data: Seq<u8>,
    trun: Header,
    tfhd: Tfhd,
    version: u8,
    flags: u32,
    count: u32,
)
    requires
        flags < 0x100_0000,
        holds(data, trun.body, u32_bytes(version_and_flags(version, flags)) + u32_bytes(count)),
        ({
            ||| count > 0x10_0000
            ||| flags & 0x0200 != 0 && trun.body + 8 + 4 * count > trun.end
            ||| count > 0 && flags & 0x0200 == 0 && tfhd.default_size is None
        }),
    ensures
        trun_of(data, trun, tfhd) is None,
{
    let head = u32_bytes(version_and_flags(version, flags));
    lemma_split(data, trun.body, head, u32_bytes(count));
    a_word_reads_back(data, trun.body + 4, count);
    if trun.body + 4 <= trun.end {
        flags_read_back(data, trun, version, flags);
        let stride = sample_stride(flags);
        if flags & 0x0200 != 0 {
            assert(count * stride >= 4 * count) by (nonlinear_arith)
                requires
                    stride >= 4,
                    count >= 0,
            ;
        }
    }
}

/// Two runs that were written with the same sizes read back with the same sizes: neither
/// durations, nor the flags of samples, nor composition offsets change any.
pub proof fn only_sizes_change_sizes(
    data: Seq<u8>,
    other: Seq<u8>,
    trun: Header,
    tfhd: Tfhd,
    version: u8,
    flags: u32,
    offset: int,
    first_flags: u32,
    entries: Seq<RunEntry>,
    changed: Seq<RunEntry>,
)
    requires
        flags < 0x100_0000,
        -0x8000_0000 <= offset < 0x8000_0000,
        entries.len() == changed.len() <= 0x10_0000,
        flags & 0x0200 != 0,
        forall|i: int| 0 <= i < entries.len() ==> (#[trigger] entries[i]).size == changed[i].size,
        holds(data, trun.body, trun_bytes(version, flags, offset, first_flags, entries)),
        holds(other, trun.body, trun_bytes(version, flags, offset, first_flags, changed)),
        trun.end == trun.body + trun_bytes(version, flags, offset, first_flags, entries).len(),
    ensures
        trun_of(data, trun, tfhd) == trun_of(other, trun, tfhd),
{
    lemma_entries_length(flags, entries);
    lemma_entries_length(flags, changed);
    a_run_reads_back(data, trun, tfhd, version, flags, offset, first_flags, entries);
    a_run_reads_back(other, trun, tfhd, version, flags, offset, first_flags, changed);
    let one = trun_of(data, trun, tfhd)->0;
    let two = trun_of(other, trun, tfhd)->0;
    assert forall|i: int| 0 <= i < one.sizes.len() implies one.sizes[i] == two.sizes[i] by {
        assert(entries[i].size == changed[i].size);
    }
    assert(one.sizes =~= two.sizes);
}

/// What a `tfhd` carries.
pub struct HeadFields {
    pub track: u32,
    pub base: u64,
    pub description: u32,
    pub duration: u32,
    pub size: u32,
    pub sample_flags: u32,
}

/// The body of a `tfhd`: version and flags, the track, then what its flags name: a data base, a
/// description index, a default duration, a default size and default flags.
pub open spec fn tfhd_bytes(version: u8, flags: u32, fields: HeadFields) -> Seq<u8> {
    u32_bytes(version_and_flags(version, flags)) + u32_bytes(fields.track) + only_if(
        flags & 0x01 != 0,
        u64_bytes(fields.base),
    ) + only_if(flags & 0x02 != 0, u32_bytes(fields.description)) + only_if(
        flags & 0x08 != 0,
        u32_bytes(fields.duration),
    ) + only_if(flags & 0x10 != 0, u32_bytes(fields.size)) + only_if(
        flags & 0x20 != 0,
        u32_bytes(fields.sample_flags),
    )
}

/// A `tfhd` that was written reads back: its track, its data base and its default size, where its
/// flags name them. A default size of nothing is none.
pub proof fn a_head_reads_back(
    data: Seq<u8>,
    tfhd: Header,
    version: u8,
    flags: u32,
    fields: HeadFields,
)
    requires
        flags < 0x100_0000,
        holds(data, tfhd.body, tfhd_bytes(version, flags, fields)),
        tfhd.end == tfhd.body + tfhd_bytes(version, flags, fields).len(),
    ensures
        u32_below(data, tfhd.body + 4, tfhd.end) == Some(fields.track),
        tfhd_of(data, tfhd).base == (if flags & 0x01 != 0 {
            Some(fields.base)
        } else {
            None
        }),
        tfhd_of(data, tfhd).default_size == (if flags & 0x10 != 0 && fields.size > 0 {
            Some(fields.size)
        } else {
            None
        }),
{
    let head = u32_bytes(version_and_flags(version, flags));
    let track = u32_bytes(fields.track);
    let base = only_if(flags & 0x01 != 0, u64_bytes(fields.base));
    let description = only_if(flags & 0x02 != 0, u32_bytes(fields.description));
    let duration = only_if(flags & 0x08 != 0, u32_bytes(fields.duration));
    let size = only_if(flags & 0x10 != 0, u32_bytes(fields.size));
    let rest = only_if(flags & 0x20 != 0, u32_bytes(fields.sample_flags));
    let at = tfhd.body;
    lemma_split(data, at, head + track + base + description + duration + size, rest);
    lemma_split(data, at, head + track + base + description + duration, size);
    lemma_split(data, at, head + track + base + description, duration);
    lemma_split(data, at, head + track + base, description);
    lemma_split(data, at, head + track, base);
    lemma_split(data, at, head, track);
    flags_read_back(data, tfhd, version, flags);
    a_word_reads_back(data, at + 4, fields.track);
    if flags & 0x01 != 0 {
        a_long_reads_back(data, at + 8, fields.base);
    }
    if flags & 0x10 != 0 {
        a_word_reads_back(
            data,
            at + (head + track + base + description + duration).len(),
            fields.size,
        );
    }
}

/// The body of a `tfdt`: its version and three bytes of flags, then the time, of four bytes in
/// version zero and of eight in every other.
pub open spec fn tfdt_bytes(version: u8, flags: Seq<u8>, ticks: u64) -> Seq<u8> {
    seq![version] + flags + (if version == 0 {
        u32_bytes(ticks as u32)
    } else {
        u64_bytes(ticks)
    })
}

/// The `tfdt` of a track fragment that was written reads back as the time that was written.
pub proof fn a_time_reads_back(
    data: Seq<u8>,
    traf: Header,
    tfdt: Header,
    version: u8,
    flags: Seq<u8>,
    ticks: u64,
)
    requires
        flags.len() == 3,
        version == 0 ==> ticks <= u32::MAX,
        child_of(data, traf.body, traf.end, seq![0x74u8, 0x66, 0x64, 0x74]) == Some(tfdt),
        holds(data, tfdt.body, tfdt_bytes(version, flags, ticks)),
        tfdt.end == tfdt.body + tfdt_bytes(version, flags, ticks).len(),
    ensures
        decode_time_of(data, traf) == Some(ticks),
{
    assert(TFDT@ =~= seq![0x74u8, 0x66, 0x64, 0x74]);
    let head = seq![version] + flags;
    let time = if version == 0 {
        u32_bytes(ticks as u32)
    } else {
        u64_bytes(ticks)
    };
    lemma_split(data, tfdt.body, head, time);
    lemma_split(data, tfdt.body, seq![version], flags);
    assert(data[tfdt.body + 0] == version);
    if version == 0 {
        a_word_reads_back(data, tfdt.body + 4, ticks as u32);
    } else {
        a_long_reads_back(data, tfdt.body + 4, ticks);
    }
}

/// What a `senc` says of one sample: its IV, and its runs of clear and encrypted bytes.
pub struct SencEntry {
    pub iv: Seq<u8>,
    pub runs: Seq<(u16, u32)>,
}

/// The runs of one sample, each two bytes and four.
pub open spec fn runs_bytes(runs: Seq<(u16, u32)>) -> Seq<u8>
    decreases runs.len(),
{
    if runs.len() == 0 {
        Seq::empty()
    } else {
        u16_bytes(runs[0].0) + u32_bytes(runs[0].1) + runs_bytes(runs.drop_first())
    }
}

/// One sample of a `senc`: its IV and, in a box with subsamples, how many runs it has and those.
pub open spec fn senc_entry_bytes(entry: SencEntry, subsampled: bool) -> Seq<u8> {
    entry.iv + only_if(subsampled, u16_bytes(entry.runs.len() as u16) + runs_bytes(entry.runs))
}

/// The samples of a `senc`, one behind the other.
pub open spec fn senc_entries_bytes(entries: Seq<SencEntry>, subsampled: bool) -> Seq<u8>
    decreases entries.len(),
{
    if entries.len() == 0 {
        Seq::empty()
    } else {
        senc_entry_bytes(entries[0], subsampled) + senc_entries_bytes(
            entries.drop_first(),
            subsampled,
        )
    }
}

/// Every entry has an IV of that size and no more runs than can be counted.
pub open spec fn entries_fit(entries: Seq<SencEntry>, iv_size: u8) -> bool {
    forall|i: int|
        0 <= i < entries.len() ==> (#[trigger] entries[i]).iv.len() == iv_size
            && entries[i].runs.len() <= 0xffff
}

/// What was read is what was written: every sample's IV with zeros behind it up to sixteen bytes,
/// and every sample's runs. Without IVs there are none, and without subsamples no run.
pub open spec fn gives_back(
    found: SencModel,
    entries: Seq<SencEntry>,
    iv_size: u8,
    subsampled: bool,
) -> bool {
    &&& found.0.len() == (if iv_size > 0 {
        entries.len()
    } else {
        0
    })
    &&& found.1.len() == entries.len()
    &&& iv_size > 0 ==> forall|i: int, j: int|
        0 <= i < entries.len() && 0 <= j < 16 ==> (#[trigger] found.0[i][j]) == (if j < iv_size {
            entries[i].iv[j]
        } else {
            0u8
        })
    &&& iv_size > 0 ==> forall|i: int| 0 <= i < entries.len() ==> (#[trigger] found.0[i]).len() == 16
    &&& forall|i: int|
        0 <= i < entries.len() ==> (#[trigger] found.1[i]).len() == (if subsampled {
            entries[i].runs.len()
        } else {
            0
        })
    &&& subsampled ==> forall|i: int, j: int|
        0 <= i < entries.len() && 0 <= j < entries[i].runs.len() ==> (#[trigger] found.1[i][j])
            == (entries[i].runs[j].0 as u32, entries[i].runs[j].1)
}

proof fn lemma_runs_length(runs: Seq<(u16, u32)>)
    ensures
        runs_bytes(runs).len() == 6 * runs.len(),
    decreases runs.len(),
{
    if runs.len() > 0 {
        lemma_runs_length(runs.drop_first());
    }
}

proof fn lemma_run_stands(data: Seq<u8>, at: int, runs: Seq<(u16, u32)>, i: int)
    requires
        holds(data, at, runs_bytes(runs)),
        0 <= i < runs.len(),
    ensures
        u16_at(data, at + 6 * i) == Some(runs[i].0),
        u32_at(data, at + 6 * i + 2) == Some(runs[i].1),
    decreases i,
{
    let clear = u16_bytes(runs[0].0);
    let encrypted = u32_bytes(runs[0].1);
    let rest = runs.drop_first();
    lemma_split(data, at, clear + encrypted, runs_bytes(rest));
    lemma_split(data, at, clear, encrypted);
    if i == 0 {
        a_short_reads_back(data, at, runs[0].0);
        a_word_reads_back(data, at + 2, runs[0].1);
    } else {
        lemma_run_stands(data, at + 6, rest, i - 1);
        assert(rest[i - 1] == runs[i]);
    }
}

/// The runs of one sample read back, and end where they were written to.
proof fn lemma_runs_read_back(data: Seq<u8>, at: int, runs: Seq<(u16, u32)>, subsampled: bool)
    requires
        runs.len() <= 0xffff,
        0 <= at,
        holds(data, at, only_if(subsampled, u16_bytes(runs.len() as u16) + runs_bytes(runs))),
    ensures
        ({
            let bytes = only_if(subsampled, u16_bytes(runs.len() as u16) + runs_bytes(runs));
            runs_at(data, at, subsampled) matches Some((found, next)) && {
                &&& next == at + bytes.len()
                &&& found.len() == (if subsampled {
                    runs.len()
                } else {
                    0
                })
                &&& subsampled ==> forall|j: int|
                    0 <= j < runs.len() ==> #[trigger] found[j] == (runs[j].0 as u32, runs[j].1)
            }
        }),
{
    if subsampled {
        let count = u16_bytes(runs.len() as u16);
        lemma_split(data, at, count, runs_bytes(runs));
        a_short_reads_back(data, at, runs.len() as u16);
        lemma_runs_length(runs);
        let (found, next) = runs_at(data, at, subsampled)->0;
        assert forall|j: int| 0 <= j < runs.len() implies #[trigger] found[j] == (
            runs[j].0 as u32,
            runs[j].1,
        ) by {
            lemma_run_stands(data, at + 2, runs, j);
            assert(at + 2 + 6 * j + 2 == at + 4 + 6 * j);
        }
    }
}

/// Entries of a `senc` that were written read back at the size their IVs have, from where they
/// start to where the box ends.
pub proof fn senc_entries_read_back(
    raw: Seq<u8>,
    at: int,
    entries: Seq<SencEntry>,
    iv_size: u8,
    subsampled: bool,
)
    requires
        entries_fit(entries, iv_size),
        holds(raw, at, senc_entries_bytes(entries, subsampled)),
        at + senc_entries_bytes(entries, subsampled).len() == raw.len(),
    ensures
        senc_from(raw, at, iv_size, entries.len(), subsampled) matches Some(found) && gives_back(
            found,
            entries,
            iv_size,
            subsampled,
        ),
    decreases entries.len(),
{
    if entries.len() > 0 {
        let first = entries[0];
        let rest = entries.drop_first();
        let own = senc_entry_bytes(first, subsampled);
        let more = senc_entries_bytes(rest, subsampled);
        let listed = only_if(subsampled, u16_bytes(first.runs.len() as u16) + runs_bytes(first.runs));
        assert(first.iv.len() == iv_size && first.runs.len() <= 0xffff);
        lemma_split(raw, at, own, more);
        lemma_split(raw, at, first.iv, listed);
        lemma_runs_read_back(raw, at + iv_size, first.runs, subsampled);
        assert forall|i: int| 0 <= i < rest.len() implies (#[trigger] rest[i]).iv.len() == iv_size
            && rest[i].runs.len() <= 0xffff by {
            assert(rest[i] == entries[i + 1]);
        }
        senc_entries_read_back(raw, at + own.len(), rest, iv_size, subsampled);
        let (runs, next) = runs_at(raw, at + iv_size, subsampled)->0;
        let tail = senc_from(raw, at + own.len(), iv_size, rest.len(), subsampled)->0;
        let found = senc_from(raw, at, iv_size, entries.len(), subsampled)->0;
        let iv = iv_at(raw, at, iv_size as int);
        assert(found.1 == seq![runs] + tail.1);
        assert forall|i: int, j: int|
            iv_size > 0 && 0 <= i < entries.len() && 0 <= j < 16 implies (
        #[trigger] found.0[i][j]) == (if j < iv_size {
            entries[i].iv[j]
        } else {
            0u8
        }) by {
            if i == 0 {
                assert(found.0[0] == iv);
                if j < iv_size {
                    assert(raw[at + j] == first.iv[j]);
                }
            } else {
                assert(found.0[i] == tail.0[i - 1]);
                assert(tail.0[i - 1][j] == (if j < iv_size {
                    rest[i - 1].iv[j]
                } else {
                    0u8
                }));
            }
        }
        assert forall|i: int| iv_size > 0 && 0 <= i < entries.len() implies (
        #[trigger] found.0[i]).len() == 16 by {
            if i > 0 {
                assert(found.0[i] == tail.0[i - 1]);
            }
        }
        assert forall|i: int| 0 <= i < entries.len() implies (#[trigger] found.1[i]).len() == (
        if subsampled {
            entries[i].runs.len()
        } else {
            0
        }) by {
            if i > 0 {
                assert(found.1[i] == tail.1[i - 1]);
                assert(rest[i - 1] == entries[i]);
            }
        }
        assert forall|i: int, j: int|
            subsampled && 0 <= i < entries.len() && 0 <= j < entries[i].runs.len() implies (
        #[trigger] found.1[i][j]) == (entries[i].runs[j].0 as u32, entries[i].runs[j].1) by {
            if i > 0 {
                assert(found.1[i] == tail.1[i - 1]);
                assert(rest[i - 1] == entries[i]);
                assert(tail.1[i - 1][j] == (rest[i - 1].runs[j].0 as u32, rest[i - 1].runs[j].1));
            }
        }
    }
}

/// The body of a `senc`: version and flags, the count, then the samples.
pub open spec fn senc_bytes(version: u8, flags: u32, entries: Seq<SencEntry>) -> Seq<u8> {
    u32_bytes(version_and_flags(version, flags)) + u32_bytes(entries.len() as u32)
        + senc_entries_bytes(entries, flags & 0x02 != 0)
}

/// A `senc` that was written reads back, at the size the track declares, and at the sizes sixteen
/// and eight also where the track declares another that its entries do not fit.
pub proof fn a_senc_reads_back(
    data: Seq<u8>,
    senc: Header,
    declared: u8,
    iv_size: u8,
    samples: nat,
    version: u8,
    flags: u32,
    entries: Seq<SencEntry>,
)
    requires
        flags < 0x100_0000,
        entries_fit(entries, iv_size),
        entries.len() <= 2 * samples || (samples == 0 && entries.len() <= 2),
        entries.len() <= 0x10_0000,
        holds(data, senc.body, senc_bytes(version, flags, entries)),
        senc.end == senc.body + senc_bytes(version, flags, entries).len(),
        ({
            let raw = senc_entries_bytes(entries, flags & 0x02 != 0);
            let fits = |size: u8| senc_from(raw, 0, size, entries.len(), flags & 0x02 != 0) is Some;
            ||| declared == iv_size
            ||| iv_size == 16 && !fits(declared)
            ||| iv_size == 8 && !fits(declared) && !fits(16)
        }),
    ensures
        gives_back(senc_of(data, senc, declared, samples), entries, iv_size, flags & 0x02 != 0),
{
    let subsampled = flags & 0x02 != 0;
    let head = u32_bytes(version_and_flags(version, flags));
    let count = u32_bytes(entries.len() as u32);
    let body = senc_entries_bytes(entries, subsampled);
    let at = senc.body;
    lemma_split(data, at, head + count, body);
    lemma_split(data, at, head, count);
    flags_read_back(data, senc, version, flags);
    a_word_reads_back(data, at + 4, entries.len() as u32);
    lemma_held(data, at + 8, body);
    let raw = data.subrange(senc.body + 8, senc.end);
    assert(raw == body);
    assert(holds(raw, 0, body));
    senc_entries_read_back(raw, 0, entries, iv_size, subsampled);
    let sizes = seq![declared, 16u8, 8u8, 0u8];
    assert(sizes.drop_first() =~= seq![16u8, 8u8, 0u8]);
    assert(sizes.drop_first().drop_first() =~= seq![8u8, 0u8]);
    reveal_with_fuel(senc_fit, 4);
}

/// A `senc` that declares more than twice as many IVs as there are samples is not believed, nor
/// one that declares more than a fragment may hold.
pub proof fn an_oversized_senc_is_not_believed(
    data: Seq<u8>,
    senc: Header,
    declared: u8,
    samples: nat,
    count: u32,
)
    requires
        senc.body + 8 <= senc.end,
        holds(data, senc.body + 4, u32_bytes(count)),
        count > 0x10_0000 || (samples > 0 && count > 2 * samples),
    ensures
        senc_of(data, senc, declared, samples).0.len() == 0,
        senc_of(data, senc, declared, samples).1.len() == 0,
{
    a_word_reads_back(data, senc.body + 4, count);
}

/// How many bytes the samples in front of one of them take.
pub open spec fn total_before(entries: Seq<RunEntry>, i: int) -> int
    decreases i,
{
    if i <= 0 {
        0
    } else {
        total_before(entries, i - 1) + entries[i - 1].size
    }
}

proof fn lemma_total_grows(entries: Seq<RunEntry>, i: int, j: int)
    requires
        0 <= i <= j <= entries.len(),
    ensures
        total_before(entries, i) <= total_before(entries, j),
    decreases j,
{
    if i < j {
        lemma_total_grows(entries, i, j - 1);
    }
}

/// Samples that are all there stand one behind the other.
proof fn lemma_samples_stand(
    entries: Seq<RunEntry>,
    sizes: Seq<u32>,
    senc: SencModel,
    index: int,
    base: int,
    limit: int,
)
    requires
        0 <= index <= entries.len(),
        sizes.len() == entries.len(),
        forall|i: int|
            0 <= i < sizes.len() ==> #[trigger] sizes[i] == entries[i].size && entries[i].size > 0,
        base + total_before(entries, entries.len() as int) <= limit,
    ensures
        ({
            let found = samples_from(
                sizes,
                senc,
                index,
                base + total_before(entries, index),
                limit,
            );
            &&& found.len() == entries.len() - index
            &&& forall|i: int|
                index <= i < entries.len() ==> #[trigger] found[i - index] == (SampleModel {
                    start: base + total_before(entries, i),
                    len: entries[i].size as int,
                    iv: iv_for(senc.0, i),
                    subs: runs_for(senc.1, i),
                })
        }),
    decreases entries.len() - index,
{
    if index < entries.len() {
        assert(sizes[index] == entries[index].size);
        lemma_total_grows(entries, index + 1, entries.len() as int);
        lemma_samples_stand(entries, sizes, senc, index + 1, base, limit);
        let found = samples_from(sizes, senc, index, base + total_before(entries, index), limit);
        let rest = samples_from(
            sizes,
            senc,
            index + 1,
            base + total_before(entries, index + 1),
            limit,
        );
        assert forall|i: int| index <= i < entries.len() implies #[trigger] found[i - index] == (
        SampleModel {
            start: base + total_before(entries, i),
            len: entries[i].size as int,
            iv: iv_for(senc.0, i),
            subs: runs_for(senc.1, i),
        }) by {
            if i > index {
                assert(found[i - index] == rest[i - index - 1]);
                assert(rest[i - (index + 1)].start == base + total_before(entries, i));
            }
        }
    }
}

/// A fragment: what its boxes carry, and the media behind them.
pub struct Fragment {
    pub sequence: Seq<u8>,
    pub head_version: u8,
    pub head_flags: u32,
    pub head: HeadFields,
    pub time_version: u8,
    pub time_flags: Seq<u8>,
    pub ticks: u64,
    pub run_version: u8,
    pub run_flags: u32,
    pub offset: int,
    pub first_flags: u32,
    pub entries: Seq<RunEntry>,
    pub senc_version: u8,
    pub senc_flags: u32,
    pub ivs: Seq<SencEntry>,
    pub media: Seq<u8>,
}

/// The boxes of the `traf`: `tfhd`, `tfdt`, `trun` and `senc`.
pub open spec fn traf_boxes(fragment: Fragment) -> Seq<(Seq<u8>, Seq<u8>)> {
    seq![
        (
            seq![0x74u8, 0x66, 0x68, 0x64],
            tfhd_bytes(fragment.head_version, fragment.head_flags, fragment.head),
        ),
        (
            seq![0x74u8, 0x66, 0x64, 0x74],
            tfdt_bytes(fragment.time_version, fragment.time_flags, fragment.ticks),
        ),
        (
            seq![0x74u8, 0x72, 0x75, 0x6e],
            trun_bytes(
                fragment.run_version,
                fragment.run_flags,
                fragment.offset,
                fragment.first_flags,
                fragment.entries,
            ),
        ),
        (
            seq![0x73u8, 0x65, 0x6e, 0x63],
            senc_bytes(fragment.senc_version, fragment.senc_flags, fragment.ivs),
        ),
    ]
}

/// The boxes of the `moof`: `mfhd` and `traf`.
pub open spec fn moof_boxes(fragment: Fragment) -> Seq<(Seq<u8>, Seq<u8>)> {
    seq![
        (seq![0x6du8, 0x66, 0x68, 0x64], fragment.sequence),
        (seq![0x74u8, 0x72, 0x61, 0x66], boxes_bytes(traf_boxes(fragment))),
    ]
}

/// The two boxes of a fragment: `moof` and `mdat`.
pub open spec fn fragment_boxes(fragment: Fragment) -> Seq<(Seq<u8>, Seq<u8>)> {
    seq![
        (seq![0x6du8, 0x6f, 0x6f, 0x66], boxes_bytes(moof_boxes(fragment))),
        (seq![0x6du8, 0x64, 0x61, 0x74], fragment.media),
    ]
}

/// Where the media of a fragment starts.
pub open spec fn media_at(fragment: Fragment, at: int) -> int {
    at + 8 + boxes_bytes(moof_boxes(fragment)).len() + 8
}

/// Where the samples of a fragment start: the data offset counts from the data base its `tfhd`
/// names, or else from where the fragment starts.
pub open spec fn samples_at(fragment: Fragment, at: int) -> int {
    fragment.offset + (if fragment.head_flags & 0x01 != 0 {
        fragment.head.base as int
    } else {
        at
    })
}

/// A fragment that can be written: every field fits, every sample has a size and an IV, and the
/// samples lie within the media.
pub open spec fn can_be_written(fragment: Fragment, at: int, iv_size: u8) -> bool {
    &&& fragment.head_flags < 0x100_0000
    &&& fragment.run_flags < 0x100_0000
    &&& fragment.senc_flags < 0x100_0000
    &&& fragment.run_flags & 0x01 != 0
    &&& fragment.run_flags & 0x0200 != 0
    &&& fragment.time_flags.len() == 3
    &&& fragment.time_version == 0 ==> fragment.ticks <= u32::MAX
    &&& -0x8000_0000 <= fragment.offset < 0x8000_0000
    &&& 0 < fragment.entries.len() <= 0x10_0000
    &&& fragment.ivs.len() == fragment.entries.len()
    &&& forall|i: int| 0 <= i < fragment.entries.len() ==> (#[trigger] fragment.entries[i]).size > 0
    &&& iv_size > 0
    &&& entries_fit(fragment.ivs, iv_size)
    &&& fit_boxes(traf_boxes(fragment))
    &&& fit_boxes(moof_boxes(fragment))
    &&& fit_boxes(fragment_boxes(fragment))
    &&& media_at(fragment, at) <= samples_at(fragment, at)
    &&& samples_at(fragment, at) + total_before(
        fragment.entries,
        fragment.entries.len() as int,
    ) <= media_at(fragment, at) + fragment.media.len()
}

/// The first track of an id is the one it is known by.
proof fn lemma_track_known(tracks: Seq<Encrypted>, track: u32, place: int)
    requires
        0 <= place < tracks.len(),
        tracks[place].track == track,
        forall|i: int| 0 <= i < place ==> (#[trigger] tracks[i]).track != track,
    ensures
        track_known(tracks, track) == Some(tracks[place]),
    decreases tracks.len(),
{
    if place > 0 {
        assert(tracks[0].track != track);
        let rest = tracks.drop_first();
        assert forall|i: int| 0 <= i < place - 1 implies (#[trigger] rest[i]).track != track by {
            assert(rest[i] == tracks[i + 1]);
        }
        lemma_track_known(rest, track, place - 1);
    }
}

proof fn lemma_track_unknown(tracks: Seq<Encrypted>, track: u32)
    requires
        forall|i: int| 0 <= i < tracks.len() ==> (#[trigger] tracks[i]).track != track,
    ensures
        track_known(tracks, track) is None,
    decreases tracks.len(),
{
    if tracks.len() > 0 {
        assert(tracks[0].track != track);
        let rest = tracks.drop_first();
        assert forall|i: int| 0 <= i < rest.len() implies (#[trigger] rest[i]).track != track by {
            assert(rest[i] == tracks[i + 1]);
        }
        lemma_track_unknown(rest, track);
    }
}

/// Samples belong to the first track with their id, to the only track there is where none has it,
/// and to no track otherwise.
pub proof fn samples_find_their_track(tracks: Seq<Encrypted>, track: u32)
    ensures
        forall|place: int|
            0 <= place < tracks.len() && (#[trigger] tracks[place]).track == track && (forall|i: int|
                0 <= i < place ==> (#[trigger] tracks[i]).track != track) ==> track_for(
                tracks,
                track,
            ) == Some(tracks[place]),
        (forall|i: int| 0 <= i < tracks.len() ==> (#[trigger] tracks[i]).track != track)
            ==> track_for(tracks, track) == (if tracks.len() == 1 {
            Some(tracks[0])
        } else {
            None
        }),
{
    assert forall|place: int|
        0 <= place < tracks.len() && (#[trigger] tracks[place]).track == track && (forall|i: int|
            0 <= i < place ==> (#[trigger] tracks[i]).track != track) implies track_for(
        tracks,
        track,
    ) == Some(tracks[place]) by {
        lemma_track_known(tracks, track, place);
    }
    if forall|i: int| 0 <= i < tracks.len() ==> (#[trigger] tracks[i]).track != track {
        lemma_track_unknown(tracks, track);
    }
}

/// The boxes of a `traf` that was written are found in it, each with what it carries.
proof fn lemma_traf_boxes_stand(data: Seq<u8>, traf: Header, fragment: Fragment)
    requires
        fit_boxes(traf_boxes(fragment)),
        holds(data, traf.body, boxes_bytes(traf_boxes(fragment))),
        traf.end == traf.body + boxes_bytes(traf_boxes(fragment)).len(),
    ensures
        child_of(data, traf.body, traf.end, seq![0x74u8, 0x66, 0x68, 0x64]) matches Some(tfhd)
            && holds(data, tfhd.body, traf_boxes(fragment)[0].1) && tfhd.end == tfhd.body
            + traf_boxes(fragment)[0].1.len(),
        child_of(data, traf.body, traf.end, seq![0x74u8, 0x66, 0x64, 0x74]) matches Some(tfdt)
            && holds(data, tfdt.body, traf_boxes(fragment)[1].1) && tfdt.end == tfdt.body
            + traf_boxes(fragment)[1].1.len(),
        child_of(data, traf.body, traf.end, seq![0x74u8, 0x72, 0x75, 0x6e]) matches Some(trun)
            && holds(data, trun.body, traf_boxes(fragment)[2].1) && trun.end == trun.body
            + traf_boxes(fragment)[2].1.len(),
        child_of(data, traf.body, traf.end, seq![0x73u8, 0x65, 0x6e, 0x63]) matches Some(senc)
            && holds(data, senc.body, traf_boxes(fragment)[3].1) && senc.end == senc.body
            + traf_boxes(fragment)[3].1.len(),
{
    let boxes = traf_boxes(fragment);
    let tfhd = seq![0x74u8, 0x66, 0x68, 0x64];
    let tfdt = seq![0x74u8, 0x66, 0x64, 0x74];
    let trun = seq![0x74u8, 0x72, 0x75, 0x6e];
    let senc = seq![0x73u8, 0x65, 0x6e, 0x63];
    assert(tfhd[2] != tfdt[2]);
    assert(tfhd[1] != trun[1]);
    assert(tfdt[1] != trun[1]);
    assert(tfhd[0] != senc[0]);
    assert(tfdt[0] != senc[0]);
    assert(trun[0] != senc[0]);
    the_first_of_a_kind_is_found(data, traf.body, boxes, tfhd, 0);
    the_first_of_a_kind_is_found(data, traf.body, boxes, tfdt, 1);
    the_first_of_a_kind_is_found(data, traf.body, boxes, trun, 2);
    the_first_of_a_kind_is_found(data, traf.body, boxes, senc, 3);
}

/// What was found of the samples of a fragment is what was written: each stands behind the ones in
/// front of it, with its size, its IV padded to sixteen bytes, and its runs.
pub open spec fn samples_read_back(
    samples: Seq<SampleModel>,
    fragment: Fragment,
    start: int,
    iv_size: u8,
) -> bool {
    &&& samples.len() == fragment.entries.len()
    &&& forall|i: int|
        0 <= i < samples.len() ==> (#[trigger] samples[i]).start == start + total_before(
            fragment.entries,
            i,
        ) && samples[i].len == fragment.entries[i].size && samples[i].iv.len() == 16
            && samples[i].subs.len() == (if fragment.senc_flags & 0x02 != 0 {
            fragment.ivs[i].runs.len()
        } else {
            0
        })
    &&& forall|i: int, j: int|
        0 <= i < samples.len() && 0 <= j < 16 ==> #[trigger] samples[i].iv[j] == (if j < iv_size {
            fragment.ivs[i].iv[j]
        } else {
            0u8
        })
    &&& fragment.senc_flags & 0x02 != 0 ==> forall|i: int, j: int|
        0 <= i < samples.len() && 0 <= j < fragment.ivs[i].runs.len()
            ==> #[trigger] samples[i].subs[j] == (
            fragment.ivs[i].runs[j].0 as u32,
            fragment.ivs[i].runs[j].1,
        )
}

/// The samples of a `traf` that was written.
proof fn lemma_traf_reads_back(
    data: Seq<u8>,
    at: int,
    mdat: Header,
    traf: Header,
    tracks: Seq<Encrypted>,
    encrypted: Encrypted,
    fragment: Fragment,
)
    requires
        can_be_written(fragment, at, encrypted.iv_size),
        holds(data, traf.body, boxes_bytes(traf_boxes(fragment))),
        traf.end == traf.body + boxes_bytes(traf_boxes(fragment)).len(),
        track_for(tracks, fragment.head.track) == Some(encrypted),
        mdat.body == media_at(fragment, at),
        mdat.end == mdat.body + fragment.media.len(),
    ensures
        samples_read_back(
            traf_samples(data, at, mdat, traf, tracks),
            fragment,
            samples_at(fragment, at),
            encrypted.iv_size,
        ),
        decode_time_of(data, traf) == Some(fragment.ticks),
{
    assert(TFHD@ =~= seq![0x74u8, 0x66, 0x68, 0x64]);
    assert(TFDT@ =~= seq![0x74u8, 0x66, 0x64, 0x74]);
    assert(TRUN@ =~= seq![0x74u8, 0x72, 0x75, 0x6e]);
    assert(SENC@ =~= seq![0x73u8, 0x65, 0x6e, 0x63]);
    lemma_traf_boxes_stand(data, traf, fragment);
    let tfhd = child_of(data, traf.body, traf.end, TFHD@)->0;
    let tfdt = child_of(data, traf.body, traf.end, TFDT@)->0;
    let trun = child_of(data, traf.body, traf.end, TRUN@)->0;
    let senc = child_of(data, traf.body, traf.end, SENC@)->0;
    a_head_reads_back(data, tfhd, fragment.head_version, fragment.head_flags, fragment.head);
    a_time_reads_back(
        data,
        traf,
        tfdt,
        fragment.time_version,
        fragment.time_flags,
        fragment.ticks,
    );
    a_run_reads_back(
        data,
        trun,
        tfhd_in(data, traf),
        fragment.run_version,
        fragment.run_flags,
        fragment.offset,
        fragment.first_flags,
        fragment.entries,
    );
    let run = trun_in(data, traf)->0;
    a_senc_reads_back(
        data,
        senc,
        encrypted.iv_size,
        encrypted.iv_size,
        run.sizes.len(),
        fragment.senc_version,
        fragment.senc_flags,
        fragment.ivs,
    );
    let model = senc_in(data, traf, encrypted.iv_size, run.sizes.len());
    let start = samples_at(fragment, at);
    assert(run_base(tfhd_in(data, traf), at, run.offset) == start);
    lemma_total_grows(fragment.entries, 0, fragment.entries.len() as int);
    assert forall|i: int| 0 <= i < run.sizes.len() implies #[trigger] run.sizes[i]
        == fragment.entries[i].size && fragment.entries[i].size > 0 by {}
    lemma_samples_stand(fragment.entries, run.sizes, model, 0, start, mdat.end);
    let samples = traf_samples(data, at, mdat, traf, tracks);
    assert(samples == samples_from(run.sizes, model, 0, start, mdat.end));
    assert forall|i: int| 0 <= i < samples.len() implies #[trigger] samples[i] == (SampleModel {
        start: start + total_before(fragment.entries, i),
        len: fragment.entries[i].size as int,
        iv: model.0[i],
        subs: model.1[i],
    }) by {
        assert(samples[i - 0].start == start + total_before(fragment.entries, i));
    }
    assert forall|i: int, j: int| 0 <= i < samples.len() && 0 <= j < 16 implies
        #[trigger] samples[i].iv[j] == (if j < encrypted.iv_size {
        fragment.ivs[i].iv[j]
    } else {
        0u8
    }) by {
        assert(samples[i].iv == model.0[i]);
        assert(model.0[i][j] == (if j < encrypted.iv_size {
            fragment.ivs[i].iv[j]
        } else {
            0u8
        }));
    }
    assert forall|i: int, j: int|
        fragment.senc_flags & 0x02 != 0 && 0 <= i < samples.len() && 0 <= j
            < fragment.ivs[i].runs.len() implies #[trigger] samples[i].subs[j] == (
        fragment.ivs[i].runs[j].0 as u32,
        fragment.ivs[i].runs[j].1,
    ) by {
        assert(samples[i].subs == model.1[i]);
        assert(model.1[i][j] == (fragment.ivs[i].runs[j].0 as u32, fragment.ivs[i].runs[j].1));
    }
}

/// A fragment that was written reads back: where every sample lies, how long it is, its IV and its
/// runs, where the fragment starts on the media timeline, and where the next box starts.
pub proof fn a_fragment_reads_back(
    data: Seq<u8>,
    at: int,
    tracks: Seq<Encrypted>,
    encrypted: Encrypted,
    fragment: Fragment,
)
    requires
        can_be_written(fragment, at, encrypted.iv_size),
        holds(data, at, boxes_bytes(fragment_boxes(fragment))),
        track_for(tracks, fragment.head.track) == Some(encrypted),
    ensures
        step_at(data, at, tracks) matches StepModel::Fragment { samples, next, decode } && {
            &&& samples_read_back(
                samples,
                fragment,
                samples_at(fragment, at),
                encrypted.iv_size,
            )
            &&& decode == Some(fragment.ticks)
            &&& next == at + boxes_bytes(fragment_boxes(fragment)).len()
        },
{
    let boxes = fragment_boxes(fragment);
    let kids = moof_boxes(fragment);
    let inner = boxes_bytes(kids);
    assert(MOOF@ =~= seq![0x6du8, 0x6f, 0x6f, 0x66]);
    assert(MDAT@ =~= seq![0x6du8, 0x64, 0x61, 0x74]);
    assert(TRAF@ =~= seq![0x74u8, 0x72, 0x61, 0x66]);
    lemma_two_boxes(data, at, boxes);
    let moof = box_at(data, at)->0;
    let mdat = box_at(data, moof.end)->0;
    lemma_two_boxes(data, moof.body, kids);
    let mfhd = box_at(data, moof.body)->0;
    let traf = box_at(data, mfhd.end)->0;
    assert(mfhd.kind[0] != TRAF@[0]);
    lemma_traf_reads_back(data, at, mdat, traf, tracks, encrypted, fragment);
    assert(traf.end == moof.end);
    if let Some(beyond) = box_at(data, moof.end) {
        assert(beyond.end > moof.end);
    }
    let own = traf_samples(data, at, mdat, traf, tracks);
    assert(trafs_samples(data, traf.end, moof.end, at, mdat, tracks) =~= Seq::empty());
    assert(trafs_samples(data, mfhd.end, moof.end, at, mdat, tracks) =~= own);
    assert(trafs_samples(data, moof.body, moof.end, at, mdat, tracks) =~= own);
    assert(trafs_decode(data, mfhd.end, moof.end) == Some(fragment.ticks));
    assert(trafs_decode(data, moof.body, moof.end) == Some(fragment.ticks));
}

/// Two boxes that were written one behind the other are found so.
proof fn lemma_two_boxes(data: Seq<u8>, at: int, boxes: Seq<(Seq<u8>, Seq<u8>)>)
    requires
        boxes.len() == 2,
        fit_boxes(boxes),
        holds(data, at, boxes_bytes(boxes)),
    ensures
        boxes_bytes(boxes).len() == 16 + boxes[0].1.len() + boxes[1].1.len(),
        box_at(data, at) == Some(
            Header {
                kind: boxes[0].0,
                body: at + 8,
                end: at + 8 + boxes[0].1.len(),
                total: 8 + boxes[0].1.len() as int,
            },
        ),
        holds(data, at + 8, boxes[0].1),
        box_at(data, at + 8 + boxes[0].1.len()) == Some(
            Header {
                kind: boxes[1].0,
                body: at + 16 + boxes[0].1.len(),
                end: at + 16 + boxes[0].1.len() + boxes[1].1.len(),
                total: 8 + boxes[1].1.len() as int,
            },
        ),
        holds(data, at + 16 + boxes[0].1.len(), boxes[1].1),
{
    let first = boxed(boxes[0].0, boxes[0].1);
    let second = boxed(boxes[1].0, boxes[1].1);
    assert(fits_box(boxes[0].0, boxes[0].1) && fits_box(boxes[1].0, boxes[1].1));
    assert(boxes.drop_first()[0] == boxes[1]);
    assert(boxes.drop_first().drop_first() =~= Seq::empty());
    assert(boxes_bytes(boxes.drop_first().drop_first()) =~= Seq::empty());
    assert(boxes_bytes(boxes.drop_first()) =~= second);
    assert(boxes_bytes(boxes) =~= first + second);
    lemma_split(data, at, first, second);
    a_box_reads_back(data, at, boxes[0].0, boxes[0].1);
    a_box_reads_back(data, at + first.len(), boxes[1].0, boxes[1].1);
}

/// Where there are fewer IVs than samples the last one serves the rest; where there are none
/// every sample has one of zeros.
pub proof fn the_last_iv_serves_the_rest(
    entries: Seq<RunEntry>,
    sizes: Seq<u32>,
    senc: SencModel,
    base: int,
    limit: int,
)
    requires
        sizes.len() == entries.len(),
        forall|i: int|
            0 <= i < sizes.len() ==> #[trigger] sizes[i] == entries[i].size && entries[i].size > 0,
        base + total_before(entries, entries.len() as int) <= limit,
    ensures
        ({
            let found = samples_from(sizes, senc, 0, base, limit);
            &&& found.len() == entries.len()
            &&& forall|i: int|
                0 <= i < found.len() && senc.0.len() > 0 ==> (#[trigger] found[i]).iv == senc.0[if i
                    < senc.0.len() {
                    i
                } else {
                    senc.0.len() - 1
                }]
            &&& forall|i: int, j: int|
                0 <= i < found.len() && senc.0.len() == 0 && 0 <= j < 16 ==> (
                #[trigger] found[i].iv[j]) == 0
            &&& forall|i: int|
                0 <= i < found.len() ==> (#[trigger] found[i]).subs == (if i < senc.1.len() {
                    senc.1[i]
                } else {
                    Seq::empty()
                })
        }),
{
    lemma_samples_stand(entries, sizes, senc, 0, base, limit);
    let found = samples_from(sizes, senc, 0, base, limit);
    assert forall|i: int| 0 <= i < found.len() implies (#[trigger] found[i]).iv == iv_for(senc.0, i)
        && found[i].subs == runs_for(senc.1, i) by {
        assert(found[i - 0].start == base + total_before(entries, i));
    }
    assert forall|i: int, j: int|
        0 <= i < found.len() && senc.0.len() == 0 && 0 <= j < 16 implies (#[trigger] found[i].iv[j])
        == 0 by {
        assert(found[i].iv == iv_for(senc.0, i));
    }
}

/// An empty sample is no sample, and changes nothing of those behind it.
pub proof fn an_empty_sample_is_left_out(
    sizes: Seq<u32>,
    senc: SencModel,
    index: int,
    at: int,
    limit: int,
)
    requires
        0 <= index < sizes.len(),
        sizes[index] == 0,
        at <= limit,
    ensures
        samples_from(sizes, senc, index, at, limit) == samples_from(
            sizes,
            senc,
            index + 1,
            at,
            limit,
        ),
{
}

/// The first sample that runs past the media ends the run.
pub proof fn a_run_ends_with_the_media(
    sizes: Seq<u32>,
    senc: SencModel,
    index: int,
    at: int,
    limit: int,
)
    requires
        0 <= index < sizes.len(),
        at + sizes[index] > limit,
    ensures
        samples_from(sizes, senc, index, at, limit).len() == 0,
{
}

/// A run that points outside the media gives no samples, and neither does a fragment without IVs
/// of a track that has one for each sample.
pub proof fn a_run_outside_the_media_gives_nothing(
    data: Seq<u8>,
    at: int,
    mdat: Header,
    traf: Header,
    tracks: Seq<Encrypted>,
    encrypted: Encrypted,
    run: TrunModel,
)
    requires
        track_for(tracks, track_in(data, traf)) == Some(encrypted),
        trun_in(data, traf) == Some(run),
        ({
            let base = match tfhd_in(data, traf).base {
                Some(base) => base as int,
                None => at,
            };
            ||| base + run.offset < mdat.body
            ||| base + run.offset > mdat.end
            ||| encrypted.iv_size > 0 && senc_in(
                data,
                traf,
                encrypted.iv_size,
                run.sizes.len(),
            ).0.len() == 0
        }),
    ensures
        traf_samples(data, at, mdat, traf, tracks).len() == 0,
{
}

/// A box that is no `moof` is skipped whole. A `moof` waits for the box behind it, and is skipped
/// when that is no `mdat`.
pub proof fn other_boxes_are_skipped(
    data: Seq<u8>,
    at: int,
    tracks: Seq<Encrypted>,
    kind: Seq<u8>,
    body: Seq<u8>,
    next: Seq<u8>,
    behind: Seq<u8>,
)
    requires
        fits_box(kind, body),
        fits_box(next, behind),
        holds(data, at, boxed(kind, body)),
    ensures
        kind != seq![0x6du8, 0x6f, 0x6f, 0x66] ==> step_at(data, at, tracks) == (StepModel::Other {
            next: at + 8 + body.len(),
        }),
        kind == seq![0x6du8, 0x6f, 0x6f, 0x66] && data.len() < at + 16 + body.len() ==> step_at(
            data,
            at,
            tracks,
        ) == StepModel::Partial,
        kind == seq![0x6du8, 0x6f, 0x6f, 0x66] && next != seq![0x6du8, 0x64, 0x61, 0x74] && holds(
            data,
            at + 8 + body.len(),
            boxed(next, behind),
        ) ==> step_at(data, at, tracks) == (StepModel::Other { next: at + 8 + body.len() }),
{
    assert(MOOF@ =~= seq![0x6du8, 0x6f, 0x6f, 0x66]);
    assert(MDAT@ =~= seq![0x6du8, 0x64, 0x61, 0x74]);
    a_box_reads_back(data, at, kind, body);
    if holds(data, at + 8 + body.len(), boxed(next, behind)) {
        a_box_reads_back(data, at + 8 + body.len(), next, behind);
    }
}

/// The body of a `tkhd` or an `mdhd`: its version and three bytes of flags, two times of four
/// bytes each in version zero and of eight in every other, then the number, and what follows it.
pub open spec fn timed_bytes(
    version: u8,
    flags: Seq<u8>,
    times: Seq<u8>,
    number: u32,
    rest: Seq<u8>,
) -> Seq<u8> {
    seq![version] + flags + times + u32_bytes(number) + rest
}

/// Flags and times of the lengths their version gives them.
pub open spec fn fits_times(version: u8, flags: Seq<u8>, times: Seq<u8>) -> bool {
    flags.len() == 3 && times.len() == (if version == 0 {
        8nat
    } else {
        16nat
    })
}

proof fn lemma_behind_times(
    data: Seq<u8>,
    bx: Header,
    version: u8,
    flags: Seq<u8>,
    times: Seq<u8>,
    number: u32,
    rest: Seq<u8>,
)
    requires
        fits_times(version, flags, times),
        holds(data, bx.body, timed_bytes(version, flags, times, number, rest)),
        bx.end == bx.body + timed_bytes(version, flags, times, number, rest).len(),
    ensures
        behind_times(data, bx) == Some(number),
{
    let head = seq![version] + flags + times;
    lemma_split(data, bx.body, head + u32_bytes(number), rest);
    lemma_split(data, bx.body, head, u32_bytes(number));
    lemma_split(data, bx.body, seq![version] + flags, times);
    lemma_split(data, bx.body, seq![version], flags);
    assert(data[bx.body + 0] == version);
    a_word_reads_back(data, bx.body + head.len(), number);
}

/// What an init segment says of one encrypted track.
pub struct InitTrack {
    pub head_version: u8,
    pub head_flags: Seq<u8>,
    pub head_times: Seq<u8>,
    pub track: u32,
    pub head_rest: Seq<u8>,
    pub media_version: u8,
    pub media_flags: Seq<u8>,
    pub media_times: Seq<u8>,
    pub timescale: u32,
    pub media_rest: Seq<u8>,
    /// The version, the flags and the entry count of the `stsd`.
    pub listing: Seq<u8>,
    /// What an audio sample entry carries in front of its boxes.
    pub entry_lead: Seq<u8>,
    /// What the `tenc` carries in front of the IV size.
    pub tenc_lead: Seq<u8>,
    pub iv_size: u8,
    pub key_id: Seq<u8>,
}

pub open spec fn tenc_body(track: InitTrack) -> Seq<u8> {
    track.tenc_lead + seq![track.iv_size] + track.key_id
}

proof fn lemma_one_box(data: Seq<u8>, at: int, kind: Seq<u8>, body: Seq<u8>)
    requires
        fits_box(kind, body),
        holds(data, at, boxed(kind, body)),
    ensures
        child_of(data, at, at + 8 + body.len(), kind) == Some(
            Header {
                kind,
                body: at + 8,
                end: at + 8 + body.len(),
                total: 8 + body.len() as int,
            },
        ),
        holds(data, at + 8, body),
{
    a_box_reads_back(data, at, kind, body);
}

/// The IV size of a sample entry that was written reads back.
pub proof fn an_iv_size_reads_back(data: Seq<u8>, at: int, track: InitTrack)
    requires
        track.tenc_lead.len() == 7,
        tenc_body(track).len() < 0x8000_0000,
        holds(
            data,
            at,
            boxed(
                seq![0x73u8, 0x69, 0x6e, 0x66],
                boxed(
                    seq![0x73u8, 0x63, 0x68, 0x69],
                    boxed(seq![0x74u8, 0x65, 0x6e, 0x63], tenc_body(track)),
                ),
            ),
        ),
    ensures
        iv_size_of(data, at, at + 24 + tenc_body(track).len()) == Some(track.iv_size),
{
    assert(SINF@ =~= seq![0x73u8, 0x69, 0x6e, 0x66]);
    assert(SCHI@ =~= seq![0x73u8, 0x63, 0x68, 0x69]);
    assert(TENC@ =~= seq![0x74u8, 0x65, 0x6e, 0x63]);
    let body = tenc_body(track);
    let tenc = boxed(TENC@, body);
    let schi = boxed(SCHI@, tenc);
    lemma_one_box(data, at, SINF@, schi);
    lemma_one_box(data, at + 8, SCHI@, tenc);
    lemma_one_box(data, at + 16, TENC@, body);
    assert(data[at + 24 + 7] == body[7]);
}

/// The sample entry: what an audio entry carries, and its protection.
pub open spec fn entry_body(track: InitTrack) -> Seq<u8> {
    track.entry_lead + boxed(
        seq![0x73u8, 0x69, 0x6e, 0x66],
        boxed(
            seq![0x73u8, 0x63, 0x68, 0x69],
            boxed(seq![0x74u8, 0x65, 0x6e, 0x63], tenc_body(track)),
        ),
    )
}

pub open spec fn stsd_body(track: InitTrack) -> Seq<u8> {
    track.listing + boxed(seq![0x65u8, 0x6e, 0x63, 0x61], entry_body(track))
}

pub open spec fn stbl_body(track: InitTrack) -> Seq<u8> {
    boxed(seq![0x73u8, 0x74, 0x73, 0x64], stsd_body(track))
}

pub open spec fn minf_body(track: InitTrack) -> Seq<u8> {
    boxed(seq![0x73u8, 0x74, 0x62, 0x6c], stbl_body(track))
}

pub open spec fn mdia_boxes(track: InitTrack) -> Seq<(Seq<u8>, Seq<u8>)> {
    seq![
        (
            seq![0x6du8, 0x64, 0x68, 0x64],
            timed_bytes(
                track.media_version,
                track.media_flags,
                track.media_times,
                track.timescale,
                track.media_rest,
            ),
        ),
        (seq![0x6du8, 0x69, 0x6e, 0x66], minf_body(track)),
    ]
}

pub open spec fn trak_boxes(track: InitTrack) -> Seq<(Seq<u8>, Seq<u8>)> {
    seq![
        (
            seq![0x74u8, 0x6b, 0x68, 0x64],
            timed_bytes(
                track.head_version,
                track.head_flags,
                track.head_times,
                track.track,
                track.head_rest,
            ),
        ),
        (seq![0x6du8, 0x64, 0x69, 0x61], boxes_bytes(mdia_boxes(track))),
    ]
}

/// The boxes of the `moov`: `mvhd` and one `trak`.
pub open spec fn moov_boxes(movie: Seq<u8>, track: InitTrack) -> Seq<(Seq<u8>, Seq<u8>)> {
    seq![
        (seq![0x6du8, 0x76, 0x68, 0x64], movie),
        (seq![0x74u8, 0x72, 0x61, 0x6b], boxes_bytes(trak_boxes(track))),
    ]
}

/// The boxes of an init segment: `ftyp` and `moov`.
pub open spec fn init_boxes(brand: Seq<u8>, movie: Seq<u8>, track: InitTrack) -> Seq<
    (Seq<u8>, Seq<u8>),
> {
    seq![
        (seq![0x66u8, 0x74, 0x79, 0x70], brand),
        (seq![0x6du8, 0x6f, 0x6f, 0x76], boxes_bytes(moov_boxes(movie, track))),
    ]
}

/// A version and flags that cannot be taken for the size of a box inside this body.
pub open spec fn heads_no_box(version: u8, flags: Seq<u8>, body: Seq<u8>) -> bool {
    let size = be_value(seq![version] + flags);
    size != 1 && (size < 8 || size > body.len())
}

/// An init segment that can be written.
pub open spec fn init_can_be_written(brand: Seq<u8>, movie: Seq<u8>, track: InitTrack) -> bool {
    &&& fits_times(track.head_version, track.head_flags, track.head_times)
    &&& fits_times(track.media_version, track.media_flags, track.media_times)
    &&& heads_no_box(track.head_version, track.head_flags, trak_boxes(track)[0].1)
    &&& heads_no_box(track.media_version, track.media_flags, mdia_boxes(track)[0].1)
    &&& track.timescale > 0
    &&& track.listing.len() == 8
    &&& track.entry_lead.len() == 28
    &&& track.tenc_lead.len() == 7
    &&& boxes_bytes(init_boxes(brand, movie, track)).len() < 0x8000_0000
}

/// A box whose body is no box holds no descendant.
proof fn lemma_nothing_inside(data: Seq<u8>, bx: Header, version: u8, flags: Seq<u8>, kind: Seq<u8>)
    requires
        flags.len() == 3,
        0 <= bx.body,
        bx.body + 4 <= bx.end <= data.len(),
        holds(data, bx.body, seq![version] + flags),
        heads_no_box(version, flags, data.subrange(bx.body, bx.end)),
    ensures
        descendant_of(data, bx.body, bx.end, kind) is None,
{
    lemma_held(data, bx.body, seq![version] + flags);
    assert(be_at(data, bx.body, 4) == Some(be_value(seq![version] + flags)));
}

/// An init segment that was written reads back: where it ends, the sample entry that claims
/// encryption, the track with its IV size, and the timescale.
#[verifier::spinoff_prover]
#[verifier::rlimit(60)]
pub proof fn an_init_segment_reads_back(
    data: Seq<u8>,
    brand: Seq<u8>,
    movie: Seq<u8>,
    track: InitTrack,
)
    requires
        init_can_be_written(brand, movie, track),
        holds(data, 0, boxes_bytes(init_boxes(brand, movie, track))),
    ensures
        init_of(data) matches Some(init) && {
            let end = boxes_bytes(init_boxes(brand, movie, track)).len();
            &&& init.end == end
            &&& init.entries == seq![end - 8 - entry_body(track).len()]
            &&& init.tracks == seq![Encrypted { track: track.track, iv_size: track.iv_size }]
            &&& init.timescale == track.timescale
        },
{
    let top = init_boxes(brand, movie, track);
    let kids = moov_boxes(movie, track);
    let parts = trak_boxes(track);
    let media = mdia_boxes(track);
    lemma_lengths(brand, movie, track);
    assert(MOOV@ =~= seq![0x6du8, 0x6f, 0x6f, 0x76]);
    assert(TRAK@ =~= seq![0x74u8, 0x72, 0x61, 0x6b]);
    assert(top[0].0[0] != MOOV@[0]);
    assert(kids[0].0[0] != TRAK@[0]);
    lemma_two_boxes(data, 0, top);
    let moov = box_at(data, (8 + brand.len()) as int)->0;
    lemma_two_boxes(data, moov.body, kids);
    let trak = box_at(data, moov.body + 8 + movie.len())->0;
    assert(trak.end == moov.end);
    lemma_trak_reads_back(data, trak, track);
    if let Some(beyond) = box_at(data, moov.end) {
        assert(beyond.end > moov.end);
    }
    let ftyp = box_at(data, 0)->0;
    assert(moov_from(data, ftyp.end) == Some(moov));
    assert(moov_from(data, 0) == Some(moov));
    let mvhd = box_at(data, moov.body)->0;
    assert(trak_encas(data, moov.end, moov.end) =~= Seq::empty());
    assert(trak_encas(data, mvhd.end, moov.end) =~= encas_of(data, trak));
    assert(trak_encas(data, moov.body, moov.end) =~= encas_of(data, trak));
    assert(trak_timescale(data, moov.end, moov.end, track.timescale) == track.timescale);
    assert(trak_timescale(data, mvhd.end, moov.end, 0) == track.timescale);
    assert(trak_timescale(data, moov.body, moov.end, 0) == track.timescale);
    let init = init_of(data)->0;
    assert(init.entries =~= seq![moov.end - 8 - entry_body(track).len()]);
    assert(init.tracks =~= seq![Encrypted { track: track.track, iv_size: track.iv_size }]);
}

/// Everything inside an init segment fits a box.
#[verifier::spinoff_prover]
#[verifier::rlimit(60)]
proof fn lemma_lengths(brand: Seq<u8>, movie: Seq<u8>, track: InitTrack)
    requires
        init_can_be_written(brand, movie, track),
    ensures
        fit_boxes(init_boxes(brand, movie, track)),
        fit_boxes(moov_boxes(movie, track)),
        fit_boxes(trak_boxes(track)),
        fit_boxes(mdia_boxes(track)),
        minf_body(track).len() < 0x8000_0000,
{
    let top = init_boxes(brand, movie, track);
    let kids = moov_boxes(movie, track);
    let parts = trak_boxes(track);
    let media = mdia_boxes(track);
    lemma_pair_length(top);
    lemma_pair_length(kids);
    lemma_pair_length(parts);
    lemma_pair_length(media);
    assert(top[1].1 == boxes_bytes(kids));
    assert(kids[1].1 == boxes_bytes(parts));
    assert(parts[1].1 == boxes_bytes(media));
    assert(media[1].1 == minf_body(track));
}

proof fn lemma_pair_length(boxes: Seq<(Seq<u8>, Seq<u8>)>)
    requires
        boxes.len() == 2,
        boxes[0].0.len() == 4,
        boxes[1].0.len() == 4,
    ensures
        boxes_bytes(boxes).len() == 16 + boxes[0].1.len() + boxes[1].1.len(),
{
    let last = boxes.drop_first();
    assert(last.len() == 1 && last[0] == boxes[1]);
    assert(last.drop_first().len() == 0);
    assert(boxes_bytes(last.drop_first()).len() == 0);
    assert(boxes_bytes(last).len() == boxed(boxes[1].0, boxes[1].1).len());
}

/// A `trak` that was written reads back.
#[verifier::spinoff_prover]
#[verifier::rlimit(60)]
proof fn lemma_trak_reads_back(data: Seq<u8>, trak: Header, track: InitTrack)
    requires
        fits_times(track.head_version, track.head_flags, track.head_times),
        fits_times(track.media_version, track.media_flags, track.media_times),
        heads_no_box(track.head_version, track.head_flags, trak_boxes(track)[0].1),
        heads_no_box(track.media_version, track.media_flags, mdia_boxes(track)[0].1),
        track.timescale > 0,
        track.listing.len() == 8,
        track.entry_lead.len() == 28,
        track.tenc_lead.len() == 7,
        fit_boxes(trak_boxes(track)),
        fit_boxes(mdia_boxes(track)),
        minf_body(track).len() < 0x8000_0000,
        holds(data, trak.body, boxes_bytes(trak_boxes(track))),
        trak.end == trak.body + boxes_bytes(trak_boxes(track)).len(),
    ensures
        timescale_of(data, trak.body, trak.end) == Some(track.timescale),
        encas_of(data, trak) == seq![
            (
                trak.end - 8 - entry_body(track).len(),
                Encrypted { track: track.track, iv_size: track.iv_size },
            ),
        ],
{
    let parts = trak_boxes(track);
    let media = mdia_boxes(track);
    assert(TKHD@ =~= seq![0x74u8, 0x6b, 0x68, 0x64]);
    assert(MDIA@ =~= seq![0x6du8, 0x64, 0x69, 0x61]);
    assert(MDHD@ =~= seq![0x6du8, 0x64, 0x68, 0x64]);
    assert(STSD@ =~= seq![0x73u8, 0x74, 0x73, 0x64]);
    assert(ENCA@ =~= seq![0x65u8, 0x6e, 0x63, 0x61]);
    assert(TKHD@[0] != MDIA@[0] && TKHD@[0] != STSD@[0] && MDIA@[0] != STSD@[0]);
    assert(MDHD@[0] != STSD@[0]);
    let minf = seq![0x6du8, 0x69, 0x6e, 0x66];
    let stbl = seq![0x73u8, 0x74, 0x62, 0x6c];
    assert(minf[0] != STSD@[0] && stbl[2] != STSD@[2]);
    lemma_two_boxes(data, trak.body, parts);
    let tkhd = box_at(data, trak.body)->0;
    let mdia = box_at(data, tkhd.end)->0;
    assert(mdia.end == trak.end);
    assert(child_of(data, trak.body, trak.end, TKHD@) == Some(tkhd));
    assert(child_of(data, trak.body, trak.end, MDIA@) == Some(mdia)) by {
        assert(child_of(data, tkhd.end, trak.end, MDIA@) == Some(mdia));
    }
    lemma_behind_times(
        data,
        tkhd,
        track.head_version,
        track.head_flags,
        track.head_times,
        track.track,
        track.head_rest,
    );
    lemma_two_boxes(data, mdia.body, media);
    let mdhd = box_at(data, mdia.body)->0;
    let info = box_at(data, mdhd.end)->0;
    assert(info.end == mdia.end);
    assert(child_of(data, mdia.body, mdia.end, MDHD@) == Some(mdhd));
    lemma_behind_times(
        data,
        mdhd,
        track.media_version,
        track.media_flags,
        track.media_times,
        track.timescale,
        track.media_rest,
    );
    // down to the sample entry
    a_box_reads_back(data, info.body, stbl, stbl_body(track));
    let table = box_at(data, info.body)->0;
    a_box_reads_back(data, table.body, STSD@, stsd_body(track));
    let stsd = box_at(data, table.body)->0;
    assert(stsd.end == table.end == info.end);
    lemma_split(
        data,
        stsd.body,
        track.listing,
        boxed(seq![0x65u8, 0x6e, 0x63, 0x61], entry_body(track)),
    );
    a_box_reads_back(data, stsd.body + 8, ENCA@, entry_body(track));
    let enca = box_at(data, stsd.body + 8)->0;
    assert(enca.end == stsd.end);
    lemma_split(
        data,
        enca.body,
        track.entry_lead,
        boxed(
            seq![0x73u8, 0x69, 0x6e, 0x66],
            boxed(
                seq![0x73u8, 0x63, 0x68, 0x69],
                boxed(seq![0x74u8, 0x65, 0x6e, 0x63], tenc_body(track)),
            ),
        ),
    );
    an_iv_size_reads_back(data, enca.body + 28, track);
    assert(enca.end == enca.body + 28 + 24 + tenc_body(track).len());
    // the walk that finds the table
    lemma_starts_with(data, tkhd, track.head_version, track.head_flags, parts[0].1);
    lemma_nothing_inside(data, tkhd, track.head_version, track.head_flags, STSD@);
    lemma_starts_with(data, mdhd, track.media_version, track.media_flags, media[0].1);
    lemma_nothing_inside(data, mdhd, track.media_version, track.media_flags, STSD@);
    assert(descendant_of(data, table.body, table.end, STSD@) == Some(stsd));
    assert(descendant_of(data, info.body, info.end, STSD@) == Some(stsd));
    assert(descendant_of(data, mdhd.end, mdia.end, STSD@) == Some(stsd));
    assert(descendant_of(data, mdia.body, mdia.end, STSD@) == Some(stsd));
    assert(descendant_of(data, tkhd.end, trak.end, STSD@) == Some(stsd));
    assert(descendant_of(data, trak.body, trak.end, STSD@) == Some(stsd));
    if let Some(beyond) = box_at(data, stsd.end) {
        assert(beyond.end > stsd.end);
    }
    assert(encas_from(data, stsd.end, stsd.end, track.track) =~= Seq::empty());
    assert(encas_of(data, trak) =~= seq![
        (
            trak.end - 8 - entry_body(track).len(),
            Encrypted { track: track.track, iv_size: track.iv_size },
        ),
    ]);
}

/// A body that starts with a version and flags.
proof fn lemma_starts_with(data: Seq<u8>, bx: Header, version: u8, flags: Seq<u8>, body: Seq<u8>)
    requires
        flags.len() == 3,
        body.len() >= 4,
        body[0] == version,
        forall|i: int| 0 <= i < 3 ==> body[i + 1] == #[trigger] flags[i],
        holds(data, bx.body, body),
        bx.end == bx.body + body.len(),
    ensures
        holds(data, bx.body, seq![version] + flags),
        data.subrange(bx.body, bx.end) == body,
{
    lemma_held(data, bx.body, body);
    let head = seq![version] + flags;
    assert forall|i: int| 0 <= i < head.len() implies #[trigger] data[bx.body + i] == head[i] by {
        assert(data[bx.body + i] == body[i]);
        if i > 0 {
            assert(body[i] == flags[i - 1]);
        }
    }
}

/// Relabelling a sample entry changes the four bytes of its kind to `mp4a`, and nothing else.
pub proof fn relabelling_changes_the_kind_alone(data: Seq<u8>, at: int, i: int)
    requires
        0 <= at,
        at + 8 <= data.len(),
        0 <= i < data.len(),
    ensures
        relabelled(data, seq![at]).len() == data.len(),
        relabelled(data, seq![at])[i] == (if i == at + 4 {
            0x6du8
        } else if i == at + 5 {
            0x70
        } else if i == at + 6 {
            0x34
        } else if i == at + 7 {
            0x61
        } else {
            data[i]
        }),
{
    assert(seq![at].drop_last() =~= Seq::<int>::empty());
    assert(relabelled(data, seq![at].drop_last()) == data);
}

/// Bytes that are cut short are no box: too few for a header, or fewer than the size they declare.
/// Neither are those that declare less than the header itself.
pub proof fn a_box_that_is_cut_short_is_none(data: Seq<u8>, at: int, size: u32)
    ensures
        0 <= at <= data.len() && data.len() < at + 4 ==> box_at(data, at) is None,
        holds(data, at, u32_bytes(size)) && size != 1 && (size < 8 || at + size > data.len())
            ==> box_at(data, at) is None,
        holds(data, at, u32_bytes(1)) && data.len() < at + 16 ==> box_at(data, at) is None,
{
    if holds(data, at, u32_bytes(size)) {
        a_word_reads_back(data, at, size);
        lemma_held(data, at, u32_bytes(size));
        lemma_be_value_4(u32_bytes(size));
    }
    if holds(data, at, u32_bytes(1)) {
        lemma_held(data, at, u32_bytes(1));
        lemma_be_value_4(u32_bytes(1));
    }
}

/// Boxes that were written one behind the other are listed, each where it stands.
pub proof fn every_box_is_listed(
    data: Seq<u8>,
    at: int,
    boxes: Seq<(Seq<u8>, Seq<u8>)>,
    end: int,
    place: int,
)
    requires
        fit_boxes(boxes),
        holds(data, at, boxes_bytes(boxes)),
        end == at + boxes_bytes(boxes).len(),
        0 <= place < boxes.len(),
    ensures
        boxes_from(data, at, end).len() == boxes.len(),
        ({
            let start = at + boxes_bytes(boxes.take(place)).len();
            boxes_from(data, at, end)[place] == (
                start,
                Header {
                    kind: boxes[place].0,
                    body: start + 8,
                    end: start + 8 + boxes[place].1.len(),
                    total: 8 + boxes[place].1.len() as int,
                },
            )
        }),
    decreases boxes.len(),
{
    let (kind, body) = boxes[0];
    let rest = boxes.drop_first();
    assert(fits_box(boxes[0].0, boxes[0].1));
    lemma_split(data, at, boxed(kind, body), boxes_bytes(rest));
    a_box_reads_back(data, at, kind, body);
    let next = at + 8 + body.len();
    assert forall|i: int| 0 <= i < rest.len() implies fits_box(
        (#[trigger] rest[i]).0,
        rest[i].1,
    ) by {
        assert(rest[i] == boxes[i + 1]);
    }
    assert(boxes_from(data, at, end) =~= seq![(at, box_at(data, at)->0)] + boxes_from(
        data,
        next,
        end,
    ));
    if rest.len() == 0 {
        assert(boxes_bytes(rest) =~= Seq::empty());
        if let Some(beyond) = box_at(data, next) {
            assert(beyond.end > next);
        }
        assert(boxes.take(0) =~= Seq::empty());
    } else if place == 0 {
        every_box_is_listed(data, next, rest, end, 0);
        assert(boxes.take(0) =~= Seq::empty());
    } else {
        every_box_is_listed(data, next, rest, end, place - 1);
        assert(boxes.take(place).drop_first() =~= rest.take(place - 1));
        assert(boxes.take(place)[0] == boxes[0]);
    }
}

/// What is found below a box is of the kind that was sought, lies inside, and is found whenever a
/// box of the kind stands there directly.
pub proof fn what_is_found_below_is_of_its_kind(data: Seq<u8>, at: int, end: int, kind: Seq<u8>)
    ensures
        descendant_of(data, at, end, kind) matches Some(found) ==> found.kind == kind && found.end
            <= end,
        child_of(data, at, end, kind) matches Some(found) ==> found.kind == kind && found.end <= end,
        child_of(data, at, end, kind) is Some ==> descendant_of(data, at, end, kind) is Some,
    decreases end - at,
{
    if let Some(bx) = box_at(data, at) {
        if bx.end <= end && bx.kind != kind {
            what_is_found_below_is_of_its_kind(data, bx.body, bx.end, kind);
            what_is_found_below_is_of_its_kind(data, bx.end, end, kind);
        }
    }
}

/// A sample entry that claims encryption and does not say how long its IVs are has IVs of sixteen
/// bytes.
pub proof fn ivs_are_sixteen_bytes_unless_told(
    data: Seq<u8>,
    at: int,
    end: int,
    track: u32,
    body: Seq<u8>,
)
    requires
        fits_box(seq![0x65u8, 0x6e, 0x63, 0x61], body),
        holds(data, at, boxed(seq![0x65u8, 0x6e, 0x63, 0x61], body)),
        at + 8 + body.len() <= end,
        iv_size_of(data, at + 36, at + 8 + body.len()) is None,
    ensures
        encas_from(data, at, end, track).len() > 0,
        encas_from(data, at, end, track)[0] == (at, Encrypted { track, iv_size: 16 }),
{
    assert(ENCA@ =~= seq![0x65u8, 0x6e, 0x63, 0x61]);
    a_box_reads_back(data, at, seq![0x65u8, 0x6e, 0x63, 0x61], body);
}

/// The tracks of a movie, each in its own `trak`.
pub open spec fn traks_bytes(tracks: Seq<InitTrack>) -> Seq<u8>
    decreases tracks.len(),
{
    if tracks.len() == 0 {
        Seq::empty()
    } else {
        boxed(seq![0x74u8, 0x72, 0x61, 0x6b], boxes_bytes(trak_boxes(tracks[0]))) + traks_bytes(
            tracks.drop_first(),
        )
    }
}

/// A track that can be written.
pub open spec fn track_can_be_written(track: InitTrack) -> bool {
    &&& fits_times(track.head_version, track.head_flags, track.head_times)
    &&& fits_times(track.media_version, track.media_flags, track.media_times)
    &&& heads_no_box(track.head_version, track.head_flags, trak_boxes(track)[0].1)
    &&& heads_no_box(track.media_version, track.media_flags, mdia_boxes(track)[0].1)
    &&& track.timescale > 0
    &&& track.listing.len() == 8
    &&& track.entry_lead.len() == 28
    &&& track.tenc_lead.len() == 7
    &&& boxes_bytes(trak_boxes(track)).len() < 0x8000_0000
}

/// Several tracks read back one by one: each with its id and its IV size, in their order, and the
/// timescale is that of the last.
#[verifier::spinoff_prover]
#[verifier::rlimit(60)]
pub proof fn several_tracks_read_back(
    data: Seq<u8>,
    at: int,
    end: int,
    tracks: Seq<InitTrack>,
    known: u32,
)
    requires
        forall|i: int| 0 <= i < tracks.len() ==> track_can_be_written(#[trigger] tracks[i]),
        holds(data, at, traks_bytes(tracks)),
        end == at + traks_bytes(tracks).len(),
    ensures
        trak_encas(data, at, end).len() == tracks.len(),
        forall|i: int|
            0 <= i < tracks.len() ==> (#[trigger] trak_encas(data, at, end)[i]).1 == (Encrypted {
                track: tracks[i].track,
                iv_size: tracks[i].iv_size,
            }),
        tracks.len() > 0 ==> trak_timescale(data, at, end, known) == tracks.last().timescale,
        tracks.len() == 0 ==> trak_timescale(data, at, end, known) == known,
    decreases tracks.len(),
{
    assert(TRAK@ =~= seq![0x74u8, 0x72, 0x61, 0x6b]);
    if tracks.len() == 0 {
        if let Some(beyond) = box_at(data, at) {
            assert(beyond.end > at);
        }
        assert(trak_encas(data, at, end) =~= Seq::empty());
    } else {
        let track = tracks[0];
        let rest = tracks.drop_first();
        let body = boxes_bytes(trak_boxes(track));
        assert(track_can_be_written(track));
        lemma_split(data, at, boxed(TRAK@, body), traks_bytes(rest));
        a_box_reads_back(data, at, TRAK@, body);
        let trak = box_at(data, at)->0;
        lemma_pair_length(trak_boxes(track));
        lemma_pair_length(mdia_boxes(track));
        assert(trak_boxes(track)[1].1 == boxes_bytes(mdia_boxes(track)));
        assert(mdia_boxes(track)[1].1 == minf_body(track));
        lemma_trak_reads_back(data, trak, track);
        assert forall|i: int| 0 <= i < rest.len() implies track_can_be_written(
            #[trigger] rest[i],
        ) by {
            assert(rest[i] == tracks[i + 1]);
        }
        several_tracks_read_back(data, trak.end, end, rest, track.timescale);
        let all = trak_encas(data, at, end);
        let more = trak_encas(data, trak.end, end);
        assert(all == encas_of(data, trak) + more);
        assert forall|i: int| 0 <= i < tracks.len() implies (#[trigger] all[i]).1 == (Encrypted {
            track: tracks[i].track,
            iv_size: tracks[i].iv_size,
        }) by {
            if i > 0 {
                assert(all[i] == more[i - 1]);
                assert(rest[i - 1] == tracks[i]);
            }
        }
        if rest.len() > 0 {
            assert(rest.last() == tracks.last());
        }
    }
}

/// Every track fragment of a movie fragment is read: its samples are among those of the whole.
pub proof fn every_track_fragment_is_read(
    data: Seq<u8>,
    at: int,
    end: int,
    moof_at: int,
    mdat: Header,
    tracks: Seq<Encrypted>,
    place: int,
    sample: int,
)
    requires
        0 <= place < boxes_from(data, at, end).len(),
        boxes_from(data, at, end)[place].1.kind == seq![0x74u8, 0x72, 0x61, 0x66],
        0 <= sample < traf_samples(
            data,
            moof_at,
            mdat,
            boxes_from(data, at, end)[place].1,
            tracks,
        ).len(),
    ensures
        trafs_samples(data, at, end, moof_at, mdat, tracks).contains(
            traf_samples(
                data,
                moof_at,
                mdat,
                boxes_from(data, at, end)[place].1,
                tracks,
            )[sample],
        ),
    decreases end - at,
{
    assert(TRAF@ =~= seq![0x74u8, 0x72, 0x61, 0x66]);
    let listed = boxes_from(data, at, end);
    let bx = box_at(data, at)->0;
    let whole = trafs_samples(data, at, end, moof_at, mdat, tracks);
    let one = traf_samples(data, moof_at, mdat, listed[place].1, tracks)[sample];
    if place == 0 {
        assert(listed[0].1 == bx);
        assert(whole[sample] == one);
    } else {
        assert(listed[place] == boxes_from(data, bx.end, end)[place - 1]);
        every_track_fragment_is_read(
            data,
            bx.end,
            end,
            moof_at,
            mdat,
            tracks,
            place - 1,
            sample,
        );
        let more = trafs_samples(data, bx.end, end, moof_at, mdat, tracks);
        let k = choose|k: int| 0 <= k < more.len() && more[k] == one;
        assert(whole[whole.len() - more.len() + k] == one);
    }
}

/// A movie fragment starts when the first of its track fragments that says so starts.
pub proof fn the_first_time_counts(data: Seq<u8>, at: int, end: int, place: int)
    requires
        0 <= place < boxes_from(data, at, end).len(),
        boxes_from(data, at, end)[place].1.kind == seq![0x74u8, 0x72, 0x61, 0x66],
        decode_time_of(data, boxes_from(data, at, end)[place].1) is Some,
        forall|i: int|
            0 <= i < place ==> (#[trigger] boxes_from(data, at, end)[i]).1.kind != seq![
                0x74u8,
                0x72,
                0x61,
                0x66,
            ] || decode_time_of(data, boxes_from(data, at, end)[i].1) is None,
    ensures
        trafs_decode(data, at, end) == decode_time_of(data, boxes_from(data, at, end)[place].1),
    decreases end - at,
{
    assert(TRAF@ =~= seq![0x74u8, 0x72, 0x61, 0x66]);
    let listed = boxes_from(data, at, end);
    let bx = box_at(data, at)->0;
    if place == 0 {
        assert(listed[0].1 == bx);
    } else {
        assert(listed[0].1 == bx);
        let rest = boxes_from(data, bx.end, end);
        assert(listed[place] == rest[place - 1]);
        assert forall|i: int| 0 <= i < place - 1 implies (#[trigger] rest[i]).1.kind != seq![
            0x74u8,
            0x72,
            0x61,
            0x66,
        ] || decode_time_of(data, rest[i].1) is None by {
            assert(listed[i + 1] == rest[i]);
        }
        the_first_time_counts(data, bx.end, end, place - 1);
    }
}

/// What is read is handed over as it is: every sample with its start, its length, its IV and its
/// runs, in their order, and every sample entry and track of the init segment.
pub proof fn what_is_read_is_handed_over(step: Step, init: Init, i: int)
    ensures
        step matches Step::Fragment { samples, next, decode } ==> (
        step@ matches StepModel::Fragment { samples: seen, next: after, decode: at } && {
            &&& seen.len() == samples@.len()
            &&& after == next
            &&& at == decode
            &&& 0 <= i < samples@.len() ==> {
                &&& seen[i].start == samples@[i].start
                &&& seen[i].len == samples@[i].len
                &&& seen[i].iv == samples@[i].iv@
                &&& seen[i].subs == samples@[i].subs@
            }
        }),
        step matches Step::Other { next } ==> step@ == (StepModel::Other { next: next as int }),
        step is Partial ==> step@ is Partial,
        init@.end == init.end,
        init@.timescale == init.timescale,
        init@.tracks == init.tracks@,
        init@.entries.len() == init.entries@.len(),
        0 <= i < init.entries@.len() ==> init@.entries[i] == init.entries@[i],
{
}

} // verus!
