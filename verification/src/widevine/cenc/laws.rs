//! What holds of the reader as a whole: an answer once given stays the same as more of the file
//! arrives, samples always index into bytes that are there, and relabelling moves nothing.

use vstd::prelude::*;

use super::boxes::{box_at, child_of, descendant_of, u32_below, u64_below, Header};
use super::fragment::{
    decode_time_of, flags_of, samples_from, senc_in, size_in_run, step_at, tfhd_in, track_in,
    traf_samples, trafs_decode, trafs_samples, trun_in, trun_of, SampleModel, SencModel, StepModel,
    MDAT, MOOF, SENC, TFDT, TFHD, TRUN,
};
use super::init::{
    behind_times, encas_from, encas_of, init_of, iv_size_of, moov_from, relabelled,
    relabelled_one, starts, timescale_of, track_id_of, trak_encas, trak_timescale, Encrypted, ENCA,
    MDHD, MDIA, MOOV, MP4A, SCHI, SINF, STSD, TENC, TKHD, TRAK,
};

verus! {

/// Two files hold the same bytes from `lo` up to `hi`.
pub open spec fn alike(a: Seq<u8>, b: Seq<u8>, lo: int, hi: int) -> bool {
    &&& 0 <= lo
    &&& hi <= a.len()
    &&& hi <= b.len()
    &&& forall|i: int| lo <= i < hi ==> a[i] == b[i]
}

/// A box that ends by `end` is the same box in both files.
proof fn lemma_box_alike(a: Seq<u8>, b: Seq<u8>, lo: int, hi: int, at: int, end: int)
    requires
        alike(a, b, lo, hi),
        lo <= at,
        end <= hi,
    ensures
        (box_at(a, at) matches Some(bx) && bx.end <= end) ==> box_at(b, at) == box_at(a, at),
        (box_at(b, at) matches Some(bx) && bx.end <= end) ==> box_at(b, at) == box_at(a, at),
{
    if at + 4 <= hi {
        assert(a.subrange(at, at + 4) =~= b.subrange(at, at + 4));
    }
    if at + 8 <= hi {
        assert(a.subrange(at + 4, at + 8) =~= b.subrange(at + 4, at + 8));
    }
    if at + 16 <= hi {
        assert(a.subrange(at + 8, at + 16) =~= b.subrange(at + 8, at + 16));
    }
}

/// A number below `end` is the same number in both files.
proof fn lemma_field_alike(a: Seq<u8>, b: Seq<u8>, lo: int, hi: int, at: int, end: int)
    requires
        alike(a, b, lo, hi),
        lo <= at,
        end <= hi,
    ensures
        u32_below(a, at, end) == u32_below(b, at, end),
        u64_below(a, at, end) == u64_below(b, at, end),
{
    if at + 4 <= end {
        assert(a.subrange(at, at + 4) =~= b.subrange(at, at + 4));
    }
    if at + 8 <= end {
        assert(a.subrange(at, at + 8) =~= b.subrange(at, at + 8));
    }
}

proof fn lemma_child_alike(
    a: Seq<u8>,
    b: Seq<u8>,
    lo: int,
    hi: int,
    at: int,
    end: int,
    kind: Seq<u8>,
)
    requires
        alike(a, b, lo, hi),
        lo <= at,
        end <= hi,
    ensures
        child_of(a, at, end, kind) == child_of(b, at, end, kind),
        child_of(a, at, end, kind) matches Some(bx) ==> at + 8 <= bx.body <= bx.end <= end,
    decreases end - at,
{
    lemma_box_alike(a, b, lo, hi, at, end);
    if let Some(bx) = box_at(a, at) {
        if bx.end <= end && bx.kind != kind {
            lemma_child_alike(a, b, lo, hi, bx.end, end, kind);
        }
    }
}

proof fn lemma_descendant_alike(
    a: Seq<u8>,
    b: Seq<u8>,
    lo: int,
    hi: int,
    at: int,
    end: int,
    kind: Seq<u8>,
)
    requires
        alike(a, b, lo, hi),
        lo <= at,
        end <= hi,
    ensures
        descendant_of(a, at, end, kind) == descendant_of(b, at, end, kind),
        descendant_of(a, at, end, kind) matches Some(bx) ==> at + 8 <= bx.body <= bx.end <= end,
    decreases end - at,
{
    lemma_box_alike(a, b, lo, hi, at, end);
    if let Some(bx) = box_at(a, at) {
        if bx.end <= end && bx.kind != kind {
            lemma_descendant_alike(a, b, lo, hi, bx.body, bx.end, kind);
            lemma_descendant_alike(a, b, lo, hi, bx.end, end, kind);
        }
    }
}

proof fn lemma_behind_times_alike(a: Seq<u8>, b: Seq<u8>, lo: int, hi: int, bx: Header)
    requires
        alike(a, b, lo, hi),
        lo <= bx.body <= bx.end <= hi,
    ensures
        behind_times(a, bx) == behind_times(b, bx),
{
    lemma_field_alike(a, b, lo, hi, bx.body + 12, bx.end);
    lemma_field_alike(a, b, lo, hi, bx.body + 20, bx.end);
}

proof fn lemma_track_id_alike(a: Seq<u8>, b: Seq<u8>, lo: int, hi: int, body: int, end: int)
    requires
        alike(a, b, lo, hi),
        lo <= body,
        end <= hi,
    ensures
        track_id_of(a, body, end) == track_id_of(b, body, end),
{
    lemma_child_alike(a, b, lo, hi, body, end, TKHD@);
    if let Some(tkhd) = child_of(a, body, end, TKHD@) {
        lemma_behind_times_alike(a, b, lo, hi, tkhd);
    }
}

proof fn lemma_timescale_alike(a: Seq<u8>, b: Seq<u8>, lo: int, hi: int, body: int, end: int)
    requires
        alike(a, b, lo, hi),
        lo <= body,
        end <= hi,
    ensures
        timescale_of(a, body, end) == timescale_of(b, body, end),
{
    lemma_child_alike(a, b, lo, hi, body, end, MDIA@);
    if let Some(mdia) = child_of(a, body, end, MDIA@) {
        lemma_child_alike(a, b, lo, hi, mdia.body, mdia.end, MDHD@);
        if let Some(mdhd) = child_of(a, mdia.body, mdia.end, MDHD@) {
            lemma_behind_times_alike(a, b, lo, hi, mdhd);
        }
    }
}

proof fn lemma_iv_size_alike(a: Seq<u8>, b: Seq<u8>, lo: int, hi: int, body: int, end: int)
    requires
        alike(a, b, lo, hi),
        lo <= body,
        end <= hi,
    ensures
        iv_size_of(a, body, end) == iv_size_of(b, body, end),
{
    lemma_child_alike(a, b, lo, hi, body, end, SINF@);
    if let Some(sinf) = child_of(a, body, end, SINF@) {
        lemma_child_alike(a, b, lo, hi, sinf.body, sinf.end, SCHI@);
        if let Some(schi) = child_of(a, sinf.body, sinf.end, SCHI@) {
            lemma_child_alike(a, b, lo, hi, schi.body, schi.end, TENC@);
        }
    }
}

proof fn lemma_encas_alike(
    a: Seq<u8>,
    b: Seq<u8>,
    lo: int,
    hi: int,
    at: int,
    end: int,
    track: u32,
)
    requires
        alike(a, b, lo, hi),
        lo <= at,
        end <= hi,
    ensures
        encas_from(a, at, end, track) == encas_from(b, at, end, track),
    decreases end - at,
{
    lemma_box_alike(a, b, lo, hi, at, end);
    if let Some(bx) = box_at(a, at) {
        if bx.end <= end {
            lemma_iv_size_alike(a, b, lo, hi, bx.body + 28, bx.end);
            lemma_encas_alike(a, b, lo, hi, bx.end, end, track);
        }
    }
}

proof fn lemma_trak_alike(a: Seq<u8>, b: Seq<u8>, lo: int, hi: int, trak: Header)
    requires
        alike(a, b, lo, hi),
        lo <= trak.body,
        trak.end <= hi,
    ensures
        encas_of(a, trak) == encas_of(b, trak),
{
    lemma_descendant_alike(a, b, lo, hi, trak.body, trak.end, STSD@);
    lemma_track_id_alike(a, b, lo, hi, trak.body, trak.end);
    if let Some(stsd) = descendant_of(a, trak.body, trak.end, STSD@) {
        let track = super::boxes::or_else(track_id_of(a, trak.body, trak.end), 0u32);
        lemma_encas_alike(a, b, lo, hi, stsd.body + 8, stsd.end, track);
    }
}

proof fn lemma_traks_alike(a: Seq<u8>, b: Seq<u8>, lo: int, hi: int, at: int, end: int, known: u32)
    requires
        alike(a, b, lo, hi),
        lo <= at,
        end <= hi,
    ensures
        trak_encas(a, at, end) == trak_encas(b, at, end),
        trak_timescale(a, at, end, known) == trak_timescale(b, at, end, known),
    decreases end - at,
{
    lemma_box_alike(a, b, lo, hi, at, end);
    if let Some(bx) = box_at(a, at) {
        if bx.end <= end {
            lemma_trak_alike(a, b, lo, hi, bx);
            lemma_timescale_alike(a, b, lo, hi, bx.body, bx.end);
            let ticks = super::boxes::or_else(timescale_of(a, bx.body, bx.end), known);
            lemma_traks_alike(a, b, lo, hi, bx.end, end, known);
            lemma_traks_alike(a, b, lo, hi, bx.end, end, ticks);
        }
    }
}

proof fn lemma_moov_grows(part: Seq<u8>, data: Seq<u8>, at: int)
    requires
        part.is_prefix_of(data),
        0 <= at,
        moov_from(part, at) is Some,
    ensures
        moov_from(data, at) == moov_from(part, at),
        moov_from(part, at) matches Some(moov) ==> at + 8 <= moov.body <= moov.end <= part.len(),
    decreases part.len() - at,
{
    lemma_box_alike(part, data, 0, part.len() as int, at, part.len() as int);
    if let Some(bx) = box_at(part, at) {
        if bx.kind != MOOV@ {
            lemma_moov_grows(part, data, bx.end);
        }
    }
}

/// Once the init segment has arrived, what it says never changes as more of the file comes in.
pub proof fn init_stays_read(part: Seq<u8>, data: Seq<u8>)
    requires
        part.is_prefix_of(data),
        init_of(part) is Some,
    ensures
        init_of(data) == init_of(part),
{
    lemma_moov_grows(part, data, 0);
    if let Some(moov) = moov_from(part, 0) {
        lemma_traks_alike(part, data, 0, part.len() as int, moov.body, moov.end, 0);
    }
}

proof fn lemma_decode_alike(a: Seq<u8>, b: Seq<u8>, lo: int, hi: int, traf: Header)
    requires
        alike(a, b, lo, hi),
        lo <= traf.body,
        traf.end <= hi,
    ensures
        decode_time_of(a, traf) == decode_time_of(b, traf),
{
    lemma_child_alike(a, b, lo, hi, traf.body, traf.end, TFDT@);
    if let Some(tfdt) = child_of(a, traf.body, traf.end, TFDT@) {
        lemma_field_alike(a, b, lo, hi, tfdt.body + 4, tfdt.end);
    }
}

proof fn lemma_tfhd_alike(a: Seq<u8>, b: Seq<u8>, lo: int, hi: int, traf: Header)
    requires
        alike(a, b, lo, hi),
        lo <= traf.body,
        traf.end <= hi,
    ensures
        tfhd_in(a, traf) == tfhd_in(b, traf),
        track_in(a, traf) == track_in(b, traf),
{
    lemma_child_alike(a, b, lo, hi, traf.body, traf.end, TFHD@);
    if let Some(tfhd) = child_of(a, traf.body, traf.end, TFHD@) {
        lemma_field_alike(a, b, lo, hi, tfhd.body, tfhd.end);
        lemma_field_alike(a, b, lo, hi, tfhd.body + 4, tfhd.end);
        lemma_field_alike(a, b, lo, hi, tfhd.body + 8, tfhd.end);
        lemma_field_alike(a, b, lo, hi, tfhd.body + 12, tfhd.end);
        lemma_field_alike(a, b, lo, hi, tfhd.body + 16, tfhd.end);
        lemma_field_alike(a, b, lo, hi, tfhd.body + 20, tfhd.end);
        lemma_field_alike(a, b, lo, hi, tfhd.body + 24, tfhd.end);
    }
}

proof fn lemma_trun_alike(a: Seq<u8>, b: Seq<u8>, lo: int, hi: int, traf: Header)
    requires
        alike(a, b, lo, hi),
        lo <= traf.body,
        traf.end <= hi,
    ensures
        trun_in(a, traf) == trun_in(b, traf),
{
    lemma_tfhd_alike(a, b, lo, hi, traf);
    lemma_child_alike(a, b, lo, hi, traf.body, traf.end, TRUN@);
    if let Some(trun) = child_of(a, traf.body, traf.end, TRUN@) {
        let tfhd = tfhd_in(a, traf);
        lemma_field_alike(a, b, lo, hi, trun.body, trun.end);
        lemma_field_alike(a, b, lo, hi, trun.body + 4, trun.end);
        lemma_field_alike(a, b, lo, hi, trun.body + 8, trun.end);
        if trun_of(a, trun, tfhd) is Some {
            let flags = flags_of(a, trun)->0;
            let count = u32_below(a, trun.body + 4, trun.end)->0;
            let stride = super::fragment::sample_stride(flags);
            let first = super::fragment::run_start(trun.body, flags);
            let fallback = tfhd.default_size->0;
            assert forall|i: int| 0 <= i < count implies size_in_run(
                a,
                trun.body,
                flags,
                fallback,
                i,
            ) == size_in_run(b, trun.body, flags, fallback, i) by {
                assert(0 <= i * stride && i * stride + stride <= count * stride)
                    by (nonlinear_arith)
                    requires
                        0 <= i < count,
                        0 <= stride,
                ;
                let at = first + i * stride + super::fragment::width_if(flags, 0x0100, 4);
                if flags & 0x0200 != 0 {
                    lemma_field_alike(a, b, lo, hi, at, trun.end);
                }
            }
            assert(trun_of(a, trun, tfhd)->0.sizes =~= trun_of(b, trun, tfhd)->0.sizes);
        }
    }
}

proof fn lemma_senc_alike(
    a: Seq<u8>,
    b: Seq<u8>,
    lo: int,
    hi: int,
    traf: Header,
    declared: u8,
    samples: nat,
)
    requires
        alike(a, b, lo, hi),
        lo <= traf.body,
        traf.end <= hi,
    ensures
        senc_in(a, traf, declared, samples) == senc_in(b, traf, declared, samples),
{
    lemma_child_alike(a, b, lo, hi, traf.body, traf.end, SENC@);
    if let Some(senc) = child_of(a, traf.body, traf.end, SENC@) {
        lemma_field_alike(a, b, lo, hi, senc.body, senc.end);
        lemma_field_alike(a, b, lo, hi, senc.body + 4, senc.end);
        if senc.body + 8 <= senc.end {
            assert(a.subrange(senc.body + 8, senc.end) =~= b.subrange(senc.body + 8, senc.end));
        }
    }
}

proof fn lemma_traf_alike(
    a: Seq<u8>,
    b: Seq<u8>,
    lo: int,
    hi: int,
    moof_at: int,
    mdat: Header,
    traf: Header,
    tracks: Seq<Encrypted>,
)
    requires
        alike(a, b, lo, hi),
        lo <= traf.body,
        traf.end <= hi,
    ensures
        traf_samples(a, moof_at, mdat, traf, tracks) == traf_samples(
            b,
            moof_at,
            mdat,
            traf,
            tracks,
        ),
{
    lemma_tfhd_alike(a, b, lo, hi, traf);
    lemma_trun_alike(a, b, lo, hi, traf);
    if let Some(encrypted) = super::fragment::track_for(tracks, track_in(a, traf)) {
        if let Some(run) = trun_in(a, traf) {
            lemma_senc_alike(a, b, lo, hi, traf, encrypted.iv_size, run.sizes.len());
        }
    }
}

proof fn lemma_trafs_alike(
    a: Seq<u8>,
    b: Seq<u8>,
    lo: int,
    hi: int,
    at: int,
    end: int,
    moof_at: int,
    mdat: Header,
    tracks: Seq<Encrypted>,
)
    requires
        alike(a, b, lo, hi),
        lo <= at,
        end <= hi,
    ensures
        trafs_samples(a, at, end, moof_at, mdat, tracks) == trafs_samples(
            b,
            at,
            end,
            moof_at,
            mdat,
            tracks,
        ),
        trafs_decode(a, at, end) == trafs_decode(b, at, end),
    decreases end - at,
{
    lemma_box_alike(a, b, lo, hi, at, end);
    if let Some(bx) = box_at(a, at) {
        if bx.end <= end {
            lemma_traf_alike(a, b, lo, hi, moof_at, mdat, bx, tracks);
            lemma_decode_alike(a, b, lo, hi, bx);
            lemma_trafs_alike(a, b, lo, hi, bx.end, end, moof_at, mdat, tracks);
        }
    }
}

/// A box that was walked once, a fragment or another, is walked the same way however much of the
/// file comes in behind it. Only the answer that not all of it is there yet can change.
pub proof fn step_stays_read(part: Seq<u8>, data: Seq<u8>, at: int, tracks: Seq<Encrypted>)
    requires
        part.is_prefix_of(data),
        0 <= at,
        !(step_at(part, at, tracks) is Partial),
    ensures
        step_at(data, at, tracks) == step_at(part, at, tracks),
{
    let hi = part.len() as int;
    lemma_box_alike(part, data, 0, hi, at, hi);
    if let Some(moof) = box_at(part, at) {
        lemma_box_alike(part, data, 0, hi, moof.end, hi);
        if let Some(mdat) = box_at(part, moof.end) {
            lemma_trafs_alike(part, data, 0, hi, moof.body, moof.end, at, mdat, tracks);
        }
    }
}

/// Samples lie inside the media they were cut from.
pub open spec fn inside(samples: Seq<SampleModel>, lo: int, hi: int) -> bool {
    forall|i: int|
        0 <= i < samples.len() ==> lo <= (#[trigger] samples[i]).start && samples[i].len > 0
            && samples[i].start + samples[i].len <= hi
}

/// Each sample starts where the one before it ends.
pub open spec fn back_to_back(samples: Seq<SampleModel>) -> bool {
    forall|i: int|
        0 < i < samples.len() ==> (#[trigger] samples[i]).start == samples[i - 1].start
            + samples[i - 1].len
}

proof fn lemma_run_is_laid_out(
    sizes: Seq<u32>,
    senc: SencModel,
    index: int,
    at: int,
    limit: int,
)
    requires
        0 <= index,
    ensures
        inside(samples_from(sizes, senc, index, at, limit), at, limit),
        back_to_back(samples_from(sizes, senc, index, at, limit)),
        samples_from(sizes, senc, index, at, limit).len() > 0 ==> samples_from(
            sizes,
            senc,
            index,
            at,
            limit,
        )[0].start == at,
    decreases sizes.len() - index,
{
    if index < sizes.len() && at + sizes[index] <= limit {
        lemma_run_is_laid_out(sizes, senc, index + 1, at + sizes[index], limit);
    }
}

/// The samples of one track fragment lie inside its `mdat`, none of them is empty, and each
/// starts where the one before it ends.
pub proof fn a_run_is_laid_out(
    data: Seq<u8>,
    moof_at: int,
    mdat: Header,
    traf: Header,
    tracks: Seq<Encrypted>,
)
    ensures
        inside(traf_samples(data, moof_at, mdat, traf, tracks), mdat.body, mdat.end),
        back_to_back(traf_samples(data, moof_at, mdat, traf, tracks)),
{
    if let Some(encrypted) = super::fragment::track_for(tracks, track_in(data, traf)) {
        if let Some(run) = trun_in(data, traf) {
            let start = super::fragment::run_base(tfhd_in(data, traf), moof_at, run.offset);
            let senc = senc_in(data, traf, encrypted.iv_size, run.sizes.len());
            lemma_run_is_laid_out(run.sizes, senc, 0, start, mdat.end);
        }
    }
}

proof fn lemma_trafs_inside(
    data: Seq<u8>,
    at: int,
    end: int,
    moof_at: int,
    mdat: Header,
    tracks: Seq<Encrypted>,
)
    ensures
        inside(trafs_samples(data, at, end, moof_at, mdat, tracks), mdat.body, mdat.end),
    decreases end - at,
{
    if let Some(bx) = box_at(data, at) {
        if bx.end <= end {
            a_run_is_laid_out(data, moof_at, mdat, bx, tracks);
            lemma_trafs_inside(data, bx.end, end, moof_at, mdat, tracks);
        }
    }
}

/// Every sample a fragment hands back lies within the body of the `mdat` right behind its `moof`,
/// so that it indexes into bytes that are there, and the walk moves on: the next box starts
/// behind this one and no further than the data reaches.
pub proof fn a_step_stays_inside(data: Seq<u8>, at: int, tracks: Seq<Encrypted>)
    requires
        0 <= at,
    ensures
        match step_at(data, at, tracks) {
            StepModel::Fragment { samples, next, .. } => match box_at(data, at) {
                Some(moof) => match box_at(data, moof.end) {
                    Some(mdat) => {
                        &&& moof.kind == MOOF@
                        &&& mdat.kind == MDAT@
                        &&& inside(samples, mdat.body, mdat.end)
                        &&& at < moof.end < mdat.body <= mdat.end == next
                        &&& next <= data.len()
                    },
                    None => false,
                },
                None => false,
            },
            StepModel::Other { next } => at < next <= data.len(),
            StepModel::Partial => true,
        },
{
    if let Some(moof) = box_at(data, at) {
        if let Some(mdat) = box_at(data, moof.end) {
            lemma_trafs_inside(data, moof.body, moof.end, at, mdat, tracks);
        }
    }
}

/// Places that stand in order between `lo` and `hi`, each with a box header's room to itself.
pub open spec fn spaced(places: Seq<int>, lo: int, hi: int) -> bool {
    &&& forall|i: int| 0 <= i < places.len() ==> lo <= #[trigger] places[i] && places[i] + 8 <= hi
    &&& forall|i: int, j: int|
        0 <= i < j < places.len() ==> #[trigger] places[i] + 8 <= #[trigger] places[j]
}

/// The byte is part of the kind of one of the sample entries.
pub open spec fn labelled(places: Seq<int>, at: int) -> bool {
    exists|i: int| 0 <= i < places.len() && #[trigger] places[i] + 4 <= at < places[i] + 8
}

/// Between `lo` and `hi` the two files differ in nothing but the kinds of the sample entries,
/// which the second names `mp4a`.
pub open spec fn swapped(a: Seq<u8>, b: Seq<u8>, lo: int, hi: int, places: Seq<int>) -> bool {
    &&& a.len() == b.len()
    &&& 0 <= lo
    &&& hi <= a.len()
    &&& forall|i: int| lo <= i < hi && !labelled(places, i) ==> a[i] == b[i]
    &&& forall|i: int|
        #![trigger places[i]]
        0 <= i < places.len() ==> b.subrange(places[i] + 4, places[i] + 8) == MP4A@
}

#[verifier::spinoff_prover]
#[verifier::rlimit(60)]
proof fn lemma_relabelled(data: Seq<u8>, places: Seq<int>)
    requires
        spaced(places, 0, data.len() as int),
    ensures
        swapped(data, relabelled(data, places), 0, data.len() as int, places),
    decreases places.len(),
{
    if places.len() > 0 {
        let fewer = places.drop_last();
        let last = places.last();
        let before = relabelled(data, fewer);
        let after = relabelled(data, places);
        lemma_relabelled(data, fewer);
        assert(after == relabelled_one(before, last));
        assert forall|i: int| 0 <= i < data.len() && !labelled(places, i) implies data[i]
            == after[i] by {
            assert(places[places.len() - 1] == last);
            assert(!(last + 4 <= i < last + 8));
            assert(after[i] == before[i]);
            if labelled(fewer, i) {
                let k = choose|k: int|
                    0 <= k < fewer.len() && #[trigger] fewer[k] + 4 <= i < fewer[k] + 8;
                assert(places[k] == fewer[k]);
            }
        }
        assert forall|i: int| #![trigger places[i]] 0 <= i < places.len() implies after.subrange(
            places[i] + 4,
            places[i] + 8,
        ) == MP4A@ by {
            if i < fewer.len() {
                assert(fewer[i] == places[i]);
                assert(places[i] + 8 <= places[places.len() - 1]);
                assert(after.subrange(places[i] + 4, places[i] + 8) =~= before.subrange(
                    fewer[i] + 4,
                    fewer[i] + 8,
                ));
            } else {
                assert(after.subrange(places[i] + 4, places[i] + 8) =~= MP4A@);
            }
        }
    }
}

proof fn lemma_encas_spaced(data: Seq<u8>, at: int, end: int, track: u32)
    ensures
        spaced(starts(encas_from(data, at, end, track)), at, end),
    decreases end - at,
{
    if let Some(bx) = box_at(data, at) {
        if bx.end <= end {
            lemma_encas_spaced(data, bx.end, end, track);
            let rest = starts(encas_from(data, bx.end, end, track));
            if bx.kind == ENCA@ {
                assert(starts(encas_from(data, at, end, track)) =~= seq![at] + rest);
            }
        }
    }
}

proof fn lemma_trak_spaced(data: Seq<u8>, trak: Header)
    requires
        0 <= trak.body,
        trak.end <= data.len(),
    ensures
        spaced(starts(encas_of(data, trak)), trak.body, trak.end),
{
    lemma_descendant_alike(data, data, 0, data.len() as int, trak.body, trak.end, STSD@);
    if let Some(stsd) = descendant_of(data, trak.body, trak.end, STSD@) {
        let track = super::boxes::or_else(track_id_of(data, trak.body, trak.end), 0u32);
        lemma_encas_spaced(data, stsd.body + 8, stsd.end, track);
    }
}

proof fn lemma_traks_spaced(data: Seq<u8>, at: int, end: int)
    requires
        0 <= at,
        end <= data.len(),
    ensures
        spaced(starts(trak_encas(data, at, end)), at, end),
    decreases end - at,
{
    if let Some(bx) = box_at(data, at) {
        if bx.end <= end {
            lemma_traks_spaced(data, bx.end, end);
            if bx.kind == TRAK@ {
                lemma_trak_spaced(data, bx);
                let own = starts(encas_of(data, bx));
                let rest = starts(trak_encas(data, bx.end, end));
                assert(starts(trak_encas(data, at, end)) =~= own + rest);
            }
        }
    }
}

/// A box whose size the relabelling left alone is still there, of its old kind or of the new.
proof fn lemma_box_kept(a: Seq<u8>, b: Seq<u8>, at: int)
    requires
        a.len() == b.len(),
        0 <= at,
        box_at(a, at) matches Some(bx) && forall|i: int|
            at <= i < at + 4 || at + 8 <= i < bx.body ==> a[i] == b[i],
    ensures
        box_at(b, at) == Some(Header { kind: b.subrange(at + 4, at + 8), ..box_at(a, at)->0 }),
{
    assert(a.subrange(at, at + 4) =~= b.subrange(at, at + 4));
    if box_at(a, at)->0.body == at + 16 {
        assert(a.subrange(at + 8, at + 16) =~= b.subrange(at + 8, at + 16));
    }
}

proof fn lemma_encas_gone(a: Seq<u8>, b: Seq<u8>, at: int, end: int, track: u32, other: u32)
    requires
        swapped(a, b, at, end, starts(encas_from(a, at, end, track))),
    ensures
        encas_from(b, at, end, other) == Seq::<(int, Encrypted)>::empty(),
    decreases end - at,
{
    let places = starts(encas_from(a, at, end, track));
    let fits = match box_at(a, at) {
        Some(bx) => bx.end <= end,
        None => false,
    };
    if fits {
        let bx = box_at(a, at)->0;
        let rest = starts(encas_from(a, bx.end, end, track));
        lemma_encas_spaced(a, bx.end, end, track);
        if bx.kind == ENCA@ {
            assert(places =~= seq![at] + rest);
        } else {
            assert(places =~= rest);
        }
        assert forall|i: int| at <= i < at + 4 || at + 8 <= i < bx.body implies a[i] == b[i] by {
            if labelled(places, i) {
                let k = choose|k: int|
                    0 <= k < places.len() && #[trigger] places[k] + 4 <= i < places[k] + 8;
                assert(places[k] == at || places[k] >= bx.end) by {
                    if bx.kind == ENCA@ && k > 0 {
                        assert(places[k] == rest[k - 1]);
                    }
                }
            }
        }
        lemma_box_kept(a, b, at);
        if bx.kind == ENCA@ {
            assert(places[0] == at);
            assert(b.subrange(at + 4, at + 8) == MP4A@);
            assert(MP4A@[0] != ENCA@[0]);
        } else {
            assert forall|i: int| at + 4 <= i < at + 8 implies a[i] == b[i] by {
                if labelled(places, i) {
                    let k = choose|k: int|
                        0 <= k < places.len() && #[trigger] places[k] + 4 <= i < places[k] + 8;
                    assert(places[k] == rest[k]);
                }
            }
            assert(b.subrange(at + 4, at + 8) =~= a.subrange(at + 4, at + 8));
        }
        assert(swapped(a, b, bx.end, end, rest)) by {
            assert forall|i: int| bx.end <= i < end && !labelled(rest, i) implies a[i] == b[i] by {
                if labelled(places, i) {
                    let k = choose|k: int|
                        0 <= k < places.len() && #[trigger] places[k] + 4 <= i < places[k] + 8;
                    if bx.kind == ENCA@ {
                        assert(k > 0);
                        assert(rest[k - 1] == places[k]);
                    } else {
                        assert(rest[k] == places[k]);
                    }
                }
            }
            assert forall|i: int| #![trigger rest[i]] 0 <= i < rest.len() implies b.subrange(
                rest[i] + 4,
                rest[i] + 8,
            ) == MP4A@ by {
                if bx.kind == ENCA@ {
                    assert(places[i + 1] == rest[i]);
                } else {
                    assert(places[i] == rest[i]);
                }
            }
        }
        lemma_encas_gone(a, b, bx.end, end, track, other);
    } else {
        assert(places =~= Seq::empty());
        lemma_box_alike(a, b, at, end, at, end);
    }
}

/// A depth-first search reads nothing behind the header of what it finds.
proof fn lemma_search_reads_ahead_only(a: Seq<u8>, b: Seq<u8>, at: int, end: int, kind: Seq<u8>)
    requires
        a.len() == b.len(),
        0 <= at,
        end <= a.len(),
        descendant_of(a, at, end, kind) matches Some(found) && alike(a, b, at, found.body),
    ensures
        descendant_of(b, at, end, kind) == descendant_of(a, at, end, kind),
    decreases end - at,
{
    let found = descendant_of(a, at, end, kind)->0;
    let hi = a.len() as int;
    let bx = box_at(a, at)->0;
    lemma_descendant_alike(a, a, 0, hi, bx.body, bx.end, kind);
    lemma_descendant_alike(a, a, 0, hi, bx.end, end, kind);
    lemma_box_kept(a, b, at);
    assert(b.subrange(at + 4, at + 8) =~= a.subrange(at + 4, at + 8));
    if bx.kind != kind {
        if descendant_of(a, bx.body, bx.end, kind) is Some {
            lemma_search_reads_ahead_only(a, b, bx.body, bx.end, kind);
        } else {
            lemma_descendant_alike(a, b, at, found.body, bx.body, bx.end, kind);
            lemma_search_reads_ahead_only(a, b, bx.end, end, kind);
        }
    }
}

proof fn lemma_trak_gone(a: Seq<u8>, b: Seq<u8>, trak: Header)
    requires
        0 <= trak.body,
        trak.end <= a.len(),
        swapped(a, b, trak.body, trak.end, starts(encas_of(a, trak))),
    ensures
        encas_of(b, trak) == Seq::<(int, Encrypted)>::empty(),
{
    let places = starts(encas_of(a, trak));
    lemma_descendant_alike(a, a, 0, a.len() as int, trak.body, trak.end, STSD@);
    match descendant_of(a, trak.body, trak.end, STSD@) {
        Some(stsd) => {
            let track = super::boxes::or_else(track_id_of(a, trak.body, trak.end), 0u32);
            let other = super::boxes::or_else(track_id_of(b, trak.body, trak.end), 0u32);
            lemma_encas_spaced(a, stsd.body + 8, stsd.end, track);
            assert forall|i: int| trak.body <= i < stsd.body implies a[i] == b[i] by {
                if labelled(places, i) {
                    let k = choose|k: int|
                        0 <= k < places.len() && #[trigger] places[k] + 4 <= i < places[k] + 8;
                    assert(places[k] >= stsd.body + 8);
                }
            }
            lemma_search_reads_ahead_only(a, b, trak.body, trak.end, STSD@);
            lemma_encas_gone(a, b, stsd.body + 8, stsd.end, track, other);
        },
        None => {
            assert(places =~= Seq::empty());
            if trak.body <= trak.end {
                lemma_descendant_alike(
                    a,
                    b,
                    trak.body,
                    trak.end,
                    trak.body,
                    trak.end,
                    STSD@,
                );
            }
        },
    }
}

proof fn lemma_traks_gone(a: Seq<u8>, b: Seq<u8>, at: int, end: int)
    requires
        0 <= at,
        end <= a.len(),
        swapped(a, b, at, end, starts(trak_encas(a, at, end))),
    ensures
        trak_encas(b, at, end) == Seq::<(int, Encrypted)>::empty(),
    decreases end - at,
{
    let places = starts(trak_encas(a, at, end));
    let fits = match box_at(a, at) {
        Some(bx) => bx.end <= end,
        None => false,
    };
    if fits {
        let bx = box_at(a, at)->0;
        let own = if bx.kind == TRAK@ {
            starts(encas_of(a, bx))
        } else {
            Seq::<int>::empty()
        };
        let rest = starts(trak_encas(a, bx.end, end));
        assert(places =~= own + rest);
        lemma_traks_spaced(a, bx.end, end);
        lemma_trak_spaced(a, bx);
        assert(spaced(own, bx.body, bx.end));
        assert forall|i: int| at <= i < bx.body implies a[i] == b[i] by {
            if labelled(places, i) {
                let k = choose|k: int|
                    0 <= k < places.len() && #[trigger] places[k] + 4 <= i < places[k] + 8;
                if k < own.len() {
                    assert(own[k] == places[k]);
                } else {
                    assert(rest[k - own.len()] == places[k]);
                }
            }
        }
        lemma_box_kept(a, b, at);
        assert(b.subrange(at + 4, at + 8) =~= a.subrange(at + 4, at + 8));
        if bx.kind == TRAK@ {
            assert(swapped(a, b, bx.body, bx.end, own)) by {
                assert forall|i: int| bx.body <= i < bx.end && !labelled(own, i) implies a[i]
                    == b[i] by {
                    if labelled(places, i) {
                        let k = choose|k: int|
                            0 <= k < places.len() && #[trigger] places[k] + 4 <= i < places[k] + 8;
                        if k < own.len() {
                            assert(own[k] == places[k]);
                        } else {
                            assert(rest[k - own.len()] == places[k]);
                        }
                    }
                }
                assert forall|i: int| #![trigger own[i]] 0 <= i < own.len() implies b.subrange(
                    own[i] + 4,
                    own[i] + 8,
                ) == MP4A@ by {
                    assert(places[i] == own[i]);
                }
            }
            lemma_trak_gone(a, b, bx);
        }
        assert(swapped(a, b, bx.end, end, rest)) by {
            assert forall|i: int| bx.end <= i < end && !labelled(rest, i) implies a[i] == b[i] by {
                if labelled(places, i) {
                    let k = choose|k: int|
                        0 <= k < places.len() && #[trigger] places[k] + 4 <= i < places[k] + 8;
                    if k < own.len() {
                        assert(own[k] == places[k]);
                    } else {
                        assert(rest[k - own.len()] == places[k]);
                    }
                }
            }
            assert forall|i: int| #![trigger rest[i]] 0 <= i < rest.len() implies b.subrange(
                rest[i] + 4,
                rest[i] + 8,
            ) == MP4A@ by {
                assert(places[own.len() + i] == rest[i]);
            }
        }
        lemma_traks_gone(a, b, bx.end, end);
    } else {
        assert(places =~= Seq::empty());
        lemma_box_alike(a, b, at, end, at, end);
    }
}

proof fn lemma_moov_kept(a: Seq<u8>, b: Seq<u8>, at: int)
    requires
        a.len() == b.len(),
        0 <= at,
        moov_from(a, at) matches Some(moov) && alike(a, b, at, moov.body),
    ensures
        moov_from(b, at) == moov_from(a, at),
    decreases a.len() - at,
{
    let bx = box_at(a, at)->0;
    if bx.kind != MOOV@ {
        lemma_moov_grows(a, a, bx.end);
    }
    lemma_box_kept(a, b, at);
    assert(b.subrange(at + 4, at + 8) =~= a.subrange(at + 4, at + 8));
    if bx.kind != MOOV@ {
        lemma_moov_kept(a, b, bx.end);
    }
}

/// Unlocking a file changes nothing but the kinds of its encrypted sample entries, each of which
/// then reads `mp4a`.
pub proof fn unlocking_changes_only_kinds(data: Seq<u8>)
    requires
        init_of(data) is Some,
    ensures
        swapped(
            data,
            relabelled(data, init_of(data)->0.entries),
            0,
            data.len() as int,
            init_of(data)->0.entries,
        ),
        spaced(init_of(data)->0.entries, 0, data.len() as int),
{
    lemma_moov_grows(data, data, 0);
    let moov = moov_from(data, 0)->0;
    lemma_traks_spaced(data, moov.body, moov.end);
    lemma_relabelled(data, init_of(data)->0.entries);
}

/// Relabelling moves nothing: an unlocked file still reads, its init segment ends where it did,
/// and no sample entry in it claims encryption any more.
pub proof fn an_unlocked_file_still_reads(data: Seq<u8>)
    requires
        init_of(data) is Some,
    ensures
        init_of(relabelled(data, init_of(data)->0.entries)) matches Some(after) && after.end
            == init_of(data)->0.end && after.entries.len() == 0 && after.tracks.len() == 0,
{
    let places = init_of(data)->0.entries;
    let after = relabelled(data, places);
    unlocking_changes_only_kinds(data);
    lemma_moov_grows(data, data, 0);
    let moov = moov_from(data, 0)->0;
    lemma_traks_spaced(data, moov.body, moov.end);
    assert forall|i: int| 0 <= i < moov.body implies data[i] == after[i] by {
        if labelled(places, i) {
            let k = choose|k: int|
                0 <= k < places.len() && #[trigger] places[k] + 4 <= i < places[k] + 8;
            assert(places[k] >= moov.body);
        }
    }
    lemma_moov_kept(data, after, 0);
    lemma_traks_gone(data, after, moov.body, moov.end);
}

} // verus!
