use sonora::widevine::cenc::{
    fit_senc, iv_size, read, read_fragment, read_init, read_senc, read_tfhd, read_trun, timescale,
    track_id, unlock, Encrypted, Step, Tfhd, ENCA, MP4A,
};

/// A box: four-byte size, four-byte kind, then the body.
fn boxed(kind: &[u8; 4], body: &[u8]) -> Vec<u8> {
    let mut out = ((body.len() + 8) as u32).to_be_bytes().to_vec();
    out.extend_from_slice(kind);
    out.extend_from_slice(body);
    out
}

fn joined(parts: &[Vec<u8>]) -> Vec<u8> {
    parts.iter().flatten().copied().collect()
}

/// An `enca` sample entry with a `tenc` declaring `iv_size`, inside the boxes `read_init` walks
/// to reach it.
fn init_segment(track: u32, iv_size: u8) -> Vec<u8> {
    let tenc = boxed(b"tenc", &[0, 0, 0, 0, 0, 0, 1, iv_size, 0]);
    let schi = boxed(b"schi", &tenc);
    let sinf = boxed(b"sinf", &schi);
    let mut entry = vec![0u8; 28];
    entry.extend_from_slice(&sinf);
    let enca = boxed(&ENCA, &entry);
    let mut stsd_body = vec![0, 0, 0, 0, 0, 0, 0, 1];
    stsd_body.extend_from_slice(&enca);
    let stsd = boxed(b"stsd", &stsd_body);
    let stbl = boxed(b"stbl", &stsd);
    let minf = boxed(b"minf", &stbl);
    // mdhd: version and flags, creation, modification, then the timescale.
    let mut mdhd_body = vec![0u8; 12];
    mdhd_body.extend_from_slice(&44_100u32.to_be_bytes());
    mdhd_body.extend_from_slice(&[0u8; 8]);
    let mdhd = boxed(b"mdhd", &mdhd_body);
    let mdia = boxed(b"mdia", &joined(&[mdhd, minf]));
    let mut tkhd_body = vec![0u8; 12];
    tkhd_body.extend_from_slice(&track.to_be_bytes());
    tkhd_body.extend_from_slice(&[0u8; 60]);
    let tkhd = boxed(b"tkhd", &tkhd_body);
    let trak = boxed(b"trak", &joined(&[tkhd, mdia]));
    let moov = boxed(b"moov", &trak);
    joined(&[boxed(b"ftyp", b"isom"), moov])
}

/// One fragment: a `moof` carrying `senc` and `trun` for `sizes`, then the `mdat` holding the
/// bytes themselves, each sample filled with its own index.
fn fragment(track: u32, sizes: &[u32], ivs: &[[u8; 16]]) -> Vec<u8> {
    let mut tfhd_body = vec![0, 0, 0, 0];
    tfhd_body.extend_from_slice(&track.to_be_bytes());
    let tfhd = boxed(b"tfhd", &tfhd_body);

    // tfdt: version and flags, then the fragment's start on the media timeline.
    let mut tfdt_body = vec![0u8; 4];
    tfdt_body.extend_from_slice(&88_200u32.to_be_bytes());
    let tfdt = boxed(b"tfdt", &tfdt_body);

    let mut senc_body = vec![0, 0, 0, 0];
    senc_body.extend_from_slice(&(ivs.len() as u32).to_be_bytes());
    for iv in ivs {
        senc_body.extend_from_slice(iv);
    }
    let senc = boxed(b"senc", &senc_body);

    // flags 0x000201: a data offset, and a size for every sample.
    let mut trun_body = vec![0, 0, 0x02, 0x01];
    trun_body.extend_from_slice(&(sizes.len() as u32).to_be_bytes());
    let offset_at = trun_body.len();
    trun_body.extend_from_slice(&0u32.to_be_bytes());
    for size in sizes {
        trun_body.extend_from_slice(&size.to_be_bytes());
    }
    let trun = boxed(b"trun", &trun_body);
    let trun_len = trun.len();

    let mut moof = boxed(
        b"moof",
        &boxed(b"traf", &joined(&[tfhd, tfdt, senc, trun])),
    );
    // From the start of the moof to the first byte of the mdat body.
    let offset = (moof.len() + 8) as u32;
    let at = moof.len() - trun_len + 8 + offset_at;
    moof[at..at + 4].copy_from_slice(&offset.to_be_bytes());

    let payload: Vec<u8> = sizes
        .iter()
        .enumerate()
        .flat_map(|(index, size)| vec![index as u8 + 1; *size as usize])
        .collect();
    joined(&[moof, boxed(b"mdat", &payload)])
}

#[test]
fn reads_the_init_segment_and_its_encrypted_track() {
    let data = init_segment(7, 16);
    let init = read_init(&data).expect("the moov is whole");
    assert_eq!(init.end, data.len());
    assert_eq!(
        init.tracks,
        vec![Encrypted {
            track: 7,
            iv_size: 16
        }]
    );
    assert_eq!(init.entries.len(), 1);
    let at = init.entries[0];
    assert_eq!(&data[at + 4..at + 8], &ENCA);
}

#[test]
fn a_truncated_init_segment_is_not_an_error() {
    let data = init_segment(1, 16);
    assert!(read_init(&data[..data.len() - 20]).is_none());
    assert!(read_init(&[]).is_none());
    assert!(read_init(&[0, 0, 0, 3, b'f', b't', b'y', b'p']).is_none());
}

#[test]
fn relabels_the_sample_entry_as_aac() {
    let mut data = init_segment(1, 16);
    let init = read_init(&data).unwrap();
    unlock(&mut data, &init);
    let at = init.entries[0];
    assert_eq!(&data[at + 4..at + 8], &MP4A);
    // The relabel must not move anything: same length, and it still parses.
    assert_eq!(read_init(&data).unwrap().end, init.end);
}

#[test]
fn finds_every_sample_of_a_fragment() {
    let ivs = [[1u8; 16], [2u8; 16], [3u8; 16]];
    let sizes = [10u32, 20, 30];
    let init = init_segment(1, 16);
    let data = joined(&[init, fragment(1, &sizes, &ivs)]);

    let parsed = read_init(&data).unwrap();
    let Step::Fragment {
        samples,
        next,
        decode,
    } = read_fragment(&data, parsed.end, &parsed.tracks)
    else {
        panic!("the fragment is whole");
    };
    assert_eq!(next, data.len());
    // Two seconds in at the builder's timescale, which is what a seek is looked up by.
    assert_eq!(decode, Some(88_200));
    assert_eq!(parsed.timescale, 44_100);
    assert_eq!(samples.len(), 3);
    assert_eq!(samples[0].len, 10);
    assert_eq!(samples[0].iv, [1u8; 16]);
    assert_eq!(samples[2].iv, [3u8; 16]);
    assert_eq!(samples[1].start, samples[0].end());
    // Every sample must point at its own bytes, which the builder filled with its index.
    for (index, sample) in samples.iter().enumerate() {
        assert_eq!(
            &data[sample.start..sample.end()],
            vec![index as u8 + 1; sample.len].as_slice(),
            "sample {index} is misplaced"
        );
    }
}

#[test]
fn a_half_arrived_fragment_waits() {
    let init = init_segment(1, 16);
    let data = joined(&[init, fragment(1, &[10, 20], &[[1u8; 16], [2u8; 16]])]);
    let parsed = read_init(&data).unwrap();
    // The moof is whole but the mdat behind it is not.
    let cut = data.len() - 5;
    assert_eq!(
        read_fragment(&data[..cut], parsed.end, &parsed.tracks),
        Step::Partial
    );
    // And a moof that is itself only half there.
    assert_eq!(
        read_fragment(&data[..parsed.end + 12], parsed.end, &parsed.tracks),
        Step::Partial
    );
}

#[test]
fn a_box_that_is_not_a_fragment_is_skipped() {
    let data = joined(&[boxed(b"free", &[0u8; 16]), boxed(b"moof", &[])]);
    assert_eq!(read_fragment(&data, 0, &[]), Step::Other { next: 24 });
}

#[test]
fn a_senc_the_declared_iv_size_does_not_fit_is_inferred() {
    // Eight-byte IVs in the box, sixteen declared in tenc.
    let mut senc_body = vec![0, 0, 0, 0];
    senc_body.extend_from_slice(&2u32.to_be_bytes());
    senc_body.extend_from_slice(&[9u8; 8]);
    senc_body.extend_from_slice(&[8u8; 8]);
    let data = boxed(b"senc", &senc_body);
    let senc = read(&data, 0).unwrap();
    let (ivs, subs) = read_senc(&data, &senc, 16, 2);
    assert_eq!(ivs.len(), 2);
    assert_eq!(ivs[0][..8], [9u8; 8]);
    assert_eq!(ivs[0][8..], [0u8; 8], "a short iv is zero padded");
    assert_eq!(subs, vec![Vec::new(), Vec::new()]);
}

#[test]
fn reads_subsample_runs_when_the_senc_flags_say_so() {
    let mut senc_body = vec![0, 0, 0, 0x02];
    senc_body.extend_from_slice(&1u32.to_be_bytes());
    senc_body.extend_from_slice(&[7u8; 16]);
    senc_body.extend_from_slice(&1u16.to_be_bytes());
    senc_body.extend_from_slice(&16u16.to_be_bytes());
    senc_body.extend_from_slice(&64u32.to_be_bytes());
    let data = boxed(b"senc", &senc_body);
    let senc = read(&data, 0).unwrap();
    let (ivs, subs) = read_senc(&data, &senc, 16, 1);
    assert_eq!(ivs, vec![[7u8; 16]]);
    assert_eq!(subs, vec![vec![(16u32, 64u32)]]);
}

/// A box size that claims more than has arrived, or less than a header, must not be read.
#[test]
fn refuses_a_box_that_does_not_fit_what_arrived() {
    let mut data = boxed(b"moof", &[0u8; 8]);
    assert!(read(&data, 0).is_some());
    data[..4].copy_from_slice(&999u32.to_be_bytes());
    assert!(read(&data, 0).is_none());
    data[..4].copy_from_slice(&4u32.to_be_bytes());
    assert!(read(&data, 0).is_none());
    data[..4].copy_from_slice(&0u32.to_be_bytes());
    assert!(read(&data, 0).is_none(), "a size of zero is refused");
}

/// A `trun` whose sample count is larger than the box could hold must not allocate for it.
#[test]
fn refuses_an_oversized_sample_count() {
    let mut trun_body = vec![0, 0, 0x02, 0x00];
    trun_body.extend_from_slice(&u32::MAX.to_be_bytes());
    let data = boxed(b"trun", &trun_body);
    let trun = read(&data, 0).unwrap();
    assert!(read_trun(&data, &trun, &Tfhd::default()).is_none());
}

#[test]
fn a_box_can_give_its_size_in_eight_bytes() {
    let mut data = vec![0, 0, 0, 1];
    data.extend_from_slice(b"free");
    data.extend_from_slice(&20u64.to_be_bytes());
    data.extend_from_slice(&[1, 2, 3, 4]);
    let found = read(&data, 0).unwrap();
    assert_eq!(found.kind, *b"free");
    assert_eq!((found.body, found.end, found.total), (16, 20, 20));
}

#[test]
fn more_of_the_file_changes_no_answer() {
    let init = init_segment(3, 8);
    let whole = joined(&[
        init.clone(),
        fragment(3, &[4], &[[5u8; 16]]),
        boxed(b"free", &[0; 4]),
    ]);
    let early = read_init(&init).unwrap();
    assert_eq!(read_init(&whole).unwrap(), early);
    let cut = whole.len() - 12;
    assert_eq!(
        read_fragment(&whole[..cut], early.end, &early.tracks),
        read_fragment(&whole, early.end, &early.tracks)
    );
}

#[test]
fn relabelling_touches_nothing_but_kinds() {
    let before = init_segment(1, 16);
    let mut after = before.clone();
    let init = read_init(&before).unwrap();
    unlock(&mut after, &init);
    let at = init.entries[0] + 4;
    assert_eq!(before.len(), after.len());
    assert_eq!(before[..at], after[..at]);
    assert_eq!(before[at + 4..], after[at + 4..]);
}

#[test]
fn the_fields_of_the_init_segment_are_found() {
    let data = init_segment(9, 8);
    let moov = read(&data, 12).unwrap();
    let trak = read(&data, moov.body).unwrap();
    assert_eq!(track_id(&data, trak.body, trak.end), Some(9));
    assert_eq!(timescale(&data, trak.body, trak.end), Some(44_100));
    let entry = read_init(&data).unwrap().entries[0];
    let enca = read(&data, entry).unwrap();
    assert_eq!(iv_size(&data, enca.body + 28, enca.end), Some(8));
}

#[test]
fn a_track_header_gives_its_base_and_default_size() {
    // flags 0x000011: a base offset and a default size.
    let mut body = vec![0, 0, 0, 0x11];
    body.extend_from_slice(&5u32.to_be_bytes());
    body.extend_from_slice(&1_000u64.to_be_bytes());
    body.extend_from_slice(&77u32.to_be_bytes());
    let data = boxed(b"tfhd", &body);
    let tfhd = read(&data, 0).unwrap();
    assert_eq!(
        read_tfhd(&data, &tfhd),
        Tfhd {
            base: Some(1_000),
            default_size: Some(77)
        }
    );
}

#[test]
fn a_run_without_sizes_takes_the_default() {
    let mut body = vec![0, 0, 0, 0];
    body.extend_from_slice(&3u32.to_be_bytes());
    let data = boxed(b"trun", &body);
    let trun = read(&data, 0).unwrap();
    let header = Tfhd {
        base: None,
        default_size: Some(9),
    };
    let run = read_trun(&data, &trun, &header).unwrap();
    assert_eq!(run.offset, 0);
    assert_eq!(run.sizes, vec![9, 9, 9]);
}

#[test]
fn ivs_must_account_for_the_box_exactly() {
    assert!(fit_senc(&[1; 16], 8, 2, false).is_some());
    assert!(fit_senc(&[1; 17], 8, 2, false).is_none());
    assert!(fit_senc(&[1; 15], 8, 2, false).is_none());
}

#[test]
fn a_single_track_is_matched_whatever_its_id() {
    let init = init_segment(1, 16);
    let data = joined(&[init, fragment(2, &[10], &[[1u8; 16]])]);
    let parsed = read_init(&data).unwrap();
    let Step::Fragment { samples, .. } = read_fragment(&data, parsed.end, &parsed.tracks) else {
        panic!("the fragment is whole");
    };
    assert_eq!(samples.len(), 1);
    let two = [
        Encrypted {
            track: 1,
            iv_size: 16,
        },
        Encrypted {
            track: 3,
            iv_size: 16,
        },
    ];
    let Step::Fragment { samples, next, .. } = read_fragment(&data, parsed.end, &two) else {
        panic!("the fragment is whole");
    };
    assert!(samples.is_empty());
    assert_eq!(next, data.len());
}

#[test]
fn samples_lie_within_the_media_box() {
    let init = init_segment(1, 16);
    let data = joined(&[init, fragment(1, &[10, 20], &[[1u8; 16], [2u8; 16]])]);
    let parsed = read_init(&data).unwrap();
    let moof = read(&data, parsed.end).unwrap();
    let mdat = read(&data, moof.end).unwrap();
    let Step::Fragment { samples, next, .. } = read_fragment(&data, parsed.end, &parsed.tracks)
    else {
        panic!("the fragment is whole");
    };
    assert_eq!((&moof.kind, &mdat.kind), (b"moof", b"mdat"));
    assert_eq!(samples[0].start, mdat.body);
    assert_eq!(samples[1].end(), mdat.end);
    assert_eq!(next, mdat.end);
}
