//! Just enough ISO-BMFF to decrypt one fragmented MP4.
//!
//! The asset is a single file: an init segment (`ftyp` then `moov`) whose sample entry is `enca`
//! rather than `mp4a`, followed by `moof`/`mdat` pairs. Every encrypted sample carries its own IV
//! in its fragment's `senc` box, and CENC is size preserving, so a sample can be decrypted on its
//! own, in place, once its fragment has arrived. That is what lets playback start on the first
//! fragment.
//!
//! This is not a general MP4 reader. It finds the init segment, the sample entries to relabel,
//! and the position, IV and subsample layout of every encrypted sample. Every read is checked
//! against the box it came from, because the bytes arrive from the network.

pub mod boxes;
pub mod fragment;
pub mod init;
pub mod laws;
pub mod written;

pub use boxes::{child, children, descendant, read, Bx};
pub use fragment::{
    decode_time, fit_senc, read_fragment, read_senc, read_tfhd, read_traf, read_trun, Sample,
    Senc, Step, Tfhd, Trun, SAMPLE_LIMIT,
};
pub use init::{iv_size, read_init, timescale, track_id, unlock, Encrypted, Init, ENCA, MP4A};
