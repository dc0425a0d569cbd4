//! Playing Widevine-encrypted fMP4 through the CDM the machine has.
//!
//! Nothing here is about one service. A provider that streams CENC audio needs the same few
//! things:
//!
//! - [`source`] settles which CDM this process uses, out of the copies the machine already has.
//!   The module is licensed to browser and device vendors and nobody else may pass it on, so the
//!   app neither ships one nor downloads one.
//! - [`pssh`] builds the init data a CDM wants from a key id.
//! - [`cenc`] reads just enough ISO-BMFF to say where every encrypted sample is, what its IV is
//!   and where each fragment starts on the media timeline.
//! - [`cenc::unlock`] relabels the sample entry so an ordinary decoder will open the cleartext.
//!
//! `SONORA_WIDEVINE_CDM` overrides the search with a path of the user's choosing, which is what
//! a package with a CDM of its own should set. With no module anywhere there is no Widevine
//! playback and nothing else changes.

use vstd::prelude::*;

use crate::bytes::{push_be32, u32_bytes};

pub mod cenc;
pub mod source;

pub use source::{find, installed, Found, Origin};

verus! {

/// The environment variable naming the CDM to load.
pub const CDM_PATH: &'static str = "SONORA_WIDEVINE_CDM";

/// The Widevine DRM system id, as it appears in a `pssh` box and in an HLS `KEYFORMAT`.
pub const SYSTEM_ID: [u8; 16] = [
    0xed,
    0xef,
    0x8b,
    0xa9,
    0x79,
    0xd6,
    0x4a,
    0xce,
    0xa3,
    0xc8,
    0x27,
    0xdc,
    0xd5,
    0x1d,
    0x21,
    0xed,
];

/// The `KEYFORMAT` a media playlist gives its Widevine key.
pub const KEY_FORMAT: &'static str = "urn:uuid:edef8ba9-79d6-4ace-a3c8-27dcd51d21ed";

/// The kind of the box that carries init data.
pub const PSSH: [u8; 4] = [0x70, 0x73, 0x73, 0x68];

/// A number the way protobuf writes it: seven bits a byte, the lowest first, every byte but the
/// last marked by its high bit.
pub open spec fn varint_of(value: nat) -> Seq<u8>
    decreases value,
{
    if value < 0x80 {
        seq![value as u8]
    } else {
        seq![(value % 0x80 + 0x80) as u8] + varint_of(value / 0x80)
    }
}

/// What a number written that way reads back as.
pub open spec fn varint_value(bytes: Seq<u8>) -> nat
    decreases bytes.len(),
{
    if bytes.len() == 0 {
        0
    } else if bytes[0] < 0x80 {
        bytes[0] as nat
    } else {
        (bytes[0] - 0x80) as nat + 0x80 * varint_value(bytes.drop_first())
    }
}

/// A length written as a varint reads back as the same length, whatever follows it.
pub proof fn a_varint_reads_back(value: nat, tail: Seq<u8>)
    ensures
        varint_value(varint_of(value) + tail) == value,
    decreases value,
{
    let bytes = varint_of(value) + tail;
    if value >= 0x80 {
        a_varint_reads_back(value / 0x80, tail);
        assert(bytes.drop_first() =~= varint_of(value / 0x80) + tail);
    }
}

/// The `WidevineCencHeader` protobuf: field 1 is the algorithm, 2 the key id, 3 the provider and
/// 6 the policy, the latter two empty.
pub open spec fn cenc_header_of(key_id: Seq<u8>) -> Seq<u8> {
    seq![0x08u8, 0x01, 0x12] + varint_of(key_id.len()) + key_id + seq![0x1au8, 0x00, 0x32, 0x00]
}

/// The low thirty-two bits of a length.
pub open spec fn low_bits(length: nat) -> u32 {
    (length % 0x1_0000_0000) as u32
}

/// The `pssh` box around that protobuf: size, kind, version and flags, the system id, the length
/// of the payload and the payload.
pub open spec fn pssh_of(key_id: Seq<u8>) -> Seq<u8> {
    let payload = cenc_header_of(key_id);
    u32_bytes(low_bits(32 + payload.len())) + PSSH@ + seq![0u8, 0, 0, 0] + SYSTEM_ID@ + u32_bytes(
        low_bits(payload.len()),
    ) + payload
}

/// Appends a number the way protobuf writes it.
fn varint(out: &mut Vec<u8>, number: u64)
    ensures
        final(out)@ == old(out)@ + varint_of(number as nat),
{
    let mut value: u64 = number;
    while value >= 0x80
        invariant
            out@ + varint_of(value as nat) == old(out)@ + varint_of(number as nat),
        decreases value,
    {
        let ghost before = out@;
        let ghost rest = varint_of((value / 0x80) as nat);
        let byte: u8 = (value % 0x80 + 0x80) as u8;
        out.push(byte);
        assert(before + (seq![byte] + rest) =~= before.push(byte) + rest);
        value = value / 0x80;
    }
    out.push(value as u8);
}

/// Appends some bytes.
fn push_all(out: &mut Vec<u8>, bytes: &[u8])
    ensures
        final(out)@ == old(out)@ + bytes@,
{
    let mut copy = vstd::slice::slice_to_vec(bytes);
    out.append(&mut copy);
}

/// The `WidevineCencHeader` protobuf inside the box, written by hand rather than generated: it
/// is four fields, one of them non-empty.
pub fn cenc_header(key_id: &[u8]) -> (out: Vec<u8>)
    ensures
        out@ == cenc_header_of(key_id@),
{
    let mut out: Vec<u8> = Vec::new();
    out.push(0x08);
    out.push(0x01);
    out.push(0x12);
    varint(&mut out, key_id.len() as u64);
    push_all(&mut out, key_id);
    out.push(0x1a);
    out.push(0x00);
    out.push(0x32);
    out.push(0x00);
    assert(out@ =~= cenc_header_of(key_id@));
    out
}

/// Builds the `pssh` box a CDM expects as init data for `key_id`.
///
/// A real CDM parses this as an ISO-BMFF box, so it has to be one: header, the Widevine system
/// id, then a `WidevineCencHeader` protobuf naming the key.
pub fn pssh(key_id: &[u8]) -> (boxed: Vec<u8>)
    ensures
        boxed@ == pssh_of(key_id@),
{
    let payload = cenc_header(key_id);
    let length: u128 = payload.len() as u128;
    let mut boxed: Vec<u8> = Vec::new();
    push_be32(&mut boxed, ((32 + length) % 0x1_0000_0000) as u32);
    push_all(&mut boxed, vstd::array::array_as_slice(&PSSH));
    boxed.push(0);
    boxed.push(0);
    boxed.push(0);
    boxed.push(0);
    push_all(&mut boxed, vstd::array::array_as_slice(&SYSTEM_ID));
    push_be32(&mut boxed, (length % 0x1_0000_0000) as u32);
    push_all(&mut boxed, payload.as_slice());
    assert(boxed@ =~= pssh_of(key_id@));
    boxed
}

/// The init data is a whole box of kind `pssh` that declares its own size, with nothing in front
/// of it and nothing behind it, whenever that size fits the header. Behind the header stand the
/// version, the system id and the length of the payload, which is all that is left.
#[verifier::spinoff_prover]
#[verifier::rlimit(50)]
pub proof fn init_data_is_one_box(key_id: Seq<u8>)
    requires
        pssh_of(key_id).len() < 0x1_0000_0000,
    ensures
        cenc::boxes::box_at(pssh_of(key_id), 0) == Some(
            cenc::boxes::Header {
                kind: PSSH@,
                body: 8,
                end: pssh_of(key_id).len() as int,
                total: pssh_of(key_id).len() as int,
            },
        ),
        pssh_of(key_id).subrange(8, 12) == seq![0u8, 0, 0, 0],
        pssh_of(key_id).subrange(12, 28) == SYSTEM_ID@,
        crate::bytes::u32_at(pssh_of(key_id), 28) == Some((pssh_of(key_id).len() - 32) as u32),
        pssh_of(key_id).skip(32) == cenc_header_of(key_id),
{
    let boxed = pssh_of(key_id);
    let payload = cenc_header_of(key_id);
    let size = low_bits(32 + payload.len());
    let length = low_bits(payload.len());
    lemma_parts(
        u32_bytes(size),
        PSSH@,
        seq![0u8, 0, 0, 0],
        SYSTEM_ID@,
        u32_bytes(length),
        payload,
    );
    lemma_number_at(boxed, 0, size);
    lemma_number_at(boxed, 28, length);
    lemma_whole_box(boxed, PSSH@);
}

/// Data that starts with its own length and a kind is one box.
proof fn lemma_whole_box(data: Seq<u8>, kind: Seq<u8>)
    requires
        data.len() >= 8,
        crate::bytes::be_at(data, 0, 4) == Some(data.len()),
        data.subrange(4, 8) == kind,
    ensures
        cenc::boxes::box_at(data, 0) == Some(
            cenc::boxes::Header {
                kind,
                body: 8,
                end: data.len() as int,
                total: data.len() as int,
            },
        ),
{
}

/// Where the parts of the init data stand.
proof fn lemma_parts(
    size: Seq<u8>,
    kind: Seq<u8>,
    version: Seq<u8>,
    system: Seq<u8>,
    length: Seq<u8>,
    payload: Seq<u8>,
)
    requires
        size.len() == 4,
        kind.len() == 4,
        version.len() == 4,
        system.len() == 16,
        length.len() == 4,
    ensures
        (size + kind + version + system + length + payload).len() == 32 + payload.len(),
        (size + kind + version + system + length + payload).subrange(0, 4) == size,
        (size + kind + version + system + length + payload).subrange(4, 8) == kind,
        (size + kind + version + system + length + payload).subrange(8, 12) == version,
        (size + kind + version + system + length + payload).subrange(12, 28) == system,
        (size + kind + version + system + length + payload).subrange(28, 32) == length,
        (size + kind + version + system + length + payload).skip(32) == payload,
{
    let all = size + kind + version + system + length + payload;
    assert(all.subrange(0, 4) =~= size);
    assert(all.subrange(4, 8) =~= kind);
    assert(all.subrange(8, 12) =~= version);
    assert(all.subrange(12, 28) =~= system);
    assert(all.subrange(28, 32) =~= length);
    assert(all.skip(32) =~= payload);
}

/// A number that was written reads back where it stands.
proof fn lemma_number_at(data: Seq<u8>, at: int, value: u32)
    requires
        0 <= at,
        at + 4 <= data.len(),
        data.subrange(at, at + 4) == u32_bytes(value),
    ensures
        crate::bytes::be_at(data, at, 4) == Some(value as nat),
{
    crate::bytes::lemma_be_value_4(u32_bytes(value));
}

/// The header names its key: two key ids whose headers are the same are the same.
proof fn lemma_header_names_its_key(left: Seq<u8>, right: Seq<u8>)
    requires
        cenc_header_of(left) == cenc_header_of(right),
    ensures
        left == right,
{
    let lead = seq![0x08u8, 0x01, 0x12];
    let tail = seq![0x1au8, 0x00, 0x32, 0x00];
    let one = varint_of(left.len()) + (left + tail);
    let other = varint_of(right.len()) + (right + tail);
    assert(cenc_header_of(left) =~= lead + one);
    assert(cenc_header_of(right) =~= lead + other);
    assert(one =~= (lead + one).skip(3));
    assert(other =~= (lead + other).skip(3));
    assert(one == other);
    a_varint_reads_back(left.len(), left + tail);
    a_varint_reads_back(right.len(), right + tail);
    assert(left.len() == right.len());
    let start = varint_of(left.len()).len() as int;
    assert(left =~= one.subrange(start, start + left.len()));
    assert(right =~= other.subrange(start, start + right.len()));
}

/// Different key ids give different init data.
pub proof fn init_data_names_its_key(left: Seq<u8>, right: Seq<u8>)
    ensures
        pssh_of(left) == pssh_of(right) <==> left == right,
{
    if pssh_of(left) == pssh_of(right) {
        lemma_payload(left);
        lemma_payload(right);
        lemma_header_names_its_key(left, right);
    }
}

/// The payload is what stands behind the head of the init data.
proof fn lemma_payload(key_id: Seq<u8>)
    ensures
        pssh_of(key_id).skip(32) == cenc_header_of(key_id),
{
    let payload = cenc_header_of(key_id);
    lemma_parts(
        u32_bytes(low_bits(32 + payload.len())),
        PSSH@,
        seq![0u8, 0, 0, 0],
        SYSTEM_ID@,
        u32_bytes(low_bits(payload.len())),
        payload,
    );
}

/// How many bytes a number written that way takes: those marked by their high bit, and the first
/// that is not.
pub open spec fn varint_width(bytes: Seq<u8>) -> nat
    decreases bytes.len(),
{
    if bytes.len() == 0 {
        0
    } else if bytes[0] < 0x80 {
        1
    } else {
        1 + varint_width(bytes.drop_first())
    }
}

/// A length written as a varint ends where its bytes say, whatever follows it.
pub proof fn a_varint_ends_where_it_says(value: nat, tail: Seq<u8>)
    ensures
        varint_width(varint_of(value) + tail) == varint_of(value).len(),
    decreases value,
{
    let bytes = varint_of(value) + tail;
    if value >= 0x80 {
        a_varint_ends_where_it_says(value / 0x80, tail);
        assert(bytes.drop_first() =~= varint_of(value / 0x80) + tail);
    }
}

/// These bytes, read as protobuf, are a `WidevineCencHeader` for the key: field 1 is one, field 2
/// is as long as the key id and holds it byte for byte, fields 3 and 6 are empty, and nothing
/// follows.
pub open spec fn names_key(header: Seq<u8>, key_id: Seq<u8>) -> bool {
    let behind = header.skip(3);
    let start = 3 + varint_width(behind) as int;
    &&& header.len() == start + key_id.len() + 4
    &&& header[0] == 0x08
    &&& header[1] == 0x01
    &&& header[2] == 0x12
    &&& varint_value(behind) == key_id.len()
    &&& forall|i: int| 0 <= i < key_id.len() ==> header[start + i] == #[trigger] key_id[i]
    &&& header[start + key_id.len()] == 0x1a
    &&& header[start + key_id.len() + 1] == 0x00
    &&& header[start + key_id.len() + 2] == 0x32
    &&& header[start + key_id.len() + 3] == 0x00
}

/// Read back as protobuf, the second field of the header is the key id itself, and the init data
/// carries that header as its payload.
pub proof fn the_key_id_reads_back(key_id: Seq<u8>)
    ensures
        names_key(cenc_header_of(key_id), key_id),
        names_key(pssh_of(key_id).skip(32), key_id),
        ({
            let start = 35 + varint_width(pssh_of(key_id).skip(35));
            forall|i: int|
                0 <= i < key_id.len() ==> pssh_of(key_id)[start + i] == #[trigger] key_id[i]
        }),
{
    let tail = seq![0x1au8, 0x00, 0x32, 0x00];
    let header = cenc_header_of(key_id);
    let width = varint_of(key_id.len()).len();
    assert(header.skip(3) =~= varint_of(key_id.len()) + (key_id + tail));
    a_varint_reads_back(key_id.len(), key_id + tail);
    a_varint_ends_where_it_says(key_id.len(), key_id + tail);
    assert forall|i: int| 0 <= i < key_id.len() implies header[3 + width + i]
        == #[trigger] key_id[i] by {
        assert(header.skip(3)[width + i] == key_id[i]);
    }
    lemma_payload(key_id);
    let boxed = pssh_of(key_id);
    assert(boxed.skip(35) =~= boxed.skip(32).skip(3));
    assert forall|i: int| 0 <= i < key_id.len() implies boxed[35 + width + i]
        == #[trigger] key_id[i] by {
        assert(boxed.skip(32)[3 + width + i] == key_id[i]);
    }
}

/// The head of the init data, byte for byte: the kind is `pssh`, the version and the flags are
/// nought, and the system id follows.
pub proof fn the_head_of_the_init_data(key_id: Seq<u8>)
    ensures
        pssh_of(key_id).subrange(4, 28) == seq![
            0x70u8, 0x73, 0x73, 0x68, 0, 0, 0, 0, 0xed, 0xef, 0x8b, 0xa9, 0x79, 0xd6, 0x4a, 0xce,
            0xa3, 0xc8, 0x27, 0xdc, 0xd5, 0x1d, 0x21, 0xed,
        ],
{
    let payload = cenc_header_of(key_id);
    let boxed = pssh_of(key_id);
    lemma_parts(
        u32_bytes(low_bits(32 + payload.len())),
        PSSH@,
        seq![0u8, 0, 0, 0],
        SYSTEM_ID@,
        u32_bytes(low_bits(payload.len())),
        payload,
    );
    assert(boxed.subrange(4, 28) =~= boxed.subrange(4, 8) + boxed.subrange(8, 12) + boxed.subrange(
        12,
        28,
    ));
}

/// A digit of a number written to the base sixteen.
pub open spec fn hex_digit(digit: int) -> char {
    let digits = seq![
        '0', '1', '2', '3', '4', '5', '6', '7', '8', '9', 'a', 'b', 'c', 'd', 'e', 'f',
    ];
    digits[digit]
}

/// Where a byte of the system id stands in the key format, behind the dashes in front of it.
pub open spec fn uuid_place(byte: int) -> int {
    9 + 2 * byte + (if byte < 4 {
        0int
    } else if byte < 6 {
        1
    } else if byte < 8 {
        2
    } else if byte < 10 {
        3
    } else {
        4
    })
}

/// The key format of a media playlist spells the system id of the init data.
pub proof fn the_key_format_spells_the_system_id(byte: int)
    requires
        0 <= byte < 16,
    ensures
        KEY_FORMAT@.len() == 45,
        KEY_FORMAT@[uuid_place(byte)] == hex_digit(SYSTEM_ID@[byte] as int / 16),
        KEY_FORMAT@[uuid_place(byte) + 1] == hex_digit(SYSTEM_ID@[byte] as int % 16),
{
    reveal_strlit("urn:uuid:edef8ba9-79d6-4ace-a3c8-27dcd51d21ed");
}

/// A CDM can be had exactly where this build has a host and the machine has a module, and a
/// build without a host is told apart from a machine without a module.
pub proof fn a_cdm_takes_a_host_and_a_module(host: bool, module: bool)
    ensures
        lacking(host, module) is None <==> host && module,
        lacking(host, module) == Some(Missing::Host) <==> !host,
        lacking(host, module) == Some(Missing::Module) <==> host && !module,
{
}

/// What this build of the app carries.
#[derive(Clone, Copy, Debug, PartialEq, Eq, Structural)]
pub struct Build {
    /// A host for a CDM is linked in.
    pub cdm: bool,
}

/// Why a CDM cannot be had.
#[derive(Clone, Copy, Debug, PartialEq, Eq, Structural)]
pub enum Missing {
    Host,
    Module,
}

impl Missing {
    /// The reason in words.
    pub open spec fn words(self) -> Seq<char> {
        match self {
            Missing::Host => "this build carries no widevine host"@,
            Missing::Module => "no widevine module was found on this machine"@,
        }
    }

    /// The reason in words.
    pub fn message(self) -> (text: &'static str)
        ensures
            text@ == self.words(),
    {
        match self {
            Missing::Host => "this build carries no widevine host",
            Missing::Module => "no widevine module was found on this machine",
        }
    }
}

/// What keeps a CDM from being opened: a build without a host first, then a machine without a
/// module.
pub open spec fn lacking(host: bool, module: bool) -> Option<Missing> {
    if !host {
        Some(Missing::Host)
    } else if !module {
        Some(Missing::Module)
    } else {
        None
    }
}

/// Whether this build has a host for a CDM. It says nothing about whether the machine has a
/// CDM to open, only whether one could be used if it did.
pub fn supported(build: Build) -> (yes: bool)
    ensures
        yes == build.cdm,
{
    build.cdm
}

/// Whether this build and this machine can open a CDM at all. A provider asks before offering
/// playback, so the answer is a missing feature rather than a failed track. `found` is what
/// [`find`] answers.
pub fn available<P>(build: Build, found: Option<&Found<P>>) -> (yes: bool)
    ensures
        yes == (lacking(build.cdm, found is Some) is None),
{
    supported(build) && found.is_some()
}

/// Fails with the reason a CDM cannot be had, for a caller that wants to say so once rather
/// than per track. `found` is what [`find`] answers.
pub fn require<P>(build: Build, found: Option<&Found<P>>) -> (outcome: Result<(), Missing>)
    ensures
        match lacking(build.cdm, found is Some) {
            Some(missing) => outcome == Err::<(), Missing>(missing),
            None => outcome is Ok,
        },
{
    if !supported(build) {
        return Err(Missing::Host);
    }
    if found.is_none() {
        return Err(Missing::Module);
    }
    Ok(())
}

} // verus!
