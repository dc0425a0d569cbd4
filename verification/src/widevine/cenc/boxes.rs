//! The boxes of an ISO-BMFF file: headers, children and descendants.
//!
//! A box is found by its header alone. A header counts only when the whole box it declares has
//! arrived, so everything below it can be read without asking again.

use vstd::prelude::*;

use crate::bytes::{be32, be64, be_at, u32_at, u64_at};

verus! {

/// One box: its four-character kind, where its body sits, and how long the whole box is.
#[derive(Clone, Copy, Debug)]
pub struct Bx {
    pub kind: [u8; 4],
    pub body: usize,
    pub end: usize,
    pub total: usize,
}

/// What a box header says, as mathematics.
#[verifier::ext_equal]
pub struct Header {
    pub kind: Seq<u8>,
    pub body: int,
    pub end: int,
    pub total: int,
}

impl View for Bx {
    type V = Header;

    open spec fn view(&self) -> Header {
        Header {
            kind: self.kind@,
            body: self.body as int,
            end: self.end as int,
            total: self.total as int,
        }
    }
}

/// A box that may not be there, as mathematics.
pub open spec fn seen(found: Option<Bx>) -> Option<Header> {
    match found {
        Some(bx) => Some(bx@),
        None => None,
    }
}

/// The box whose header stands at `at`. The header is eight bytes, or sixteen when a size of one
/// says that the real size follows in eight bytes of its own. A size that leaves no room for the
/// header, a size of zero included, is no box, and neither is one that runs past the data.
pub open spec fn box_at(data: Seq<u8>, at: int) -> Option<Header> {
    match be_at(data, at, 4) {
        None => None,
        Some(size) => {
            let lead: int = if size == 1 {
                16
            } else {
                8
            };
            let declared = if size == 1 {
                be_at(data, at + 8, 8)
            } else {
                Some(size)
            };
            match declared {
                None => None,
                Some(total) => if lead <= total && at + total <= data.len() {
                    Some(
                        Header {
                            kind: data.subrange(at + 4, at + 8),
                            body: at + lead,
                            end: at + total,
                            total: total as int,
                        },
                    )
                } else {
                    None
                },
            }
        },
    }
}

/// The boxes that stand one behind the other from `at`, each with where it starts, up to the
/// first header that is no box or whose box runs past `end`.
pub open spec fn boxes_from(data: Seq<u8>, at: int, end: int) -> Seq<(int, Header)>
    decreases end - at,
{
    match box_at(data, at) {
        Some(bx) => if bx.end <= end {
            seq![(at, bx)] + boxes_from(data, bx.end, end)
        } else {
            Seq::empty()
        },
        None => Seq::empty(),
    }
}

/// The first box of `kind` among those that stand one behind the other from `at`.
pub open spec fn child_of(data: Seq<u8>, at: int, end: int, kind: Seq<u8>) -> Option<Header>
    decreases end - at,
{
    match box_at(data, at) {
        Some(bx) => if bx.end > end {
            None
        } else if bx.kind == kind {
            Some(bx)
        } else {
            child_of(data, bx.end, end, kind)
        },
        None => None,
    }
}

/// The first box of `kind` anywhere below, depth first: a box comes before what is inside it,
/// and what is inside it before what stands behind it.
pub open spec fn descendant_of(data: Seq<u8>, at: int, end: int, kind: Seq<u8>) -> Option<Header>
    decreases end - at,
{
    match box_at(data, at) {
        Some(bx) => if bx.end > end {
            None
        } else if bx.kind == kind {
            Some(bx)
        } else {
            match descendant_of(data, bx.body, bx.end, kind) {
                Some(found) => Some(found),
                None => descendant_of(data, bx.end, end, kind),
            }
        },
        None => None,
    }
}

/// A list of boxes with where each starts, as mathematics.
pub open spec fn listed(found: Seq<(usize, Bx)>) -> Seq<(int, Header)> {
    found.map_values(|one: (usize, Bx)| (one.0 as int, one.1@))
}

/// The `u32` at `at`, when all of it lies below `end`.
pub open spec fn u32_below(data: Seq<u8>, at: int, end: int) -> Option<u32> {
    if at + 4 <= end {
        u32_at(data, at)
    } else {
        None
    }
}

/// The `u64` at `at`, when all of it lies below `end`.
pub open spec fn u64_below(data: Seq<u8>, at: int, end: int) -> Option<u64> {
    if at + 8 <= end {
        u64_at(data, at)
    } else {
        None
    }
}

/// A value, or the one that stands in for it.
pub open spec fn or_else<T>(value: Option<T>, fallback: T) -> T {
    match value {
        Some(value) => value,
        None => fallback,
    }
}

/// Whether two box kinds are the same four characters.
pub fn same_kind(left: &[u8; 4], right: &[u8; 4]) -> (same: bool)
    ensures
        same == (left@ == right@),
{
    let same = left[0] == right[0] && left[1] == right[1] && left[2] == right[2] && left[3]
        == right[3];
    proof {
        if same {
            assert(left@ =~= right@);
        }
    }
    same
}

/// The `u32` at `at`, read only when it lies below `end`.
pub fn field32(data: &[u8], at: usize, end: usize) -> (out: Option<u32>)
    ensures
        out == u32_below(data@, at as int, end as int),
{
    if end < 4 || at > end - 4 {
        return None;
    }
    be32(data, at)
}

/// The `u64` at `at`, read only when it lies below `end`.
pub fn field64(data: &[u8], at: usize, end: usize) -> (out: Option<u64>)
    ensures
        out == u64_below(data@, at as int, end as int),
{
    if end < 8 || at > end - 8 {
        return None;
    }
    be64(data, at)
}

/// Reads the box header at `at`, refusing one whose declared size runs past what has arrived.
/// A size of zero means "to the end of the file", which a fragmented stream never uses, so it
/// is refused rather than guessed at.
pub fn read(data: &[u8], at: usize) -> (found: Option<Bx>)
    ensures
        seen(found) == box_at(data@, at as int),
        found matches Some(bx) ==> at + 8 <= bx.body <= bx.end <= data@.len() && bx.end == at
            + bx.total,
{
    let size = match be32(data, at) {
        Some(size) => size,
        None => {
            return None;
        },
    };
    proof {
        crate::bytes::lemma_be_value_4(data@.subrange(at as int, at + 4));
    }
    let room: usize = data.len() - at;
    let lead: usize;
    let total: usize;
    if size == 1 {
        if room < 16 {
            return None;
        }
        let wide = match be64(data, at + 8) {
            Some(wide) => wide,
            None => {
                return None;
            },
        };
        proof {
            crate::bytes::lemma_be_value_8(data@.subrange(at + 8, at + 16));
        }
        if wide > room as u64 {
            return None;
        }
        lead = 16;
        total = wide as usize;
    } else {
        if size as u64 > room as u64 {
            return None;
        }
        lead = 8;
        total = size as usize;
    }
    if total < lead {
        return None;
    }
    let kind: [u8; 4] = [data[at + 4], data[at + 5], data[at + 6], data[at + 7]];
    proof {
        assert(kind@ =~= data@.subrange(at + 4, at + 8));
    }
    Some(Bx { kind, body: at + lead, end: at + total, total })
}

/// The children of a box, in order. Stops at the first header that does not parse, so a
/// truncated tail is ignored rather than fatal.
pub fn children(data: &[u8], body: usize, end: usize) -> (found: Vec<(usize, Bx)>)
    ensures
        listed(found@) == boxes_from(data@, body as int, end as int),
{
    let mut found: Vec<(usize, Bx)> = Vec::new();
    let mut at: usize = body;
    loop
        invariant
            listed(found@) + boxes_from(data@, at as int, end as int) == boxes_from(
                data@,
                body as int,
                end as int,
            ),
        ensures
            listed(found@) == boxes_from(data@, body as int, end as int),
        decreases data@.len() - at,
    {
        let bx = match read(data, at) {
            Some(bx) => bx,
            None => {
                break;
            },
        };
        if bx.end > end {
            break;
        }
        let ghost before = listed(found@);
        let ghost rest = boxes_from(data@, bx.end as int, end as int);
        found.push((at, bx));
        proof {
            assert(listed(found@) =~= before.push((at as int, bx@)));
            assert(before + (seq![(at as int, bx@)] + rest) =~= before.push((at as int, bx@))
                + rest);
        }
        at = bx.end;
    }
    found
}

/// The first child of `kind`.
pub fn child(data: &[u8], body: usize, end: usize, kind: &[u8; 4]) -> (found: Option<Bx>)
    ensures
        seen(found) == child_of(data@, body as int, end as int, kind@),
        found matches Some(bx) ==> body + 8 <= bx.body <= bx.end <= end && bx.end <= data@.len(),
{
    let mut at: usize = body;
    loop
        invariant
            body <= at,
            child_of(data@, at as int, end as int, kind@) == child_of(
                data@,
                body as int,
                end as int,
                kind@,
            ),
        decreases data@.len() - at,
    {
        let bx = match read(data, at) {
            Some(bx) => bx,
            None => {
                return None;
            },
        };
        if bx.end > end {
            return None;
        }
        if same_kind(&bx.kind, kind) {
            return Some(bx);
        }
        at = bx.end;
    }
}

/// The first box of `kind` anywhere under `body`, depth first.
pub fn descendant(data: &[u8], body: usize, end: usize, kind: &[u8; 4]) -> (found: Option<Bx>)
    ensures
        seen(found) == descendant_of(data@, body as int, end as int, kind@),
        found matches Some(bx) ==> body + 8 <= bx.body <= bx.end <= end && bx.end <= data@.len(),
    decreases (if end > body { end - body } else { 0 }),
{
    let mut at: usize = body;
    loop
        invariant
            body <= at,
            descendant_of(data@, at as int, end as int, kind@) == descendant_of(
                data@,
                body as int,
                end as int,
                kind@,
            ),
        decreases data@.len() - at,
    {
        let bx = match read(data, at) {
            Some(bx) => bx,
            None => {
                return None;
            },
        };
        if bx.end > end {
            return None;
        }
        if same_kind(&bx.kind, kind) {
            return Some(bx);
        }
        let inner = descendant(data, bx.body, bx.end, kind);
        if inner.is_some() {
            return inner;
        }
        at = bx.end;
    }
}

} // verus!
