//! The byte reader: a length-prefixed binary message stream over a borrowed
//! byte slice, decoded without reuse after a failure.
//!
//! The stream is a concatenation of messages, each a varint byte length
//! followed by that many bytes of body. A message body is a sequence of
//! fields, each a varint tag `(field_number << 3) | wire_type` followed by
//! the field's payload: wire type 0 is a varint, 1 an eight-byte scalar,
//! 5 a four-byte scalar, and 2 a varint byte length followed by that many
//! payload bytes. Unknown fields are skipped; unknown wire types are
//! malformed. A varint is a little-endian base-128 integer, seven payload
//! bits per byte, high bit set on every byte but the last, at most ten
//! bytes, and its value must fit in 64 bits.

use vstd::prelude::*;
use crate::dump::{CoarseType, Edge, EdgeV, Node, NodeId, NodeV, OneByteString, TwoByteString};
use crate::dump::{view_opt_one_byte, view_opt_two_byte};
use crate::dump::{spec_dedup_nodes, spec_find_in, spec_insert_node, CoreDump, DumpV};
use crate::dump::{copy_one, copy_two};

verus! {

broadcast use
    vstd::std_specs::vec::group_vec_axioms,
    vstd::seq::group_seq_axioms;

/// Mathematical varint decoding from `pos`: the payload bits seen so far are
/// `acc`, the place value of the next byte is `mult`, and `count` bytes have
/// been consumed. Yields the (unbounded) value and the position after it.
pub open spec fn spec_varint_rec(
    bytes: Seq<u8>,
    pos: int,
    count: int,
    acc: int,
    mult: int,
) -> Option<(int, int)>
    decreases 10 - count,
{
    if count >= 10 || pos < 0 || pos >= bytes.len() {
        None
    } else {
        let b = bytes[pos] as int;
        let acc2 = acc + (b % 128) * mult;
        if b < 128 {
            Some((acc2, pos + 1))
        } else {
            spec_varint_rec(bytes, pos + 1, count + 1, acc2, mult * 128)
        }
    }
}

/// The place value of the `n`-th varint byte.
pub open spec fn spec_pow128(n: int) -> int
    decreases n,
{
    if n <= 0 {
        1
    } else {
        128 * spec_pow128(n - 1)
    }
}

proof fn lemma_pow128_pos(n: int)
    ensures
        spec_pow128(n) >= 1,
    decreases n,
{
    if n > 0 {
        lemma_pow128_pos(n - 1);
    }
}

proof fn lemma_pow128_le9(n: int)
    requires
        0 <= n <= 9,
    ensures
        spec_pow128(n) <= 0x8000000000000000,
    decreases 9 - n,
{
    lemma_pow128_pos(n);
    if n == 9 {
        assert(spec_pow128(9) == 0x8000000000000000) by {
            reveal_with_fuel(spec_pow128, 11);
        }
    } else {
        lemma_pow128_le9(n + 1);
        assert(spec_pow128(n + 1) == 128 * spec_pow128(n));
    }
}

/// A varint at `pos`: its value and the position after it. `None` on
/// truncation, on more than ten bytes, and on a value over 64 bits.
pub open spec fn spec_varint(bytes: Seq<u8>, pos: int) -> Option<(u64, int)> {
    match spec_varint_rec(bytes, pos, 0, 0, 1) {
        Some((v, end)) => if v <= u64::MAX { Some((v as u64, end)) } else { None },
        None => None,
    }
}

/// Read one varint. Mirrors [`spec_varint`].
pub fn read_varint(bytes: &[u8], pos: usize) -> (r: Option<(u64, usize)>)
    requires
        pos <= bytes@.len(),
        bytes@.len() <= usize::MAX,
    ensures
        match r {
            Some((v, end)) => {
                &&& spec_varint(bytes@, pos as int) == Some((v, end as int))
                &&& pos < end <= bytes@.len()
            },
            None => spec_varint(bytes@, pos as int) is None,
        },
{
    let mut p = pos;
    let mut count: usize = 0;
    let mut acc: u128 = 0;
    let mut mult: u128 = 1;
    loop
        invariant
            pos <= p <= bytes@.len(),
            bytes@.len() <= usize::MAX,
            p == pos + count,
            0 <= count < 10,
            acc < mult,
            mult as int == spec_pow128(count as int),
            spec_varint_rec(bytes@, pos as int, 0, 0, 1) == spec_varint_rec(
                bytes@,
                p as int,
                count as int,
                acc as int,
                mult as int,
            ),
        decreases 10 - count,
    {
        if p >= bytes.len() {
            return None;
        }
        let b = bytes[p];
        let low: u128 = (b & 0x7f) as u128;
        proof {
            assert((b & 0x7f) == b % 128) by (bit_vector);
            lemma_pow128_le9(count as int);
            assert(low * mult <= 127 * 0x8000000000000000) by (nonlinear_arith)
                requires
                    low <= 127,
                    0 <= mult <= 0x8000000000000000,
            ;
            assert(acc + low * mult < 128 * mult) by (nonlinear_arith)
                requires
                    acc < mult,
                    low <= 127,
                    0 < mult,
            ;
        }
        let acc2: u128 = acc + low * mult;
        if b < 0x80 {
            if acc2 > u64::MAX as u128 {
                return None;
            }
            return Some((acc2 as u64, p + 1));
        }
        if count == 9 {
            proof {
                assert(spec_varint_rec(
                    bytes@,
                    p + 1,
                    10,
                    acc as int + (b as int % 128) * mult as int,
                    mult as int * 128,
                ) is None);
            }
            return None;
        }
        acc = acc2;
        mult = mult * 128;
        count = count + 1;
        p = p + 1;
    }
}

/// The bounds of a length-prefixed message at `pos`: the body's start and
/// end. `None` on a bad varint or a length that overruns the buffer.
pub open spec fn spec_message_bounds(bytes: Seq<u8>, pos: int) -> Option<(int, int)> {
    match spec_varint(bytes, pos) {
        Some((len, body)) => if body + len <= bytes.len() {
            Some((body, body + len))
        } else {
            None
        },
        None => None,
    }
}

/// Find the bounds of the length-prefixed message at `pos`. Mirrors
/// [`spec_message_bounds`].
pub fn read_message_bounds(bytes: &[u8], pos: usize) -> (r: Option<(usize, usize)>)
    requires
        pos <= bytes@.len(),
        bytes@.len() <= usize::MAX,
    ensures
        match r {
            Some((start, end)) => {
                &&& spec_message_bounds(bytes@, pos as int) == Some((start as int, end as int))
                &&& pos < start <= end <= bytes@.len()
            },
            None => spec_message_bounds(bytes@, pos as int) is None,
        },
{
    match read_varint(bytes, pos) {
        Some((len, body)) => {
            if len <= (bytes.len() - body) as u64 {
                Some((body, body + len as usize))
            } else {
                None
            }
        },
        None => None,
    }
}

/// The little-endian 16-bit code units denoted by a byte range of even
/// length; `None` on odd length.
pub open spec fn spec_two_byte_units(bytes: Seq<u8>) -> Option<Seq<u16>> {
    if bytes.len() % 2 == 0 {
        Some(
            Seq::new(
                bytes.len() / 2,
                |i: int|
                    if 0 <= i && 2 * i + 1 < bytes.len() {
                        (bytes[2 * i] + 256 * (bytes[2 * i + 1] as int)) as u16
                    } else {
                        0u16
                    },
            ),
        )
    } else {
        None
    }
}

/// Copy a byte range as two-byte string units. Mirrors
/// [`spec_two_byte_units`] on the range's contents.
pub fn read_two_byte_units(bytes: &[u8], start: usize, end: usize) -> (r: Option<TwoByteString>)
    requires
        start <= end <= bytes@.len(),
    ensures
        match r {
            Some(s) => spec_two_byte_units(bytes@.subrange(start as int, end as int))
                == Some(s@),
            None => spec_two_byte_units(bytes@.subrange(start as int, end as int)) is None,
        },
{
    let ghost range = bytes@.subrange(start as int, end as int);
    if (end - start) % 2 != 0 {
        return None;
    }
    let mut units: Vec<u16> = Vec::new();
    let mut p = start;
    while p < end
        invariant
            start <= p <= end <= bytes@.len(),
            (end - start) % 2 == 0,
            (p - start) % 2 == 0,
            range == bytes@.subrange(start as int, end as int),
            units@.len() == (p - start) / 2,
            forall|i: int|
                0 <= i < units@.len() ==> #[trigger] units@[i] == (range[2 * i] + 256 * (
                range[2 * i + 1] as int)) as u16,
        decreases end - p,
    {
        let lo = bytes[p];
        let hi = bytes[p + 1];
        let unit: u16 = lo as u16 + 256 * (hi as u16);
        units.push(unit);
        p = p + 2;
    }
    proof {
        let expected = spec_two_byte_units(range)->Some_0;
        assert(units@ =~= expected);
    }
    Some(TwoByteString(units))
}

/// Copy a byte range as a one-byte string.
pub fn read_one_byte_string(bytes: &[u8], start: usize, end: usize) -> (r: OneByteString)
    requires
        start <= end <= bytes@.len(),
    ensures
        r@ == bytes@.subrange(start as int, end as int),
{
    let mut out: Vec<u8> = Vec::new();
    let mut p = start;
    while p < end
        invariant
            start <= p <= end <= bytes@.len(),
            out@ =~= bytes@.subrange(start as int, p as int),
        decreases end - p,
    {
        out.push(bytes[p]);
        proof {
            assert(out@ =~= bytes@.subrange(start as int, p as int + 1));
        }
        p = p + 1;
    }
    OneByteString(out)
}


/// A varint whose end stays inside `[pos, end)`'s message range: the value
/// and the position after it, which always advances.
pub open spec fn spec_varint_in(bytes: Seq<u8>, pos: int, end: int) -> Option<(u64, int)> {
    match spec_varint(bytes, pos) {
        Some((v, vend)) => if pos < vend <= end {
            Some((v, vend))
        } else {
            None
        },
        None => None,
    }
}

/// Read a varint that must end by `end`. Mirrors [`spec_varint_in`].
pub fn read_varint_in(bytes: &[u8], pos: usize, end: usize) -> (r: Option<(u64, usize)>)
    requires
        pos <= end <= bytes@.len(),
        bytes@.len() <= usize::MAX,
    ensures
        match r {
            Some((v, vend)) => {
                &&& spec_varint_in(bytes@, pos as int, end as int) == Some((v, vend as int))
                &&& pos < vend <= end
            },
            None => spec_varint_in(bytes@, pos as int, end as int) is None,
        },
{
    match read_varint(bytes, pos) {
        Some((v, vend)) => if vend <= end {
            Some((v, vend))
        } else {
            None
        },
        None => None,
    }
}

/// The bounds of a length-delimited payload at `pos` inside `[pos, end)`:
/// a varint byte count, then that many bytes.
pub open spec fn spec_payload_bounds(bytes: Seq<u8>, pos: int, end: int) -> Option<(int, int)> {
    match spec_varint_in(bytes, pos, end) {
        Some((len, body)) => if body + len <= end {
            Some((body, body + len))
        } else {
            None
        },
        None => None,
    }
}

/// Find a length-delimited payload's bounds. Mirrors [`spec_payload_bounds`].
pub fn read_payload_bounds(bytes: &[u8], pos: usize, end: usize) -> (r: Option<(usize, usize)>)
    requires
        pos <= end <= bytes@.len(),
        bytes@.len() <= usize::MAX,
    ensures
        match r {
            Some((b1, b2)) => {
                &&& spec_payload_bounds(bytes@, pos as int, end as int) == Some((
                    b1 as int,
                    b2 as int,
                ))
                &&& pos < b1 <= b2 <= end
            },
            None => spec_payload_bounds(bytes@, pos as int, end as int) is None,
        },
{
    match read_varint_in(bytes, pos, end) {
        Some((len, body)) => {
            if len <= (end - body) as u64 {
                Some((body, body + len as usize))
            } else {
                None
            }
        },
        None => None,
    }
}

/// The position after the payload of a field with the given wire type, or
/// `None` if the field is malformed or the wire type unknown.
pub open spec fn spec_skip_field(bytes: Seq<u8>, pos: int, end: int, wire: u64) -> Option<int> {
    if wire == 0 {
        match spec_varint_in(bytes, pos, end) {
            Some((_, vend)) => Some(vend),
            None => None,
        }
    } else if wire == 1 {
        if pos + 8 <= end {
            Some(pos + 8)
        } else {
            None
        }
    } else if wire == 5 {
        if pos + 4 <= end {
            Some(pos + 4)
        } else {
            None
        }
    } else if wire == 2 {
        match spec_payload_bounds(bytes, pos, end) {
            Some((_, b2)) => Some(b2),
            None => None,
        }
    } else {
        None
    }
}

/// Skip an unknown field's payload. Mirrors [`spec_skip_field`].
pub fn skip_field(bytes: &[u8], pos: usize, end: usize, wire: u64) -> (r: Option<usize>)
    requires
        pos <= end <= bytes@.len(),
        bytes@.len() <= usize::MAX,
    ensures
        match r {
            Some(p2) => {
                &&& spec_skip_field(bytes@, pos as int, end as int, wire) == Some(p2 as int)
                &&& pos < p2 <= end
            },
            None => spec_skip_field(bytes@, pos as int, end as int, wire) is None,
        },
{
    if wire == 0 {
        match read_varint_in(bytes, pos, end) {
            Some((_, vend)) => Some(vend),
            None => None,
        }
    } else if wire == 1 {
        if end - pos >= 8 {
            Some(pos + 8)
        } else {
            None
        }
    } else if wire == 5 {
        if end - pos >= 4 {
            Some(pos + 4)
        } else {
            None
        }
    } else if wire == 2 {
        match read_payload_bounds(bytes, pos, end) {
            Some((_, b2)) => Some(b2),
            None => None,
        }
    } else {
        None
    }
}

/// A deduplicable two-byte string field: the string's own code units, or a
/// back-reference into the two-byte interning table.
pub enum TwoByteOrRef {
    Given(TwoByteString),
    Ref(u64),
}

/// A deduplicable one-byte string field: the string's own bytes, or a
/// back-reference into the one-byte interning table.
pub enum OneByteOrRef {
    Given(OneByteString),
    Ref(u64),
}

/// The mathematical content of a [`TwoByteOrRef`].
pub enum TwoByteOrRefV {
    Given(Seq<u16>),
    Ref(u64),
}

/// The mathematical content of a [`OneByteOrRef`].
pub enum OneByteOrRefV {
    Given(Seq<u8>),
    Ref(u64),
}

impl View for TwoByteOrRef {
    type V = TwoByteOrRefV;

    open spec fn view(&self) -> TwoByteOrRefV {
        match self {
            TwoByteOrRef::Given(s) => TwoByteOrRefV::Given(s@),
            TwoByteOrRef::Ref(i) => TwoByteOrRefV::Ref(*i),
        }
    }
}

impl View for OneByteOrRef {
    type V = OneByteOrRefV;

    open spec fn view(&self) -> OneByteOrRefV {
        match self {
            OneByteOrRef::Given(s) => OneByteOrRefV::Given(s@),
            OneByteOrRef::Ref(i) => OneByteOrRefV::Ref(*i),
        }
    }
}

pub open spec fn view_opt_two_ref(o: Option<TwoByteOrRef>) -> Option<TwoByteOrRefV> {
    match o {
        Some(f) => Some(f@),
        None => None,
    }
}

pub open spec fn view_opt_one_ref(o: Option<OneByteOrRef>) -> Option<OneByteOrRefV> {
    match o {
        Some(f) => Some(f@),
        None => None,
    }
}

/// One decoded edge message.
pub struct ProtoEdge {
    pub referent: Option<u64>,
    pub name: Option<TwoByteOrRef>,
}

/// The mathematical content of a [`ProtoEdge`].
pub struct ProtoEdgeV {
    pub referent: Option<u64>,
    pub name: Option<TwoByteOrRefV>,
}

impl View for ProtoEdge {
    type V = ProtoEdgeV;

    open spec fn view(&self) -> ProtoEdgeV {
        ProtoEdgeV { referent: self.referent, name: view_opt_two_ref(self.name) }
    }
}

/// One decoded allocation-stack frame: either its data or a back-reference
/// to an earlier frame.
pub enum ProtoFrame {
    Data(Box<ProtoData>),
    Ref(u64),
}

/// The contents of an allocation-stack frame: its parent chain and two
/// deduplicable strings.
pub struct ProtoData {
    pub parent: Option<Box<ProtoFrame>>,
    pub source: Option<TwoByteOrRef>,
    pub function_display_name: Option<TwoByteOrRef>,
}

/// The mathematical content of a [`ProtoFrame`].
pub enum ProtoFrameV {
    Data(Box<ProtoDataV>),
    Ref(u64),
}

/// The mathematical content of a [`ProtoData`].
pub struct ProtoDataV {
    pub parent: Option<Box<ProtoFrameV>>,
    pub source: Option<TwoByteOrRefV>,
    pub function_display_name: Option<TwoByteOrRefV>,
}

impl ProtoFrame {
    pub open spec fn deep_view(&self) -> ProtoFrameV
        decreases self,
    {
        match self {
            ProtoFrame::Data(d) => ProtoFrameV::Data(Box::new(d.deep_view())),
            ProtoFrame::Ref(i) => ProtoFrameV::Ref(*i),
        }
    }
}

impl ProtoData {
    pub open spec fn deep_view(&self) -> ProtoDataV
        decreases self,
    {
        ProtoDataV {
            parent: match &self.parent {
                Some(f) => Some(Box::new(f.deep_view())),
                None => None,
            },
            source: view_opt_two_ref(self.source),
            function_display_name: view_opt_two_ref(self.function_display_name),
        }
    }
}

pub open spec fn view_opt_frame(o: Option<ProtoFrame>) -> Option<ProtoFrameV> {
    match o {
        Some(f) => Some(f.deep_view()),
        None => None,
    }
}

/// One decoded node message.
#[allow(non_snake_case)]
pub struct ProtoNode {
    pub id: Option<u64>,
    pub size: Option<u64>,
    pub edges: Vec<ProtoEdge>,
    pub allocationStack: Option<ProtoFrame>,
    pub coarseType: u32,
    pub typeName: Option<TwoByteOrRef>,
    pub className: Option<OneByteOrRef>,
    pub scriptFilename: Option<OneByteOrRef>,
    pub descriptiveTypeName: Option<TwoByteOrRef>,
}

/// The mathematical content of a [`ProtoNode`].
#[allow(non_snake_case)]
pub struct ProtoNodeV {
    pub id: Option<u64>,
    pub size: Option<u64>,
    pub edges: Seq<ProtoEdgeV>,
    pub allocationStack: Option<ProtoFrameV>,
    pub coarseType: u32,
    pub typeName: Option<TwoByteOrRefV>,
    pub className: Option<OneByteOrRefV>,
    pub scriptFilename: Option<OneByteOrRefV>,
    pub descriptiveTypeName: Option<TwoByteOrRefV>,
}

impl View for ProtoNode {
    type V = ProtoNodeV;

    open spec fn view(&self) -> ProtoNodeV {
        ProtoNodeV {
            id: self.id,
            size: self.size,
            edges: Seq::new(self.edges@.len(), |i: int| self.edges@[i]@),
            allocationStack: view_opt_frame(self.allocationStack),
            coarseType: self.coarseType,
            typeName: view_opt_two_ref(self.typeName),
            className: view_opt_one_ref(self.className),
            scriptFilename: view_opt_one_ref(self.scriptFilename),
            descriptiveTypeName: view_opt_two_ref(self.descriptiveTypeName),
        }
    }
}


/// Decode the fields of a metadata message over `[pos, end)`: field 1 is the
/// optional varint timestamp; anything else is skipped.
pub open spec fn spec_metadata_fields(
    bytes: Seq<u8>,
    pos: int,
    end: int,
    acc: Option<u64>,
) -> Option<Option<u64>>
    decreases end - pos,
{
    if pos < 0 || pos > end || end > bytes.len() {
        None
    } else if pos == end {
        Some(acc)
    } else {
        match spec_varint_in(bytes, pos, end) {
            None => None,
            Some((tag, p1)) => {
                let field = tag / 8;
                let wire = tag % 8;
                if field == 1 && wire == 0 {
                    match spec_varint_in(bytes, p1, end) {
                        Some((v, p2)) => spec_metadata_fields(bytes, p2, end, Some(v)),
                        None => None,
                    }
                } else {
                    match spec_skip_field(bytes, p1, end, wire) {
                        Some(p2) => spec_metadata_fields(bytes, p2, end, acc),
                        None => None,
                    }
                }
            },
        }
    }
}

/// Decode a metadata message body. Mirrors [`spec_metadata_fields`].
pub fn parse_metadata(bytes: &[u8], start: usize, end: usize) -> (r: Option<Option<u64>>)
    requires
        start <= end <= bytes@.len(),
        bytes@.len() <= usize::MAX,
    ensures
        r == spec_metadata_fields(bytes@, start as int, end as int, None::<u64>),
{
    let mut acc: Option<u64> = None;
    let mut p = start;
    loop
        invariant
            start <= p <= end <= bytes@.len(),
            bytes@.len() <= usize::MAX,
            spec_metadata_fields(bytes@, start as int, end as int, None::<u64>)
                == spec_metadata_fields(bytes@, p as int, end as int, acc),
        decreases end - p,
    {
        if p == end {
            return Some(acc);
        }
        let (tag, p1) = match read_varint_in(bytes, p, end) {
            Some(t) => t,
            None => { return None; },
        };
        let field = tag / 8;
        let wire = tag % 8;
        if field == 1 && wire == 0 {
            match read_varint_in(bytes, p1, end) {
                Some((v, p2)) => {
                    acc = Some(v);
                    p = p2;
                },
                None => { return None; },
            }
        } else {
            match skip_field(bytes, p1, end, wire) {
                Some(p2) => {
                    p = p2;
                },
                None => { return None; },
            }
        }
    }
}

/// Decode the fields of an edge message over `[pos, end)`: field 1 the
/// optional referent id, fields 2 and 3 the deduplicable two-byte name.
pub open spec fn spec_edge_fields(
    bytes: Seq<u8>,
    pos: int,
    end: int,
    acc: ProtoEdgeV,
) -> Option<ProtoEdgeV>
    decreases end - pos,
{
    if pos < 0 || pos > end || end > bytes.len() {
        None
    } else if pos == end {
        Some(acc)
    } else {
        match spec_varint_in(bytes, pos, end) {
            None => None,
            Some((tag, p1)) => {
                let field = tag / 8;
                let wire = tag % 8;
                if field == 1 && wire == 0 {
                    match spec_varint_in(bytes, p1, end) {
                        Some((v, p2)) => spec_edge_fields(
                            bytes,
                            p2,
                            end,
                            ProtoEdgeV { referent: Some(v), ..acc },
                        ),
                        None => None,
                    }
                } else if field == 2 && wire == 2 {
                    match spec_payload_bounds(bytes, p1, end) {
                        Some((b1, b2)) => match spec_two_byte_units(bytes.subrange(b1, b2)) {
                            Some(units) => spec_edge_fields(
                                bytes,
                                b2,
                                end,
                                ProtoEdgeV { name: Some(TwoByteOrRefV::Given(units)), ..acc },
                            ),
                            None => None,
                        },
                        None => None,
                    }
                } else if field == 3 && wire == 0 {
                    match spec_varint_in(bytes, p1, end) {
                        Some((v, p2)) => spec_edge_fields(
                            bytes,
                            p2,
                            end,
                            ProtoEdgeV { name: Some(TwoByteOrRefV::Ref(v)), ..acc },
                        ),
                        None => None,
                    }
                } else {
                    match spec_skip_field(bytes, p1, end, wire) {
                        Some(p2) => spec_edge_fields(bytes, p2, end, acc),
                        None => None,
                    }
                }
            },
        }
    }
}

pub open spec fn spec_empty_edge() -> ProtoEdgeV {
    ProtoEdgeV { referent: None, name: None }
}

/// Decode an edge message body. Mirrors [`spec_edge_fields`].
pub fn parse_edge(bytes: &[u8], start: usize, end: usize) -> (r: Option<ProtoEdge>)
    requires
        start <= end <= bytes@.len(),
        bytes@.len() <= usize::MAX,
    ensures
        match r {
            Some(e) => spec_edge_fields(bytes@, start as int, end as int, spec_empty_edge())
                == Some(e@),
            None => spec_edge_fields(bytes@, start as int, end as int, spec_empty_edge())
                is None,
        },
{
    let mut acc = ProtoEdge { referent: None, name: None };
    let mut p = start;
    loop
        invariant
            start <= p <= end <= bytes@.len(),
            bytes@.len() <= usize::MAX,
            spec_edge_fields(bytes@, start as int, end as int, spec_empty_edge())
                == spec_edge_fields(bytes@, p as int, end as int, acc@),
        decreases end - p,
    {
        if p == end {
            return Some(acc);
        }
        let (tag, p1) = match read_varint_in(bytes, p, end) {
            Some(t) => t,
            None => { return None; },
        };
        let field = tag / 8;
        let wire = tag % 8;
        if field == 1 && wire == 0 {
            match read_varint_in(bytes, p1, end) {
                Some((v, p2)) => {
                    acc.referent = Some(v);
                    p = p2;
                },
                None => { return None; },
            }
        } else if field == 2 && wire == 2 {
            match read_payload_bounds(bytes, p1, end) {
                Some((b1, b2)) => match read_two_byte_units(bytes, b1, b2) {
                    Some(units) => {
                        acc.name = Some(TwoByteOrRef::Given(units));
                        p = b2;
                    },
                    None => { return None; },
                },
                None => { return None; },
            }
        } else if field == 3 && wire == 0 {
            match read_varint_in(bytes, p1, end) {
                Some((v, p2)) => {
                    acc.name = Some(TwoByteOrRef::Ref(v));
                    p = p2;
                },
                None => { return None; },
            }
        } else {
            match skip_field(bytes, p1, end, wire) {
                Some(p2) => {
                    p = p2;
                },
                None => { return None; },
            }
        }
    }
}


pub open spec fn spec_empty_data() -> ProtoDataV {
    ProtoDataV { parent: None, source: None, function_display_name: None }
}

/// Decode the fields of a stack-frame message over `[pos, end)`: the one-of
/// is field 1 (nested frame data) or field 2 (a back-reference to an earlier
/// frame); the last occurrence wins. A frame with neither is absent.
pub open spec fn spec_frame_fields(
    bytes: Seq<u8>,
    pos: int,
    end: int,
    acc: Option<ProtoFrameV>,
) -> Option<Option<ProtoFrameV>>
    decreases end - pos, 1int,
{
    if pos < 0 || pos > end || end > bytes.len() {
        None
    } else if pos == end {
        Some(acc)
    } else {
        match spec_varint_in(bytes, pos, end) {
            None => None,
            Some((tag, p1)) => {
                let field = tag / 8;
                let wire = tag % 8;
                if field == 1 && wire == 2 {
                    match spec_payload_bounds(bytes, p1, end) {
                        Some((b1, b2)) => match spec_data_fields(
                            bytes,
                            b1,
                            b2,
                            spec_empty_data(),
                        ) {
                            Some(d) => spec_frame_fields(
                                bytes,
                                b2,
                                end,
                                Some(ProtoFrameV::Data(Box::new(d))),
                            ),
                            None => None,
                        },
                        None => None,
                    }
                } else if field == 2 && wire == 0 {
                    match spec_varint_in(bytes, p1, end) {
                        Some((v, p2)) => spec_frame_fields(
                            bytes,
                            p2,
                            end,
                            Some(ProtoFrameV::Ref(v)),
                        ),
                        None => None,
                    }
                } else {
                    match spec_skip_field(bytes, p1, end, wire) {
                        Some(p2) => spec_frame_fields(bytes, p2, end, acc),
                        None => None,
                    }
                }
            },
        }
    }
}

/// Decode the fields of a frame-data message over `[pos, end)`: field 2 the
/// parent frame, fields 3 and 4 the deduplicable two-byte source, fields 5
/// and 6 the deduplicable two-byte function display name.
pub open spec fn spec_data_fields(
    bytes: Seq<u8>,
    pos: int,
    end: int,
    acc: ProtoDataV,
) -> Option<ProtoDataV>
    decreases end - pos, 0int,
{
    if pos < 0 || pos > end || end > bytes.len() {
        None
    } else if pos == end {
        Some(acc)
    } else {
        match spec_varint_in(bytes, pos, end) {
            None => None,
            Some((tag, p1)) => {
                let field = tag / 8;
                let wire = tag % 8;
                if field == 2 && wire == 2 {
                    match spec_payload_bounds(bytes, p1, end) {
                        Some((b1, b2)) => match spec_frame_fields(bytes, b1, b2, None) {
                            Some(fr) => spec_data_fields(
                                bytes,
                                b2,
                                end,
                                ProtoDataV {
                                    parent: match fr {
                                        Some(f) => Some(Box::new(f)),
                                        None => None,
                                    },
                                    ..acc
                                },
                            ),
                            None => None,
                        },
                        None => None,
                    }
                } else if field == 3 && wire == 2 {
                    match spec_payload_bounds(bytes, p1, end) {
                        Some((b1, b2)) => match spec_two_byte_units(bytes.subrange(b1, b2)) {
                            Some(units) => spec_data_fields(
                                bytes,
                                b2,
                                end,
                                ProtoDataV { source: Some(TwoByteOrRefV::Given(units)), ..acc },
                            ),
                            None => None,
                        },
                        None => None,
                    }
                } else if field == 4 && wire == 0 {
                    match spec_varint_in(bytes, p1, end) {
                        Some((v, p2)) => spec_data_fields(
                            bytes,
                            p2,
                            end,
                            ProtoDataV { source: Some(TwoByteOrRefV::Ref(v)), ..acc },
                        ),
                        None => None,
                    }
                } else if field == 5 && wire == 2 {
                    match spec_payload_bounds(bytes, p1, end) {
                        Some((b1, b2)) => match spec_two_byte_units(bytes.subrange(b1, b2)) {
                            Some(units) => spec_data_fields(
                                bytes,
                                b2,
                                end,
                                ProtoDataV {
                                    function_display_name: Some(TwoByteOrRefV::Given(units)),
                                    ..acc
                                },
                            ),
                            None => None,
                        },
                        None => None,
                    }
                } else if field == 6 && wire == 0 {
                    match spec_varint_in(bytes, p1, end) {
                        Some((v, p2)) => spec_data_fields(
                            bytes,
                            p2,
                            end,
                            ProtoDataV { function_display_name: Some(TwoByteOrRefV::Ref(v)), ..acc },
                        ),
                        None => None,
                    }
                } else {
                    match spec_skip_field(bytes, p1, end, wire) {
                        Some(p2) => spec_data_fields(bytes, p2, end, acc),
                        None => None,
                    }
                }
            },
        }
    }
}

/// Decode a stack-frame message body. Mirrors [`spec_frame_fields`].
pub fn parse_frame(bytes: &[u8], start: usize, end: usize) -> (r: Option<Option<ProtoFrame>>)
    requires
        start <= end <= bytes@.len(),
        bytes@.len() <= usize::MAX,
    ensures
        match r {
            Some(fr) => spec_frame_fields(bytes@, start as int, end as int, None)
                == Some(view_opt_frame(fr)),
            None => spec_frame_fields(bytes@, start as int, end as int, None) is None,
        },
    decreases end - start, 1int,
{
    let mut acc: Option<ProtoFrame> = None;
    let mut p = start;
    loop
        invariant
            start <= p <= end <= bytes@.len(),
            bytes@.len() <= usize::MAX,
            spec_frame_fields(bytes@, start as int, end as int, None)
                == spec_frame_fields(bytes@, p as int, end as int, view_opt_frame(acc)),
        decreases end - p,
    {
        if p == end {
            return Some(acc);
        }
        let (tag, p1) = match read_varint_in(bytes, p, end) {
            Some(t) => t,
            None => { return None; },
        };
        let field = tag / 8;
        let wire = tag % 8;
        if field == 1 && wire == 2 {
            match read_payload_bounds(bytes, p1, end) {
                Some((b1, b2)) => match parse_data(bytes, b1, b2) {
                    Some(d) => {
                        acc = Some(ProtoFrame::Data(Box::new(d)));
                        p = b2;
                    },
                    None => { return None; },
                },
                None => { return None; },
            }
        } else if field == 2 && wire == 0 {
            match read_varint_in(bytes, p1, end) {
                Some((v, p2)) => {
                    acc = Some(ProtoFrame::Ref(v));
                    p = p2;
                },
                None => { return None; },
            }
        } else {
            match skip_field(bytes, p1, end, wire) {
                Some(p2) => {
                    p = p2;
                },
                None => { return None; },
            }
        }
    }
}

/// Decode a frame-data message body. Mirrors [`spec_data_fields`].
pub fn parse_data(bytes: &[u8], start: usize, end: usize) -> (r: Option<ProtoData>)
    requires
        start <= end <= bytes@.len(),
        bytes@.len() <= usize::MAX,
    ensures
        match r {
            Some(d) => spec_data_fields(bytes@, start as int, end as int, spec_empty_data())
                == Some(d.deep_view()),
            None => spec_data_fields(bytes@, start as int, end as int, spec_empty_data())
                is None,
        },
    decreases end - start, 0int,
{
    let mut acc = ProtoData { parent: None, source: None, function_display_name: None };
    let mut p = start;
    loop
        invariant
            start <= p <= end <= bytes@.len(),
            bytes@.len() <= usize::MAX,
            spec_data_fields(bytes@, start as int, end as int, spec_empty_data())
                == spec_data_fields(bytes@, p as int, end as int, acc.deep_view()),
        decreases end - p,
    {
        if p == end {
            return Some(acc);
        }
        let (tag, p1) = match read_varint_in(bytes, p, end) {
            Some(t) => t,
            None => { return None; },
        };
        let field = tag / 8;
        let wire = tag % 8;
        if field == 2 && wire == 2 {
            match read_payload_bounds(bytes, p1, end) {
                Some((b1, b2)) => match parse_frame(bytes, b1, b2) {
                    Some(fr) => {
                        acc.parent = match fr {
                            Some(f) => Some(Box::new(f)),
                            None => None,
                        };
                        p = b2;
                    },
                    None => { return None; },
                },
                None => { return None; },
            }
        } else if field == 3 && wire == 2 {
            match read_payload_bounds(bytes, p1, end) {
                Some((b1, b2)) => match read_two_byte_units(bytes, b1, b2) {
                    Some(units) => {
                        acc.source = Some(TwoByteOrRef::Given(units));
                        p = b2;
                    },
                    None => { return None; },
                },
                None => { return None; },
            }
        } else if field == 4 && wire == 0 {
            match read_varint_in(bytes, p1, end) {
                Some((v, p2)) => {
                    acc.source = Some(TwoByteOrRef::Ref(v));
                    p = p2;
                },
                None => { return None; },
            }
        } else if field == 5 && wire == 2 {
            match read_payload_bounds(bytes, p1, end) {
                Some((b1, b2)) => match read_two_byte_units(bytes, b1, b2) {
                    Some(units) => {
                        acc.function_display_name = Some(TwoByteOrRef::Given(units));
                        p = b2;
                    },
                    None => { return None; },
                },
                None => { return None; },
            }
        } else if field == 6 && wire == 0 {
            match read_varint_in(bytes, p1, end) {
                Some((v, p2)) => {
                    acc.function_display_name = Some(TwoByteOrRef::Ref(v));
                    p = p2;
                },
                None => { return None; },
            }
        } else {
            match skip_field(bytes, p1, end, wire) {
                Some(p2) => {
                    p = p2;
                },
                None => { return None; },
            }
        }
    }
}


pub open spec fn spec_empty_node() -> ProtoNodeV {
    ProtoNodeV {
        id: None,
        size: None,
        edges: Seq::empty(),
        allocationStack: None,
        coarseType: 0,
        typeName: None,
        className: None,
        scriptFilename: None,
        descriptiveTypeName: None,
    }
}

/// Decode the fields of a node message over `[pos, end)`: field 1 the id,
/// field 2 the size, field 3 a repeated edge message, field 4 the allocation
/// stack, field 5 the 32-bit coarse-type discriminator, and fields 6 to 13
/// the four deduplicable string attributes, bytes or back-reference each.
pub open spec fn spec_node_fields(
    bytes: Seq<u8>,
    pos: int,
    end: int,
    acc: ProtoNodeV,
) -> Option<ProtoNodeV>
    decreases end - pos,
{
    if pos < 0 || pos > end || end > bytes.len() {
        None
    } else if pos == end {
        Some(acc)
    } else {
        match spec_varint_in(bytes, pos, end) {
            None => None,
            Some((tag, p1)) => {
                let field = tag / 8;
                let wire = tag % 8;
                if field == 1 && wire == 0 {
                    match spec_varint_in(bytes, p1, end) {
                        Some((v, p2)) => spec_node_fields(
                            bytes,
                            p2,
                            end,
                            ProtoNodeV { id: Some(v), ..acc },
                        ),
                        None => None,
                    }
                } else if field == 2 && wire == 0 {
                    match spec_varint_in(bytes, p1, end) {
                        Some((v, p2)) => spec_node_fields(
                            bytes,
                            p2,
                            end,
                            ProtoNodeV { size: Some(v), ..acc },
                        ),
                        None => None,
                    }
                } else if field == 3 && wire == 2 {
                    match spec_payload_bounds(bytes, p1, end) {
                        Some((b1, b2)) => match spec_edge_fields(bytes, b1, b2, spec_empty_edge()) {
                            Some(e) => spec_node_fields(
                                bytes,
                                b2,
                                end,
                                ProtoNodeV { edges: acc.edges.push(e), ..acc },
                            ),
                            None => None,
                        },
                        None => None,
                    }
                } else if field == 4 && wire == 2 {
                    match spec_payload_bounds(bytes, p1, end) {
                        Some((b1, b2)) => match spec_frame_fields(bytes, b1, b2, None) {
                            Some(fr) => spec_node_fields(
                                bytes,
                                b2,
                                end,
                                ProtoNodeV { allocationStack: fr, ..acc },
                            ),
                            None => None,
                        },
                        None => None,
                    }
                } else if field == 5 && wire == 0 {
                    match spec_varint_in(bytes, p1, end) {
                        Some((v, p2)) => if v <= u32::MAX {
                            spec_node_fields(
                                bytes,
                                p2,
                                end,
                                ProtoNodeV { coarseType: v as u32, ..acc },
                            )
                        } else {
                            None
                        },
                        None => None,
                    }
                } else if field == 6 && wire == 2 {
                    match spec_payload_bounds(bytes, p1, end) {
                        Some((b1, b2)) => match spec_two_byte_units(bytes.subrange(b1, b2)) {
                            Some(units) => spec_node_fields(
                                bytes,
                                b2,
                                end,
                                ProtoNodeV { typeName: Some(TwoByteOrRefV::Given(units)), ..acc },
                            ),
                            None => None,
                        },
                        None => None,
                    }
                } else if field == 7 && wire == 0 {
                    match spec_varint_in(bytes, p1, end) {
                        Some((v, p2)) => spec_node_fields(
                            bytes,
                            p2,
                            end,
                            ProtoNodeV { typeName: Some(TwoByteOrRefV::Ref(v)), ..acc },
                        ),
                        None => None,
                    }
                } else if field == 8 && wire == 2 {
                    match spec_payload_bounds(bytes, p1, end) {
                        Some((b1, b2)) => spec_node_fields(
                            bytes,
                            b2,
                            end,
                            ProtoNodeV {
                                className: Some(OneByteOrRefV::Given(bytes.subrange(b1, b2))),
                                ..acc
                            },
                        ),
                        None => None,
                    }
                } else if field == 9 && wire == 0 {
                    match spec_varint_in(bytes, p1, end) {
                        Some((v, p2)) => spec_node_fields(
                            bytes,
                            p2,
                            end,
                            ProtoNodeV { className: Some(OneByteOrRefV::Ref(v)), ..acc },
                        ),
                        None => None,
                    }
                } else if field == 10 && wire == 2 {
                    match spec_payload_bounds(bytes, p1, end) {
                        Some((b1, b2)) => spec_node_fields(
                            bytes,
                            b2,
                            end,
                            ProtoNodeV {
                                scriptFilename: Some(OneByteOrRefV::Given(bytes.subrange(b1, b2))),
                                ..acc
                            },
                        ),
                        None => None,
                    }
                } else if field == 11 && wire == 0 {
                    match spec_varint_in(bytes, p1, end) {
                        Some((v, p2)) => spec_node_fields(
                            bytes,
                            p2,
                            end,
                            ProtoNodeV { scriptFilename: Some(OneByteOrRefV::Ref(v)), ..acc },
                        ),
                        None => None,
                    }
                } else if field == 12 && wire == 2 {
                    match spec_payload_bounds(bytes, p1, end) {
                        Some((b1, b2)) => match spec_two_byte_units(bytes.subrange(b1, b2)) {
                            Some(units) => spec_node_fields(
                                bytes,
                                b2,
                                end,
                                ProtoNodeV {
                                    descriptiveTypeName: Some(TwoByteOrRefV::Given(units)),
                                    ..acc
                                },
                            ),
                            None => None,
                        },
                        None => None,
                    }
                } else if field == 13 && wire == 0 {
                    match spec_varint_in(bytes, p1, end) {
                        Some((v, p2)) => spec_node_fields(
                            bytes,
                            p2,
                            end,
                            ProtoNodeV { descriptiveTypeName: Some(TwoByteOrRefV::Ref(v)), ..acc },
                        ),
                        None => None,
                    }
                } else {
                    match spec_skip_field(bytes, p1, end, wire) {
                        Some(p2) => spec_node_fields(bytes, p2, end, acc),
                        None => None,
                    }
                }
            },
        }
    }
}

/// Decode a node message body. Mirrors [`spec_node_fields`].
pub fn parse_node(bytes: &[u8], start: usize, end: usize) -> (r: Option<ProtoNode>)
    requires
        start <= end <= bytes@.len(),
        bytes@.len() <= usize::MAX,
    ensures
        match r {
            Some(n) => spec_node_fields(bytes@, start as int, end as int, spec_empty_node())
                == Some(n@),
            None => spec_node_fields(bytes@, start as int, end as int, spec_empty_node())
                is None,
        },
{
    let mut acc = ProtoNode {
        id: None,
        size: None,
        edges: Vec::new(),
        allocationStack: None,
        coarseType: 0,
        typeName: None,
        className: None,
        scriptFilename: None,
        descriptiveTypeName: None,
    };
    proof {
        assert(acc@.edges =~= spec_empty_node().edges);
        assert(acc@ == spec_empty_node());
    }
    let mut p = start;
    loop
        invariant
            start <= p <= end <= bytes@.len(),
            bytes@.len() <= usize::MAX,
            spec_node_fields(bytes@, start as int, end as int, spec_empty_node())
                == spec_node_fields(bytes@, p as int, end as int, acc@),
        decreases end - p,
    {
        if p == end {
            return Some(acc);
        }
        let (tag, p1) = match read_varint_in(bytes, p, end) {
            Some(t) => t,
            None => { return None; },
        };
        let field = tag / 8;
        let wire = tag % 8;
        if field == 1 && wire == 0 {
            match read_varint_in(bytes, p1, end) {
                Some((v, p2)) => {
                    acc.id = Some(v);
                    p = p2;
                },
                None => { return None; },
            }
        } else if field == 2 && wire == 0 {
            match read_varint_in(bytes, p1, end) {
                Some((v, p2)) => {
                    acc.size = Some(v);
                    p = p2;
                },
                None => { return None; },
            }
        } else if field == 3 && wire == 2 {
            match read_payload_bounds(bytes, p1, end) {
                Some((b1, b2)) => match parse_edge(bytes, b1, b2) {
                    Some(e) => {
                        let ghost prev = acc@;
                        acc.edges.push(e);
                        proof {
                            assert(acc@.edges =~= prev.edges.push(e@));
                            assert(acc@ == ProtoNodeV { edges: prev.edges.push(e@), ..prev });
                        }
                        p = b2;
                    },
                    None => { return None; },
                },
                None => { return None; },
            }
        } else if field == 4 && wire == 2 {
            match read_payload_bounds(bytes, p1, end) {
                Some((b1, b2)) => match parse_frame(bytes, b1, b2) {
                    Some(fr) => {
                        acc.allocationStack = fr;
                        p = b2;
                    },
                    None => { return None; },
                },
                None => { return None; },
            }
        } else if field == 5 && wire == 0 {
            match read_varint_in(bytes, p1, end) {
                Some((v, p2)) => {
                    if v <= u32::MAX as u64 {
                        acc.coarseType = v as u32;
                        p = p2;
                    } else {
                        return None;
                    }
                },
                None => { return None; },
            }
        } else if field == 6 && wire == 2 {
            match read_payload_bounds(bytes, p1, end) {
                Some((b1, b2)) => match read_two_byte_units(bytes, b1, b2) {
                    Some(units) => {
                        acc.typeName = Some(TwoByteOrRef::Given(units));
                        p = b2;
                    },
                    None => { return None; },
                },
                None => { return None; },
            }
        } else if field == 7 && wire == 0 {
            match read_varint_in(bytes, p1, end) {
                Some((v, p2)) => {
                    acc.typeName = Some(TwoByteOrRef::Ref(v));
                    p = p2;
                },
                None => { return None; },
            }
        } else if field == 8 && wire == 2 {
            match read_payload_bounds(bytes, p1, end) {
                Some((b1, b2)) => {
                    let s = read_one_byte_string(bytes, b1, b2);
                    acc.className = Some(OneByteOrRef::Given(s));
                    p = b2;
                },
                None => { return None; },
            }
        } else if field == 9 && wire == 0 {
            match read_varint_in(bytes, p1, end) {
                Some((v, p2)) => {
                    acc.className = Some(OneByteOrRef::Ref(v));
                    p = p2;
                },
                None => { return None; },
            }
        } else if field == 10 && wire == 2 {
            match read_payload_bounds(bytes, p1, end) {
                Some((b1, b2)) => {
                    let s = read_one_byte_string(bytes, b1, b2);
                    acc.scriptFilename = Some(OneByteOrRef::Given(s));
                    p = b2;
                },
                None => { return None; },
            }
        } else if field == 11 && wire == 0 {
            match read_varint_in(bytes, p1, end) {
                Some((v, p2)) => {
                    acc.scriptFilename = Some(OneByteOrRef::Ref(v));
                    p = p2;
                },
                None => { return None; },
            }
        } else if field == 12 && wire == 2 {
            match read_payload_bounds(bytes, p1, end) {
                Some((b1, b2)) => match read_two_byte_units(bytes, b1, b2) {
                    Some(units) => {
                        acc.descriptiveTypeName = Some(TwoByteOrRef::Given(units));
                        p = b2;
                    },
                    None => { return None; },
                },
                None => { return None; },
            }
        } else if field == 13 && wire == 0 {
            match read_varint_in(bytes, p1, end) {
                Some((v, p2)) => {
                    acc.descriptiveTypeName = Some(TwoByteOrRef::Ref(v));
                    p = p2;
                },
                None => { return None; },
            }
        } else {
            match skip_field(bytes, p1, end, wire) {
                Some(p2) => {
                    p = p2;
                },
                None => { return None; },
            }
        }
    }
}

/// A whole metadata message at `pos`: the timestamp and the position after
/// the message.
pub open spec fn spec_metadata_msg(bytes: Seq<u8>, pos: int) -> Option<(Option<u64>, int)> {
    match spec_message_bounds(bytes, pos) {
        Some((b1, b2)) => match spec_metadata_fields(bytes, b1, b2, None) {
            Some(ts) => Some((ts, b2)),
            None => None,
        },
        None => None,
    }
}

/// Read a whole metadata message. Mirrors [`spec_metadata_msg`].
pub fn read_metadata_msg(bytes: &[u8], pos: usize) -> (r: Option<(Option<u64>, usize)>)
    requires
        pos <= bytes@.len(),
        bytes@.len() <= usize::MAX,
    ensures
        match r {
            Some((ts, next)) => {
                &&& spec_metadata_msg(bytes@, pos as int) == Some((ts, next as int))
                &&& pos < next <= bytes@.len()
            },
            None => spec_metadata_msg(bytes@, pos as int) is None,
        },
{
    match read_message_bounds(bytes, pos) {
        Some((b1, b2)) => match parse_metadata(bytes, b1, b2) {
            Some(ts) => Some((ts, b2)),
            None => None,
        },
        None => None,
    }
}

/// A whole node message at `pos`: the decoded node and the position after
/// the message.
pub open spec fn spec_node_msg(bytes: Seq<u8>, pos: int) -> Option<(ProtoNodeV, int)> {
    match spec_message_bounds(bytes, pos) {
        Some((b1, b2)) => match spec_node_fields(bytes, b1, b2, spec_empty_node()) {
            Some(n) => Some((n, b2)),
            None => None,
        },
        None => None,
    }
}

/// Read a whole node message. Mirrors [`spec_node_msg`].
pub fn read_node_msg(bytes: &[u8], pos: usize) -> (r: Option<(ProtoNode, usize)>)
    requires
        pos <= bytes@.len(),
        bytes@.len() <= usize::MAX,
    ensures
        match r {
            Some((n, next)) => {
                &&& spec_node_msg(bytes@, pos as int) matches Some((nv, nextv))
                    && nv == n@ && nextv == next as int
                &&& pos < next <= bytes@.len()
            },
            None => spec_node_msg(bytes@, pos as int) is None,
        },
{
    match read_message_bounds(bytes, pos) {
        Some((b1, b2)) => match parse_node(bytes, b1, b2) {
            Some(n) => Some((n, b2)),
            None => None,
        },
        None => None,
    }
}


/// The one-byte interning table's mathematical content.
pub open spec fn one_tab(tab: Seq<OneByteString>) -> Seq<Seq<u8>> {
    Seq::new(tab.len(), |i: int| tab[i]@)
}

/// The two-byte interning table's mathematical content.
pub open spec fn two_tab(tab: Seq<TwoByteString>) -> Seq<Seq<u16>> {
    Seq::new(tab.len(), |i: int| tab[i]@)
}

/// Interning one deduplicable two-byte field: a string that carries its own
/// units is appended; an absent field or a back-reference interns nothing.
pub open spec fn spec_scan_two(two: Seq<Seq<u16>>, f: Option<TwoByteOrRefV>) -> Seq<Seq<u16>> {
    match f {
        Some(TwoByteOrRefV::Given(units)) => two.push(units),
        _ => two,
    }
}

/// Interning one deduplicable one-byte field.
pub open spec fn spec_scan_one(one: Seq<Seq<u8>>, f: Option<OneByteOrRefV>) -> Seq<Seq<u8>> {
    match f {
        Some(OneByteOrRefV::Given(bytes)) => one.push(bytes),
        _ => one,
    }
}

/// Interning a node's edges' names, in declaration order.
pub open spec fn spec_scan_edges(two: Seq<Seq<u16>>, edges: Seq<ProtoEdgeV>) -> Seq<Seq<u16>>
    decreases edges.len(),
{
    if edges.len() == 0 {
        two
    } else {
        spec_scan_edges(spec_scan_two(two, edges[0].name), edges.drop_first())
    }
}

/// Interning an allocation-stack chain: each frame's source and function
/// display name, parent after child. A back-reference frame ends the chain.
pub open spec fn spec_scan_frames(two: Seq<Seq<u16>>, fr: Option<ProtoFrameV>) -> Seq<Seq<u16>>
    decreases fr,
{
    match fr {
        Some(ProtoFrameV::Data(d)) => spec_scan_frames(
            spec_scan_two(spec_scan_two(two, d.source), d.function_display_name),
            match d.parent {
                Some(b) => Some(*b),
                None => None,
            },
        ),
        _ => two,
    }
}

/// Interning everything a node message introduces, in the order the fields
/// are scanned: type name, edge names, allocation stack, class name, script
/// filename, descriptive type name.
pub open spec fn spec_scan_node(
    one: Seq<Seq<u8>>,
    two: Seq<Seq<u16>>,
    n: ProtoNodeV,
) -> (Seq<Seq<u8>>, Seq<Seq<u16>>) {
    let two1 = spec_scan_two(two, n.typeName);
    let two2 = spec_scan_edges(two1, n.edges);
    let two3 = spec_scan_frames(two2, n.allocationStack);
    let one1 = spec_scan_one(one, n.className);
    let one2 = spec_scan_one(one1, n.scriptFilename);
    let two4 = spec_scan_two(two3, n.descriptiveTypeName);
    (one2, two4)
}

/// Intern one two-byte field.
fn scan_two(two: &mut Vec<TwoByteString>, f: &Option<TwoByteOrRef>)
    ensures
        two_tab(final(two)@) == spec_scan_two(two_tab(old(two)@), view_opt_two_ref(*f)),
{
    match f {
        Some(TwoByteOrRef::Given(s)) => {
            let c = copy_two(s);
            two.push(c);
            proof {
                assert(two_tab(two@) =~= two_tab(old(two)@).push(s@));
            }
        },
        _ => {},
    }
}

/// Intern one one-byte field.
fn scan_one(one: &mut Vec<OneByteString>, f: &Option<OneByteOrRef>)
    ensures
        one_tab(final(one)@) == spec_scan_one(one_tab(old(one)@), view_opt_one_ref(*f)),
{
    match f {
        Some(OneByteOrRef::Given(s)) => {
            let c = copy_one(s);
            one.push(c);
            proof {
                assert(one_tab(one@) =~= one_tab(old(one)@).push(s@));
            }
        },
        _ => {},
    }
}

/// Intern an allocation-stack chain. Mirrors [`spec_scan_frames`].
fn scan_frames(two: &mut Vec<TwoByteString>, fr: Option<&ProtoFrame>)
    ensures
        two_tab(final(two)@) == spec_scan_frames(
            two_tab(old(two)@),
            match fr {
                Some(f) => Some(f.deep_view()),
                None => None,
            },
        ),
    decreases fr,
{
    match fr {
        Some(f) => match f {
            ProtoFrame::Data(d) => {
                scan_two(two, &d.source);
                scan_two(two, &d.function_display_name);
                match &d.parent {
                    Some(b) => scan_frames(two, Some(&**b)),
                    None => scan_frames(two, None),
                }
            },
            ProtoFrame::Ref(_) => {},
        },
        None => {},
    }
}

/// Intern everything one node message introduces. Mirrors
/// [`spec_scan_node`].
fn scan_node(one: &mut Vec<OneByteString>, two: &mut Vec<TwoByteString>, pn: &ProtoNode)
    ensures
        (one_tab(final(one)@), two_tab(final(two)@)) == spec_scan_node(
            one_tab(old(one)@),
            two_tab(old(two)@),
            pn@,
        ),
{
    scan_two(two, &pn.typeName);
    let ghost two1 = two_tab(two@);
    let mut i: usize = 0;
    proof {
        assert(pn@.edges.skip(0) =~= pn@.edges);
    }
    while i < pn.edges.len()
        invariant
            i <= pn.edges@.len(),
            spec_scan_edges(two1, pn@.edges) == spec_scan_edges(
                two_tab(two@),
                pn@.edges.skip(i as int),
            ),
        decreases pn.edges@.len() - i,
    {
        let ghost before = pn@.edges.skip(i as int);
        proof {
            assert(before[0] == pn@.edges[i as int]);
            assert(before.drop_first() =~= pn@.edges.skip(i as int + 1));
        }
        scan_two(two, &pn.edges[i].name);
        i = i + 1;
    }
    proof {
        assert(pn@.edges.skip(pn.edges@.len() as int) =~= Seq::<ProtoEdgeV>::empty());
    }
    match &pn.allocationStack {
        Some(f) => scan_frames(two, Some(f)),
        None => scan_frames(two, None),
    }
    scan_one(one, &pn.className);
    scan_one(one, &pn.scriptFilename);
    scan_two(two, &pn.descriptiveTypeName);
}

/// Resolve one deduplicable two-byte field against the interning table:
/// absent stays absent, own units stay, a back-reference is looked up.
/// `None` on a back-reference past the table.
pub open spec fn spec_resolve_two(
    two: Seq<Seq<u16>>,
    f: Option<TwoByteOrRefV>,
) -> Option<Option<Seq<u16>>> {
    match f {
        None => Some(None),
        Some(TwoByteOrRefV::Given(units)) => Some(Some(units)),
        Some(TwoByteOrRefV::Ref(i)) => if i < two.len() {
            Some(Some(two[i as int]))
        } else {
            None
        },
    }
}

/// Resolve one deduplicable one-byte field.
pub open spec fn spec_resolve_one(
    one: Seq<Seq<u8>>,
    f: Option<OneByteOrRefV>,
) -> Option<Option<Seq<u8>>> {
    match f {
        None => Some(None),
        Some(OneByteOrRefV::Given(bytes)) => Some(Some(bytes)),
        Some(OneByteOrRefV::Ref(i)) => if i < one.len() {
            Some(Some(one[i as int]))
        } else {
            None
        },
    }
}

/// Resolve one two-byte field. Mirrors [`spec_resolve_two`].
fn resolve_two(two: &Vec<TwoByteString>, f: &Option<TwoByteOrRef>) -> (r: Option<
    Option<TwoByteString>,
>)
    ensures
        match r {
            Some(o) => spec_resolve_two(two_tab(two@), view_opt_two_ref(*f))
                == Some(view_opt_two_byte(o)),
            None => spec_resolve_two(two_tab(two@), view_opt_two_ref(*f)) is None,
        },
{
    match f {
        None => Some(None),
        Some(TwoByteOrRef::Given(s)) => Some(Some(copy_two(s))),
        Some(TwoByteOrRef::Ref(i)) => {
            if *i < two.len() as u64 {
                Some(Some(copy_two(&two[*i as usize])))
            } else {
                None
            }
        },
    }
}

/// Resolve one one-byte field. Mirrors [`spec_resolve_one`].
fn resolve_one(one: &Vec<OneByteString>, f: &Option<OneByteOrRef>) -> (r: Option<
    Option<OneByteString>,
>)
    ensures
        match r {
            Some(o) => spec_resolve_one(one_tab(one@), view_opt_one_ref(*f))
                == Some(view_opt_one_byte(o)),
            None => spec_resolve_one(one_tab(one@), view_opt_one_ref(*f)) is None,
        },
{
    match f {
        None => Some(None),
        Some(OneByteOrRef::Given(s)) => Some(Some(copy_one(s))),
        Some(OneByteOrRef::Ref(i)) => {
            if *i < one.len() as u64 {
                Some(Some(copy_one(&one[*i as usize])))
            } else {
                None
            }
        },
    }
}

/// Resolve a node's edges in declaration order. `None` on a bad
/// back-reference.
pub open spec fn spec_materialize_edges(
    two: Seq<Seq<u16>>,
    edges: Seq<ProtoEdgeV>,
) -> Option<Seq<EdgeV>>
    decreases edges.len(),
{
    if edges.len() == 0 {
        Some(Seq::empty())
    } else {
        match spec_materialize_edges(two, edges.drop_last()) {
            Some(s) => match spec_resolve_two(two, edges.last().name) {
                Some(nm) => Some(s.push(EdgeV { referent: edges.last().referent, name: nm })),
                None => None,
            },
            None => None,
        }
    }
}

/// Construct an owned node record from a decoded node message and the
/// interning tables: the id and a coarse type in range are required, and
/// every string attribute resolves, or the whole node is malformed.
pub open spec fn spec_materialize(
    one: Seq<Seq<u8>>,
    two: Seq<Seq<u16>>,
    n: ProtoNodeV,
) -> Option<NodeV> {
    match n.id {
        None => None,
        Some(id) => match CoarseType::spec_from_u32(n.coarseType) {
            None => None,
            Some(ct) => match spec_materialize_edges(two, n.edges) {
                None => None,
                Some(edges) => match spec_resolve_two(two, n.typeName) {
                    None => None,
                    Some(tn) => match spec_resolve_one(one, n.className) {
                        None => None,
                        Some(cn) => match spec_resolve_one(one, n.scriptFilename) {
                            None => None,
                            Some(sf) => match spec_resolve_two(two, n.descriptiveTypeName) {
                                None => None,
                                Some(dtn) => Some(
                                    NodeV {
                                        id,
                                        size: n.size,
                                        edges,
                                        coarseType: ct,
                                        typeName: tn,
                                        JSObjectClassName: cn,
                                        scriptFilename: sf,
                                        descriptiveTypeName: dtn,
                                    },
                                ),
                            },
                        },
                    },
                },
            },
        },
    }
}

/// Materialize one node record. Mirrors [`spec_materialize`].
fn materialize_node(
    one: &Vec<OneByteString>,
    two: &Vec<TwoByteString>,
    pn: &ProtoNode,
) -> (r: Option<Node>)
    ensures
        match r {
            Some(n) => spec_materialize(one_tab(one@), two_tab(two@), pn@) == Some(n@),
            None => spec_materialize(one_tab(one@), two_tab(two@), pn@) is None,
        },
{
    let id = match pn.id {
        Some(id) => id,
        None => { return None; },
    };
    let ct = match CoarseType::from_u32(pn.coarseType) {
        Some(ct) => ct,
        None => { return None; },
    };
    let mut edges: Vec<Edge> = Vec::new();
    let mut i: usize = 0;
    while i < pn.edges.len()
        invariant
            i <= pn.edges@.len(),
            spec_materialize_edges(two_tab(two@), pn@.edges.take(i as int)) == Some(
                Seq::new(edges@.len(), |k: int| edges@[k]@),
            ),
            edges@.len() == i,
        decreases pn.edges@.len() - i,
    {
        let ghost prefix = pn@.edges.take(i as int);
        let nm = match resolve_two(two, &pn.edges[i].name) {
            Some(nm) => nm,
            None => {
                proof {
                    let next = pn@.edges.take(i as int + 1);
                    assert(next.drop_last() =~= prefix);
                    assert(next.last() == pn@.edges[i as int]);
                    lemma_materialize_edges_prefix_none(two_tab(two@), pn@.edges, i as int + 1);
                }
                return None;
            },
        };
        let referent = match pn.edges[i].referent {
            Some(rid) => Some(NodeId(rid)),
            None => None,
        };
        let name = nm;
        edges.push(Edge { referent, name });
        proof {
            let next = pn@.edges.take(i as int + 1);
            assert(next.drop_last() =~= prefix);
            assert(next.last() == pn@.edges[i as int]);
            assert(Seq::new(edges@.len(), |k: int| edges@[k]@) =~= Seq::new(
                (edges@.len() - 1) as nat,
                |k: int| edges@[k]@,
            ).push(edges@[edges@.len() - 1]@));
        }
        i = i + 1;
    }
    proof {
        assert(pn@.edges.take(pn.edges@.len() as int) =~= pn@.edges);
    }
    let tn = match resolve_two(two, &pn.typeName) {
        Some(tn) => tn,
        None => { return None; },
    };
    let cn = match resolve_one(one, &pn.className) {
        Some(cn) => cn,
        None => { return None; },
    };
    let sf = match resolve_one(one, &pn.scriptFilename) {
        Some(sf) => sf,
        None => { return None; },
    };
    let dtn = match resolve_two(two, &pn.descriptiveTypeName) {
        Some(dtn) => dtn,
        None => { return None; },
    };
    let node = Node {
        id: NodeId(id),
        size: pn.size,
        edges,
        coarseType: ct,
        typeName: tn,
        JSObjectClassName: cn,
        scriptFilename: sf,
        descriptiveTypeName: dtn,
    };
    proof {
        assert(node@.edges =~= spec_materialize(one_tab(one@), two_tab(two@), pn@)->Some_0.edges);
    }
    Some(node)
}

/// A failed prefix fails the whole edge list.
proof fn lemma_materialize_edges_prefix_none(two: Seq<Seq<u16>>, edges: Seq<ProtoEdgeV>, k: int)
    requires
        0 <= k <= edges.len(),
        spec_materialize_edges(two, edges.take(k)) is None,
    ensures
        spec_materialize_edges(two, edges) is None,
    decreases edges.len() - k,
{
    if k < edges.len() {
        let next = edges.take(k + 1);
        assert(next.drop_last() =~= edges.take(k));
        lemma_materialize_edges_prefix_none(two, edges, k + 1);
    } else {
        assert(edges.take(k) =~= edges);
    }
}


/// Where decoding a snapshot failed.
#[derive(Clone, Copy, PartialEq, Eq, Structural, Debug)]
pub enum DumpErrorKind {
    /// The leading metadata message is malformed.
    Metadata,
    /// The root-node message is malformed.
    RootNode,
    /// The root-node message has no id.
    MissingRootId,
    /// A node message is malformed.
    Node,
}

/// A decode failure: its kind and the byte offset of the message it was in.
#[derive(Clone, Copy, PartialEq, Eq, Structural, Debug)]
pub struct DumpError {
    pub kind: DumpErrorKind,
    pub offset: usize,
}

/// Whether some node in the sequence has the given id.
pub open spec fn spec_has_id(nodes: Seq<NodeV>, id: u64) -> bool {
    exists|i: int| 0 <= i < nodes.len() && nodes[i].id == id
}

/// Scan and materialize the remaining node messages, from `pos` to the end
/// of the buffer, growing the interning tables and the raw node list.
pub open spec fn spec_scan_rest(
    bytes: Seq<u8>,
    pos: int,
    one: Seq<Seq<u8>>,
    two: Seq<Seq<u16>>,
    nodes: Seq<NodeV>,
) -> Result<(Seq<Seq<u8>>, Seq<Seq<u16>>, Seq<NodeV>), DumpError>
    decreases bytes.len() - pos,
{
    if pos < 0 || pos > bytes.len() {
        Err(DumpError { kind: DumpErrorKind::Node, offset: 0 })
    } else if pos == bytes.len() {
        Ok((one, two, nodes))
    } else {
        match spec_node_msg(bytes, pos) {
            None => Err(DumpError { kind: DumpErrorKind::Node, offset: pos as usize }),
            Some((pn, next)) => if pos < next <= bytes.len() {
                let (one2, two2) = spec_scan_node(one, two, pn);
                match spec_materialize(one2, two2, pn) {
                    None => Err(DumpError { kind: DumpErrorKind::Node, offset: pos as usize }),
                    Some(nv) => spec_scan_rest(bytes, next, one2, two2, nodes.push(nv)),
                }
            } else {
                Err(DumpError { kind: DumpErrorKind::Node, offset: pos as usize })
            },
        }
    }
}

/// Decode a whole snapshot: the metadata message, the root-node message,
/// then node messages to the end of the buffer, interning strings and
/// materializing node records as they are scanned. The node list keeps
/// first-insertion order, last record per id winning.
pub open spec fn spec_from_bytes(path: Seq<char>, bytes: Seq<u8>) -> Result<DumpV, DumpError> {
    match spec_metadata_msg(bytes, 0) {
        None => Err(DumpError { kind: DumpErrorKind::Metadata, offset: 0 }),
        Some((ts, p1)) => match spec_node_msg(bytes, p1) {
            None => Err(DumpError { kind: DumpErrorKind::RootNode, offset: p1 as usize }),
            Some((rootpn, p2)) => match rootpn.id {
                None => Err(
                    DumpError { kind: DumpErrorKind::MissingRootId, offset: p1 as usize },
                ),
                Some(root_id) => {
                    let (one1, two1) = spec_scan_node(Seq::empty(), Seq::empty(), rootpn);
                    match spec_materialize(one1, two1, rootpn) {
                        None => Err(
                            DumpError { kind: DumpErrorKind::RootNode, offset: p1 as usize },
                        ),
                        Some(rootnv) => match spec_scan_rest(
                            bytes,
                            p2,
                            one1,
                            two1,
                            Seq::empty().push(rootnv),
                        ) {
                            Err(e) => Err(e),
                            Ok((one, two, nodes)) => Ok(
                                DumpV {
                                    path,
                                    timestamp: ts,
                                    root_id,
                                    one_byte_strings: one,
                                    two_byte_strings: two,
                                    nodes: spec_dedup_nodes(nodes),
                                },
                            ),
                        },
                    }
                },
            },
        },
    }
}

/// Replacing or appending one node neither loses an id nor introduces one
/// besides the inserted node's, and keeps ids unique.
proof fn lemma_insert_node_props(ns: Seq<NodeV>, node: NodeV)
    requires
        forall|i: int, j: int|
            0 <= i < ns.len() && 0 <= j < ns.len() && i != j ==> ns[i].id != ns[j].id,
    ensures
        forall|i: int, j: int|
            0 <= i < spec_insert_node(ns, node).len() && 0 <= j < spec_insert_node(ns, node).len()
                && i != j ==> spec_insert_node(ns, node)[i].id != spec_insert_node(ns, node)[j].id,
        forall|id: u64|
            spec_has_id(spec_insert_node(ns, node), id) <==> (spec_has_id(ns, id) || node.id
                == id),
{
    let out = spec_insert_node(ns, node);
    if exists|i: int| 0 <= i < ns.len() && ns[i].id == node.id {
        let j = choose|i: int| 0 <= i < ns.len() && ns[i].id == node.id;
        assert(out == ns.update(j, node));
        assert forall|id: u64| spec_has_id(out, id) implies (spec_has_id(ns, id) || node.id
            == id) by {
            let w = choose|i: int| 0 <= i < out.len() && out[i].id == id;
            if w != j {
                assert(ns[w].id == id);
            }
        }
        assert forall|id: u64| spec_has_id(ns, id) || node.id == id implies spec_has_id(
            out,
            id,
        ) by {
            if node.id == id {
                assert(out[j].id == id);
            } else if spec_has_id(ns, id) {
                let w = choose|i: int| 0 <= i < ns.len() && ns[i].id == id;
                assert(w != j);
                assert(out[w].id == id);
            }
        }
    } else {
        assert(out == ns.push(node));
        assert forall|id: u64| spec_has_id(out, id) implies (spec_has_id(ns, id) || node.id
            == id) by {
            let w = choose|i: int| 0 <= i < out.len() && out[i].id == id;
            if w < ns.len() {
                assert(ns[w].id == id);
            }
        }
        assert forall|id: u64| spec_has_id(ns, id) || node.id == id implies spec_has_id(
            out,
            id,
        ) by {
            if node.id == id {
                assert(out[ns.len() as int].id == id);
            } else {
                let w = choose|i: int| 0 <= i < ns.len() && ns[i].id == id;
                assert(out[w].id == id);
            }
        }
    }
}

/// Folding a raw node list through insertion keeps exactly its set of ids,
/// with one record each.
pub proof fn lemma_dedup_nodes_props(nodes: Seq<NodeV>)
    ensures
        forall|i: int, j: int|
            0 <= i < spec_dedup_nodes(nodes).len() && 0 <= j < spec_dedup_nodes(nodes).len() && i
                != j ==> spec_dedup_nodes(nodes)[i].id != spec_dedup_nodes(nodes)[j].id,
        forall|id: u64| spec_has_id(spec_dedup_nodes(nodes), id) <==> spec_has_id(nodes, id),
    decreases nodes.len(),
{
    if nodes.len() == 0 {
    } else {
        let butlast = nodes.drop_last();
        lemma_dedup_nodes_props(butlast);
        lemma_insert_node_props(spec_dedup_nodes(butlast), nodes.last());
        assert forall|id: u64| spec_has_id(nodes, id) implies (spec_has_id(butlast, id)
            || nodes.last().id == id) by {
            let w = choose|i: int| 0 <= i < nodes.len() && nodes[i].id == id;
            if w < nodes.len() - 1 {
                assert(butlast[w].id == id);
            }
        }
        assert forall|id: u64| spec_has_id(butlast, id) implies spec_has_id(nodes, id) by {
            let w = choose|i: int| 0 <= i < butlast.len() && butlast[i].id == id;
            assert(nodes[w].id == id);
        }
    }
}

impl CoreDump {
    /// Decode a snapshot from its bytes: one metadata message, one root-node
    /// message, then node messages until the end of the buffer. Mirrors
    /// [`spec_from_bytes`]; on success the snapshot is well formed.
    pub fn from_bytes(path: &str, bytes: &[u8]) -> (r: Result<CoreDump, DumpError>)
        ensures
            match r {
                Ok(d) => {
                    &&& d.wf()
                    &&& spec_from_bytes(path@, bytes@) == Ok::<DumpV, DumpError>(d@)
                },
                Err(e) => spec_from_bytes(path@, bytes@) == Err::<DumpV, DumpError>(e),
            },
    {
        let n = bytes.len();
        let (ts, p1) = match read_metadata_msg(bytes, 0) {
            Some(m) => m,
            None => {
                return Err(DumpError { kind: DumpErrorKind::Metadata, offset: 0 });
            },
        };
        let (root_pn, p2) = match read_node_msg(bytes, p1) {
            Some(m) => m,
            None => {
                return Err(DumpError { kind: DumpErrorKind::RootNode, offset: p1 });
            },
        };
        let root_id = match root_pn.id {
            Some(id) => id,
            None => {
                return Err(DumpError { kind: DumpErrorKind::MissingRootId, offset: p1 });
            },
        };
        let mut one: Vec<OneByteString> = Vec::new();
        let mut two: Vec<TwoByteString> = Vec::new();
        proof {
            assert(one_tab(one@) =~= Seq::<Seq<u8>>::empty());
            assert(two_tab(two@) =~= Seq::<Seq<u16>>::empty());
        }
        scan_node(&mut one, &mut two, &root_pn);
        let root_node = match materialize_node(&one, &two, &root_pn) {
            Some(node) => node,
            None => {
                return Err(DumpError { kind: DumpErrorKind::RootNode, offset: p1 });
            },
        };
        let mut nodes: Vec<Node> = Vec::new();
        nodes.push(root_node);
        let ghost one1 = one_tab(one@);
        let ghost two1 = two_tab(two@);
        let ghost nodes1 = Seq::new(nodes@.len(), |i: int| nodes@[i]@);
        proof {
            assert(nodes1 =~= Seq::empty().push(nodes@[0]@));
            assert(root_node@.id == root_id);
            assert(spec_from_bytes(path@, bytes@) == (match spec_scan_rest(
                bytes@,
                p2 as int,
                one1,
                two1,
                nodes1,
            ) {
                Err(e) => Err(e),
                Ok((o, t, ns)) => Ok(
                    DumpV {
                        path: path@,
                        timestamp: ts,
                        root_id,
                        one_byte_strings: o,
                        two_byte_strings: t,
                        nodes: spec_dedup_nodes(ns),
                    },
                ),
            }));
        }
        let mut pos = p2;
        while pos < n
            invariant
                pos <= n,
                n == bytes@.len(),
                bytes@.len() <= usize::MAX,
                nodes@.len() >= 1,
                nodes@[0]@.id == root_id,
                spec_from_bytes(path@, bytes@) == (match spec_scan_rest(
                    bytes@,
                    p2 as int,
                    one1,
                    two1,
                    nodes1,
                ) {
                    Err(e) => Err(e),
                    Ok((o, t, ns)) => Ok(
                        DumpV {
                            path: path@,
                            timestamp: ts,
                            root_id,
                            one_byte_strings: o,
                            two_byte_strings: t,
                            nodes: spec_dedup_nodes(ns),
                        },
                    ),
                }),
                spec_scan_rest(bytes@, p2 as int, one1, two1, nodes1) == spec_scan_rest(
                    bytes@,
                    pos as int,
                    one_tab(one@),
                    two_tab(two@),
                    Seq::new(nodes@.len(), |i: int| nodes@[i]@),
                ),
            decreases n - pos,
        {
            let (pn, next) = match read_node_msg(bytes, pos) {
                Some(m) => m,
                None => {
                    return Err(DumpError { kind: DumpErrorKind::Node, offset: pos });
                },
            };
            scan_node(&mut one, &mut two, &pn);
            let node = match materialize_node(&one, &two, &pn) {
                Some(node) => node,
                None => {
                    return Err(DumpError { kind: DumpErrorKind::Node, offset: pos });
                },
            };
            let ghost before = Seq::new(nodes@.len(), |i: int| nodes@[i]@);
            nodes.push(node);
            proof {
                assert(Seq::new(nodes@.len(), |i: int| nodes@[i]@) =~= before.push(
                    nodes@[nodes@.len() - 1]@,
                ));
            }
            pos = next;
        }
        let ghost raw = Seq::new(nodes@.len(), |i: int| nodes@[i]@);
        proof {
            lemma_dedup_nodes_props(raw);
            assert(raw[0].id == root_id);
            assert(spec_has_id(raw, root_id));
        }
        let path_string = path.to_owned();
        match CoreDump::assemble(
            path_string,
            ts,
            NodeId(root_id),
            one,
            two,
            nodes,
        ) {
            Some(d) => {
                proof {
                    let expected = spec_from_bytes(path@, bytes@)->Ok_0;
                    assert(spec_has_id(d@.nodes, root_id));
                    let w = choose|i: int| 0 <= i < d@.nodes.len() && d@.nodes[i].id == root_id;
                    assert(d@.find_node(root_id) is Some);
                    assert(d@ == expected);
                }
                Ok(d)
            },
            None => {
                proof {
                    assert(spec_has_id(spec_dedup_nodes(raw), root_id));
                    let w = choose|i: int|
                        0 <= i < spec_dedup_nodes(raw).len() && spec_dedup_nodes(raw)[i].id
                            == root_id;
                    assert(spec_find_in(spec_dedup_nodes(raw), root_id) is Some);
                    assert(false);
                }
                Err(DumpError { kind: DumpErrorKind::Node, offset: 0 })
            },
        }
    }
}

} // verus!






