//! Decoding the messages of the OSM data format from protobuf bytes.

use vstd::prelude::*;

use crate::osmformat::{
    groups_view, nodes_view, relations_view, table_view, texts_view, ways_view, ChangeSet,
    DenseInfo, DenseInfoV, DenseNodes, DenseNodesV, HeaderBlock, HeaderBlockV, Info, Node, NodeV,
    PrimitiveBlock, PrimitiveBlockV, PrimitiveGroup, PrimitiveGroupV, Relation, RelationV, Way,
    WayV,
};
use vstd::utf8::{decode_utf8, valid_utf8};
use crate::tags::utf8_str;
use crate::wire::{
    field_at, read_field, read_varint, unzigzag32, unzigzag64, varint_at, varint_len_from,
    zigzag32, zigzag64, WireValue,
};

verus! {

proof fn lemma_varint_len(b: Seq<u8>, pos: int, end: int, i: nat)
    ensures
        varint_len_from(b, pos, end, i) matches Some(n) ==> i < n && pos + n <= end,
    decreases 10 - i,
{
    if !(i >= 10 || pos + i >= end) && !(b[pos + i] < 128) {
        lemma_varint_len(b, pos, end, i + 1);
    }
}

proof fn lemma_varint_advances(b: Seq<u8>, pos: int, end: int)
    ensures
        varint_at(b, pos, end) matches Some((v, q)) ==> pos < q <= end,
{
    lemma_varint_len(b, pos, end, 0);
}

/// A field always moves forward and stays inside its window; a
/// length-delimited value lies between the field's header and its end.
pub proof fn lemma_field_bounds(b: Seq<u8>, pos: int, end: int)
    requires
        0 <= pos <= end <= usize::MAX,
    ensures
        field_at(b, pos, end) matches Some((n, v, q)) ==> pos < q <= end
            && (v matches WireValue::Bytes(s, e) ==> pos < s <= e && e == q),
{
    lemma_varint_advances(b, pos, end);
    if let Some((key, p)) = varint_at(b, pos, end) {
        lemma_varint_advances(b, p, end);
    }
}

/// The varints packed in the bytes from `pos` to `end`.
pub open spec fn packed_at(b: Seq<u8>, pos: int, end: int) -> Option<Seq<u64>>
    decreases end - pos,
{
    if pos >= end {
        Some(seq![])
    } else {
        match varint_at(b, pos, end) {
            Some((v, q)) => if pos < q <= end {
                match packed_at(b, q, end) {
                    Some(rest) => Some(seq![v] + rest),
                    None => None,
                }
            } else {
                None
            },
            None => None,
        }
    }
}

/// The varints of a repeated field: one unpacked value, or a packed run.
pub open spec fn varints_of(b: Seq<u8>, v: WireValue) -> Option<Seq<u64>> {
    match v {
        WireValue::Varint(x) => Some(seq![x]),
        WireValue::Bytes(s, e) => packed_at(b, s as int, e as int),
        _ => None,
    }
}

pub open spec fn sint64s(raw: Seq<u64>) -> Seq<i64> {
    raw.map_values(|x: u64| zigzag64(x))
}

pub open spec fn sint32s(raw: Seq<u64>) -> Seq<i32> {
    raw.map_values(|x: u64| zigzag32(x as u32))
}

pub open spec fn int32s(raw: Seq<u64>) -> Seq<i32> {
    raw.map_values(|x: u64| x as i32)
}

pub open spec fn uint32s(raw: Seq<u64>) -> Seq<u32> {
    raw.map_values(|x: u64| x as u32)
}

pub open spec fn bools(raw: Seq<u64>) -> Seq<bool> {
    raw.map_values(|x: u64| x != 0)
}

pub open spec fn value_in(v: WireValue, len: int) -> bool {
    v matches WireValue::Bytes(s, e) ==> s <= e <= len
}

fn read_packed(b: &[u8], s: usize, e: usize) -> (r: Option<Vec<u64>>)
    requires
        s <= e <= b@.len(),
    ensures
        match r {
            Some(v) => packed_at(b@, s as int, e as int) == Some(v@),
            None => packed_at(b@, s as int, e as int) is None,
        },
    decreases e - s,
{
    if s >= e {
        return Some(Vec::new());
    }
    proof {
        lemma_varint_advances(b@, s as int, e as int);
    }
    match read_varint(b, s, e) {
        Some((v, q)) => match read_packed(b, q, e) {
            Some(rest) => {
                let mut out = Vec::new();
                out.push(v);
                let mut i: usize = 0;
                while i < rest.len()
                    invariant
                        i <= rest@.len(),
                        out@ == seq![v] + rest@.subrange(0, i as int),
                    decreases rest@.len() - i,
                {
                    out.push(rest[i]);
                    i = i + 1;
                    assert(rest@.subrange(0, i as int) =~= rest@.subrange(0, i - 1).push(
                        rest@[i - 1],
                    ));
                }
                assert(rest@.subrange(0, i as int) =~= rest@);
                Some(out)
            },
            None => None,
        },
        None => None,
    }
}

fn read_varints(b: &[u8], v: WireValue) -> (r: Option<Vec<u64>>)
    requires
        value_in(v, b@.len() as int),
    ensures
        match r {
            Some(x) => varints_of(b@, v) == Some(x@),
            None => varints_of(b@, v) is None,
        },
{
    match v {
        WireValue::Varint(x) => {
            let mut out = Vec::new();
            out.push(x);
            assert(out@ =~= seq![x]);
            Some(out)
        },
        WireValue::Bytes(s, e) => read_packed(b, s, e),
        _ => None,
    }
}

/// Appends the values as zigzag-encoded 64-bit integers.
fn extend_sint64(out: &mut Vec<i64>, raw: &Vec<u64>)
    ensures
        final(out)@ == old(out)@ + sint64s(raw@),
{
    let mut i: usize = 0;
    while i < raw.len()
        invariant
            i <= raw@.len(),
            out@ == old(out)@ + sint64s(raw@.subrange(0, i as int)),
        decreases raw@.len() - i,
    {
        out.push(unzigzag64(raw[i]));
        i = i + 1;
        assert(sint64s(raw@.subrange(0, i as int)) =~= sint64s(
            raw@.subrange(0, i - 1),
        ).push(zigzag64(raw@[i - 1])));
    }
    assert(raw@.subrange(0, i as int) =~= raw@);
}

/// Appends the values as zigzag-encoded 32-bit integers.
fn extend_sint32(out: &mut Vec<i32>, raw: &Vec<u64>)
    ensures
        final(out)@ == old(out)@ + sint32s(raw@),
{
    let mut i: usize = 0;
    while i < raw.len()
        invariant
            i <= raw@.len(),
            out@ == old(out)@ + sint32s(raw@.subrange(0, i as int)),
        decreases raw@.len() - i,
    {
        out.push(unzigzag32(#[verifier::truncate] (raw[i] as u32)));
        i = i + 1;
        assert(sint32s(raw@.subrange(0, i as int)) =~= sint32s(
            raw@.subrange(0, i - 1),
        ).push(zigzag32(raw@[i - 1] as u32)));
    }
    assert(raw@.subrange(0, i as int) =~= raw@);
}

/// Appends the values as 32-bit integers, truncated.
fn extend_int32(out: &mut Vec<i32>, raw: &Vec<u64>)
    ensures
        final(out)@ == old(out)@ + int32s(raw@),
{
    let mut i: usize = 0;
    while i < raw.len()
        invariant
            i <= raw@.len(),
            out@ == old(out)@ + int32s(raw@.subrange(0, i as int)),
        decreases raw@.len() - i,
    {
        out.push(#[verifier::truncate] (raw[i] as i32));
        i = i + 1;
        assert(int32s(raw@.subrange(0, i as int)) =~= int32s(
            raw@.subrange(0, i - 1),
        ).push(raw@[i - 1] as i32));
    }
    assert(raw@.subrange(0, i as int) =~= raw@);
}

fn extend_uint32(out: &mut Vec<u32>, raw: &Vec<u64>)
    ensures
        final(out)@ == old(out)@ + uint32s(raw@),
{
    let mut i: usize = 0;
    while i < raw.len()
        invariant
            i <= raw@.len(),
            out@ == old(out)@ + uint32s(raw@.subrange(0, i as int)),
        decreases raw@.len() - i,
    {
        out.push(#[verifier::truncate] (raw[i] as u32));
        i = i + 1;
        assert(uint32s(raw@.subrange(0, i as int)) =~= uint32s(
            raw@.subrange(0, i - 1),
        ).push(raw@[i - 1] as u32));
    }
    assert(raw@.subrange(0, i as int) =~= raw@);
}

fn extend_bool(out: &mut Vec<bool>, raw: &Vec<u64>)
    ensures
        final(out)@ == old(out)@ + bools(raw@),
{
    let mut i: usize = 0;
    while i < raw.len()
        invariant
            i <= raw@.len(),
            out@ == old(out)@ + bools(raw@.subrange(0, i as int)),
        decreases raw@.len() - i,
    {
        out.push(raw[i] != 0);
        i = i + 1;
        assert(bools(raw@.subrange(0, i as int)) =~= bools(
            raw@.subrange(0, i - 1),
        ).push(raw@[i - 1] != 0));
    }
    assert(raw@.subrange(0, i as int) =~= raw@);
}

/// The bytes `s..e` of the buffer.
pub fn slice_of(b: &[u8], s: usize, e: usize) -> (r: &[u8])
    requires
        s <= e <= b@.len(),
    ensures
        r@ == b@.subrange(s as int, e as int),
{
    vstd::slice::slice_subrange(b, s, e)
}

/// Copies the bytes `s..e` of the buffer.
pub fn copy_bytes(b: &[u8], s: usize, e: usize) -> (r: Vec<u8>)
    requires
        s <= e <= b@.len(),
    ensures
        r@ == b@.subrange(s as int, e as int),
{
    let mut out: Vec<u8> = Vec::new();
    let mut i: usize = s;
    while i < e
        invariant
            s <= i <= e <= b@.len(),
            out@ == b@.subrange(s as int, i as int),
        decreases e - i,
    {
        out.push(b[i]);
        i = i + 1;
        assert(b@.subrange(s as int, i as int) =~= b@.subrange(s as int, i - 1).push(b@[i - 1]));
    }
    out
}

/// The bytes `s..e` as text, if they are UTF-8.
pub fn text_of(b: &[u8], s: usize, e: usize) -> (r: Option<String>)
    requires
        s <= e <= b@.len(),
    ensures
        r is Some <==> vstd::utf8::valid_utf8(b@.subrange(s as int, e as int)),
        r is Some ==> r->0@ == vstd::utf8::decode_utf8(b@.subrange(s as int, e as int)),
{
    let v = copy_bytes(b, s, e);
    match utf8_str(v.as_slice()) {
        Some(t) => Some(t.to_owned()),
        None => None,
    }
}

pub open spec fn empty_info() -> Info {
    Info {
        version: None,
        timestamp: None,
        changeset: None,
        uid: None,
        user_sid: None,
        visible: None,
    }
}

pub open spec fn empty_dense_info() -> DenseInfoV {
    DenseInfoV {
        version: seq![],
        timestamp: seq![],
        changeset: seq![],
        uid: seq![],
        user_sid: seq![],
        visible: seq![],
    }
}

/// What field `n` with value `v` does to the metadata of an entity being decoded;
/// `None` for a known field with the wrong wire type or malformed contents.
pub open spec fn info_step(b: Seq<u8>, m: Info, n: u64, v: WireValue) -> Option<Info> {
    if n == 1 {
        match v {
            WireValue::Varint(x) => Some(Info { version: Some(x as i32), ..m }),
            _ => None,
        }
    } else if n == 2 {
        match v {
            WireValue::Varint(x) => Some(Info { timestamp: Some(x as i64), ..m }),
            _ => None,
        }
    } else if n == 3 {
        match v {
            WireValue::Varint(x) => Some(Info { changeset: Some(x as i64), ..m }),
            _ => None,
        }
    } else if n == 4 {
        match v {
            WireValue::Varint(x) => Some(Info { uid: Some(x as i32), ..m }),
            _ => None,
        }
    } else if n == 5 {
        match v {
            WireValue::Varint(x) => Some(Info { user_sid: Some(x as u32), ..m }),
            _ => None,
        }
    } else if n == 6 {
        match v {
            WireValue::Varint(x) => Some(Info { visible: Some(x != 0), ..m }),
            _ => None,
        }
    } else {
        Some(m)
    }
}

/// The fields from `pos` to `end` applied in order to `m`.
pub open spec fn info_fields(b: Seq<u8>, pos: int, end: int, m: Info) -> Option<Info>
    decreases end - pos,
{
    if pos >= end {
        if pos == end {
            Some(m)
        } else {
            None
        }
    } else {
        match field_at(b, pos, end) {
            Some((n, v, q)) => if pos < q <= end {
                match info_step(b, m, n, v) {
                    Some(m2) => info_fields(b, q, end, m2),
                    None => None,
                }
            } else {
                None
            },
            None => None,
        }
    }
}

/// The metadata of an entity as the bytes `s..e` encode it, if they are well formed.
pub open spec fn spec_decode_info(b: Seq<u8>, s: int, e: int) -> Option<Info> {
    info_fields(b, s, e, empty_info())
}

/// Decodes the metadata of an entity from the bytes `start..end`; `None` when they are
/// not whole fields, a known field has the wrong wire type, or a nested
/// message or text is malformed. Unknown fields are passed over.
pub fn decode_info(b: &[u8], start: usize, end: usize) -> (r: Option<Info>)
    requires
        start <= end <= b@.len(),
    ensures
        match r {
            Some(x) => spec_decode_info(b@, start as int, end as int) == Some(x),
            None => spec_decode_info(b@, start as int, end as int) is None,
        },
{
    let mut m: Info = Info::new();
    let mut pos = start;
    while pos < end
        invariant
            start <= pos <= end <= b@.len(),
            spec_decode_info(b@, start as int, end as int) == info_fields(
                b@,
                pos as int,
                end as int,
                m,
            ),
        decreases end - pos,
    {
        proof {
            lemma_field_bounds(b@, pos as int, end as int);
        }
        let (num, v, next) = match read_field(b, pos, end) {
            Some(f) => f,
            None => return None,
        };
        if num == 1 {
            match v {
                WireValue::Varint(x) => {
                    m.version = Some(#[verifier::truncate] (x as i32));
                },
                _ => return None,
            }
        } else if num == 2 {
            match v {
                WireValue::Varint(x) => {
                    m.timestamp = Some(#[verifier::truncate] (x as i64));
                },
                _ => return None,
            }
        } else if num == 3 {
            match v {
                WireValue::Varint(x) => {
                    m.changeset = Some(#[verifier::truncate] (x as i64));
                },
                _ => return None,
            }
        } else if num == 4 {
            match v {
                WireValue::Varint(x) => {
                    m.uid = Some(#[verifier::truncate] (x as i32));
                },
                _ => return None,
            }
        } else if num == 5 {
            match v {
                WireValue::Varint(x) => {
                    m.user_sid = Some(#[verifier::truncate] (x as u32));
                },
                _ => return None,
            }
        } else if num == 6 {
            match v {
                WireValue::Varint(x) => {
                    m.visible = Some(x != 0);
                },
                _ => return None,
            }
        }
        pos = next;
    }
    Some(m)
}

/// What field `n` with value `v` does to a node being decoded;
/// `None` for a known field with the wrong wire type or malformed contents.
pub open spec fn node_step(b: Seq<u8>, m: NodeV, n: u64, v: WireValue) -> Option<NodeV> {
    if n == 1 {
        match v {
            WireValue::Varint(x) => Some(NodeV { id: zigzag64(x), ..m }),
            _ => None,
        }
    } else if n == 2 {
        match varints_of(b, v) {
            Some(raw) => Some(NodeV { keys: m.keys + uint32s(raw), ..m }),
            None => None,
        }
    } else if n == 3 {
        match varints_of(b, v) {
            Some(raw) => Some(NodeV { vals: m.vals + uint32s(raw), ..m }),
            None => None,
        }
    } else if n == 4 {
        match v {
            WireValue::Bytes(s, e) => match spec_decode_info(b, s as int, e as int) {
                Some(x) => Some(NodeV { info: x, ..m }),
                None => None,
            },
            _ => None,
        }
    } else if n == 8 {
        match v {
            WireValue::Varint(x) => Some(NodeV { lat: zigzag64(x), ..m }),
            _ => None,
        }
    } else if n == 9 {
        match v {
            WireValue::Varint(x) => Some(NodeV { lon: zigzag64(x), ..m }),
            _ => None,
        }
    } else {
        Some(m)
    }
}

/// The fields from `pos` to `end` applied in order to `m`.
pub open spec fn node_fields(b: Seq<u8>, pos: int, end: int, m: NodeV) -> Option<NodeV>
    decreases end - pos,
{
    if pos >= end {
        if pos == end {
            Some(m)
        } else {
            None
        }
    } else {
        match field_at(b, pos, end) {
            Some((n, v, q)) => if pos < q <= end {
                match node_step(b, m, n, v) {
                    Some(m2) => node_fields(b, q, end, m2),
                    None => None,
                }
            } else {
                None
            },
            None => None,
        }
    }
}

pub open spec fn empty_node() -> NodeV {
    NodeV {
        id: 0,
        keys: seq![],
        vals: seq![],
        info: empty_info(),
        lat: 0,
        lon: 0,
    }
}

/// A node as the bytes `s..e` encode it, if they are well formed.
pub open spec fn spec_decode_node(b: Seq<u8>, s: int, e: int) -> Option<NodeV> {
    node_fields(b, s, e, empty_node())
}

/// Decodes a node from the bytes `start..end`; `None` when they are
/// not whole fields, a known field has the wrong wire type, or a nested
/// message or text is malformed. Unknown fields are passed over.
pub fn decode_node(b: &[u8], start: usize, end: usize) -> (r: Option<Node>)
    requires
        start <= end <= b@.len(),
    ensures
        match r {
            Some(x) => spec_decode_node(b@, start as int, end as int) == Some(x@),
            None => spec_decode_node(b@, start as int, end as int) is None,
        },
{
    let mut m: Node = Node {
        id: 0,
        keys: Vec::new(),
        vals: Vec::new(),
        info: Info::new(),
        lat: 0,
        lon: 0,
    };
    let mut pos = start;
    while pos < end
        invariant
            start <= pos <= end <= b@.len(),
            spec_decode_node(b@, start as int, end as int) == node_fields(
                b@,
                pos as int,
                end as int,
                m@,
            ),
        decreases end - pos,
    {
        proof {
            lemma_field_bounds(b@, pos as int, end as int);
        }
        let (num, v, next) = match read_field(b, pos, end) {
            Some(f) => f,
            None => return None,
        };
        if num == 1 {
            match v {
                WireValue::Varint(x) => {
                    m.id = unzigzag64(x);
                },
                _ => return None,
            }
        } else if num == 2 {
            match read_varints(b, v) {
                Some(raw) => extend_uint32(&mut m.keys, &raw),
                None => return None,
            }
        } else if num == 3 {
            match read_varints(b, v) {
                Some(raw) => extend_uint32(&mut m.vals, &raw),
                None => return None,
            }
        } else if num == 4 {
            match v {
                WireValue::Bytes(s, e) => match decode_info(b, s, e) {
                    Some(x) => {
                        m.info = x;
                    },
                    None => return None,
                },
                _ => return None,
            }
        } else if num == 8 {
            match v {
                WireValue::Varint(x) => {
                    m.lat = unzigzag64(x);
                },
                _ => return None,
            }
        } else if num == 9 {
            match v {
                WireValue::Varint(x) => {
                    m.lon = unzigzag64(x);
                },
                _ => return None,
            }
        }
        pos = next;
    }
    Some(m)
}

/// What field `n` with value `v` does to the metadata of a dense run being decoded;
/// `None` for a known field with the wrong wire type or malformed contents.
pub open spec fn dense_info_step(
    b: Seq<u8>,
    m: DenseInfoV,
    n: u64,
    v: WireValue,
) -> Option<DenseInfoV> {
    if n == 1 {
        match varints_of(b, v) {
            Some(raw) => Some(DenseInfoV { version: m.version + int32s(raw), ..m }),
            None => None,
        }
    } else if n == 2 {
        match varints_of(b, v) {
            Some(raw) => Some(DenseInfoV { timestamp: m.timestamp + sint64s(raw), ..m }),
            None => None,
        }
    } else if n == 3 {
        match varints_of(b, v) {
            Some(raw) => Some(DenseInfoV { changeset: m.changeset + sint64s(raw), ..m }),
            None => None,
        }
    } else if n == 4 {
        match varints_of(b, v) {
            Some(raw) => Some(DenseInfoV { uid: m.uid + sint32s(raw), ..m }),
            None => None,
        }
    } else if n == 5 {
        match varints_of(b, v) {
            Some(raw) => Some(DenseInfoV { user_sid: m.user_sid + sint32s(raw), ..m }),
            None => None,
        }
    } else if n == 6 {
        match varints_of(b, v) {
            Some(raw) => Some(DenseInfoV { visible: m.visible + bools(raw), ..m }),
            None => None,
        }
    } else {
        Some(m)
    }
}

/// The fields from `pos` to `end` applied in order to `m`.
pub open spec fn dense_info_fields(
    b: Seq<u8>,
    pos: int,
    end: int,
    m: DenseInfoV,
) -> Option<DenseInfoV>
    decreases end - pos,
{
    if pos >= end {
        if pos == end {
            Some(m)
        } else {
            None
        }
    } else {
        match field_at(b, pos, end) {
            Some((n, v, q)) => if pos < q <= end {
                match dense_info_step(b, m, n, v) {
                    Some(m2) => dense_info_fields(b, q, end, m2),
                    None => None,
                }
            } else {
                None
            },
            None => None,
        }
    }
}

/// The metadata of a dense run as the bytes `s..e` encode it, if they are well formed.
pub open spec fn spec_decode_dense_info(b: Seq<u8>, s: int, e: int) -> Option<DenseInfoV> {
    dense_info_fields(b, s, e, empty_dense_info())
}

/// Decodes the metadata of a dense run from the bytes `start..end`; `None` when they are
/// not whole fields, a known field has the wrong wire type, or a nested
/// message or text is malformed. Unknown fields are passed over.
pub fn decode_dense_info(b: &[u8], start: usize, end: usize) -> (r: Option<DenseInfo>)
    requires
        start <= end <= b@.len(),
    ensures
        match r {
            Some(x) => spec_decode_dense_info(b@, start as int, end as int) == Some(x@),
            None => spec_decode_dense_info(b@, start as int, end as int) is None,
        },
{
    let mut m: DenseInfo = DenseInfo {
        version: Vec::new(),
        timestamp: Vec::new(),
        changeset: Vec::new(),
        uid: Vec::new(),
        user_sid: Vec::new(),
        visible: Vec::new(),
    };
    let mut pos = start;
    while pos < end
        invariant
            start <= pos <= end <= b@.len(),
            spec_decode_dense_info(b@, start as int, end as int) == dense_info_fields(
                b@,
                pos as int,
                end as int,
                m@,
            ),
        decreases end - pos,
    {
        proof {
            lemma_field_bounds(b@, pos as int, end as int);
        }
        let (num, v, next) = match read_field(b, pos, end) {
            Some(f) => f,
            None => return None,
        };
        if num == 1 {
            match read_varints(b, v) {
                Some(raw) => extend_int32(&mut m.version, &raw),
                None => return None,
            }
        } else if num == 2 {
            match read_varints(b, v) {
                Some(raw) => extend_sint64(&mut m.timestamp, &raw),
                None => return None,
            }
        } else if num == 3 {
            match read_varints(b, v) {
                Some(raw) => extend_sint64(&mut m.changeset, &raw),
                None => return None,
            }
        } else if num == 4 {
            match read_varints(b, v) {
                Some(raw) => extend_sint32(&mut m.uid, &raw),
                None => return None,
            }
        } else if num == 5 {
            match read_varints(b, v) {
                Some(raw) => extend_sint32(&mut m.user_sid, &raw),
                None => return None,
            }
        } else if num == 6 {
            match read_varints(b, v) {
                Some(raw) => extend_bool(&mut m.visible, &raw),
                None => return None,
            }
        }
        pos = next;
    }
    Some(m)
}

/// What field `n` with value `v` does to a dense run of nodes being decoded;
/// `None` for a known field with the wrong wire type or malformed contents.
pub open spec fn dense_nodes_step(
    b: Seq<u8>,
    m: DenseNodesV,
    n: u64,
    v: WireValue,
) -> Option<DenseNodesV> {
    if n == 1 {
        match varints_of(b, v) {
            Some(raw) => Some(DenseNodesV { id: m.id + sint64s(raw), ..m }),
            None => None,
        }
    } else if n == 5 {
        match v {
            WireValue::Bytes(s, e) => match spec_decode_dense_info(b, s as int, e as int) {
                Some(x) => Some(DenseNodesV { denseinfo: x, ..m }),
                None => None,
            },
            _ => None,
        }
    } else if n == 8 {
        match varints_of(b, v) {
            Some(raw) => Some(DenseNodesV { lat: m.lat + sint64s(raw), ..m }),
            None => None,
        }
    } else if n == 9 {
        match varints_of(b, v) {
            Some(raw) => Some(DenseNodesV { lon: m.lon + sint64s(raw), ..m }),
            None => None,
        }
    } else if n == 10 {
        match varints_of(b, v) {
            Some(raw) => Some(DenseNodesV { keys_vals: m.keys_vals + int32s(raw), ..m }),
            None => None,
        }
    } else {
        Some(m)
    }
}

/// The fields from `pos` to `end` applied in order to `m`.
pub open spec fn dense_nodes_fields(
    b: Seq<u8>,
    pos: int,
    end: int,
    m: DenseNodesV,
) -> Option<DenseNodesV>
    decreases end - pos,
{
    if pos >= end {
        if pos == end {
            Some(m)
        } else {
            None
        }
    } else {
        match field_at(b, pos, end) {
            Some((n, v, q)) => if pos < q <= end {
                match dense_nodes_step(b, m, n, v) {
                    Some(m2) => dense_nodes_fields(b, q, end, m2),
                    None => None,
                }
            } else {
                None
            },
            None => None,
        }
    }
}

pub open spec fn empty_dense_nodes() -> DenseNodesV {
    DenseNodesV {
        id: seq![],
        denseinfo: empty_dense_info(),
        lat: seq![],
        lon: seq![],
        keys_vals: seq![],
    }
}

/// A dense run of nodes as the bytes `s..e` encode it, if they are well formed.
pub open spec fn spec_decode_dense_nodes(b: Seq<u8>, s: int, e: int) -> Option<DenseNodesV> {
    dense_nodes_fields(b, s, e, empty_dense_nodes())
}

/// Decodes a dense run of nodes from the bytes `start..end`; `None` when they are
/// not whole fields, a known field has the wrong wire type, or a nested
/// message or text is malformed. Unknown fields are passed over.
pub fn decode_dense_nodes(b: &[u8], start: usize, end: usize) -> (r: Option<DenseNodes>)
    requires
        start <= end <= b@.len(),
    ensures
        match r {
            Some(x) => spec_decode_dense_nodes(b@, start as int, end as int) == Some(x@),
            None => spec_decode_dense_nodes(b@, start as int, end as int) is None,
        },
{
    let mut m: DenseNodes = DenseNodes {
        id: Vec::new(),
        denseinfo: DenseInfo {
            version: Vec::new(),
            timestamp: Vec::new(),
            changeset: Vec::new(),
            uid: Vec::new(),
            user_sid: Vec::new(),
            visible: Vec::new(),
        },
        lat: Vec::new(),
        lon: Vec::new(),
        keys_vals: Vec::new(),
    };
    let mut pos = start;
    while pos < end
        invariant
            start <= pos <= end <= b@.len(),
            spec_decode_dense_nodes(b@, start as int, end as int) == dense_nodes_fields(
                b@,
                pos as int,
                end as int,
                m@,
            ),
        decreases end - pos,
    {
        proof {
            lemma_field_bounds(b@, pos as int, end as int);
        }
        let (num, v, next) = match read_field(b, pos, end) {
            Some(f) => f,
            None => return None,
        };
        if num == 1 {
            match read_varints(b, v) {
                Some(raw) => extend_sint64(&mut m.id, &raw),
                None => return None,
            }
        } else if num == 5 {
            match v {
                WireValue::Bytes(s, e) => match decode_dense_info(b, s, e) {
                    Some(x) => {
                        m.denseinfo = x;
                    },
                    None => return None,
                },
                _ => return None,
            }
        } else if num == 8 {
            match read_varints(b, v) {
                Some(raw) => extend_sint64(&mut m.lat, &raw),
                None => return None,
            }
        } else if num == 9 {
            match read_varints(b, v) {
                Some(raw) => extend_sint64(&mut m.lon, &raw),
                None => return None,
            }
        } else if num == 10 {
            match read_varints(b, v) {
                Some(raw) => extend_int32(&mut m.keys_vals, &raw),
                None => return None,
            }
        }
        pos = next;
    }
    Some(m)
}

/// What field `n` with value `v` does to a way being decoded;
/// `None` for a known field with the wrong wire type or malformed contents.
pub open spec fn way_step(b: Seq<u8>, m: WayV, n: u64, v: WireValue) -> Option<WayV> {
    if n == 1 {
        match v {
            WireValue::Varint(x) => Some(WayV { id: x as i64, ..m }),
            _ => None,
        }
    } else if n == 2 {
        match varints_of(b, v) {
            Some(raw) => Some(WayV { keys: m.keys + uint32s(raw), ..m }),
            None => None,
        }
    } else if n == 3 {
        match varints_of(b, v) {
            Some(raw) => Some(WayV { vals: m.vals + uint32s(raw), ..m }),
            None => None,
        }
    } else if n == 4 {
        match v {
            WireValue::Bytes(s, e) => match spec_decode_info(b, s as int, e as int) {
                Some(x) => Some(WayV { info: x, ..m }),
                None => None,
            },
            _ => None,
        }
    } else if n == 8 {
        match varints_of(b, v) {
            Some(raw) => Some(WayV { refs: m.refs + sint64s(raw), ..m }),
            None => None,
        }
    } else {
        Some(m)
    }
}

/// The fields from `pos` to `end` applied in order to `m`.
pub open spec fn way_fields(b: Seq<u8>, pos: int, end: int, m: WayV) -> Option<WayV>
    decreases end - pos,
{
    if pos >= end {
        if pos == end {
            Some(m)
        } else {
            None
        }
    } else {
        match field_at(b, pos, end) {
            Some((n, v, q)) => if pos < q <= end {
                match way_step(b, m, n, v) {
                    Some(m2) => way_fields(b, q, end, m2),
                    None => None,
                }
            } else {
                None
            },
            None => None,
        }
    }
}

pub open spec fn empty_way() -> WayV {
    WayV {
        id: 0,
        keys: seq![],
        vals: seq![],
        info: empty_info(),
        refs: seq![],
    }
}

/// A way as the bytes `s..e` encode it, if they are well formed.
pub open spec fn spec_decode_way(b: Seq<u8>, s: int, e: int) -> Option<WayV> {
    way_fields(b, s, e, empty_way())
}

/// Decodes a way from the bytes `start..end`; `None` when they are
/// not whole fields, a known field has the wrong wire type, or a nested
/// message or text is malformed. Unknown fields are passed over.
pub fn decode_way(b: &[u8], start: usize, end: usize) -> (r: Option<Way>)
    requires
        start <= end <= b@.len(),
    ensures
        match r {
            Some(x) => spec_decode_way(b@, start as int, end as int) == Some(x@),
            None => spec_decode_way(b@, start as int, end as int) is None,
        },
{
    let mut m: Way = Way {
        id: 0,
        keys: Vec::new(),
        vals: Vec::new(),
        info: Info::new(),
        refs: Vec::new(),
    };
    let mut pos = start;
    while pos < end
        invariant
            start <= pos <= end <= b@.len(),
            spec_decode_way(b@, start as int, end as int) == way_fields(
                b@,
                pos as int,
                end as int,
                m@,
            ),
        decreases end - pos,
    {
        proof {
            lemma_field_bounds(b@, pos as int, end as int);
        }
        let (num, v, next) = match read_field(b, pos, end) {
            Some(f) => f,
            None => return None,
        };
        if num == 1 {
            match v {
                WireValue::Varint(x) => {
                    m.id = #[verifier::truncate] (x as i64);
                },
                _ => return None,
            }
        } else if num == 2 {
            match read_varints(b, v) {
                Some(raw) => extend_uint32(&mut m.keys, &raw),
                None => return None,
            }
        } else if num == 3 {
            match read_varints(b, v) {
                Some(raw) => extend_uint32(&mut m.vals, &raw),
                None => return None,
            }
        } else if num == 4 {
            match v {
                WireValue::Bytes(s, e) => match decode_info(b, s, e) {
                    Some(x) => {
                        m.info = x;
                    },
                    None => return None,
                },
                _ => return None,
            }
        } else if num == 8 {
            match read_varints(b, v) {
                Some(raw) => extend_sint64(&mut m.refs, &raw),
                None => return None,
            }
        }
        pos = next;
    }
    Some(m)
}

/// What field `n` with value `v` does to a relation being decoded;
/// `None` for a known field with the wrong wire type or malformed contents.
pub open spec fn relation_step(
    b: Seq<u8>,
    m: RelationV,
    n: u64,
    v: WireValue,
) -> Option<RelationV> {
    if n == 1 {
        match v {
            WireValue::Varint(x) => Some(RelationV { id: x as i64, ..m }),
            _ => None,
        }
    } else if n == 2 {
        match varints_of(b, v) {
            Some(raw) => Some(RelationV { keys: m.keys + uint32s(raw), ..m }),
            None => None,
        }
    } else if n == 3 {
        match varints_of(b, v) {
            Some(raw) => Some(RelationV { vals: m.vals + uint32s(raw), ..m }),
            None => None,
        }
    } else if n == 4 {
        match v {
            WireValue::Bytes(s, e) => match spec_decode_info(b, s as int, e as int) {
                Some(x) => Some(RelationV { info: x, ..m }),
                None => None,
            },
            _ => None,
        }
    } else if n == 8 {
        match varints_of(b, v) {
            Some(raw) => Some(RelationV { roles_sid: m.roles_sid + int32s(raw), ..m }),
            None => None,
        }
    } else if n == 9 {
        match varints_of(b, v) {
            Some(raw) => Some(RelationV { memids: m.memids + sint64s(raw), ..m }),
            None => None,
        }
    } else if n == 10 {
        match varints_of(b, v) {
            Some(raw) => Some(RelationV { types: m.types + int32s(raw), ..m }),
            None => None,
        }
    } else {
        Some(m)
    }
}

/// The fields from `pos` to `end` applied in order to `m`.
pub open spec fn relation_fields(b: Seq<u8>, pos: int, end: int, m: RelationV) -> Option<RelationV>
    decreases end - pos,
{
    if pos >= end {
        if pos == end {
            Some(m)
        } else {
            None
        }
    } else {
        match field_at(b, pos, end) {
            Some((n, v, q)) => if pos < q <= end {
                match relation_step(b, m, n, v) {
                    Some(m2) => relation_fields(b, q, end, m2),
                    None => None,
                }
            } else {
                None
            },
            None => None,
        }
    }
}

pub open spec fn empty_relation() -> RelationV {
    RelationV {
        id: 0,
        keys: seq![],
        vals: seq![],
        info: empty_info(),
        roles_sid: seq![],
        memids: seq![],
        types: seq![],
    }
}

/// A relation as the bytes `s..e` encode it, if they are well formed.
pub open spec fn spec_decode_relation(b: Seq<u8>, s: int, e: int) -> Option<RelationV> {
    relation_fields(b, s, e, empty_relation())
}

/// Decodes a relation from the bytes `start..end`; `None` when they are
/// not whole fields, a known field has the wrong wire type, or a nested
/// message or text is malformed. Unknown fields are passed over.
pub fn decode_relation(b: &[u8], start: usize, end: usize) -> (r: Option<Relation>)
    requires
        start <= end <= b@.len(),
    ensures
        match r {
            Some(x) => spec_decode_relation(b@, start as int, end as int) == Some(x@),
            None => spec_decode_relation(b@, start as int, end as int) is None,
        },
{
    let mut m: Relation = Relation {
        id: 0,
        keys: Vec::new(),
        vals: Vec::new(),
        info: Info::new(),
        roles_sid: Vec::new(),
        memids: Vec::new(),
        types: Vec::new(),
    };
    let mut pos = start;
    while pos < end
        invariant
            start <= pos <= end <= b@.len(),
            spec_decode_relation(b@, start as int, end as int) == relation_fields(
                b@,
                pos as int,
                end as int,
                m@,
            ),
        decreases end - pos,
    {
        proof {
            lemma_field_bounds(b@, pos as int, end as int);
        }
        let (num, v, next) = match read_field(b, pos, end) {
            Some(f) => f,
            None => return None,
        };
        if num == 1 {
            match v {
                WireValue::Varint(x) => {
                    m.id = #[verifier::truncate] (x as i64);
                },
                _ => return None,
            }
        } else if num == 2 {
            match read_varints(b, v) {
                Some(raw) => extend_uint32(&mut m.keys, &raw),
                None => return None,
            }
        } else if num == 3 {
            match read_varints(b, v) {
                Some(raw) => extend_uint32(&mut m.vals, &raw),
                None => return None,
            }
        } else if num == 4 {
            match v {
                WireValue::Bytes(s, e) => match decode_info(b, s, e) {
                    Some(x) => {
                        m.info = x;
                    },
                    None => return None,
                },
                _ => return None,
            }
        } else if num == 8 {
            match read_varints(b, v) {
                Some(raw) => extend_int32(&mut m.roles_sid, &raw),
                None => return None,
            }
        } else if num == 9 {
            match read_varints(b, v) {
                Some(raw) => extend_sint64(&mut m.memids, &raw),
                None => return None,
            }
        } else if num == 10 {
            match read_varints(b, v) {
                Some(raw) => extend_int32(&mut m.types, &raw),
                None => return None,
            }
        }
        pos = next;
    }
    Some(m)
}

/// What field `n` with value `v` does to a change set being decoded;
/// `None` for a known field with the wrong wire type or malformed contents.
pub open spec fn change_set_step(
    b: Seq<u8>,
    m: ChangeSet,
    n: u64,
    v: WireValue,
) -> Option<ChangeSet> {
    if n == 1 {
        match v {
            WireValue::Varint(x) => Some(ChangeSet { id: x as i64 }),
            _ => None,
        }
    } else {
        Some(m)
    }
}

/// The fields from `pos` to `end` applied in order to `m`.
pub open spec fn change_set_fields(
    b: Seq<u8>,
    pos: int,
    end: int,
    m: ChangeSet,
) -> Option<ChangeSet>
    decreases end - pos,
{
    if pos >= end {
        if pos == end {
            Some(m)
        } else {
            None
        }
    } else {
        match field_at(b, pos, end) {
            Some((n, v, q)) => if pos < q <= end {
                match change_set_step(b, m, n, v) {
                    Some(m2) => change_set_fields(b, q, end, m2),
                    None => None,
                }
            } else {
                None
            },
            None => None,
        }
    }
}

pub open spec fn empty_change_set() -> ChangeSet {
    ChangeSet {
        id: 0,
    }
}

/// A change set as the bytes `s..e` encode it, if they are well formed.
pub open spec fn spec_decode_change_set(b: Seq<u8>, s: int, e: int) -> Option<ChangeSet> {
    change_set_fields(b, s, e, empty_change_set())
}

/// Decodes a change set from the bytes `start..end`; `None` when they are
/// not whole fields, a known field has the wrong wire type, or a nested
/// message or text is malformed. Unknown fields are passed over.
pub fn decode_change_set(b: &[u8], start: usize, end: usize) -> (r: Option<ChangeSet>)
    requires
        start <= end <= b@.len(),
    ensures
        match r {
            Some(x) => spec_decode_change_set(b@, start as int, end as int) == Some(x),
            None => spec_decode_change_set(b@, start as int, end as int) is None,
        },
{
    let mut m: ChangeSet = ChangeSet { id: 0 };
    let mut pos = start;
    while pos < end
        invariant
            start <= pos <= end <= b@.len(),
            spec_decode_change_set(b@, start as int, end as int) == change_set_fields(
                b@,
                pos as int,
                end as int,
                m,
            ),
        decreases end - pos,
    {
        proof {
            lemma_field_bounds(b@, pos as int, end as int);
        }
        let (num, v, next) = match read_field(b, pos, end) {
            Some(f) => f,
            None => return None,
        };
        if num == 1 {
            match v {
                WireValue::Varint(x) => {
                    m.id = #[verifier::truncate] (x as i64);
                },
                _ => return None,
            }
        }
        pos = next;
    }
    Some(m)
}

/// What field `n` with value `v` does to a primitive group being decoded;
/// `None` for a known field with the wrong wire type or malformed contents.
pub open spec fn primitive_group_step(
    b: Seq<u8>,
    m: PrimitiveGroupV,
    n: u64,
    v: WireValue,
) -> Option<PrimitiveGroupV> {
    if n == 1 {
        match v {
            WireValue::Bytes(s, e) => match spec_decode_node(b, s as int, e as int) {
                Some(x) => Some(PrimitiveGroupV { nodes: m.nodes.push(x), ..m }),
                None => None,
            },
            _ => None,
        }
    } else if n == 2 {
        match v {
            WireValue::Bytes(s, e) => match spec_decode_dense_nodes(b, s as int, e as int) {
                Some(x) => Some(PrimitiveGroupV { dense: Some(x), ..m }),
                None => None,
            },
            _ => None,
        }
    } else if n == 3 {
        match v {
            WireValue::Bytes(s, e) => match spec_decode_way(b, s as int, e as int) {
                Some(x) => Some(PrimitiveGroupV { ways: m.ways.push(x), ..m }),
                None => None,
            },
            _ => None,
        }
    } else if n == 4 {
        match v {
            WireValue::Bytes(s, e) => match spec_decode_relation(b, s as int, e as int) {
                Some(x) => Some(PrimitiveGroupV { relations: m.relations.push(x), ..m }),
                None => None,
            },
            _ => None,
        }
    } else if n == 5 {
        match v {
            WireValue::Bytes(s, e) => match spec_decode_change_set(b, s as int, e as int) {
                Some(x) => Some(PrimitiveGroupV { changesets: m.changesets.push(x), ..m }),
                None => None,
            },
            _ => None,
        }
    } else {
        Some(m)
    }
}

/// The fields from `pos` to `end` applied in order to `m`.
pub open spec fn primitive_group_fields(
    b: Seq<u8>,
    pos: int,
    end: int,
    m: PrimitiveGroupV,
) -> Option<PrimitiveGroupV>
    decreases end - pos,
{
    if pos >= end {
        if pos == end {
            Some(m)
        } else {
            None
        }
    } else {
        match field_at(b, pos, end) {
            Some((n, v, q)) => if pos < q <= end {
                match primitive_group_step(b, m, n, v) {
                    Some(m2) => primitive_group_fields(b, q, end, m2),
                    None => None,
                }
            } else {
                None
            },
            None => None,
        }
    }
}

pub open spec fn empty_primitive_group() -> PrimitiveGroupV {
    PrimitiveGroupV {
        nodes: seq![],
        dense: None,
        ways: seq![],
        relations: seq![],
        changesets: seq![],
    }
}

/// A primitive group as the bytes `s..e` encode it, if they are well formed.
pub open spec fn spec_decode_primitive_group(
    b: Seq<u8>,
    s: int,
    e: int,
) -> Option<PrimitiveGroupV> {
    primitive_group_fields(b, s, e, empty_primitive_group())
}

/// Decodes a primitive group from the bytes `start..end`; `None` when they are
/// not whole fields, a known field has the wrong wire type, or a nested
/// message or text is malformed. Unknown fields are passed over.
pub fn decode_primitive_group(b: &[u8], start: usize, end: usize) -> (r: Option<PrimitiveGroup>)
    requires
        start <= end <= b@.len(),
    ensures
        match r {
            Some(x) => spec_decode_primitive_group(b@, start as int, end as int) == Some(x@),
            None => spec_decode_primitive_group(b@, start as int, end as int) is None,
        },
{
    let mut m: PrimitiveGroup = PrimitiveGroup::new();
    proof {
        assert(nodes_view(m.nodes@) =~= seq![]);
        assert(ways_view(m.ways@) =~= seq![]);
        assert(relations_view(m.relations@) =~= seq![]);
        assert(m.changesets@ =~= seq![]);
    }
    let mut pos = start;
    while pos < end
        invariant
            start <= pos <= end <= b@.len(),
            spec_decode_primitive_group(b@, start as int, end as int) == primitive_group_fields(
                b@,
                pos as int,
                end as int,
                m@,
            ),
        decreases end - pos,
    {
        proof {
            lemma_field_bounds(b@, pos as int, end as int);
        }
        let (num, v, next) = match read_field(b, pos, end) {
            Some(f) => f,
            None => return None,
        };
        if num == 1 {
            match v {
                WireValue::Bytes(s, e) => match decode_node(b, s, e) {
                    Some(x) => {
                        let ghost before = m.nodes@;
                        m.nodes.push(x);
                        assert(nodes_view(m.nodes@) =~= nodes_view(before).push(x@));
                    },
                    None => return None,
                },
                _ => return None,
            }
        } else if num == 2 {
            match v {
                WireValue::Bytes(s, e) => match decode_dense_nodes(b, s, e) {
                    Some(x) => {
                        m.dense = Some(x);
                    },
                    None => return None,
                },
                _ => return None,
            }
        } else if num == 3 {
            match v {
                WireValue::Bytes(s, e) => match decode_way(b, s, e) {
                    Some(x) => {
                        let ghost before = m.ways@;
                        m.ways.push(x);
                        assert(ways_view(m.ways@) =~= ways_view(before).push(x@));
                    },
                    None => return None,
                },
                _ => return None,
            }
        } else if num == 4 {
            match v {
                WireValue::Bytes(s, e) => match decode_relation(b, s, e) {
                    Some(x) => {
                        let ghost before = m.relations@;
                        m.relations.push(x);
                        assert(relations_view(m.relations@) =~= relations_view(before).push(x@));
                    },
                    None => return None,
                },
                _ => return None,
            }
        } else if num == 5 {
            match v {
                WireValue::Bytes(s, e) => match decode_change_set(b, s, e) {
                    Some(x) => {
                        m.changesets.push(x);
                    },
                    None => return None,
                },
                _ => return None,
            }
        }
        pos = next;
    }
    Some(m)
}

/// What field `n` with value `v` does to a string table being decoded;
/// `None` for a known field with the wrong wire type or malformed contents.
pub open spec fn string_table_step(
    b: Seq<u8>,
    m: Seq<Seq<u8>>,
    n: u64,
    v: WireValue,
) -> Option<Seq<Seq<u8>>> {
    if n == 1 {
        match v {
            WireValue::Bytes(s, e) => Some(m.push(b.subrange(s as int, e as int))),
            _ => None,
        }
    } else {
        Some(m)
    }
}

/// The fields from `pos` to `end` applied in order to `m`.
pub open spec fn string_table_fields(
    b: Seq<u8>,
    pos: int,
    end: int,
    m: Seq<Seq<u8>>,
) -> Option<Seq<Seq<u8>>>
    decreases end - pos,
{
    if pos >= end {
        if pos == end {
            Some(m)
        } else {
            None
        }
    } else {
        match field_at(b, pos, end) {
            Some((n, v, q)) => if pos < q <= end {
                match string_table_step(b, m, n, v) {
                    Some(m2) => string_table_fields(b, q, end, m2),
                    None => None,
                }
            } else {
                None
            },
            None => None,
        }
    }
}

/// A string table as the bytes `s..e` encode it, if they are well formed.
pub open spec fn spec_decode_string_table(b: Seq<u8>, s: int, e: int) -> Option<Seq<Seq<u8>>> {
    string_table_fields(b, s, e, seq![])
}

/// Decodes a string table from the bytes `start..end`; `None` when they are
/// not whole fields, a known field has the wrong wire type, or a nested
/// message or text is malformed. Unknown fields are passed over.
pub fn decode_string_table(b: &[u8], start: usize, end: usize) -> (r: Option<Vec<Vec<u8>>>)
    requires
        start <= end <= b@.len(),
    ensures
        match r {
            Some(x) => spec_decode_string_table(b@, start as int, end as int) == Some(table_view(x@)),
            None => spec_decode_string_table(b@, start as int, end as int) is None,
        },
{
    let mut m: Vec<Vec<u8>> = Vec::new();
    proof {
        assert(table_view(m@) =~= seq![]);
    }
    let mut pos = start;
    while pos < end
        invariant
            start <= pos <= end <= b@.len(),
            spec_decode_string_table(b@, start as int, end as int) == string_table_fields(
                b@,
                pos as int,
                end as int,
                table_view(m@),
            ),
        decreases end - pos,
    {
        proof {
            lemma_field_bounds(b@, pos as int, end as int);
        }
        let (num, v, next) = match read_field(b, pos, end) {
            Some(f) => f,
            None => return None,
        };
        if num == 1 {
            match v {
                WireValue::Bytes(s, e) => {
                    let ghost before = m@;
                    let x = copy_bytes(b, s, e);
                    m.push(x);
                    assert(table_view(m@) =~= table_view(before).push(x@));
                },
                _ => return None,
            }
        }
        pos = next;
    }
    Some(m)
}

/// What field `n` with value `v` does to a primitive block being decoded;
/// `None` for a known field with the wrong wire type or malformed contents.
pub open spec fn primitive_block_step(
    b: Seq<u8>,
    m: PrimitiveBlockV,
    n: u64,
    v: WireValue,
) -> Option<PrimitiveBlockV> {
    if n == 1 {
        match v {
            WireValue::Bytes(s, e) => match spec_decode_string_table(b, s as int, e as int) {
                Some(x) => Some(PrimitiveBlockV { stringtable: x, ..m }),
                None => None,
            },
            _ => None,
        }
    } else if n == 2 {
        match v {
            WireValue::Bytes(s, e) => match spec_decode_primitive_group(b, s as int, e as int) {
                Some(x) => Some(PrimitiveBlockV { primitivegroup: m.primitivegroup.push(x), ..m }),
                None => None,
            },
            _ => None,
        }
    } else if n == 17 {
        match v {
            WireValue::Varint(x) => Some(PrimitiveBlockV { granularity: x as i32, ..m }),
            _ => None,
        }
    } else if n == 18 {
        match v {
            WireValue::Varint(x) => Some(PrimitiveBlockV { date_granularity: x as i32, ..m }),
            _ => None,
        }
    } else if n == 19 {
        match v {
            WireValue::Varint(x) => Some(PrimitiveBlockV { lat_offset: x as i64, ..m }),
            _ => None,
        }
    } else if n == 20 {
        match v {
            WireValue::Varint(x) => Some(PrimitiveBlockV { lon_offset: x as i64, ..m }),
            _ => None,
        }
    } else {
        Some(m)
    }
}

/// The fields from `pos` to `end` applied in order to `m`.
pub open spec fn primitive_block_fields(
    b: Seq<u8>,
    pos: int,
    end: int,
    m: PrimitiveBlockV,
) -> Option<PrimitiveBlockV>
    decreases end - pos,
{
    if pos >= end {
        if pos == end {
            Some(m)
        } else {
            None
        }
    } else {
        match field_at(b, pos, end) {
            Some((n, v, q)) => if pos < q <= end {
                match primitive_block_step(b, m, n, v) {
                    Some(m2) => primitive_block_fields(b, q, end, m2),
                    None => None,
                }
            } else {
                None
            },
            None => None,
        }
    }
}

pub open spec fn empty_primitive_block() -> PrimitiveBlockV {
    PrimitiveBlockV {
        stringtable: seq![],
        primitivegroup: seq![],
        granularity: 100,
        lat_offset: 0,
        lon_offset: 0,
        date_granularity: 1000,
    }
}

/// A primitive block as the bytes `s..e` encode it, if they are well formed.
pub open spec fn spec_decode_primitive_block(
    b: Seq<u8>,
    s: int,
    e: int,
) -> Option<PrimitiveBlockV> {
    primitive_block_fields(b, s, e, empty_primitive_block())
}

/// Decodes a primitive block from the bytes `start..end`; `None` when they are
/// not whole fields, a known field has the wrong wire type, or a nested
/// message or text is malformed. Unknown fields are passed over.
pub fn decode_primitive_block(b: &[u8], start: usize, end: usize) -> (r: Option<PrimitiveBlock>)
    requires
        start <= end <= b@.len(),
    ensures
        match r {
            Some(x) => spec_decode_primitive_block(b@, start as int, end as int) == Some(x@),
            None => spec_decode_primitive_block(b@, start as int, end as int) is None,
        },
{
    let mut m: PrimitiveBlock = PrimitiveBlock::new();
    proof {
        assert(table_view(m.stringtable@) =~= seq![]);
        assert(groups_view(m.primitivegroup@) =~= seq![]);
    }
    let mut pos = start;
    while pos < end
        invariant
            start <= pos <= end <= b@.len(),
            spec_decode_primitive_block(b@, start as int, end as int) == primitive_block_fields(
                b@,
                pos as int,
                end as int,
                m@,
            ),
        decreases end - pos,
    {
        proof {
            lemma_field_bounds(b@, pos as int, end as int);
        }
        let (num, v, next) = match read_field(b, pos, end) {
            Some(f) => f,
            None => return None,
        };
        if num == 1 {
            match v {
                WireValue::Bytes(s, e) => match decode_string_table(b, s, e) {
                    Some(x) => {
                        m.stringtable = x;
                    },
                    None => return None,
                },
                _ => return None,
            }
        } else if num == 2 {
            match v {
                WireValue::Bytes(s, e) => match decode_primitive_group(b, s, e) {
                    Some(x) => {
                        let ghost before = m.primitivegroup@;
                        m.primitivegroup.push(x);
                        assert(groups_view(m.primitivegroup@) =~= groups_view(before).push(x@));
                    },
                    None => return None,
                },
                _ => return None,
            }
        } else if num == 17 {
            match v {
                WireValue::Varint(x) => {
                    m.granularity = #[verifier::truncate] (x as i32);
                },
                _ => return None,
            }
        } else if num == 18 {
            match v {
                WireValue::Varint(x) => {
                    m.date_granularity = #[verifier::truncate] (x as i32);
                },
                _ => return None,
            }
        } else if num == 19 {
            match v {
                WireValue::Varint(x) => {
                    m.lat_offset = #[verifier::truncate] (x as i64);
                },
                _ => return None,
            }
        } else if num == 20 {
            match v {
                WireValue::Varint(x) => {
                    m.lon_offset = #[verifier::truncate] (x as i64);
                },
                _ => return None,
            }
        }
        pos = next;
    }
    Some(m)
}

/// What field `n` with value `v` does to a header block being decoded;
/// `None` for a known field with the wrong wire type or malformed contents.
pub open spec fn header_block_step(
    b: Seq<u8>,
    m: HeaderBlockV,
    n: u64,
    v: WireValue,
) -> Option<HeaderBlockV> {
    if n == 4 {
        match v {
            WireValue::Bytes(s, e) => {
                let t = b.subrange(s as int, e as int);
                if valid_utf8(t) {
                    Some(HeaderBlockV { required_features: m.required_features.push(decode_utf8(t)), ..m })
                } else {
                    None
                }
            },
            _ => None,
        }
    } else if n == 5 {
        match v {
            WireValue::Bytes(s, e) => {
                let t = b.subrange(s as int, e as int);
                if valid_utf8(t) {
                    Some(HeaderBlockV { optional_features: m.optional_features.push(decode_utf8(t)), ..m })
                } else {
                    None
                }
            },
            _ => None,
        }
    } else if n == 16 {
        match v {
            WireValue::Bytes(s, e) => {
                let t = b.subrange(s as int, e as int);
                if valid_utf8(t) {
                    Some(HeaderBlockV { writingprogram: Some(decode_utf8(t)), ..m })
                } else {
                    None
                }
            },
            _ => None,
        }
    } else if n == 17 {
        match v {
            WireValue::Bytes(s, e) => {
                let t = b.subrange(s as int, e as int);
                if valid_utf8(t) {
                    Some(HeaderBlockV { source: Some(decode_utf8(t)), ..m })
                } else {
                    None
                }
            },
            _ => None,
        }
    } else if n == 32 {
        match v {
            WireValue::Varint(x) => Some(HeaderBlockV { osmosis_replication_timestamp: Some(x as i64), ..m }),
            _ => None,
        }
    } else if n == 33 {
        match v {
            WireValue::Varint(x) => Some(HeaderBlockV { osmosis_replication_sequence_number: Some(x as i64), ..m }),
            _ => None,
        }
    } else if n == 34 {
        match v {
            WireValue::Bytes(s, e) => {
                let t = b.subrange(s as int, e as int);
                if valid_utf8(t) {
                    Some(HeaderBlockV { osmosis_replication_base_url: Some(decode_utf8(t)), ..m })
                } else {
                    None
                }
            },
            _ => None,
        }
    } else {
        Some(m)
    }
}

/// The fields from `pos` to `end` applied in order to `m`.
pub open spec fn header_block_fields(
    b: Seq<u8>,
    pos: int,
    end: int,
    m: HeaderBlockV,
) -> Option<HeaderBlockV>
    decreases end - pos,
{
    if pos >= end {
        if pos == end {
            Some(m)
        } else {
            None
        }
    } else {
        match field_at(b, pos, end) {
            Some((n, v, q)) => if pos < q <= end {
                match header_block_step(b, m, n, v) {
                    Some(m2) => header_block_fields(b, q, end, m2),
                    None => None,
                }
            } else {
                None
            },
            None => None,
        }
    }
}

pub open spec fn empty_header_block() -> HeaderBlockV {
    HeaderBlockV {
        required_features: seq![],
        optional_features: seq![],
        writingprogram: None,
        source: None,
        osmosis_replication_timestamp: None,
        osmosis_replication_sequence_number: None,
        osmosis_replication_base_url: None,
    }
}

/// A header block as the bytes `s..e` encode it, if they are well formed.
pub open spec fn spec_decode_header_block(b: Seq<u8>, s: int, e: int) -> Option<HeaderBlockV> {
    header_block_fields(b, s, e, empty_header_block())
}

/// Decodes a header block from the bytes `start..end`; `None` when they are
/// not whole fields, a known field has the wrong wire type, or a nested
/// message or text is malformed. Unknown fields are passed over.
pub fn decode_header_block(b: &[u8], start: usize, end: usize) -> (r: Option<HeaderBlock>)
    requires
        start <= end <= b@.len(),
    ensures
        match r {
            Some(x) => spec_decode_header_block(b@, start as int, end as int) == Some(x@),
            None => spec_decode_header_block(b@, start as int, end as int) is None,
        },
{
    let mut m: HeaderBlock = HeaderBlock::new();
    proof {
        assert(texts_view(m.required_features@) =~= seq![]);
        assert(texts_view(m.optional_features@) =~= seq![]);
    }
    let mut pos = start;
    while pos < end
        invariant
            start <= pos <= end <= b@.len(),
            spec_decode_header_block(b@, start as int, end as int) == header_block_fields(
                b@,
                pos as int,
                end as int,
                m@,
            ),
        decreases end - pos,
    {
        proof {
            lemma_field_bounds(b@, pos as int, end as int);
        }
        let (num, v, next) = match read_field(b, pos, end) {
            Some(f) => f,
            None => return None,
        };
        if num == 4 {
            match v {
                WireValue::Bytes(s, e) => match text_of(b, s, e) {
                    Some(x) => {
                        let ghost before = m.required_features@;
                        m.required_features.push(x);
                        assert(texts_view(m.required_features@) =~= texts_view(before).push(x@));
                    },
                    None => return None,
                },
                _ => return None,
            }
        } else if num == 5 {
            match v {
                WireValue::Bytes(s, e) => match text_of(b, s, e) {
                    Some(x) => {
                        let ghost before = m.optional_features@;
                        m.optional_features.push(x);
                        assert(texts_view(m.optional_features@) =~= texts_view(before).push(x@));
                    },
                    None => return None,
                },
                _ => return None,
            }
        } else if num == 16 {
            match v {
                WireValue::Bytes(s, e) => match text_of(b, s, e) {
                    Some(x) => {
                        m.writingprogram = Some(x);
                    },
                    None => return None,
                },
                _ => return None,
            }
        } else if num == 17 {
            match v {
                WireValue::Bytes(s, e) => match text_of(b, s, e) {
                    Some(x) => {
                        m.source = Some(x);
                    },
                    None => return None,
                },
                _ => return None,
            }
        } else if num == 32 {
            match v {
                WireValue::Varint(x) => {
                    m.osmosis_replication_timestamp = Some(#[verifier::truncate] (x as i64));
                },
                _ => return None,
            }
        } else if num == 33 {
            match v {
                WireValue::Varint(x) => {
                    m.osmosis_replication_sequence_number = Some(#[verifier::truncate] (x as i64));
                },
                _ => return None,
            }
        } else if num == 34 {
            match v {
                WireValue::Bytes(s, e) => match text_of(b, s, e) {
                    Some(x) => {
                        m.osmosis_replication_base_url = Some(x);
                    },
                    None => return None,
                },
                _ => return None,
            }
        }
        pos = next;
    }
    Some(m)
}

} // verus!
