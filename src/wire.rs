//! The protobuf wire format: varints, zigzag integers and field headers.

use vstd::prelude::*;

verus! {

pub open spec fn pow128(n: nat) -> int
    decreases n,
{
    if n == 0 {
        1
    } else {
        128 * pow128((n - 1) as nat)
    }
}

/// The number held by the low seven bits of the `n` bytes from `pos`,
/// least significant group first.
pub open spec fn varint_sum(b: Seq<u8>, pos: int, n: nat) -> int
    decreases n,
{
    if n == 0 {
        0
    } else {
        varint_sum(b, pos, (n - 1) as nat) + (b[pos + n - 1] % 128) as int * pow128(
            (n - 1) as nat,
        )
    }
}

/// The length of the varint at `pos`, counting from its `i`-th byte: it ends
/// at the first byte below 128, within ten bytes and before `end`.
pub open spec fn varint_len_from(b: Seq<u8>, pos: int, end: int, i: nat) -> Option<nat>
    decreases 10 - i,
{
    if i >= 10 || pos + i >= end {
        None
    } else if b[pos + i] < 128 {
        Some(i + 1)
    } else {
        varint_len_from(b, pos, end, i + 1)
    }
}

/// The varint at `pos`, read before `end`: its value modulo 2^64 and the
/// position after it.
pub open spec fn varint_at(b: Seq<u8>, pos: int, end: int) -> Option<(u64, int)> {
    match varint_len_from(b, pos, end, 0) {
        Some(n) => Some(((varint_sum(b, pos, n) % 0x1_0000_0000_0000_0000) as u64, pos + n)),
        None => None,
    }
}

proof fn lemma_pow128_bounds(n: nat)
    requires
        n <= 9,
    ensures
        1 <= pow128(n) <= pow128(9),
        pow128(9) == 0x8000_0000_0000_0000,
    decreases n,
{
    reveal_with_fuel(pow128, 10);
    if n > 0 {
        lemma_pow128_bounds((n - 1) as nat);
    }
}

proof fn lemma_varint_sum_bound(b: Seq<u8>, pos: int, n: nat)
    ensures
        0 <= varint_sum(b, pos, n) < pow128(n),
    decreases n,
{
    if n > 0 {
        lemma_varint_sum_bound(b, pos, (n - 1) as nat);
        let d = (b[pos + n - 1] % 128) as int;
        let p = pow128((n - 1) as nat);
        let s = varint_sum(b, pos, (n - 1) as nat);
        assert(s + d * p < 128 * p) by (nonlinear_arith)
            requires
                0 <= s < p,
                0 <= d < 128,
        ;
        assert(0 <= d * p) by (nonlinear_arith)
            requires
                0 <= d,
                0 <= p,
        ;
    }
}

/// Reads the varint at `pos`, which must end before `end`.
pub fn read_varint(b: &[u8], pos: usize, end: usize) -> (r: Option<(u64, usize)>)
    requires
        end <= b@.len(),
    ensures
        match r {
            Some((v, next)) => varint_at(b@, pos as int, end as int) == Some((v, next as int)),
            None => varint_at(b@, pos as int, end as int) is None,
        },
{
    let mut acc: u128 = 0;
    let mut mult: u128 = 1;
    let mut i: usize = 0;
    while i < 10
        invariant
            end <= b@.len(),
            i <= 10,
            i < 10 ==> mult == pow128(i as nat),
            acc == varint_sum(b@, pos as int, i as nat),
            varint_len_from(b@, pos as int, end as int, 0) == varint_len_from(
                b@,
                pos as int,
                end as int,
                i as nat,
            ),
        decreases 10 - i,
    {
        if pos >= end || end - pos <= i {
            return None;
        }
        let byte = b[pos + i];
        proof {
            lemma_pow128_bounds(i as nat);
            lemma_varint_sum_bound(b@, pos as int, i as nat);
            lemma_varint_sum_bound(b@, pos as int, (i + 1) as nat);
        }
        acc = acc + (byte % 128) as u128 * mult;
        if byte < 128 {
            let v = (acc % 0x1_0000_0000_0000_0000u128) as u64;
            return Some((v, pos + i + 1));
        }
        if i < 9 {
            assert(mult * 128 <= 0x8000_0000_0000_0000) by {
                lemma_pow128_bounds((i + 1) as nat);
            }
            mult = mult * 128;
        }
        i = i + 1;
    }
    None
}

/// A signed integer from its zigzag encoding.
pub open spec fn zigzag64(v: u64) -> i64 {
    if v % 2 == 0 {
        (v / 2) as i64
    } else {
        (-((v / 2) as int) - 1) as i64
    }
}

/// A 32-bit signed integer from its zigzag encoding.
pub open spec fn zigzag32(v: u32) -> i32 {
    if v % 2 == 0 {
        (v / 2) as i32
    } else {
        (-((v / 2) as int) - 1) as i32
    }
}

pub fn unzigzag64(v: u64) -> (r: i64)
    ensures
        r == zigzag64(v),
{
    let h = (v / 2) as i64;
    if v % 2 == 0 {
        h
    } else {
        -h - 1
    }
}

pub fn unzigzag32(v: u32) -> (r: i32)
    ensures
        r == zigzag32(v),
{
    let h = (v / 2) as i32;
    if v % 2 == 0 {
        h
    } else {
        -h - 1
    }
}

/// The value of one field, by wire type.
#[derive(Clone, Copy, Debug, PartialEq, Eq)]
pub enum WireValue {
    /// Wire type 0.
    Varint(u64),
    /// Wire type 1: eight bytes, little endian.
    Fixed64(u64),
    /// Wire type 2: the bytes `start..end` of the buffer.
    Bytes(usize, usize),
    /// Wire type 5: four bytes, little endian.
    Fixed32(u32),
}

pub open spec fn le_value(b: Seq<u8>, pos: int, n: nat) -> int
    decreases n,
{
    if n == 0 {
        0
    } else {
        b[pos] as int + 256 * le_value(b, pos + 1, (n - 1) as nat)
    }
}

/// The field at `pos`, which must end by `end`: its number, value and the
/// position after it. Field number 0 and wire types 3, 4, 6 and 7 are refused.
pub open spec fn field_at(b: Seq<u8>, pos: int, end: int) -> Option<(u64, WireValue, int)> {
    match varint_at(b, pos, end) {
        None => None,
        Some((key, p)) => {
            let num = key / 8;
            let wt = key % 8;
            if num == 0 {
                None
            } else if wt == 0 {
                match varint_at(b, p, end) {
                    Some((v, q)) => Some((num, WireValue::Varint(v), q)),
                    None => None,
                }
            } else if wt == 1 {
                if p + 8 <= end {
                    Some((num, WireValue::Fixed64(le_value(b, p, 8) as u64), p + 8))
                } else {
                    None
                }
            } else if wt == 2 {
                match varint_at(b, p, end) {
                    Some((len, q)) => if q + len <= end {
                        Some((num, WireValue::Bytes(q as usize, (q + len) as usize), q + len))
                    } else {
                        None
                    },
                    None => None,
                }
            } else if wt == 5 {
                if p + 4 <= end {
                    Some((num, WireValue::Fixed32(le_value(b, p, 4) as u32), p + 4))
                } else {
                    None
                }
            } else {
                None
            }
        },
    }
}

fn read_le(b: &[u8], pos: usize, n: usize) -> (r: u64)
    requires
        n <= 8,
        pos + n <= b@.len(),
    ensures
        r == le_value(b@, pos as int, n as nat),
    decreases n,
{
    if n == 0 {
        0
    } else {
        let len = b.len();
        assert(pos < len);
        let rest = read_le(b, pos + 1, n - 1);
        proof {
            lemma_le_bound(b@, pos + 1, (n - 1) as nat);
        }
        assert(b@[pos as int] as int + 256 * rest <= 0xFFFF_FFFF_FFFF_FFFF) by (nonlinear_arith)
            requires
                rest < pow256((n - 1) as nat),
                pow256((n - 1) as nat) <= 0x100_0000_0000_0000,
                b@[pos as int] < 256,
        {
        }
        b[pos] as u64 + 256 * rest
    }
}

pub open spec fn pow256(n: nat) -> int
    decreases n,
{
    if n == 0 {
        1
    } else {
        256 * pow256((n - 1) as nat)
    }
}

proof fn lemma_le_bound(b: Seq<u8>, pos: int, n: nat)
    requires
        n <= 7,
    ensures
        0 <= le_value(b, pos, n) < pow256(n),
        pow256(n) <= 0x100_0000_0000_0000,
    decreases n,
{
    reveal_with_fuel(pow256, 8);
    if n > 0 {
        lemma_le_bound(b, pos + 1, (n - 1) as nat);
        let v = le_value(b, pos + 1, (n - 1) as nat);
        let p = pow256((n - 1) as nat);
        assert(b[pos] as int + 256 * v < 256 * p) by (nonlinear_arith)
            requires
                0 <= v < p,
                0 <= b[pos] < 256,
        ;
        assert(256 * p <= 0x100_0000_0000_0000) by {
            lemma_pow256_mono((n - 1) as nat);
        }
    }
}

proof fn lemma_pow256_mono(n: nat)
    requires
        n <= 6,
    ensures
        pow256(n) <= 0x1_0000_0000_0000,
        pow256(n) >= 1,
    decreases n,
{
    reveal_with_fuel(pow256, 8);
    if n > 0 {
        lemma_pow256_mono((n - 1) as nat);
    }
}

/// Reads the field at `pos`, which must end by `end`.
pub fn read_field(b: &[u8], pos: usize, end: usize) -> (r: Option<(u64, WireValue, usize)>)
    requires
        end <= b@.len(),
    ensures
        match r {
            Some((num, v, next)) => field_at(b@, pos as int, end as int) == Some(
                (num, v, next as int),
            ),
            None => field_at(b@, pos as int, end as int) is None,
        },
{
    let (key, p) = match read_varint(b, pos, end) {
        Some(x) => x,
        None => return None,
    };
    let num = key / 8;
    let wt = key % 8;
    if num == 0 {
        return None;
    }
    if wt == 0 {
        match read_varint(b, p, end) {
            Some((v, q)) => Some((num, WireValue::Varint(v), q)),
            None => None,
        }
    } else if wt == 1 {
        if p <= end && end - p >= 8 {
            Some((num, WireValue::Fixed64(read_le(b, p, 8)), p + 8))
        } else {
            None
        }
    } else if wt == 2 {
        match read_varint(b, p, end) {
            Some((len, q)) => {
                if q <= end && len <= (end - q) as u64 {
                    let e = q + len as usize;
                    Some((num, WireValue::Bytes(q, e), e))
                } else {
                    None
                }
            },
            None => None,
        }
    } else if wt == 5 {
        if p <= end && end - p >= 4 {
            Some((num, WireValue::Fixed32(read_le(b, p, 4) as u32), p + 4))
        } else {
            None
        }
    } else {
        None
    }
}

} // verus!
