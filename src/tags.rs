//! The per-block string table and the tag iterator over its two layouts.

use vstd::prelude::*;
use vstd::utf8::*;

verus! {

/// Relies on std::str::from_utf8: it succeeds exactly on valid UTF-8 and then
/// borrows the same bytes as text.
#[verifier::external_body]
pub(crate) fn utf8_str<'a>(b: &'a [u8]) -> (r: Option<&'a str>)
    ensures
        r is Some <==> valid_utf8(b@),
        r is Some ==> r->0@ == decode_utf8(b@),
{
    std::str::from_utf8(b).ok()
}

/// The bytes at index `i` of a string table, if `i` is in range.
pub open spec fn string_at(s: Seq<Vec<u8>>, i: int) -> Option<Seq<u8>> {
    if 0 <= i < s.len() {
        Some(s[i]@)
    } else {
        None
    }
}

/// The text at index `i` of a string table, if `i` is in range and the bytes are UTF-8.
pub open spec fn text_at(s: Seq<Vec<u8>>, i: int) -> Option<Seq<char>> {
    if 0 <= i < s.len() && valid_utf8(s[i]@) {
        Some(decode_utf8(s[i]@))
    } else {
        None
    }
}

/// Index `i` of the table, or `None` when it is out of range.
pub fn string_get<'a>(s: &'a Vec<Vec<u8>>, i: i64) -> (r: Option<&'a [u8]>)
    ensures
        match r {
            Some(b) => string_at(s@, i as int) == Some(b@),
            None => string_at(s@, i as int) is None,
        },
{
    if 0 <= i && (i as u64) < (s.len() as u64) {
        Some(s[i as usize].as_slice())
    } else {
        None
    }
}

/// Index `i` of the table as text, or `None` when it is out of range or not UTF-8.
pub fn string_get_str<'a>(s: &'a Vec<Vec<u8>>, i: i64) -> (r: Option<&'a str>)
    ensures
        match r {
            Some(t) => text_at(s@, i as int) == Some(t@),
            None => text_at(s@, i as int) is None,
        },
{
    match string_get(s, i) {
        Some(b) => utf8_str(b),
        None => None,
    }
}

pub(crate) fn bytes_eq(a: &[u8], b: &[u8]) -> (r: bool)
    ensures
        r == (a@ == b@),
{
    if a.len() != b.len() {
        return false;
    }
    let mut i: usize = 0;
    while i < a.len()
        invariant
            a@.len() == b@.len(),
            i <= a@.len(),
            a@.subrange(0, i as int) == b@.subrange(0, i as int),
        decreases a@.len() - i,
    {
        if a[i] != b[i] {
            assert(a@[i as int] != b@[i as int]);
            return false;
        }
        assert(a@.subrange(0, i + 1) =~= a@.subrange(0, i as int).push(a@[i as int]));
        assert(b@.subrange(0, i + 1) =~= b@.subrange(0, i as int).push(b@[i as int]));
        i = i + 1;
    }
    assert(a@ =~= a@.subrange(0, i as int));
    assert(b@ =~= b@.subrange(0, i as int));
    true
}

/// The two physical layouts of a tag list, with a read position.
#[derive(Clone, Copy, Debug)]
pub enum TagsData<'l> {
    /// Parallel key and value index arrays, read in lockstep from `pos`.
    Normal { keys: &'l [u32], vals: &'l [u32], pos: usize },
    /// A flat `(key, value)*` stream, read pairwise from `pos` up to `end`.
    Dense { kv: &'l [i32], pos: usize, end: usize },
}

/// The tags of one entity, read through the block's string table.
#[derive(Clone, Copy, Debug)]
pub struct Tags<'l> {
    pub kv: TagsData<'l>,
    pub s: &'l Vec<Vec<u8>>,
}

/// The index pairs of a normal layout from `pos` on.
pub open spec fn normal_pairs(keys: Seq<u32>, vals: Seq<u32>, pos: int) -> Seq<(int, int)> {
    let n = if keys.len() < vals.len() { keys.len() } else { vals.len() };
    Seq::new(
        (n - pos) as nat,
        |j: int| (keys[pos + j] as int, vals[pos + j] as int),
    )
}

/// The complete index pairs of a dense stream between `pos` and `end`.
pub open spec fn dense_pairs(kv: Seq<i32>, pos: int, end: int) -> Seq<(int, int)> {
    Seq::new(
        ((end - pos) / 2) as nat,
        |j: int| (kv[pos + 2 * j] as int, kv[pos + 2 * j + 1] as int),
    )
}

/// A pair of indices as text, when both are in range and valid UTF-8.
pub open spec fn tag_text(s: Seq<Vec<u8>>, p: (int, int)) -> Option<(Seq<char>, Seq<char>)> {
    match (text_at(s, p.0), text_at(s, p.1)) {
        (Some(k), Some(v)) => Some((k, v)),
        _ => None,
    }
}

/// The tags that iteration yields from a sequence of index pairs: every pair
/// whose key and value are both readable text, in order, the others left out.
pub open spec fn decoded_tags(s: Seq<Vec<u8>>, pairs: Seq<(int, int)>) -> Seq<
    (Seq<char>, Seq<char>),
>
    decreases pairs.len(),
{
    if pairs.len() == 0 {
        seq![]
    } else {
        let rest = decoded_tags(s, pairs.drop_first());
        match tag_text(s, pairs[0]) {
            Some(t) => seq![t] + rest,
            None => rest,
        }
    }
}

/// The value of the first pair whose key bytes equal `key`, as text; `None`
/// when there is no such pair or its value is not readable text.
pub open spec fn lookup(s: Seq<Vec<u8>>, pairs: Seq<(int, int)>, key: Seq<u8>) -> Option<
    Seq<char>,
>
    decreases pairs.len(),
{
    if pairs.len() == 0 {
        None
    } else if string_at(s, pairs[0].0) == Some(key) {
        text_at(s, pairs[0].1)
    } else {
        lookup(s, pairs.drop_first(), key)
    }
}

impl<'l> Tags<'l> {
    pub open spec fn wf(&self) -> bool {
        match self.kv {
            TagsData::Normal { keys, vals, pos } => pos <= keys@.len() && pos <= vals@.len(),
            TagsData::Dense { kv, pos, end } => pos <= end <= kv@.len(),
        }
    }

    /// The index pairs not yet read.
    pub open spec fn pairs(&self) -> Seq<(int, int)> {
        match self.kv {
            TagsData::Normal { keys, vals, pos } => normal_pairs(keys@, vals@, pos as int),
            TagsData::Dense { kv, pos, end } => dense_pairs(kv@, pos as int, end as int),
        }
    }

    /// The tags not yet read.
    pub open spec fn remaining(&self) -> Seq<(Seq<char>, Seq<char>)> {
        decoded_tags(self.s@, self.pairs())
    }

    /// Reads the next pair of indices, if any.
    fn next_pair(&mut self) -> (r: Option<(i64, i64)>)
        requires
            old(self).wf(),
        ensures
            final(self).wf(),
            final(self).s == old(self).s,
            old(self).pairs().len() == 0 ==> r is None && final(self).pairs().len() == 0,
            old(self).pairs().len() > 0 ==> r is Some && (r->0).0 as int == old(self).pairs()[0].0
                && (r->0).1 as int == old(self).pairs()[0].1 && final(self).pairs() == old(
                self,
            ).pairs().drop_first(),
    {
        match &mut self.kv {
            TagsData::Normal { keys, vals, pos } => {
                if *pos < keys.len() && *pos < vals.len() {
                    let r = (keys[*pos] as i64, vals[*pos] as i64);
                    *pos = *pos + 1;
                    proof {
                        assert(normal_pairs(keys@, vals@, *pos as int) =~= normal_pairs(
                            keys@,
                            vals@,
                            *pos - 1,
                        ).drop_first());
                    }
                    Some(r)
                } else {
                    None
                }
            },
            TagsData::Dense { kv, pos, end } => {
                if *end - *pos >= 2 {
                    let r = (kv[*pos] as i64, kv[*pos + 1] as i64);
                    *pos = *pos + 2;
                    proof {
                        assert(dense_pairs(kv@, *pos as int, *end as int) =~= dense_pairs(
                            kv@,
                            *pos - 2,
                            *end as int,
                        ).drop_first());
                    }
                    Some(r)
                } else {
                    None
                }
            },
        }
    }

    /// The next tag whose key and value are both readable text; pairs with an
    /// index out of range or bytes that are not UTF-8 are passed over.
    pub fn next(&mut self) -> (r: Option<(&'l str, &'l str)>)
        requires
            old(self).wf(),
        ensures
            final(self).wf(),
            final(self).s == old(self).s,
            old(self).remaining().len() == 0 ==> r is None,
            r is None ==> final(self).pairs().len() == 0,
            old(self).remaining().len() > 0 ==> r is Some && ((r->0).0@, (r->0).1@)
                == old(self).remaining()[0] && final(self).remaining() == old(
                self,
            ).remaining().drop_first(),
    {
        let s = self.s;
        loop
            invariant
                self.wf(),
                self.s == s,
                old(self).s == s,
                self.remaining() == old(self).remaining(),
            decreases self.pairs().len(),
        {
            let ghost before = self.pairs();
            match self.next_pair() {
                None => {
                    return None;
                },
                Some((k, v)) => {
                    proof {
                        assert(before.drop_first() == self.pairs());
                    }
                    if let Some(key) = string_get_str(s, k) {
                        if let Some(value) = string_get_str(s, v) {
                            return Some((key, value));
                        }
                    }
                },
            }
        }
    }

    /// The value of the first remaining tag whose key bytes equal `key`, or
    /// `None` when no key matches or the matching value is not UTF-8 text.
    pub fn get(&self, key: &str) -> (r: Option<&'l str>)
        requires
            self.wf(),
        ensures
            match r {
                Some(v) => lookup(self.s@, self.pairs(), encode_utf8(key@)) == Some(v@),
                None => lookup(self.s@, self.pairs(), encode_utf8(key@)) is None,
            },
    {
        let wanted = key.as_bytes();
        let s = self.s;
        let mut cur = *self;
        loop
            invariant
                cur.wf(),
                cur.s == s,
                s == self.s,
                wanted@ == encode_utf8(key@),
                lookup(s@, cur.pairs(), wanted@) == lookup(s@, self.pairs(), wanted@),
            decreases cur.pairs().len(),
        {
            match cur.next_pair() {
                None => {
                    return None;
                },
                Some((k, v)) => {
                    if let Some(kb) = string_get(s, k) {
                        if bytes_eq(kb, wanted) {
                            return string_get_str(s, v);
                        }
                    }
                },
            }
        }
    }

    /// Bounds on the number of pairs left to read.
    pub fn size_hint(&self) -> (r: (usize, Option<usize>))
        requires
            self.wf(),
        ensures
            r.0 == self.pairs().len(),
            r.1 == Some(r.0),
    {
        let n: usize = match &self.kv {
            TagsData::Normal { keys, vals, pos } => {
                let k = keys.len() - *pos;
                let v = vals.len() - *pos;
                if k < v {
                    k
                } else {
                    v
                }
            },
            TagsData::Dense { pos, end, .. } => (*end - *pos) / 2,
        };
        (n, Some(n))
    }
}

} // verus!
