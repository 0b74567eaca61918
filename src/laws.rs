//! Properties that hold of every block and every iteration over it.

use vstd::prelude::*;

use crate::delta::{after_tags, delta_sum, kv_cursor, lemma_tag_end_bounds, tag_end};
use crate::osmformat::{PrimitiveBlock, PrimitiveGroup};
use crate::primitives::{
    category_bit, category_items, category_len, dense_len, dense_node, group_items, groups_items,
    item, scale, selects, Primitive, PrimitiveType,
};
use crate::tags::{decoded_tags, tag_text};

verus! {

/// The number of entries that a group holds, of every kind.
pub open spec fn group_count(g: PrimitiveGroup) -> int {
    g.nodes@.len() + dense_len(g) + g.ways@.len() + g.relations@.len() + g.changesets@.len()
}

/// The number of entries that groups `g` up to `end` hold.
pub open spec fn groups_count(b: PrimitiveBlock, g: int, end: int) -> int
    decreases end - g,
{
    if g >= end {
        0
    } else {
        group_count(b.primitivegroup@[g]) + groups_count(b, g + 1, end)
    }
}

proof fn lemma_all_selects(f: PrimitiveType, c: int)
    requires
        f.bits == 15,
    ensures
        selects(f, c),
{
    let x = f.bits;
    assert(x == 15u32 ==> (x & 1u32) == 1u32 && (x & 2u32) == 2u32 && (x & 4u32) == 4u32 && (x
        & 8u32) == 8u32) by (bit_vector);
}

proof fn lemma_group_items_len(b: &PrimitiveBlock, g: int, c: int, f: PrimitiveType)
    requires
        f.bits == 15,
        0 <= c <= 5,
    ensures
        group_items(b, g, c, f).len() == (if c <= 0 {
            b.primitivegroup@[g].nodes@.len()
        } else {
            0
        }) + (if c <= 1 {
            dense_len(b.primitivegroup@[g])
        } else {
            0
        }) + (if c <= 2 {
            b.primitivegroup@[g].ways@.len()
        } else {
            0
        }) + (if c <= 3 {
            b.primitivegroup@[g].relations@.len()
        } else {
            0
        }) + (if c <= 4 {
            b.primitivegroup@[g].changesets@.len()
        } else {
            0
        }),
    decreases 5 - c,
{
    if c < 5 {
        lemma_all_selects(f, c);
        lemma_group_items_len(b, g, c + 1, f);
        let grp = b.primitivegroup@[g];
        if c == 1 {
            let d = grp.dense;
            assert(dense_len(grp) >= 0);
        }
        assert(category_len(grp, c) >= 0);
    }
}

proof fn lemma_groups_items_len(b: &PrimitiveBlock, g: int, end: int, f: PrimitiveType)
    requires
        f.bits == 15,
    ensures
        groups_items(b, g, end, f).len() == groups_count(*b, g, end),
    decreases end - g,
{
    if g < end {
        lemma_group_items_len(b, g, 0, f);
        lemma_groups_items_len(b, g + 1, end, f);
    }
}

/// With every kind selected, iterating a block yields exactly as many
/// primitives as its groups hold nodes, dense nodes, ways, relations and
/// change sets together.
pub proof fn lemma_count_all(b: &PrimitiveBlock, f: PrimitiveType)
    requires
        f.bits == 15,
    ensures
        groups_items(b, 0, b.primitivegroup@.len() as int, f).len() == groups_count(
            *b,
            0,
            b.primitivegroup@.len() as int,
        ),
{
    lemma_groups_items_len(b, 0, b.primitivegroup@.len() as int, f);
}

/// `idx` picks, in increasing order, the positions of `b` that hold `a`.
pub open spec fn subsequence_witness<A>(idx: Seq<int>, a: Seq<A>, b: Seq<A>) -> bool {
    &&& idx.len() == a.len()
    &&& forall|i: int| 0 <= i < a.len() ==> 0 <= #[trigger] idx[i] < b.len() && b[idx[i]] == a[i]
    &&& forall|i: int, j: int| 0 <= i < j < a.len() ==> #[trigger] idx[i] < #[trigger] idx[j]
}

/// `a` is `b` with some elements left out, the rest in the same order.
pub open spec fn is_subsequence<A>(a: Seq<A>, b: Seq<A>) -> bool {
    exists|idx: Seq<int>| subsequence_witness(idx, a, b)
}

proof fn lemma_subsequence_refl<A>(a: Seq<A>)
    ensures
        is_subsequence(a, a),
{
    let idx = Seq::new(a.len(), |i: int| i);
    assert(subsequence_witness(idx, a, a));
}

proof fn lemma_subsequence_empty<A>(b: Seq<A>)
    ensures
        is_subsequence(Seq::<A>::empty(), b),
{
    assert(subsequence_witness(Seq::<int>::empty(), Seq::<A>::empty(), b));
}

proof fn lemma_subsequence_concat<A>(a1: Seq<A>, b1: Seq<A>, a2: Seq<A>, b2: Seq<A>)
    requires
        is_subsequence(a1, b1),
        is_subsequence(a2, b2),
    ensures
        is_subsequence(a1 + a2, b1 + b2),
{
    let idx1 = choose|idx: Seq<int>| subsequence_witness(idx, a1, b1);
    let idx2 = choose|idx: Seq<int>| subsequence_witness(idx, a2, b2);
    let shifted = Seq::new(idx2.len(), |i: int| idx2[i] + b1.len());
    let idx = idx1 + shifted;
    let a = a1 + a2;
    let b = b1 + b2;
    assert forall|i: int| 0 <= i < a.len() implies 0 <= #[trigger] idx[i] < b.len() && b[idx[i]]
        == a[i] by {
        if i < a1.len() {
            assert(idx[i] == idx1[i]);
        } else {
            assert(idx[i] == idx2[i - a1.len()] + b1.len());
        }
    }
    assert forall|i: int, j: int| 0 <= i < j < a.len() implies #[trigger] idx[i]
        < #[trigger] idx[j] by {
        if j < a1.len() {
            assert(idx[i] == idx1[i] && idx[j] == idx1[j]);
        } else if i >= a1.len() {
            assert(idx[i] == idx2[i - a1.len()] + b1.len());
            assert(idx[j] == idx2[j - a1.len()] + b1.len());
        } else {
            assert(idx[i] == idx1[i]);
            assert(idx[j] == idx2[j - a1.len()] + b1.len());
        }
    }
    assert(subsequence_witness(idx, a, b));
}

proof fn lemma_selects_monotone(f1: PrimitiveType, f2: PrimitiveType, c: int)
    requires
        f2.spec_contains(f1),
        selects(f1, c),
    ensures
        selects(f2, c),
{
    let x = f1.bits;
    let y = f2.bits;
    let m = category_bit(c);
    assert((y & x) == x && (x & m) == m ==> (y & m) == m) by (bit_vector);
}

proof fn lemma_group_items_monotone<'l>(
    b: &'l PrimitiveBlock,
    g: int,
    c: int,
    f1: PrimitiveType,
    f2: PrimitiveType,
)
    requires
        f2.spec_contains(f1),
    ensures
        is_subsequence(group_items(b, g, c, f1), group_items(b, g, c, f2)),
    decreases 5 - c,
{
    if c >= 5 {
        lemma_subsequence_refl(group_items(b, g, c, f1));
    } else {
        lemma_group_items_monotone(b, g, c + 1, f1, f2);
        if selects(f1, c) {
            lemma_selects_monotone(f1, f2, c);
            lemma_subsequence_refl(category_items(b, g, c, f1));
        } else {
            lemma_subsequence_empty(category_items(b, g, c, f2));
        }
        lemma_subsequence_concat(
            category_items(b, g, c, f1),
            category_items(b, g, c, f2),
            group_items(b, g, c + 1, f1),
            group_items(b, g, c + 1, f2),
        );
    }
}

proof fn lemma_groups_items_monotone<'l>(
    b: &'l PrimitiveBlock,
    g: int,
    end: int,
    f1: PrimitiveType,
    f2: PrimitiveType,
)
    requires
        f2.spec_contains(f1),
    ensures
        is_subsequence(groups_items(b, g, end, f1), groups_items(b, g, end, f2)),
    decreases end - g,
{
    if g >= end {
        lemma_subsequence_refl(groups_items(b, g, end, f1));
    } else {
        lemma_group_items_monotone(b, g, 0, f1, f2);
        lemma_groups_items_monotone(b, g + 1, end, f1, f2);
        lemma_subsequence_concat(
            group_items(b, g, 0, f1),
            group_items(b, g, 0, f2),
            groups_items(b, g + 1, end, f1),
            groups_items(b, g + 1, end, f2),
        );
    }
}

/// A filter that selects fewer kinds yields a subsequence, in the same
/// order, of what a filter with more kinds yields.
pub proof fn lemma_filter_monotone<'l>(
    b: &'l PrimitiveBlock,
    f1: PrimitiveType,
    f2: PrimitiveType,
)
    requires
        f2.spec_contains(f1),
    ensures
        is_subsequence(
            groups_items(b, 0, b.primitivegroup@.len() as int, f1),
            groups_items(b, 0, b.primitivegroup@.len() as int, f2),
        ),
{
    lemma_groups_items_monotone(b, 0, b.primitivegroup@.len() as int, f1, f2);
}

/// A coordinate computed without overflow is the block offset plus a
/// multiple of the granularity, and dividing by the granularity gives back
/// the stored value.
pub proof fn lemma_coordinate_reversible(offset: i64, stored: i64, granularity: i32)
    requires
        granularity > 0,
        i64::MIN <= offset + stored * granularity <= i64::MAX,
    ensures
        scale(offset, stored, granularity) == offset + stored * granularity,
        (scale(offset, stored, granularity) - offset) % (granularity as int) == 0,
        (scale(offset, stored, granularity) - offset) / (granularity as int) == stored,
{
    let g = granularity as int;
    let p = stored * g;
    let r: int = 0x1_0000_0000_0000_0000;
    let m = stored.wrapping_mul(granularity as i64) as int;
    assert(m == p - (p / r) * r || m == p - (p / r) * r - r) by {
        vstd::arithmetic::div_mod::lemma_fundamental_div_mod(p, r);
    }
    let t = offset + p;
    let w = offset.wrapping_add(m as i64) as int;
    assert(w == offset + m || w == offset + m - r || w == offset + m + r);
    let k = p / r;
    let e: int = if w == offset + m {
        0
    } else if w == offset + m - r {
        -1
    } else {
        1
    };
    let q: int = if m == p - k * r {
        0
    } else {
        -1
    };
    let j = e - k + q;
    assert(w - t == j * r) by (nonlinear_arith)
        requires
            w == offset + m + e * r,
            m == p - k * r + q * r,
            t == offset + p,
            j == e - k + q,
    ;
    assert(-r < w - t < r);
    assert(j == 0) by (nonlinear_arith)
        requires
            w - t == j * r,
            -r < w - t < r,
            r > 0,
    ;
    assert((t - offset) % g == 0 && (t - offset) / g == stored) by (nonlinear_arith)
        requires
            t - offset == stored * g,
            g > 0,
    {
        vstd::arithmetic::div_mod::lemma_mod_multiples_basic(stored as int, g);
        vstd::arithmetic::div_mod::lemma_div_multiples_vanish(stored as int, g);
    }
}

/// The nodes of a dense run carry the running sums of the id and coordinate
/// deltas: the first node the first deltas, each later node the previous
/// node's values plus its own deltas.
pub proof fn lemma_dense_decumulation<'l>(b: &'l PrimitiveBlock, g: int, f: PrimitiveType, i: int)
    requires
        0 <= g < b.primitivegroup@.len(),
        b.primitivegroup@[g].dense is Some,
        selects(f, 1),
        0 <= i < dense_len(b.primitivegroup@[g]),
    ensures
        ({
            let d = b.primitivegroup@[g].dense->0;
            let stored_lat = delta_sum(d.lat@, (i + 1) as nat);
            let stored_lon = delta_sum(d.lon@, (i + 1) as nat);
            &&& category_items(b, g, 1, f)[i] == Primitive::Node(dense_node(b, g, i))
            &&& dense_node(b, g, i).id == delta_sum(d.id@, (i + 1) as nat)
            &&& dense_node(b, g, i).nano_lat == scale(b.lat_offset, stored_lat, b.granularity)
            &&& dense_node(b, g, i).nano_lon == scale(b.lon_offset, stored_lon, b.granularity)
            &&& i == 0 ==> dense_node(b, g, i).id == d.id@[0] && stored_lat == d.lat@[0]
                && stored_lon == d.lon@[0]
            &&& i > 0 ==> dense_node(b, g, i).id == dense_node(b, g, i - 1).id.wrapping_add(
                d.id@[i],
            ) && stored_lat == delta_sum(d.lat@, i as nat).wrapping_add(d.lat@[i])
                && stored_lon == delta_sum(d.lon@, i as nat).wrapping_add(d.lon@[i])
        }),
{
    let d = b.primitivegroup@[g].dense->0;
    if i == 0 {
        assert(delta_sum(d.id@, 0) == 0);
        assert((0i64).wrapping_add(d.id@[0]) == d.id@[0]);
        assert((0i64).wrapping_add(d.lat@[0]) == d.lat@[0]);
        assert((0i64).wrapping_add(d.lon@[0]) == d.lon@[0]);
    }
}

proof fn lemma_tag_keys_nonzero(kv: Seq<i32>, p: int, j: int)
    requires
        0 <= p <= j < tag_end(kv, p),
        (j - p) % 2 == 0,
    ensures
        kv[j] != 0,
    decreases kv.len() - p,
{
    if j > p {
        lemma_tag_keys_nonzero(kv, p + 2, j);
    }
}

/// The tag lists of consecutive dense nodes are contiguous and disjoint:
/// each starts where the previous one's terminator ends, lies inside the
/// stream, holds whole key/value pairs when a terminator ends it, and has no
/// terminator at any of its key positions; between two lists there is exactly
/// one `0` terminator, or none at the end of the stream.
pub proof fn lemma_tag_slices_partition(kv: Seq<i32>, i: nat)
    ensures
        kv_cursor(kv, 0) == 0,
        ({
            let start = kv_cursor(kv, i);
            let end = tag_end(kv, start);
            let next = kv_cursor(kv, i + 1);
            &&& 0 <= start <= end <= next <= kv.len()
            &&& next == end + 1 && kv[end] == 0 || next == end && end == kv.len()
            &&& end < kv.len() ==> (end - start) % 2 == 0
            &&& forall|j: int| start <= j < end && (j - start) % 2 == 0 ==> kv[j] != 0
        }),
{
    crate::delta::lemma_kv_cursor_bounds(kv, i);
    let start = kv_cursor(kv, i);
    lemma_tag_end_bounds(kv, start);
    assert(kv_cursor(kv, i + 1) == after_tags(kv, start));
    assert forall|j: int| start <= j < tag_end(kv, start) && (j - start) % 2 == 0 implies kv[j]
        != 0 by {
        lemma_tag_keys_nonzero(kv, start, j);
    }
}

/// The tag list of dense node `i` starts at its cursor, holds whole
/// key/value pairs with no terminator at a key position, ends at a `0`
/// terminator, and the next list starts just past it.
pub open spec fn terminated_slice(kv: Seq<i32>, i: nat) -> bool {
    let start = kv_cursor(kv, i);
    let end = tag_end(kv, start);
    &&& 0 <= start <= end < kv.len()
    &&& (end - start) % 2 == 0
    &&& kv[end] == 0
    &&& kv_cursor(kv, i + 1) == end + 1
    &&& forall|j: int| start <= j < end && (j - start) % 2 == 0 ==> kv[j] != 0
}

/// When each of the first `n` tag lists ends in a `0` terminator, the lists
/// start at 0 and each is a terminated slice in the sense above: together
/// with their terminators they cover the stream, contiguous and disjoint, up
/// to the `n`-th list's end.
pub proof fn lemma_terminated_tag_slices(kv: Seq<i32>, n: nat)
    requires
        forall|i: nat| i < n ==> #[trigger] tag_end(kv, kv_cursor(kv, i)) < kv.len(),
    ensures
        kv_cursor(kv, 0) == 0,
        forall|i: nat| i < n ==> #[trigger] terminated_slice(kv, i),
{
    assert forall|i: nat| i < n implies #[trigger] terminated_slice(kv, i) by {
        assert(tag_end(kv, kv_cursor(kv, i)) < kv.len());
        lemma_tag_slices_partition(kv, i);
    }
}

/// A tag whose key and value are both readable text is yielded by iteration;
/// what iteration yields is only such tags.
pub proof fn lemma_readable_tags_kept(s: Seq<Vec<u8>>, pairs: Seq<(int, int)>, i: int)
    requires
        0 <= i < pairs.len(),
    ensures
        tag_text(s, pairs[i]) is Some ==> decoded_tags(s, pairs).contains(
            tag_text(s, pairs[i])->0,
        ),
        decoded_tags(s, pairs).len() <= pairs.len(),
    decreases pairs.len(),
{
    if i > 0 {
        lemma_readable_tags_kept(s, pairs.drop_first(), i - 1);
        assert(pairs.drop_first()[i - 1] == pairs[i]);
        let rest = decoded_tags(s, pairs.drop_first());
        if tag_text(s, pairs[i]) is Some {
            let k = choose|k: int| 0 <= k < rest.len() && rest[k] == tag_text(s, pairs[i])->0;
            match tag_text(s, pairs[0]) {
                Some(t) => {
                    assert((seq![t] + rest)[k + 1] == rest[k]);
                },
                None => {},
            }
        }
    } else {
        if pairs.len() > 1 {
            lemma_readable_tags_kept(s, pairs.drop_first(), 0);
        }
        if tag_text(s, pairs[0]) is Some {
            let t = tag_text(s, pairs[0])->0;
            assert((seq![t] + decoded_tags(s, pairs.drop_first()))[0] == t);
        }
    }
}

/// The filter bit of a primitive's kind.
pub open spec fn kind_bit(p: Primitive) -> u32 {
    match p {
        Primitive::Node(_) => 1,
        Primitive::Way(_) => 2,
        Primitive::Relation(_) => 4,
        Primitive::ChangeSet(_) => 8,
    }
}

/// Whether the filter selects the primitive's kind.
pub open spec fn has_kind(f: PrimitiveType, p: Primitive) -> bool {
    f.bits & kind_bit(p) == kind_bit(p)
}

proof fn lemma_filter_uniform<A>(s: Seq<A>, pred: spec_fn(A) -> bool, keep: bool)
    requires
        forall|i: int| 0 <= i < s.len() ==> #[trigger] pred(s[i]) == keep,
    ensures
        s.filter(pred) == (if keep {
            s
        } else {
            Seq::<A>::empty()
        }),
    decreases s.len(),
{
    reveal(Seq::filter);
    if s.len() > 0 {
        let d = s.drop_last();
        assert forall|i: int| 0 <= i < d.len() implies #[trigger] pred(d[i]) == keep by {
            assert(d[i] == s[i]);
        }
        lemma_filter_uniform(d, pred, keep);
        assert(pred(s[s.len() - 1]) == keep);
        if keep {
            assert(d.push(s.last()) =~= s);
        }
    }
}

proof fn lemma_category_restricts<'l>(
    b: &'l PrimitiveBlock,
    g: int,
    c: int,
    f1: PrimitiveType,
    f2: PrimitiveType,
    pred: spec_fn(Primitive<'l>) -> bool,
)
    requires
        0 <= c,
        f2.spec_contains(f1),
        forall|p: Primitive<'l>| #[trigger] pred(p) == has_kind(f1, p),
    ensures
        category_items(b, g, c, f1) == category_items(b, g, c, f2).filter(pred),
{
    let s = category_items(b, g, c, f2);
    if selects(f2, c) {
        assert forall|i: int| 0 <= i < s.len() implies #[trigger] pred(s[i]) == selects(f1, c) by {
            assert(s[i] == item(b, g, c, i));
            assert(kind_bit(s[i]) == category_bit(c));
        }
        lemma_filter_uniform(s, pred, selects(f1, c));
        if selects(f1, c) {
            assert(category_items(b, g, c, f1) =~= s);
        }
    } else {
        if selects(f1, c) {
            lemma_selects_monotone(f1, f2, c);
        }
        lemma_filter_uniform(s, pred, false);
    }
}

proof fn lemma_group_restricts<'l>(
    b: &'l PrimitiveBlock,
    g: int,
    c: int,
    f1: PrimitiveType,
    f2: PrimitiveType,
    pred: spec_fn(Primitive<'l>) -> bool,
)
    requires
        0 <= c,
        f2.spec_contains(f1),
        forall|p: Primitive<'l>| #[trigger] pred(p) == has_kind(f1, p),
    ensures
        group_items(b, g, c, f1) == group_items(b, g, c, f2).filter(pred),
    decreases 5 - c,
{
    if c >= 5 {
        lemma_filter_uniform(group_items(b, g, c, f2), pred, false);
    } else {
        lemma_category_restricts(b, g, c, f1, f2, pred);
        lemma_group_restricts(b, g, c + 1, f1, f2, pred);
        Seq::filter_distributes_over_add(
            category_items(b, g, c, f2),
            group_items(b, g, c + 1, f2),
            pred,
        );
    }
}

proof fn lemma_groups_restrict<'l>(
    b: &'l PrimitiveBlock,
    g: int,
    end: int,
    f1: PrimitiveType,
    f2: PrimitiveType,
    pred: spec_fn(Primitive<'l>) -> bool,
)
    requires
        f2.spec_contains(f1),
        forall|p: Primitive<'l>| #[trigger] pred(p) == has_kind(f1, p),
    ensures
        groups_items(b, g, end, f1) == groups_items(b, g, end, f2).filter(pred),
    decreases end - g,
{
    if g >= end {
        lemma_filter_uniform(groups_items(b, g, end, f2), pred, false);
    } else {
        lemma_group_restricts(b, g, 0, f1, f2, pred);
        lemma_groups_restrict(b, g + 1, end, f1, f2, pred);
        Seq::filter_distributes_over_add(
            group_items(b, g, 0, f2),
            groups_items(b, g + 1, end, f2),
            pred,
        );
    }
}

/// What a filter with fewer kinds yields is exactly what a filter with more
/// kinds yields, restricted to the kinds of the smaller one, in the same order.
pub proof fn lemma_filter_restricts<'l>(b: &'l PrimitiveBlock, f1: PrimitiveType, f2: PrimitiveType)
    requires
        f2.spec_contains(f1),
    ensures
        groups_items(b, 0, b.primitivegroup@.len() as int, f1) == groups_items(
            b,
            0,
            b.primitivegroup@.len() as int,
            f2,
        ).filter(|p: Primitive<'l>| has_kind(f1, p)),
{
    let pred = |p: Primitive<'l>| has_kind(f1, p);
    lemma_groups_restrict(b, 0, b.primitivegroup@.len() as int, f1, f2, pred);
}

} // verus!
