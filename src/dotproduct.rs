use vstd::prelude::*;

use crate::lanes::{
    add_wide, add_wrapping, horizontal_sum, lemma_wrap32_add, lemma_wrap32_in_range,
    lemma_wrap32_sum4, load_narrow, load_narrow_padded, splat_wide,
    wide_total, widen_mul_acc, wrap32, NarrowLanes, WideLanes, LANE_WIDTH,
};

verus! {

/// Number of elements that one step of the main loop of `dot_product_neon`
/// consumes: one lane group for each of its four accumulators.
pub const BLOCK: usize = 16;

/// Exact sum of `a[i] * b[i]` over the first `n` positions.
pub open spec fn dot_prefix(a: Seq<i16>, b: Seq<i16>, n: int) -> int
    decreases n,
{
    if n <= 0 {
        0
    } else {
        dot_prefix(a, b, n - 1) + a[n - 1] * b[n - 1]
    }
}

/// Exact dot product of two sequences of equal length.
pub open spec fn dot(a: Seq<i16>, b: Seq<i16>) -> int {
    dot_prefix(a, b, a.len() as int)
}

/// Scalar dot product: multiplies pairwise and accumulates in one 32-bit sum,
/// which wraps as a 32-bit register does.
pub fn dot_product(v1: &[i16], v2: &[i16]) -> (r: i32)
    requires
        v1@.len() == v2@.len(),
    ensures
        r == wrap32(dot(v1@, v2@)),
        i32::MIN <= dot(v1@, v2@) <= i32::MAX ==> r == dot(v1@, v2@),
{
    let mut acc: i32 = 0;
    let mut i: usize = 0;
    while i < v1.len()
        invariant
            i <= v1@.len(),
            v1@.len() == v2@.len(),
            acc == wrap32(dot_prefix(v1@, v2@, i as int)),
        decreases v1@.len() - i,
    {
        let a: i16 = v1[i];
        let b: i16 = v2[i];
        assert(-0x4000_0000 <= a * b <= 0x4000_0000) by (nonlinear_arith)
            requires
                i16::MIN <= a <= i16::MAX,
                i16::MIN <= b <= i16::MAX,
        ;
        proof {
            lemma_wrap32_add(dot_prefix(v1@, v2@, i as int), a * b);
        }
        acc = add_wrapping(acc, (a as i32) * (b as i32));
        i = i + 1;
    }
    proof {
        if i32::MIN <= dot(v1@, v2@) <= i32::MAX {
            lemma_wrap32_in_range(dot(v1@, v2@));
        }
    }
    acc
}

/// The product that lane `j` of a group loaded from offset `o` contributes;
/// lanes past the end hold zero and contribute nothing.
pub open spec fn lane_product(a: Seq<i16>, b: Seq<i16>, o: int, j: int) -> int {
    if o + j < a.len() {
        a[o + j] * b[o + j]
    } else {
        0
    }
}

/// End of the lane group that starts at `o`, cut at the length of `a`.
pub open spec fn group_end(a: Seq<i16>, o: int) -> int {
    if o + 4 <= a.len() {
        o + 4
    } else {
        a.len() as int
    }
}

/// The products of one lane group, added up, extend the dot product from the
/// group's start to its end.
proof fn lemma_group_products(a: Seq<i16>, b: Seq<i16>, o: int)
    requires
        0 <= o <= a.len(),
        a.len() == b.len(),
    ensures
        dot_prefix(a, b, group_end(a, o)) == dot_prefix(a, b, o) + lane_product(a, b, o, 0)
            + lane_product(a, b, o, 1) + lane_product(a, b, o, 2) + lane_product(a, b, o, 3),
{
    let n = a.len() as int;
    if o + 1 <= n {
        assert(dot_prefix(a, b, o + 1) == dot_prefix(a, b, o) + a[o] * b[o]);
    }
    if o + 2 <= n {
        assert(dot_prefix(a, b, o + 2) == dot_prefix(a, b, o + 1) + a[o + 1] * b[o + 1]);
    }
    if o + 3 <= n {
        assert(dot_prefix(a, b, o + 3) == dot_prefix(a, b, o + 2) + a[o + 2] * b[o + 2]);
    }
    if o + 4 <= n {
        assert(dot_prefix(a, b, o + 4) == dot_prefix(a, b, o + 3) + a[o + 3] * b[o + 3]);
    }
}

/// Accumulating one lane group, loaded from offset `o` of `a` and `b`, moves
/// the wrapped total of the accumulator by the dot product of that group.
proof fn lemma_group_step(
    acc: WideLanes,
    x: NarrowLanes,
    y: NarrowLanes,
    r: WideLanes,
    a: Seq<i16>,
    b: Seq<i16>,
    o: int,
    rest: int,
)
    requires
        0 <= o <= a.len(),
        a.len() == b.len(),
        forall|j: int| 0 <= j < 4 ==> x.v[j] * y.v[j] == lane_product(a, b, o, j),
        forall|j: int| 0 <= j < 4 ==> r.v[j] == wrap32(acc.v[j] + x.v[j] * y.v[j]),
    ensures
        wrap32(wide_total(r) + rest) == wrap32(
            wide_total(acc) + dot_prefix(a, b, group_end(a, o)) - dot_prefix(a, b, o) + rest,
        ),
{
    lemma_group_products(a, b, o);
    lemma_wrap32_sum4(
        acc.v[0] + x.v[0] * y.v[0],
        acc.v[1] + x.v[1] * y.v[1],
        acc.v[2] + x.v[2] * y.v[2],
        acc.v[3] + x.v[3] * y.v[3],
        rest,
    );
}

/// Four accumulators that each took one lane group keep, together, the
/// wrapped dot product up to the end of the block.
proof fn lemma_block_step(
    t1: int,
    t2: int,
    t3: int,
    t4: int,
    n1: int,
    n2: int,
    n3: int,
    n4: int,
    d0: int,
    d1: int,
    d2: int,
    d3: int,
    d4: int,
)
    requires
        wrap32(t1 + t2 + t3 + t4) == wrap32(d0),
        wrap32(n1 + (t2 + t3 + t4)) == wrap32(t1 + d1 - d0 + (t2 + t3 + t4)),
        wrap32(n2 + (n1 + t3 + t4)) == wrap32(t2 + d2 - d1 + (n1 + t3 + t4)),
        wrap32(n3 + (n1 + n2 + t4)) == wrap32(t3 + d3 - d2 + (n1 + n2 + t4)),
        wrap32(n4 + (n1 + n2 + n3)) == wrap32(t4 + d4 - d3 + (n1 + n2 + n3)),
    ensures
        wrap32(n1 + n2 + n3 + n4) == wrap32(d4),
{
    lemma_wrap32_add(t1 + t2 + t3 + t4, d1 - d0 + d2 - d1 + d3 - d2 + d4 - d3);
    lemma_wrap32_add(d0, d4 - d0);
}

/// Loads one lane group of each input from offset `o` and accumulates the
/// products into `acc`; lanes past the end count as zero.
fn accumulate_group(acc: WideLanes, v1: &[i16], v2: &[i16], o: usize, Ghost(rest): Ghost<int>) -> (r: WideLanes)
    requires
        o <= v1@.len(),
        v1@.len() == v2@.len(),
    ensures
        wrap32(wide_total(r) + rest) == wrap32(
            wide_total(acc) + dot_prefix(v1@, v2@, group_end(v1@, o as int)) - dot_prefix(v1@, v2@, o as int)
                + rest,
        ),
{
    let x: NarrowLanes;
    let y: NarrowLanes;
    if v1.len() - o >= LANE_WIDTH {
        x = load_narrow(v1, o);
        y = load_narrow(v2, o);
        assert forall|j: int| 0 <= j < 4 implies x.v[j] * y.v[j] == lane_product(
            v1@,
            v2@,
            o as int,
            j,
        ) by {
            assert(x.v[j] == v1@[o + j]);
            assert(y.v[j] == v2@[o + j]);
        }
    } else {
        x = load_narrow_padded(v1, o);
        y = load_narrow_padded(v2, o);
        assert forall|j: int| 0 <= j < 4 implies x.v[j] * y.v[j] == lane_product(
            v1@,
            v2@,
            o as int,
            j,
        ) by {
            if o + j < v1@.len() {
                assert(x.v[j] == v1@[o + j]);
                assert(y.v[j] == v2@[o + j]);
            } else {
                assert(x.v[j] == 0);
                assert(y.v[j] == 0);
            }
        }
    }
    let r = widen_mul_acc(acc, x, y);
    proof {
        lemma_group_step(acc, x, y, r, v1@, v2@, o as int, rest);
    }
    r
}

/// Dot product computed lane group by lane group: four independent wide
/// accumulators take a block of `BLOCK` elements per step, are then combined
/// into one, which takes the remaining full groups and, last, the tail padded
/// with zeros; the lanes are finally added up. The result equals the scalar
/// `dot_product` on every input.
pub fn dot_product_neon(v1: &[i16], v2: &[i16]) -> (r: i32)
    requires
        v1@.len() == v2@.len(),
    ensures
        r == wrap32(dot(v1@, v2@)),
        i32::MIN <= dot(v1@, v2@) <= i32::MAX ==> r == dot(v1@, v2@),
{
    let len = v1.len();
    let mut sum1 = splat_wide(0);
    let mut sum2 = splat_wide(0);
    let mut sum3 = splat_wide(0);
    let mut sum4 = splat_wide(0);
    let mut i: usize = 0;
    while len - i >= BLOCK
        invariant
            i <= len,
            len == v1@.len(),
            v1@.len() == v2@.len(),
            wrap32(wide_total(sum1) + wide_total(sum2) + wide_total(sum3) + wide_total(sum4))
                == wrap32(dot_prefix(v1@, v2@, i as int)),
        decreases len - i,
    {
        let ghost t1 = wide_total(sum1);
        let ghost t2 = wide_total(sum2);
        let ghost t3 = wide_total(sum3);
        let ghost t4 = wide_total(sum4);
        let ghost d0 = dot_prefix(v1@, v2@, i as int);
        let ghost d1 = dot_prefix(v1@, v2@, i + 4);
        let ghost d2 = dot_prefix(v1@, v2@, i + 8);
        let ghost d3 = dot_prefix(v1@, v2@, i + 12);
        let ghost d4 = dot_prefix(v1@, v2@, i + 16);
        sum1 = accumulate_group(sum1, v1, v2, i, Ghost(t2 + t3 + t4));
        sum2 = accumulate_group(sum2, v1, v2, i + 4, Ghost(wide_total(sum1) + t3 + t4));
        sum3 = accumulate_group(sum3, v1, v2, i + 8, Ghost(wide_total(sum1) + wide_total(sum2) + t4));
        sum4 = accumulate_group(sum4, v1, v2, i + 12, Ghost(wide_total(sum1) + wide_total(sum2) + wide_total(sum3)));
        proof {
            lemma_block_step(
                t1,
                t2,
                t3,
                t4,
                wide_total(sum1),
                wide_total(sum2),
                wide_total(sum3),
                wide_total(sum4),
                d0,
                d1,
                d2,
                d3,
                d4,
            );
        }
        i = i + BLOCK;
    }
    let s12 = add_wide(sum1, sum2);
    let s123 = add_wide(s12, sum3);
    let mut acc = add_wide(s123, sum4);
    proof {
        lemma_wrap32_sum4(sum1.v[0] + sum2.v[0], sum1.v[1] + sum2.v[1], sum1.v[2] + sum2.v[2], sum1.v[3] + sum2.v[3], wide_total(sum3) + wide_total(sum4));
        lemma_wrap32_sum4(s12.v[0] + sum3.v[0], s12.v[1] + sum3.v[1], s12.v[2] + sum3.v[2], s12.v[3] + sum3.v[3], wide_total(sum4));
        lemma_wrap32_sum4(s123.v[0] + sum4.v[0], s123.v[1] + sum4.v[1], s123.v[2] + sum4.v[2], s123.v[3] + sum4.v[3], 0);
    }
    while len - i >= LANE_WIDTH
        invariant
            i <= len,
            len == v1@.len(),
            v1@.len() == v2@.len(),
            wrap32(wide_total(acc)) == wrap32(dot_prefix(v1@, v2@, i as int)),
        decreases len - i,
    {
        let ghost t = wide_total(acc);
        acc = accumulate_group(acc, v1, v2, i, Ghost(0));
        proof {
            lemma_wrap32_add(t, dot_prefix(v1@, v2@, i + 4) - dot_prefix(v1@, v2@, i as int));
            lemma_wrap32_add(dot_prefix(v1@, v2@, i as int), dot_prefix(v1@, v2@, i + 4) - dot_prefix(v1@, v2@, i as int));
        }
        i = i + LANE_WIDTH;
    }
    let ghost t = wide_total(acc);
    acc = accumulate_group(acc, v1, v2, i, Ghost(0));
    proof {
        let e = dot_prefix(v1@, v2@, len as int) - dot_prefix(v1@, v2@, i as int);
        lemma_wrap32_add(t, e);
        lemma_wrap32_add(dot_prefix(v1@, v2@, i as int), e);
        if i32::MIN <= dot(v1@, v2@) <= i32::MAX {
            lemma_wrap32_in_range(dot(v1@, v2@));
        }
    }
    let r = horizontal_sum(acc);
    proof {
        lemma_wrap32_add(0, wide_total(acc));
        lemma_wrap32_add(0, dot(v1@, v2@));
    }
    r
}

/// `dot_prefix` reads only the first `n` positions of its inputs.
proof fn lemma_dot_prefix_agree(a: Seq<i16>, b: Seq<i16>, c: Seq<i16>, d: Seq<i16>, n: int)
    requires
        0 <= n <= a.len(),
        n <= c.len(),
        a.len() == b.len(),
        c.len() == d.len(),
        forall|i: int| 0 <= i < n ==> a[i] == c[i] && b[i] == d[i],
    ensures
        dot_prefix(a, b, n) == dot_prefix(c, d, n),
    decreases n,
{
    if n > 0 {
        lemma_dot_prefix_agree(a, b, c, d, n - 1);
    }
}

/// Zeros appended to one input, whatever stands beside them in the other,
/// leave the dot product unchanged: a kernel gives the same result on an input
/// and on that input padded with zeros to any length, a multiple of the lane
/// width or not.
pub proof fn lemma_zero_padding_keeps_dot(a: Seq<i16>, b: Seq<i16>, pa: Seq<i16>, pb: Seq<i16>)
    requires
        a.len() == b.len(),
        pa.len() == pb.len(),
        forall|i: int| 0 <= i < pa.len() ==> pa[i] == 0,
    ensures
        dot(a + pa, b + pb) == dot(a, b),
    decreases pa.len(),
{
    if pa.len() == 0 {
        assert(a + pa =~= a);
        assert(b + pb =~= b);
    } else {
        let qa = pa.drop_last();
        let qb = pb.drop_last();
        lemma_zero_padding_keeps_dot(a, b, qa, qb);
        let n = a.len() + pa.len();
        lemma_dot_prefix_agree(a + pa, b + pb, a + qa, b + qb, n - 1);
        assert((a + pa)[n - 1] == 0);
    }
}

/// The sequence `start, start + 1, ..., start + len - 1`.
pub fn generate_ramp(start: i16, len: usize) -> (r: Vec<i16>)
    requires
        start + len <= i16::MAX + 1,
    ensures
        r@.len() == len,
        forall|i: int| 0 <= i < len ==> r@[i] == start + i,
{
    let mut ramp: Vec<i16> = Vec::new();
    let mut i: usize = 0;
    while i < len
        invariant
            i <= len,
            start + len <= i16::MAX + 1,
            ramp@.len() == i,
            forall|k: int| 0 <= k < i ==> ramp@[k] == start + k,
        decreases len - i,
    {
        ramp.push((start as i32 + i as i32) as i16);
        i = i + 1;
    }
    ramp
}

} // verus!
