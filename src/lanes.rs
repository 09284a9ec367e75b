use vstd::prelude::*;

verus! {

/// Number of scalar elements that one lane group holds.
pub const LANE_WIDTH: usize = 4;

/// The value that a 32-bit two's-complement register holds after storing the
/// mathematical integer `x`.
pub open spec fn wrap32(x: int) -> int {
    let m = x % 0x1_0000_0000;
    if m >= 0x8000_0000 {
        m - 0x1_0000_0000
    } else {
        m
    }
}

/// Wrapping part way through a sum does not change the wrapped result.
pub proof fn lemma_wrap32_add(x: int, y: int)
    ensures
        wrap32(wrap32(x) + y) == wrap32(x + y),
{
}

/// Lanes that each wrapped on their own add up, after wrapping, to the
/// wrapped sum of their unwrapped values.
pub proof fn lemma_wrap32_sum4(a: int, b: int, c: int, d: int, rest: int)
    ensures
        wrap32(wrap32(a) + wrap32(b) + wrap32(c) + wrap32(d) + rest) == wrap32(a + b + c + d + rest),
{
}

/// A value that a 32-bit register can hold is stored unchanged.
pub proof fn lemma_wrap32_in_range(x: int)
    requires
        i32::MIN <= x <= i32::MAX,
    ensures
        wrap32(x) == x,
{
}

/// A group of narrow (16-bit) lanes.
#[derive(Clone, Copy)]
pub struct NarrowLanes {
    pub v: [i16; 4],
}

/// A group of wide (32-bit) lanes, used as an accumulator.
#[derive(Clone, Copy)]
pub struct WideLanes {
    pub v: [i32; 4],
}

/// Sum of the lanes of a wide group, as a mathematical integer.
pub open spec fn wide_total(w: WideLanes) -> int {
    w.v[0] + w.v[1] + w.v[2] + w.v[3]
}

/// Adds two 32-bit values as a 32-bit register does.
pub(crate) fn add_wrapping(a: i32, b: i32) -> (r: i32)
    ensures
        r == wrap32(a + b),
{
    a.wrapping_add(b)
}

/// Replicates one wide scalar across every lane.
pub fn splat_wide(x: i32) -> (r: WideLanes)
    ensures
        forall|j: int| 0 <= j < 4 ==> r.v[j] == x,
{
    WideLanes { v: [x, x, x, x] }
}

/// Reads `LANE_WIDTH` consecutive narrow values starting at `off`.
pub fn load_narrow(s: &[i16], off: usize) -> (r: NarrowLanes)
    requires
        off + 4 <= s@.len(),
    ensures
        forall|j: int| 0 <= j < 4 ==> r.v[j] == s@[off + j],
{
    NarrowLanes { v: [s[off], s[off + 1], s[off + 2], s[off + 3]] }
}

/// Reads the narrow values from `off` on into one group, filling the lanes
/// past the end of `s` with zero.
pub fn load_narrow_padded(s: &[i16], off: usize) -> (r: NarrowLanes)
    requires
        off <= s@.len(),
    ensures
        forall|j: int|
            0 <= j < 4 ==> r.v[j] == if off + j < s@.len() {
                s@[off + j]
            } else {
                0
            },
{
    let mut v: [i16; 4] = [0, 0, 0, 0];
    let mut j: usize = 0;
    while j < 4
        invariant
            j <= 4,
            off <= s@.len(),
            forall|k: int|
                0 <= k < 4 ==> v[k] == if k < j && off + k < s@.len() {
                    s@[off + k]
                } else {
                    0
                },
        decreases 4 - j,
    {
        if j < s.len() - off {
            v[j] = s[off + j];
        }
        j = j + 1;
    }
    NarrowLanes { v }
}

/// Lane-wise sum of two wide groups, wrapping as 32-bit registers do.
pub fn add_wide(a: WideLanes, b: WideLanes) -> (r: WideLanes)
    ensures
        forall|j: int| 0 <= j < 4 ==> r.v[j] == wrap32(a.v[j] + b.v[j]),
{
    WideLanes {
        v: [
            add_wrapping(a.v[0], b.v[0]),
            add_wrapping(a.v[1], b.v[1]),
            add_wrapping(a.v[2], b.v[2]),
            add_wrapping(a.v[3], b.v[3]),
        ],
    }
}

/// Multiplies two narrow groups lane by lane into wide products and adds
/// them to the accumulator `acc`.
pub fn widen_mul_acc(acc: WideLanes, a: NarrowLanes, b: NarrowLanes) -> (r: WideLanes)
    ensures
        forall|j: int| 0 <= j < 4 ==> r.v[j] == wrap32(acc.v[j] + a.v[j] * b.v[j]),
{
    let mut v: [i32; 4] = acc.v;
    let mut j: usize = 0;
    while j < 4
        invariant
            j <= 4,
            forall|k: int|
                0 <= k < 4 ==> v[k] == if k < j {
                    wrap32(acc.v[k] + a.v[k] * b.v[k])
                } else {
                    acc.v[k] as int
                },
        decreases 4 - j,
    {
        assert(-0x4000_0000 <= a.v[j as int] * b.v[j as int] <= 0x4000_0000) by (nonlinear_arith)
            requires
                i16::MIN <= a.v[j as int] <= i16::MAX,
                i16::MIN <= b.v[j as int] <= i16::MAX,
        ;
        let p: i32 = (a.v[j] as i32) * (b.v[j] as i32);
        v[j] = add_wrapping(v[j], p);
        j = j + 1;
    }
    WideLanes { v }
}

/// Reads lane `j` of a wide group.
pub fn extract_lane(w: WideLanes, j: usize) -> (r: i32)
    requires
        j < 4,
    ensures
        r == w.v[j as int],
{
    w.v[j]
}

/// Adds up every lane of a wide group into one 32-bit value.
pub fn horizontal_sum(w: WideLanes) -> (r: i32)
    ensures
        r == wrap32(wide_total(w)),
{
    let s01 = add_wrapping(w.v[0], w.v[1]);
    let s012 = add_wrapping(s01, w.v[2]);
    proof {
        lemma_wrap32_add(w.v[0] + w.v[1], w.v[2] as int);
        lemma_wrap32_add(w.v[0] + w.v[1] + w.v[2], w.v[3] as int);
    }
    add_wrapping(s012, w.v[3])
}

} // verus!
