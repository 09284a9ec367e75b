//! Integer kernels written over fixed-width lane groups: primitives on groups
//! of narrow and wide lanes, and a dot product that accumulates in lane
//! groups, proved equal to its scalar counterpart on every input.

pub mod dotproduct;
pub mod lanes;
