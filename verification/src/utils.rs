//! Global utilities module.
pub mod stack;
pub mod vec;

use vstd::prelude::*;
use crate::cfg::Config;
use crate::global::Offs;

verus! {

/// Fills the whole vector with one value.
pub fn zero<T: Copy>(vec: &mut Vec<T>, zero: T)
    ensures
        final(vec)@.len() == old(vec)@.len(),
        forall|i: int| 0 <= i < final(vec)@.len() ==> final(vec)@[i] == zero,
{
    let n = vec.len();
    let mut i: usize = 0;
    while i < n
        invariant
            i <= n,
            n == vec@.len(),
            forall|j: int| 0 <= j < i ==> vec@[j] == zero,
        decreases n - i,
    {
        vec.set(i, zero);
        i += 1;
    }
}

/// Converts x,y coordinates on the grid into a linear offset.
pub fn to_offs(x: isize, y: isize, cfg: &Config) -> (r: Offs)
    requires
        cfg.wf(),
        0 <= x < cfg.spec_width(),
        0 <= y < cfg.spec_height(),
    ensures
        r == y * cfg.spec_width() + x,
        0 <= r < cfg.spec_width() * cfg.spec_height(),
{
    let wi: isize = cfg.WIDTH() as isize;
    proof {
        assert(0 <= y * wi && y * wi + wi <= cfg.spec_width() * cfg.spec_height())
            by (nonlinear_arith)
            requires
                0 <= y < cfg.spec_height(),
                0 < wi == cfg.spec_width(),
        ;
    }
    y * wi + x
}

/// Converts a linear offset into x,y coordinates on the configured grid.
pub fn to_xy(offs: Offs, cfg: &Config) -> (r: (isize, isize))
    requires
        cfg.wf(),
        offs >= 0,
    ensures
        r.0 == offs as int % cfg.spec_width(),
        r.1 == offs as int / cfg.spec_width(),
{
    let o = offs as usize;
    let w = cfg.WIDTH();
    ((o % w) as isize, (o / w) as isize)
}

} // verus!
