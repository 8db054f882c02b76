use vstd::prelude::*;

verus! {

/// An exact rational number `num / den`. Ratios are not kept in lowest terms, so
/// results of long chains of arithmetic can leave the range of `i128`.
#[derive(Clone, Copy, Debug, PartialEq, Eq, Structural)]
pub struct Ratio {
    pub num: i128,
    pub den: i128,
}

impl Ratio {
    /// A ratio is well formed when its denominator is positive.
    pub open spec fn well_formed(self) -> bool {
        self.den > 0
    }

    /// The ratio `num / den`.
    pub fn new(num: i128, den: i128) -> (r: Ratio)
        requires
            den > 0,
        ensures
            r.num == num,
            r.den == den,
            r.well_formed(),
    {
        Ratio { num, den }
    }
}

} // verus!
