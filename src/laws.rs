use vstd::prelude::*;

use crate::decimal::text_value;
use crate::mixture::{
    clamp_percent, volume_fraction, weight_fraction_of_volume_percent, AlcoholCalculator, Message,
};
use crate::ratio::Ratio;

verus! {

/// Converting a weight fraction to a volume percentage and that back to a weight
/// fraction gives the weight fraction again, exactly.
pub proof fn lemma_weight_volume_round_trip(w: Ratio)
    requires
        w.well_formed(),
        0 <= w.num <= w.den,
    ensures
        ({
            let vf = volume_fraction(w);
            let back = weight_fraction_of_volume_percent(clamp_percent((100 * vf.0, vf.1)));
            back.1 > 0 && back.0 * w.den == w.num * back.1
        }),
{
    let vf = volume_fraction(w);
    assert(vf.1 > 0 && 0 <= vf.0 <= vf.1) by (nonlinear_arith)
        requires
            vf == volume_fraction(w),
            w.den > 0,
            0 <= w.num <= w.den,
    ;
    assert(clamp_percent((100 * vf.0, vf.1)) == (100 * vf.0, vf.1));
    let back = weight_fraction_of_volume_percent((100 * vf.0, vf.1));
    assert(back.1 > 0 && back.0 * w.den == w.num * back.1) by (nonlinear_arith)
        requires
            vf == volume_fraction(w),
            back == weight_fraction_of_volume_percent((100 * vf.0, vf.1)),
            w.den > 0,
            0 <= w.num <= w.den,
    ;
}

/// Setting the mass of pure alcohol leaves the weight fraction as it was.
pub proof fn lemma_mass_edit_keeps_weight_fraction(s: AlcoholCalculator, t: String)
    requires
        s.well_formed(),
    ensures
        s.edited(Message::PureAlcoholAmountChanged(t)).alcohol_percentage_weight
            == s.alcohol_percentage_weight,
{
}

/// An edit whose text does not read as a number leaves the state as it was.
pub proof fn lemma_unreadable_edit_is_no_op(s: AlcoholCalculator, m: Message)
    requires
        s.well_formed(),
        text_value(m.text()) is None,
    ensures
        s.edited(m) == s,
{
}

/// Applying the same edit twice gives the state that applying it once gives.
pub proof fn lemma_edit_idempotent(s: AlcoholCalculator, m: Message)
    requires
        s.well_formed(),
    ensures
        s.edited(m).edited(m) == s.edited(m),
{
}

/// The volume fraction of a weight fraction `w` in `[0, 1]` lies in `[w, 1]`, since
/// alcohol is less dense than water; it is zero only for `w == 0` and one for `w == 1`.
pub proof fn lemma_volume_fraction_bounds(w: Ratio)
    requires
        w.well_formed(),
        0 <= w.num <= w.den,
    ensures
        ({
            let vf = volume_fraction(w);
            &&& vf.1 > 0
            &&& 0 <= vf.0 <= vf.1
            &&& vf.0 * w.den >= w.num * vf.1
            &&& (vf.0 == 0 <==> w.num == 0)
            &&& (w.num == w.den ==> vf.0 == vf.1)
        }),
{
    let vf = volume_fraction(w);
    assert(vf.1 > 0 && 0 <= vf.0 <= vf.1 && vf.0 * w.den >= w.num * vf.1) by (nonlinear_arith)
        requires
            vf == volume_fraction(w),
            w.den > 0,
            0 <= w.num <= w.den,
    ;
}

/// Converting a volume percentage in `[0, 100]` to a weight fraction and that back to a
/// volume fraction gives the percentage divided by 100, exactly.
pub proof fn lemma_volume_weight_round_trip(v: (int, int), w: Ratio)
    requires
        v.1 > 0,
        0 <= v.0 <= 100 * v.1,
        (w.num as int, w.den as int) == weight_fraction_of_volume_percent(clamp_percent(v)),
    ensures
        w.well_formed(),
        0 <= w.num <= w.den,
        ({
            let vf = volume_fraction(w);
            vf.1 > 0 && 100 * vf.0 * v.1 == v.0 * vf.1
        }),
{
    assert(clamp_percent(v) == v);
    assert(w.den > 0 && 0 <= w.num <= w.den) by (nonlinear_arith)
        requires
            (w.num as int, w.den as int) == weight_fraction_of_volume_percent(v),
            v.1 > 0,
            0 <= v.0 <= 100 * v.1,
    ;
    let vf = volume_fraction(w);
    assert(vf.1 > 0 && 100 * vf.0 * v.1 == v.0 * vf.1) by (nonlinear_arith)
        requires
            vf == volume_fraction(w),
            (w.num as int, w.den as int) == weight_fraction_of_volume_percent(v),
            v.1 > 0,
            0 <= v.0 <= 100 * v.1,
    ;
}

} // verus!
