use vstd::prelude::*;

use crate::decimal::{parse_decimal, text_value};
use crate::display::{shown, to_lp_string};
use crate::ratio::Ratio;

verus! {

/// Density of pure ethanol in g/mL is `DENSITY_NUM / DENSITY_DEN`; water has density 1.
pub const DENSITY_NUM: i128 = 789;

pub const DENSITY_DEN: i128 = 1000;

pub open spec fn fits(x: int) -> bool {
    i128::MIN <= x <= i128::MAX
}

/// The ratio with the given numerator and denominator, when both fit in `i128`.
pub open spec fn ratio_if_fits(p: (int, int)) -> Option<Ratio> {
    if fits(p.0) && fits(p.1) {
        Some(Ratio { num: p.0 as i128, den: p.1 as i128 })
    } else {
        None
    }
}

/// The volume of a mixture of weight fraction `w`, scaled by `DENSITY_NUM * w.den`:
/// water `1 - w` at density 1 plus alcohol `w` at density `d`.
pub open spec fn volume_denominator(w: Ratio) -> int {
    DENSITY_NUM * (w.den - w.num) + DENSITY_DEN * w.num
}

/// Volume fraction `w / (d * (1 - w) + w)` of weight fraction `w`, `d` the density,
/// with numerator and denominator multiplied by `DENSITY_DEN * w.den`.
pub open spec fn volume_fraction(w: Ratio) -> (int, int) {
    (DENSITY_DEN * w.num, volume_denominator(w))
}

/// A percentage `v` clamped to `[0, 100]`.
pub open spec fn clamp_percent(v: (int, int)) -> (int, int) {
    if v.0 < 0 {
        (0, 1)
    } else if v.0 > 100 * v.1 {
        (100, 1)
    } else {
        v
    }
}

/// Weight fraction `t / (100 - v + t)` with `t = v * d`, of a volume percentage `v`,
/// with numerator and denominator multiplied by `DENSITY_DEN * v.1`.
pub open spec fn weight_fraction_of_volume_percent(v: (int, int)) -> (int, int) {
    (DENSITY_NUM * v.0, DENSITY_DEN * (100 * v.1 - v.0) + DENSITY_NUM * v.0)
}

/// The two stored quantities of an alcohol and water mixture: the mass of pure alcohol
/// in grams and the fraction of the mixture's mass that is alcohol.
#[derive(Clone, Copy, Debug, PartialEq, Eq, Structural)]
pub struct AlcoholCalculator {
    pub pure_alcohol_in_grams: Ratio,
    pub alcohol_percentage_weight: Ratio,
}

/// An edit of one of the five fields, carrying the field's new text.
#[derive(Clone, Debug)]
pub enum Message {
    PureAlcoholAmountChanged(String),
    AlcoholPercentageWeightChanged(String),
    AlcoholPercentageVolumeChanged(String),
    TotalAmountWeightChanged(String),
    TotalAmountVolumeChanged(String),
}

impl Message {
    /// The new text of the edited field.
    pub open spec fn text(self) -> Seq<char> {
        match self {
            Message::PureAlcoholAmountChanged(t) => t@,
            Message::AlcoholPercentageWeightChanged(t) => t@,
            Message::AlcoholPercentageVolumeChanged(t) => t@,
            Message::TotalAmountWeightChanged(t) => t@,
            Message::TotalAmountVolumeChanged(t) => t@,
        }
    }
}

impl AlcoholCalculator {
    /// Both ratios have a positive denominator and the weight fraction lies in `[0, 1]`.
    pub open spec fn well_formed(self) -> bool {
        &&& self.pure_alcohol_in_grams.well_formed()
        &&& self.alcohol_percentage_weight.well_formed()
        &&& 0 <= self.alcohol_percentage_weight.num <= self.alcohol_percentage_weight.den
    }

    /// Total mass `mass / wf`; undefined when `wf` is zero.
    pub open spec fn total_mass(self) -> Option<(int, int)> {
        let m = self.pure_alcohol_in_grams;
        let w = self.alcohol_percentage_weight;
        if w.num == 0 {
            None
        } else {
            Some((m.num * w.den, m.den * w.num))
        }
    }

    /// Total volume `(total - mass) + mass / d`: water at density 1 plus alcohol at
    /// density `d`; undefined when `wf` is zero.
    pub open spec fn total_volume(self) -> Option<(int, int)> {
        let m = self.pure_alcohol_in_grams;
        let w = self.alcohol_percentage_weight;
        if w.num == 0 {
            None
        } else {
            Some((m.num * volume_denominator(w), DENSITY_NUM * m.den * w.num))
        }
    }

    /// The state after `m`, given what its text reads as. A new total mass `T` sets the
    /// alcohol mass to `T * w`; a new total volume `V` sets it to `V * vf * d`, here with
    /// `DENSITY_DEN` cancelled. Text that reads as no number, a negative alcohol mass,
    /// and a result that does not fit in `i128` leave the state as it was.
    pub open spec fn edited(self, m: Message) -> AlcoholCalculator {
        let w = self.alcohol_percentage_weight;
        match m {
            Message::PureAlcoholAmountChanged(t) => match text_value(t@) {
                Some(v) => if v.0 >= 0 {
                    AlcoholCalculator { pure_alcohol_in_grams: Ratio { num: v.0 as i128, den: v.1 as i128 }, ..self }
                } else {
                    self
                },
                None => self,
            },
            Message::AlcoholPercentageWeightChanged(t) => match text_value(t@) {
                Some(v) => {
                    let c = clamp_percent(v);
                    match ratio_if_fits((c.0, 100 * c.1)) {
                        Some(r) => AlcoholCalculator { alcohol_percentage_weight: r, ..self },
                        None => self,
                    }
                },
                None => self,
            },
            Message::AlcoholPercentageVolumeChanged(t) => match text_value(t@) {
                Some(v) => match ratio_if_fits(weight_fraction_of_volume_percent(clamp_percent(v))) {
                    Some(r) => AlcoholCalculator { alcohol_percentage_weight: r, ..self },
                    None => self,
                },
                None => self,
            },
            Message::TotalAmountWeightChanged(t) => match text_value(t@) {
                Some(v) => match ratio_if_fits((v.0 * w.num, v.1 * w.den)) {
                    Some(r) => AlcoholCalculator { pure_alcohol_in_grams: r, ..self },
                    None => self,
                },
                None => self,
            },
            Message::TotalAmountVolumeChanged(t) => match text_value(t@) {
                Some(v) => if fits(volume_denominator(w)) {
                    match ratio_if_fits((v.0 * w.num * DENSITY_NUM, v.1 * volume_denominator(w))) {
                        Some(r) => AlcoholCalculator { pure_alcohol_in_grams: r, ..self },
                        None => self,
                    }
                } else {
                    self
                },
                None => self,
            },
        }
    }

    /// No pure alcohol, and a weight fraction of 0.031829.
    pub fn new() -> (r: AlcoholCalculator)
        ensures
            r.well_formed(),
            r.pure_alcohol_in_grams.num == 0,
            r.pure_alcohol_in_grams.den == 1,
            r.alcohol_percentage_weight.num == 31829,
            r.alcohol_percentage_weight.den == 1000000,
    {
        AlcoholCalculator {
            pure_alcohol_in_grams: Ratio { num: 0, den: 1 },
            alcohol_percentage_weight: Ratio { num: 31829, den: 1000000 },
        }
    }

    /// Volume fraction of the mixture; `None` when it does not fit in `i128`.
    pub fn get_alcohol_percentage_by_volume(&self) -> (r: Option<Ratio>)
        requires
            self.well_formed(),
        ensures
            r == ratio_if_fits(volume_fraction(self.alcohol_percentage_weight)),
            r matches Some(v) ==> v.well_formed(),
    {
        let w = self.alcohol_percentage_weight;
        match volume_denominator_of(w) {
            Some(den) => match DENSITY_DEN.checked_mul(w.num) {
                Some(num) => Some(Ratio { num, den }),
                None => {
                    assert(DENSITY_DEN * w.num <= volume_denominator(w));
                    None
                },
            },
            None => None,
        }
    }

    /// Total mass of the mixture in grams; `None` when the weight fraction is zero
    /// or the result does not fit in `i128`.
    pub fn get_total_amount_by_weight(&self) -> (r: Option<Ratio>)
        requires
            self.well_formed(),
        ensures
            r == (match self.total_mass() {
                Some(p) => ratio_if_fits(p),
                None => None,
            }),
            r matches Some(v) ==> v.well_formed(),
    {
        let m = self.pure_alcohol_in_grams;
        let w = self.alcohol_percentage_weight;
        if w.num == 0 {
            return None;
        }
        assert(m.den * w.num > 0) by (nonlinear_arith)
            requires
                m.den > 0,
                w.num > 0,
        ;
        match (m.num.checked_mul(w.den), m.den.checked_mul(w.num)) {
            (Some(num), Some(den)) => Some(Ratio { num, den }),
            _ => None,
        }
    }

    /// Total volume of the mixture in millilitres; `None` when the weight fraction is
    /// zero or a term of the formula does not fit in `i128`.
    pub fn get_total_amount_by_volume(&self) -> (r: Option<Ratio>)
        requires
            self.well_formed(),
        ensures
            r == (match self.total_volume() {
                Some(p) => if fits(volume_denominator(self.alcohol_percentage_weight)) {
                    ratio_if_fits(p)
                } else {
                    None
                },
                None => None,
            }),
            r matches Some(v) ==> v.well_formed(),
    {
        let m = self.pure_alcohol_in_grams;
        let w = self.alcohol_percentage_weight;
        if w.num == 0 {
            return None;
        }
        let x = match volume_denominator_of(w) {
            Some(x) => x,
            None => return None,
        };
        let num = m.num.checked_mul(x);
        let dm = DENSITY_NUM.checked_mul(m.den);
        proof {
            lemma_factor_fits(DENSITY_NUM * m.den, w.num as int);
        }
        assert(DENSITY_NUM * m.den * w.num > 0) by (nonlinear_arith)
            requires
                m.den > 0,
                w.num > 0,
        ;
        match (num, dm) {
            (Some(num), Some(dm)) => match dm.checked_mul(w.num) {
                Some(den) => Some(Ratio { num, den }),
                None => None,
            },
            _ => None,
        }
    }

    /// Applies the edit of one field. Text that does not read as a number (see
    /// `parse_decimal`), a negative alcohol mass, and a result that does not fit in
    /// `i128` leave the state as it was.
    pub fn update(&mut self, message: Message)
        requires
            old(self).well_formed(),
        ensures
            *final(self) == old(self).edited(message),
            final(self).well_formed(),
    {
        let w = self.alcohol_percentage_weight;
        match message {
            Message::PureAlcoholAmountChanged(t) => {
                if let Some(v) = parse_decimal(t.as_str()) {
                    if v.num >= 0 {
                        self.pure_alcohol_in_grams = v;
                    }
                }
            },
            Message::AlcoholPercentageWeightChanged(t) => {
                if let Some(v) = parse_decimal(t.as_str()) {
                    if let Some(r) = weight_fraction_of_percent(v) {
                        self.alcohol_percentage_weight = r;
                    }
                }
            },
            Message::AlcoholPercentageVolumeChanged(t) => {
                if let Some(v) = parse_decimal(t.as_str()) {
                    if let Some(r) = weight_fraction_of_volume(v) {
                        self.alcohol_percentage_weight = r;
                    }
                }
            },
            Message::TotalAmountWeightChanged(t) => {
                if let Some(v) = parse_decimal(t.as_str()) {
                    match (v.num.checked_mul(w.num), v.den.checked_mul(w.den)) {
                        (Some(num), Some(den)) => {
                            assert(v.den * w.den > 0) by (nonlinear_arith)
                                requires
                                    v.den > 0,
                                    w.den > 0,
                            ;
                            self.pure_alcohol_in_grams = Ratio { num, den };
                        },
                        _ => {},
                    }
                }
            },
            Message::TotalAmountVolumeChanged(t) => {
                if let Some(v) = parse_decimal(t.as_str()) {
                    if let Some(x) = volume_denominator_of(w) {
                        let num = match v.num.checked_mul(w.num) {
                            Some(n) => n.checked_mul(DENSITY_NUM),
                            None => {
                                proof {
                                    lemma_factor_fits(v.num * w.num, DENSITY_NUM as int);
                                }
                                None
                            },
                        };
                        match (num, v.den.checked_mul(x)) {
                            (Some(num), Some(den)) => {
                                assert(v.den * x > 0) by (nonlinear_arith)
                                    requires
                                        v.den > 0,
                                        x > 0,
                                ;
                                self.pure_alcohol_in_grams = Ratio { num, den };
                            },
                            _ => {},
                        }
                    }
                }
            },
        }
    }

    /// The window title.
    pub fn title(&self) -> (r: String)
        ensures
            r@ == "Alcohol calculator"@,
    {
        "Alcohol calculator".to_owned()
    }

    /// The five fields' texts, in the order: pure alcohol mass, weight percentage,
    /// total mass, volume percentage, total volume.
    pub fn field_texts(&self) -> (r: Vec<String>)
        requires
            self.well_formed(),
        ensures
            r.len() == 5,
            r[0]@ == shown(Some(self.pure_alcohol_in_grams)),
            r[1]@ == shown(percent_of(Some(self.alcohol_percentage_weight))),
            r[2]@ == shown(match self.total_mass() {
                Some(p) => ratio_if_fits(p),
                None => None,
            }),
            r[3]@ == shown(percent_of(ratio_if_fits(volume_fraction(self.alcohol_percentage_weight)))),
            r[4]@ == shown(match self.total_volume() {
                Some(p) => if fits(volume_denominator(self.alcohol_percentage_weight)) {
                    ratio_if_fits(p)
                } else {
                    None
                },
                None => None,
            }),
    {
        let mut r: Vec<String> = Vec::new();
        r.push(to_lp_string(Some(self.pure_alcohol_in_grams)));
        r.push(to_lp_string(percent(Some(self.alcohol_percentage_weight))));
        r.push(to_lp_string(self.get_total_amount_by_weight()));
        r.push(to_lp_string(percent(self.get_alcohol_percentage_by_volume())));
        r.push(to_lp_string(self.get_total_amount_by_volume()));
        r
    }
}

/// A fraction as a percentage; `None` where it does not fit in `i128`.
pub open spec fn percent_of(v: Option<Ratio>) -> Option<Ratio> {
    match v {
        Some(r) => ratio_if_fits((100 * r.num, r.den as int)),
        None => None,
    }
}

fn percent(v: Option<Ratio>) -> (r: Option<Ratio>)
    requires
        v matches Some(x) ==> x.well_formed(),
    ensures
        r == percent_of(v),
        r matches Some(x) ==> x.well_formed(),
{
    match v {
        Some(x) => match x.num.checked_mul(100) {
            Some(num) => Some(Ratio { num, den: x.den }),
            None => None,
        },
        None => None,
    }
}

/// A percentage clamped to `[0, 100]`.
fn clamped_percent(v: Ratio) -> (r: Ratio)
    requires
        v.well_formed(),
    ensures
        r.num == clamp_percent((v.num as int, v.den as int)).0,
        r.den == clamp_percent((v.num as int, v.den as int)).1,
        r.well_formed(),
        0 <= r.num,
        r.num <= 100 * r.den,
{
    if v.num < 0 {
        Ratio { num: 0, den: 1 }
    } else {
        match v.den.checked_mul(100) {
            Some(h) => if v.num > h {
                Ratio { num: 100, den: 1 }
            } else {
                v
            },
            None => v,
        }
    }
}

/// Weight fraction of a weight percentage, clamped to `[0, 100]` first.
fn weight_fraction_of_percent(v: Ratio) -> (r: Option<Ratio>)
    requires
        v.well_formed(),
    ensures
        r == ({
            let c = clamp_percent((v.num as int, v.den as int));
            ratio_if_fits((c.0, 100 * c.1))
        }),
        r matches Some(x) ==> x.well_formed() && 0 <= x.num <= x.den,
{
    let c = clamped_percent(v);
    match c.den.checked_mul(100) {
        Some(den) => Some(Ratio { num: c.num, den }),
        None => None,
    }
}

/// Weight fraction of a volume percentage, clamped to `[0, 100]` first.
fn weight_fraction_of_volume(v: Ratio) -> (r: Option<Ratio>)
    requires
        v.well_formed(),
    ensures
        r == ratio_if_fits(weight_fraction_of_volume_percent(clamp_percent((v.num as int, v.den as int)))),
        r matches Some(x) ==> x.well_formed() && 0 <= x.num <= x.den,
{
    let c = clamped_percent(v);
    let ghost p = weight_fraction_of_volume_percent((c.num as int, c.den as int));
    assert(p.1 >= 100 * c.den && p.0 >= 0 && p.0 <= p.1 && p.1 > 0) by (nonlinear_arith)
        requires
            p == weight_fraction_of_volume_percent((c.num as int, c.den as int)),
            0 <= c.num <= 100 * c.den,
            c.den > 0,
    ;
    let h = match c.den.checked_mul(100) {
        Some(h) => h,
        None => return None,
    };
    let a = DENSITY_DEN.checked_mul(h - c.num);
    let b = DENSITY_NUM.checked_mul(c.num);
    match (a, b) {
        (Some(a), Some(b)) => match a.checked_add(b) {
            Some(den) => Some(Ratio { num: b, den }),
            None => None,
        },
        _ => None,
    }
}

/// Denominator of the volume fraction; `None` when it does not fit in `i128`.
fn volume_denominator_of(w: Ratio) -> (r: Option<i128>)
    requires
        w.well_formed(),
        0 <= w.num <= w.den,
    ensures
        r == (if fits(volume_denominator(w)) { Some(volume_denominator(w) as i128) } else { None }),
        r matches Some(x) ==> x > 0,
{
    let a = DENSITY_NUM.checked_mul(w.den - w.num);
    let b = DENSITY_DEN.checked_mul(w.num);
    match (a, b) {
        (Some(a), Some(b)) => a.checked_add(b),
        _ => None,
    }
}

/// A factor of a product that fits fits too, when the other factor is positive.
proof fn lemma_factor_fits(x: int, y: int)
    requires
        y > 0,
    ensures
        fits(x * y) ==> fits(x),
{
    assert(x * y >= x || x < 0) by (nonlinear_arith)
        requires
            y > 0,
    ;
    assert(x * y <= x || x >= 0) by (nonlinear_arith)
        requires
            y > 0,
    ;
}

} // verus!
