use vstd::arithmetic::div_mod::lemma_fundamental_div_mod;
use vstd::prelude::*;

verus! {

/// The largest value that a stored quantity can take.
pub const QUANTITY_MAX: u64 = 0xffff_ffff_ffff_ffff;

/// A non-negative rational scale factor `num / den`.
#[derive(Clone, Copy, Debug, PartialEq, Eq, Structural)]
pub struct Factor {
    pub num: u128,
    pub den: u64,
}

impl Factor {
    /// A factor is usable when its denominator is positive.
    pub open spec fn valid(self) -> bool {
        self.den > 0
    }

    /// The factor as a rational function on quantities: `v * num / den`, rounded down.
    pub open spec fn apply(self, v: nat) -> nat {
        ((v * self.num) as int / (self.den as int)) as nat
    }

    /// The factor one.
    pub fn one() -> (r: Factor)
        ensures
            r.num == 1,
            r.den == 1,
    {
        Factor { num: 1, den: 1 }
    }

    /// The factor zero.
    pub fn zero() -> (r: Factor)
        ensures
            r.num == 0,
            r.den == 1,
    {
        Factor { num: 0, den: 1 }
    }
}

/// The mathematical value of a nutrient profile: eight non-negative quantities.
pub struct NutritionModel {
    pub energy: nat,
    pub protein: nat,
    pub fat: nat,
    pub fat_saturated: nat,
    pub carbs: nat,
    pub carbs_sugars: nat,
    pub fibre: nat,
    pub sodium: nat,
}

impl NutritionModel {
    /// The profile with every quantity zero.
    pub open spec fn zero() -> NutritionModel {
        NutritionModel {
            energy: 0,
            protein: 0,
            fat: 0,
            fat_saturated: 0,
            carbs: 0,
            carbs_sugars: 0,
            fibre: 0,
            sodium: 0,
        }
    }

    /// Pointwise sum.
    pub open spec fn add(self, o: NutritionModel) -> NutritionModel {
        NutritionModel {
            energy: self.energy + o.energy,
            protein: self.protein + o.protein,
            fat: self.fat + o.fat,
            fat_saturated: self.fat_saturated + o.fat_saturated,
            carbs: self.carbs + o.carbs,
            carbs_sugars: self.carbs_sugars + o.carbs_sugars,
            fibre: self.fibre + o.fibre,
            sodium: self.sodium + o.sodium,
        }
    }

    /// Every quantity multiplied by the factor, each rounded down.
    pub open spec fn scale(self, f: Factor) -> NutritionModel {
        NutritionModel {
            energy: f.apply(self.energy),
            protein: f.apply(self.protein),
            fat: f.apply(self.fat),
            fat_saturated: f.apply(self.fat_saturated),
            carbs: f.apply(self.carbs),
            carbs_sugars: f.apply(self.carbs_sugars),
            fibre: f.apply(self.fibre),
            sodium: f.apply(self.sodium),
        }
    }

    /// Every quantity fits in a stored quantity.
    pub open spec fn fits(self) -> bool {
        &&& self.energy <= QUANTITY_MAX
        &&& self.protein <= QUANTITY_MAX
        &&& self.fat <= QUANTITY_MAX
        &&& self.fat_saturated <= QUANTITY_MAX
        &&& self.carbs <= QUANTITY_MAX
        &&& self.carbs_sugars <= QUANTITY_MAX
        &&& self.fibre <= QUANTITY_MAX
        &&& self.sodium <= QUANTITY_MAX
    }
}

/// A nutrient profile. Each field counts thousandths of its unit: energy in kcal,
/// sodium in mg, the others in g.
#[derive(Clone, Copy, Debug, PartialEq, Eq, Structural)]
pub struct Nutrition {
    pub energy: u64,
    pub protein: u64,
    pub fat: u64,
    pub fat_saturated: u64,
    pub carbs: u64,
    pub carbs_sugars: u64,
    pub fibre: u64,
    pub sodium: u64,
}

impl View for Nutrition {
    type V = NutritionModel;

    open spec fn view(&self) -> NutritionModel {
        NutritionModel {
            energy: self.energy as nat,
            protein: self.protein as nat,
            fat: self.fat as nat,
            fat_saturated: self.fat_saturated as nat,
            carbs: self.carbs as nat,
            carbs_sugars: self.carbs_sugars as nat,
            fibre: self.fibre as nat,
            sodium: self.sodium as nat,
        }
    }
}

/// A quantity multiplied by a factor, or `None` where the result does not fit.
fn scale_quantity(v: u64, f: Factor) -> (r: Option<u64>)
    requires
        f.valid(),
    ensures
        r is Some <==> f.apply(v as nat) <= QUANTITY_MAX,
        r matches Some(q) ==> q as nat == f.apply(v as nat),
{
    match (v as u128).checked_mul(f.num) {
        None => {
            proof {
                let x = v as nat * f.num;
                let d = f.den as int;
                lemma_fundamental_div_mod(x as int, d);
                let q = x as int / d;
                let m = x as int % d;
                assert(x >= 0x1_0000_0000_0000_0000_0000_0000_0000_0000);
                if q <= QUANTITY_MAX {
                    assert(d * q <= 0xffff_ffff_ffff_ffff * 0xffff_ffff_ffff_ffff) by (nonlinear_arith)
                        requires
                            0 <= q <= 0xffff_ffff_ffff_ffff,
                            1 <= d <= 0xffff_ffff_ffff_ffff,
                    ;
                    assert(false);
                }
            }
            None
        },
        Some(p) => {
            let q = p / (f.den as u128);
            if q <= QUANTITY_MAX as u128 {
                Some(q as u64)
            } else {
                None
            }
        },
    }
}

impl Nutrition {
    /// The profile with every quantity zero.
    pub fn zero() -> (r: Nutrition)
        ensures
            r@ == NutritionModel::zero(),
    {
        Nutrition {
            energy: 0,
            protein: 0,
            fat: 0,
            fat_saturated: 0,
            carbs: 0,
            carbs_sugars: 0,
            fibre: 0,
            sodium: 0,
        }
    }

    /// Every quantity multiplied by `factor`, or `None` where one does not fit.
    pub fn checked_scale(self, factor: Factor) -> (r: Option<Nutrition>)
        requires
            factor.valid(),
        ensures
            r is Some <==> self@.scale(factor).fits(),
            r matches Some(n) ==> n@ == self@.scale(factor),
    {
        let energy = match scale_quantity(self.energy, factor) { Some(q) => q, None => return None };
        let protein = match scale_quantity(self.protein, factor) { Some(q) => q, None => return None };
        let fat = match scale_quantity(self.fat, factor) { Some(q) => q, None => return None };
        let fat_saturated = match scale_quantity(self.fat_saturated, factor) {
            Some(q) => q,
            None => return None,
        };
        let carbs = match scale_quantity(self.carbs, factor) { Some(q) => q, None => return None };
        let carbs_sugars = match scale_quantity(self.carbs_sugars, factor) {
            Some(q) => q,
            None => return None,
        };
        let fibre = match scale_quantity(self.fibre, factor) { Some(q) => q, None => return None };
        let sodium = match scale_quantity(self.sodium, factor) { Some(q) => q, None => return None };
        Some(Nutrition { energy, protein, fat, fat_saturated, carbs, carbs_sugars, fibre, sodium })
    }

    /// Every quantity multiplied by `factor`.
    pub fn scale(self, factor: Factor) -> (r: Nutrition)
        requires
            factor.valid(),
            self@.scale(factor).fits(),
        ensures
            r@ == self@.scale(factor),
    {
        match self.checked_scale(factor) {
            Some(n) => n,
            None => self,
        }
    }

    /// The pointwise sum, or `None` where one quantity does not fit.
    pub fn checked_add(self, rhs: Nutrition) -> (r: Option<Nutrition>)
        ensures
            r is Some <==> self@.add(rhs@).fits(),
            r matches Some(n) ==> n@ == self@.add(rhs@),
    {
        let energy = match self.energy.checked_add(rhs.energy) { Some(q) => q, None => return None };
        let protein = match self.protein.checked_add(rhs.protein) { Some(q) => q, None => return None };
        let fat = match self.fat.checked_add(rhs.fat) { Some(q) => q, None => return None };
        let fat_saturated = match self.fat_saturated.checked_add(rhs.fat_saturated) {
            Some(q) => q,
            None => return None,
        };
        let carbs = match self.carbs.checked_add(rhs.carbs) { Some(q) => q, None => return None };
        let carbs_sugars = match self.carbs_sugars.checked_add(rhs.carbs_sugars) {
            Some(q) => q,
            None => return None,
        };
        let fibre = match self.fibre.checked_add(rhs.fibre) { Some(q) => q, None => return None };
        let sodium = match self.sodium.checked_add(rhs.sodium) { Some(q) => q, None => return None };
        Some(Nutrition { energy, protein, fat, fat_saturated, carbs, carbs_sugars, fibre, sodium })
    }

    /// The pointwise sum.
    pub fn add(self, rhs: Nutrition) -> (r: Nutrition)
        requires
            self@.add(rhs@).fits(),
        ensures
            r@ == self@.add(rhs@),
    {
        match self.checked_add(rhs) {
            Some(n) => n,
            None => self,
        }
    }
}

/// Addition of nutrient profiles is commutative.
pub proof fn lemma_add_commutative(a: NutritionModel, b: NutritionModel)
    ensures
        a.add(b) == b.add(a),
{
}

/// Addition of nutrient profiles is associative.
pub proof fn lemma_add_associative(a: NutritionModel, b: NutritionModel, c: NutritionModel)
    ensures
        a.add(b).add(c) == a.add(b.add(c)),
{
}

/// The zero profile is the identity of addition.
pub proof fn lemma_add_zero(a: NutritionModel)
    ensures
        a.add(NutritionModel::zero()) == a,
        NutritionModel::zero().add(a) == a,
{
}

/// Scaling by one leaves a profile unchanged; scaling by zero gives the zero profile.
pub proof fn lemma_scale_one_and_zero(a: NutritionModel, one: Factor, zero: Factor)
    requires
        one.num == 1,
        one.den == 1,
        zero.num == 0,
        zero.den > 0,
    ensures
        a.scale(one) == a,
        a.scale(zero) == NutritionModel::zero(),
{
    assert forall|v: nat| #[trigger] one.apply(v) == v && zero.apply(v) == 0 by {
        assert(v * one.num == v);
        assert(v * zero.num == 0);
    }
}

} // verus!
