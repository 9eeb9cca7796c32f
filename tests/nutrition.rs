use zetanom::nutrition::{Factor, Nutrition};

fn profile(base: u64) -> Nutrition {
    Nutrition {
        energy: base,
        protein: base + 1,
        fat: base + 2,
        fat_saturated: base + 3,
        carbs: base + 4,
        carbs_sugars: base + 5,
        fibre: base + 6,
        sodium: base + 7,
    }
}

#[test]
fn add_is_commutative() {
    let a = profile(10);
    let b = profile(1000);
    assert_eq!(a.add(b), b.add(a));
    assert_eq!(a.add(b).energy, 1010);
    assert_eq!(a.add(b).sodium, 1024);
}

#[test]
fn add_is_associative() {
    let a = profile(3);
    let b = profile(40);
    let c = profile(500);
    assert_eq!(a.add(b).add(c), a.add(b.add(c)));
}

#[test]
fn add_zero_is_identity() {
    let a = profile(77);
    assert_eq!(a.add(Nutrition::zero()), a);
    assert_eq!(Nutrition::zero().add(a), a);
}

#[test]
fn scale_by_one_is_identity() {
    let a = profile(12345);
    assert_eq!(a.scale(Factor::one()), a);
}

#[test]
fn scale_by_zero_is_zero() {
    let a = profile(12345);
    assert_eq!(a.scale(Factor::zero()), Nutrition::zero());
}

#[test]
fn scale_rounds_down() {
    let a = profile(10);
    let r = a.scale(Factor { num: 3, den: 2 });
    assert_eq!(r.energy, 15);
    assert_eq!(r.protein, 16);
    assert_eq!(r.fat, 18);
    assert_eq!(r.sodium, 25);
}

#[test]
fn checked_scale_reports_overflow() {
    let a = profile(u64::MAX - 10);
    assert_eq!(a.checked_scale(Factor { num: 2, den: 1 }), None);
    assert_eq!(a.checked_scale(Factor { num: u128::MAX, den: 1 }), None);
    assert_eq!(a.checked_scale(Factor { num: 1, den: 2 }).map(|n| n.energy), Some((u64::MAX - 10) / 2));
}

#[test]
fn checked_add_reports_overflow() {
    let a = profile(u64::MAX - 10);
    let ten = Nutrition { energy: 10, ..Nutrition::zero() };
    let eleven = Nutrition { energy: 11, ..Nutrition::zero() };
    assert_eq!(a.checked_add(Nutrition::zero()), Some(a));
    assert_eq!(a.checked_add(ten).map(|n| n.energy), Some(u64::MAX));
    assert_eq!(a.checked_add(eleven), None);
    assert_eq!(a.checked_add(profile(100)), None);
}
