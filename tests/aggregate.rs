use zetanom::date::Date;
use zetanom::db::{CreateEntryInput, CreateFoodInput, ServingInput, ServingUnit};
use zetanom::error::ErrorKind;
use zetanom::nutrition::Nutrition;
use zetanom::store::Db;

fn food_a(energy: u64) -> CreateFoodInput {
    CreateFoodInput {
        name: "Food A".to_string(),
        brand: String::new(),
        serving_unit: ServingUnit::Grams,
        energy,
        protein: 10_000,
        fat: 4_000,
        fat_saturated: 1_000,
        carbs: 20_000,
        carbs_sugars: 2_000,
        fibre: 3_000,
        sodium: 50_000,
        created_at: 0,
    }
}

fn day() -> Date {
    Date::new(2026, 1, 5).unwrap()
}

#[test]
fn aggregation_scenario() {
    let mut db = Db::new();
    let a = db.create_food(food_a(200_000)).unwrap();
    let half = db
        .create_serving(ServingInput { food_id: a, serving_name: "half".to_string(), serving_amount: 50_000, created_at: 0 })
        .unwrap();
    db.create_entry(CreateEntryInput { date: day(), food_id: a, serving_id: None, amount: 150_000, created_at: 1 }).unwrap();
    db.create_entry(CreateEntryInput { date: day(), food_id: a, serving_id: Some(half), amount: 2_000, created_at: 2 }).unwrap();
    let entries = db.list_entries(day());
    assert_eq!(entries.len(), 2);
    let first = db.entry_nutrition(&entries[0]).unwrap();
    let second = db.entry_nutrition(&entries[1]).unwrap();
    assert_eq!(first.energy, 300_000);
    assert_eq!(second.energy, 200_000);
    assert_eq!(first.protein, 15_000);
    assert_eq!(second.protein, 10_000);
    let f1 = db.entry_factor(&entries[0]);
    assert_eq!((f1.num, f1.den), (150_000, 100_000));
    let f2 = db.entry_factor(&entries[1]);
    assert_eq!((f2.num, f2.den), (100_000_000, 100_000_000));
    let total = db.calculate_totals(&entries).unwrap();
    assert_eq!(total.energy, 500_000);
    assert_eq!(total.protein, 25_000);
    assert_eq!(total.sodium, 125_000);
    assert_eq!(db.daily_totals(day()).unwrap(), total);
}

#[test]
fn empty_day_has_zero_total() {
    let mut db = Db::new();
    let a = db.create_food(food_a(200_000)).unwrap();
    db.create_entry(CreateEntryInput { date: day(), food_id: a, serving_id: None, amount: 150_000, created_at: 1 }).unwrap();
    let other = Date::new(2026, 1, 6).unwrap();
    assert!(db.list_entries(other).is_empty());
    assert_eq!(db.daily_totals(other).unwrap(), Nutrition::zero());
    assert_eq!(db.calculate_totals(&Vec::new()).unwrap(), Nutrition::zero());
}

#[test]
fn deleted_serving_falls_back_to_base_unit() {
    let mut db = Db::new();
    let a = db.create_food(food_a(200_000)).unwrap();
    let half = db
        .create_serving(ServingInput { food_id: a, serving_name: "half".to_string(), serving_amount: 50_000, created_at: 0 })
        .unwrap();
    db.create_entry(CreateEntryInput { date: day(), food_id: a, serving_id: Some(half), amount: 2_000, created_at: 2 }).unwrap();
    assert_eq!(db.daily_totals(day()).unwrap().energy, 200_000);
    let before = db.list_entries(day());
    assert_eq!(db.entry_unit_label(&before[0]).unwrap(), "half");
    db.delete_serving(half);
    let entries = db.list_entries(day());
    assert_eq!(entries[0].serving_id, Some(half));
    let f = db.entry_factor(&entries[0]);
    assert_eq!((f.num, f.den), (2_000, 100_000));
    assert_eq!(db.entry_unit_label(&entries[0]).unwrap(), "g");
    assert_eq!(db.daily_totals(day()).unwrap().energy, 4_000);
}

#[test]
fn zero_amount_contributes_nothing() {
    let mut db = Db::new();
    let a = db.create_food(food_a(200_000)).unwrap();
    db.create_entry(CreateEntryInput { date: day(), food_id: a, serving_id: None, amount: 0, created_at: 1 }).unwrap();
    assert_eq!(db.daily_totals(day()).unwrap(), Nutrition::zero());
}

#[test]
fn totals_that_do_not_fit_are_overflow_errors() {
    let mut db = Db::new();
    let a = db.create_food(food_a(u64::MAX / 2)).unwrap();
    db.create_entry(CreateEntryInput { date: day(), food_id: a, serving_id: None, amount: 100_000, created_at: 1 }).unwrap();
    assert_eq!(db.daily_totals(day()).unwrap().energy, u64::MAX / 2);
    db.create_entry(CreateEntryInput { date: day(), food_id: a, serving_id: None, amount: 300_000, created_at: 2 }).unwrap();
    assert_eq!(db.daily_totals(day()).unwrap_err().kind, ErrorKind::Overflow);
}

#[test]
fn entry_of_an_unknown_food_is_not_found() {
    let mut db = Db::new();
    let a = db.create_food(food_a(200_000)).unwrap();
    db.create_entry(CreateEntryInput { date: day(), food_id: a, serving_id: None, amount: 1_000, created_at: 1 }).unwrap();
    let mut entries = db.list_entries(day());
    entries[0].food_id = a + 7;
    assert_eq!(db.calculate_totals(&entries).unwrap_err().kind, ErrorKind::NotFound);
    assert_eq!(db.entry_nutrition(&entries[0]).unwrap_err().kind, ErrorKind::NotFound);
    assert_eq!(db.entry_unit_label(&entries[0]).unwrap_err().kind, ErrorKind::NotFound);
}
