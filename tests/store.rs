use zetanom::date::Date;
use zetanom::db::{CreateEntryInput, CreateFoodInput, EditFoodInput, ServingInput, ServingUnit};
use zetanom::error::{AppError, ErrorKind};
use zetanom::store::Db;

fn food(name: &str, brand: &str, energy: u64, at: i64) -> CreateFoodInput {
    CreateFoodInput {
        name: name.to_string(),
        brand: brand.to_string(),
        serving_unit: ServingUnit::Grams,
        energy,
        protein: 1_500,
        fat: 2_250,
        fat_saturated: 1_000,
        carbs: 30_000,
        carbs_sugars: 5_000,
        fibre: 4_000,
        sodium: 120_000,
        created_at: at,
    }
}

fn day(d: u32) -> Date {
    Date::new(2026, 1, d).unwrap()
}

fn entry(date: Date, food_id: i64, serving_id: Option<i64>, amount: u64, at: i64) -> CreateEntryInput {
    CreateEntryInput { date, food_id, serving_id, amount, created_at: at }
}

#[test]
fn serving_unit_tokens() {
    assert_eq!(ServingUnit::Grams.as_str(), "g");
    assert_eq!(ServingUnit::Milliliters.as_str(), "ml");
    assert_eq!(ServingUnit::try_from_str("g").unwrap(), ServingUnit::Grams);
    assert_eq!(ServingUnit::try_from_str("ml").unwrap(), ServingUnit::Milliliters);
    assert_eq!(ServingUnit::try_from_str("kg").unwrap_err().kind, ErrorKind::Validation);
    assert_eq!(ServingUnit::try_from_str("").unwrap_err().kind, ErrorKind::Validation);
    assert_eq!(ServingUnit::try_from_str("G").unwrap_err().kind, ErrorKind::Validation);
}

#[test]
fn app_error_text() {
    let e = AppError::new("lock failed");
    assert_eq!(e.kind, ErrorKind::Storage);
    assert_eq!(e.to_display_string(), "Error: lock failed");
    assert_eq!(AppError::with_kind(ErrorKind::NotFound, "x").kind, ErrorKind::NotFound);
}

#[test]
fn create_then_get_food_round_trips() {
    let mut db = Db::new();
    let mut input = food("Oats", "Acme", 389_000, 1_000);
    input.serving_unit = ServingUnit::Milliliters;
    let id = db.create_food(input).unwrap();
    let f = db.get_food(id).unwrap();
    assert_eq!(f.food_id, id);
    assert_eq!(f.name, "Oats");
    assert_eq!(f.brand, "Acme");
    assert_eq!(f.serving_unit, ServingUnit::Milliliters);
    assert_eq!(f.energy, 389_000);
    assert_eq!(f.protein, 1_500);
    assert_eq!(f.fat, 2_250);
    assert_eq!(f.fat_saturated, 1_000);
    assert_eq!(f.carbs, 30_000);
    assert_eq!(f.carbs_sugars, 5_000);
    assert_eq!(f.fibre, 4_000);
    assert_eq!(f.sodium, 120_000);
    assert_eq!(f.created_at, 1_000);
    assert_eq!(db.count_foods(), 1);
}

#[test]
fn ids_are_handed_out_in_order() {
    let mut db = Db::new();
    let a = db.create_food(food("A", "", 1, 0)).unwrap();
    let b = db.create_food(food("B", "", 1, 0)).unwrap();
    assert_eq!(a, 1);
    assert_eq!(b, 2);
}

#[test]
fn get_missing_food_is_not_found() {
    let db = Db::new();
    assert_eq!(db.get_food(1).err().unwrap().kind, ErrorKind::NotFound);
}

#[test]
fn empty_food_name_is_rejected() {
    let mut db = Db::new();
    assert_eq!(db.create_food(food("", "Acme", 1, 0)).unwrap_err().kind, ErrorKind::Validation);
    assert_eq!(db.count_foods(), 0);
}

#[test]
fn edit_food_overwrites_fields() {
    let mut db = Db::new();
    let id = db.create_food(food("Oats", "Acme", 389_000, 1_000)).unwrap();
    let edit = EditFoodInput {
        food_id: id,
        name: "Rolled oats".to_string(),
        brand: String::new(),
        serving_unit: ServingUnit::Grams,
        energy: 370_000,
        protein: 13_000,
        fat: 7_000,
        fat_saturated: 1_200,
        carbs: 60_000,
        carbs_sugars: 1_000,
        fibre: 10_000,
        sodium: 2_000,
    };
    db.edit_food(edit).unwrap();
    let f = db.get_food(id).unwrap();
    assert_eq!(f.name, "Rolled oats");
    assert_eq!(f.brand, "");
    assert_eq!(f.energy, 370_000);
    assert_eq!(f.sodium, 2_000);
    assert_eq!(f.created_at, 1_000);
}

#[test]
fn edit_missing_food_is_not_found() {
    let mut db = Db::new();
    let edit = EditFoodInput {
        food_id: 5,
        name: "X".to_string(),
        brand: String::new(),
        serving_unit: ServingUnit::Grams,
        energy: 0,
        protein: 0,
        fat: 0,
        fat_saturated: 0,
        carbs: 0,
        carbs_sugars: 0,
        fibre: 0,
        sodium: 0,
    };
    assert_eq!(db.edit_food(edit).unwrap_err().kind, ErrorKind::NotFound);
}

#[test]
fn list_foods_is_ordered_by_name() {
    let mut db = Db::new();
    let c = db.create_food(food("banana", "", 1, 0)).unwrap();
    let a = db.create_food(food("Apple", "", 1, 0)).unwrap();
    let b = db.create_food(food("Apple", "Other", 1, 0)).unwrap();
    let d = db.create_food(food("Zucchini", "", 1, 0)).unwrap();
    let list = db.list_foods();
    let ids: Vec<i64> = list.iter().map(|f| f.food_id).collect();
    assert_eq!(ids, vec![a, b, d, c]);
    assert_eq!(list[1].brand, "Other");
    assert_eq!(list[3].name, "banana");
}

#[test]
fn serving_needs_positive_amount_and_food() {
    let mut db = Db::new();
    let f = db.create_food(food("Milk", "", 64_000, 0)).unwrap();
    let zero = ServingInput { food_id: f, serving_name: "cup".to_string(), serving_amount: 0, created_at: 0 };
    assert_eq!(db.create_serving(zero).unwrap_err().kind, ErrorKind::Validation);
    let orphan = ServingInput { food_id: f + 1, serving_name: "cup".to_string(), serving_amount: 240_000, created_at: 0 };
    assert_eq!(db.create_serving(orphan).unwrap_err().kind, ErrorKind::NotFound);
    assert!(db.list_servings(f).is_empty());
}

#[test]
fn list_servings_is_ordered_by_name() {
    let mut db = Db::new();
    let f = db.create_food(food("Milk", "", 64_000, 0)).unwrap();
    let g = db.create_food(food("Bread", "", 250_000, 0)).unwrap();
    let s1 = db.create_serving(ServingInput { food_id: f, serving_name: "glass".to_string(), serving_amount: 200_000, created_at: 0 }).unwrap();
    let s2 = db.create_serving(ServingInput { food_id: g, serving_name: "slice".to_string(), serving_amount: 30_000, created_at: 0 }).unwrap();
    let s3 = db.create_serving(ServingInput { food_id: f, serving_name: "cup".to_string(), serving_amount: 240_000, created_at: 0 }).unwrap();
    let list = db.list_servings(f);
    let ids: Vec<i64> = list.iter().map(|s| s.serving_id).collect();
    assert_eq!(ids, vec![s3, s1]);
    assert_eq!(list[0].serving_name, "cup");
    assert_eq!(list[0].serving_amount, 240_000);
    assert_eq!(db.list_servings(g).len(), 1);
    assert_eq!(db.list_servings(g)[0].serving_id, s2);
    assert_eq!(db.get_serving_by_id(s2).unwrap().serving_name, "slice");
}

#[test]
fn delete_serving_is_a_no_op_when_absent() {
    let mut db = Db::new();
    let f = db.create_food(food("Milk", "", 64_000, 0)).unwrap();
    let s = db.create_serving(ServingInput { food_id: f, serving_name: "cup".to_string(), serving_amount: 240_000, created_at: 0 }).unwrap();
    db.delete_serving(s + 100);
    assert_eq!(db.list_servings(f).len(), 1);
    db.delete_serving(s);
    assert!(db.list_servings(f).is_empty());
    assert_eq!(db.get_serving_by_id(s).err().unwrap().kind, ErrorKind::NotFound);
}

#[test]
fn entry_with_serving_of_another_food_is_an_integrity_error() {
    let mut db = Db::new();
    let a = db.create_food(food("A", "", 100_000, 0)).unwrap();
    let b = db.create_food(food("B", "", 100_000, 0)).unwrap();
    let sb = db.create_serving(ServingInput { food_id: b, serving_name: "piece".to_string(), serving_amount: 10_000, created_at: 0 }).unwrap();
    let err = db.create_entry(entry(day(5), a, Some(sb), 1_000, 0)).unwrap_err();
    assert_eq!(err.kind, ErrorKind::Integrity);
    assert!(db.list_entries(day(5)).is_empty());
    assert!(db.create_entry(entry(day(5), b, Some(sb), 1_000, 0)).is_ok());
}

#[test]
fn entry_with_missing_references_is_not_found() {
    let mut db = Db::new();
    let a = db.create_food(food("A", "", 100_000, 0)).unwrap();
    assert_eq!(db.create_entry(entry(day(5), a + 1, None, 1_000, 0)).unwrap_err().kind, ErrorKind::NotFound);
    assert_eq!(db.create_entry(entry(day(5), a, Some(99), 1_000, 0)).unwrap_err().kind, ErrorKind::NotFound);
}

#[test]
fn list_entries_is_ordered_by_creation_time() {
    let mut db = Db::new();
    let a = db.create_food(food("A", "", 100_000, 0)).unwrap();
    let e1 = db.create_entry(entry(day(5), a, None, 1_000, 300)).unwrap();
    let e2 = db.create_entry(entry(day(5), a, None, 1_000, 100)).unwrap();
    let _other = db.create_entry(entry(day(6), a, None, 1_000, 50)).unwrap();
    let e3 = db.create_entry(entry(day(5), a, None, 1_000, 200)).unwrap();
    let e4 = db.create_entry(entry(day(5), a, None, 1_000, 100)).unwrap();
    let ids: Vec<i64> = db.list_entries(day(5)).iter().map(|e| e.entry_id).collect();
    assert_eq!(ids, vec![e2, e4, e3, e1]);
    assert_eq!(db.list_entries(day(6)).len(), 1);
}

#[test]
fn delete_entry_removes_it() {
    let mut db = Db::new();
    let a = db.create_food(food("A", "", 100_000, 0)).unwrap();
    let e1 = db.create_entry(entry(day(5), a, None, 1_000, 1)).unwrap();
    let e2 = db.create_entry(entry(day(5), a, None, 1_000, 2)).unwrap();
    db.delete_entry(e1);
    db.delete_entry(e1);
    let ids: Vec<i64> = db.list_entries(day(5)).iter().map(|e| e.entry_id).collect();
    assert_eq!(ids, vec![e2]);
}
