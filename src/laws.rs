use crate::date::Date;
use crate::db::{on_date, CreateFoodInput, DbModel, Entry, FoodId, ServingId, BASE_DIVISOR};
use crate::nutrition::{Factor, NutritionModel};
use vstd::prelude::*;

verus! {

/// A food that was just created is found under its new id with exactly the
/// fields it was created with.
pub proof fn lemma_create_food_round_trip(before: DbModel, input: CreateFoodInput, id: FoodId)
    requires
        before.valid(),
        id == before.next_food_id,
    ensures
        before.with_food(input.record(id)).food(id) == Some(input.record(id)),
{
    let after = before.with_food(input.record(id));
    let last = before.foods.len() as int;
    assert(after.foods[last].food_id == id);
    assert(after.has_food(id));
    let j = after.food_index(id);
    if j < last {
        assert(after.foods[j] == before.foods[j]);
        assert(before.foods[j].food_id < before.next_food_id);
    }
}

/// A table without entries on a date has none on it once filtered by it.
proof fn lemma_no_entries_on(s: Seq<Entry>, date: Date)
    requires
        forall|k: int| 0 <= k < s.len() ==> #[trigger] s[k].date != date,
    ensures
        on_date(s, date).len() == 0,
    decreases s.len(),
{
    if s.len() > 0 {
        lemma_no_entries_on(s.drop_last(), date);
        assert(s[s.len() - 1] == s.last());
    }
}

/// A date without entries has no entries and an all-zero total.
pub proof fn lemma_empty_day(m: DbModel, date: Date)
    requires
        forall|k: int| 0 <= k < m.entries.len() ==> #[trigger] m.entries[k].date != date,
    ensures
        m.entries_on(date).len() == 0,
        m.total(m.entries_on(date)) == NutritionModel::zero(),
{
    lemma_no_entries_on(m.entries, date);
}

/// Once a serving size is deleted, an entry that referred to it no longer resolves
/// a serving size: it counts its amount in units of its food's base unit.
pub proof fn lemma_deleted_serving_falls_back(m: DbModel, serving_id: ServingId, e: Entry)
    requires
        m.valid(),
        e.serving_id == Some(serving_id),
    ensures
        m.without_serving(serving_id).resolved_serving(e) is None,
        m.without_serving(serving_id).unit_factor(e) == (Factor {
            num: e.amount as u128,
            den: BASE_DIVISOR,
        }),
{
    let after = m.without_serving(serving_id);
    if m.has_serving(serving_id) {
        let i = m.serving_index(serving_id);
        if after.has_serving(serving_id) {
            let j = after.serving_index(serving_id);
            if j < i {
                assert(after.servings[j] == m.servings[j]);
                assert(m.servings[j].serving_id < m.servings[i].serving_id);
            } else {
                assert(after.servings[j] == m.servings[j + 1]);
                assert(m.servings[i].serving_id < m.servings[j + 1].serving_id);
            }
        }
    }
}

} // verus!
