use crate::date::Date;
use crate::db::{
    lemma_entry_at, lemma_food_at, lemma_remove_keeps_entry_order, lemma_remove_keeps_serving_order,
    lemma_serving_at, CreateEntryInput, CreateFoodInput, DbModel,
    EditFoodInput, Entry, EntryId, FoodEntry, FoodId, FoodListEntry, Serving, ServingId,
    ServingInput, FIRST_ID, entry_before, entries_in_order, named_before, foods_in_order,
    servings_in_order, summaries, on_date, serving_records, lemma_named_before_total, ServingRecord,
};
use crate::error::{AppError, ErrorKind};
use crate::text::text_less;
use vstd::prelude::*;

verus! {

/// The store: foods, serving sizes and log entries, held in memory.
pub struct Db {
    foods: Vec<FoodEntry>,
    servings: Vec<Serving>,
    entries: Vec<Entry>,
    next_food_id: FoodId,
    next_serving_id: ServingId,
    next_entry_id: EntryId,
}

/// Inserts `x` into `res` at its place in log order.
fn insert_entry_in_order(res: &mut Vec<Entry>, x: Entry)
    requires
        entries_in_order(old(res)@),
        forall|k: int| 0 <= k < old(res)@.len() ==> #[trigger] old(res)@[k].entry_id < x.entry_id,
    ensures
        entries_in_order(final(res)@),
        forall|e: Entry| final(res)@.contains(e) <==> (old(res)@.contains(e) || e == x),
{
    let mut q: usize = 0;
    while q < res.len() && !(x.created_at < res[q].created_at || (x.created_at
        == res[q].created_at && x.entry_id < res[q].entry_id))
        invariant
            q <= res.len(),
            res@ == old(res)@,
            forall|k: int| 0 <= k < q ==> !entry_before(x, #[trigger] res@[k]),
        decreases res.len() - q,
    {
        q = q + 1;
    }
    let ghost before = res@;
    res.insert(q, x);
    proof {
        let after = res@;
        before.insert_ensures(q as int, x);
        assert forall|k: int| 0 <= k < after.len() - 1 implies #[trigger] entry_before(
            after[k],
            after[k + 1],
        ) by {
            if k + 1 < q {
                assert(entry_before(before[k], before[k + 1]));
            } else if k + 1 == q {
                assert(!entry_before(x, before[k]));
                assert(before[k].entry_id < x.entry_id);
            } else if k == q {
            } else {
                assert(after[k] == before[k - 1]);
                assert(entry_before(before[k - 1], before[k]));
            }
        }
        assert forall|e: Entry| after.contains(e) <==> (before.contains(e) || e == x) by {
            if after.contains(e) {
                let t = choose|t: int| 0 <= t < after.len() && #[trigger] after[t] == e;
                if t < q {
                    assert(before[t] == e);
                } else if t > q {
                    assert(before[t - 1] == e);
                }
            }
            if before.contains(e) {
                let t = choose|t: int| 0 <= t < before.len() && #[trigger] before[t] == e;
                if t < q {
                    assert(after[t] == e);
                } else {
                    assert(after[t + 1] == e);
                }
            }
            if e == x {
                assert(after[q as int] == x);
            }
        }
    }
}

/// Whether `(a_name, a_id)` comes before `(b_name, b_id)` in name order.
fn named_less(a_name: &String, a_id: i64, b_name: &String, b_id: i64) -> (r: bool)
    ensures
        r == named_before(a_name@, a_id, b_name@, b_id),
{
    text_less(a_name.as_str(), b_name.as_str()) || (*a_name == *b_name && a_id < b_id)
}

/// Inserts `x` into `res` at its place in name order.
fn insert_food_in_order(res: &mut Vec<FoodListEntry>, x: FoodListEntry)
    requires
        foods_in_order(summaries(old(res)@)),
        forall|k: int| 0 <= k < old(res)@.len() ==> #[trigger] old(res)@[k].food_id < x.food_id,
    ensures
        foods_in_order(summaries(final(res)@)),
        forall|e| summaries(final(res)@).contains(e) <==> (summaries(old(res)@).contains(e) || e
            == x@),
{
    let mut q: usize = 0;
    while q < res.len() && !named_less(&x.name, x.food_id, &res[q].name, res[q].food_id)
        invariant
            q <= res.len(),
            res@ == old(res)@,
            forall|k: int|
                0 <= k < q ==> !named_before(x.name@, x.food_id, #[trigger] res@[k].name@, res@[k].food_id),
        decreases res.len() - q,
    {
        q = q + 1;
    }
    let ghost before = summaries(res@);
    let ghost xv = x@;
    res.insert(q, x);
    proof {
        let after = summaries(res@);
        before.insert_ensures(q as int, xv);
        assert(after =~= before.insert(q as int, xv));
        assert forall|k: int| 0 <= k < after.len() - 1 implies #[trigger] named_before(
            after[k].1,
            after[k].0,
            after[k + 1].1,
            after[k + 1].0,
        ) by {
            if k + 1 < q {
                assert(named_before(before[k].1, before[k].0, before[k + 1].1, before[k + 1].0));
            } else if k + 1 == q {
                assert(!named_before(xv.1, xv.0, before[k].1, before[k].0));
                lemma_named_before_total(xv.1, xv.0, before[k].1, before[k].0);
            } else if k == q {
            } else {
                assert(after[k] == before[k - 1]);
                assert(named_before(before[k - 1].1, before[k - 1].0, before[k].1, before[k].0));
            }
        }
        assert forall|e| after.contains(e) <==> (before.contains(e) || e == xv) by {
            if after.contains(e) {
                let t = choose|t: int| 0 <= t < after.len() && #[trigger] after[t] == e;
                if t < q {
                    assert(before[t] == e);
                } else if t > q {
                    assert(before[t - 1] == e);
                }
            }
            if before.contains(e) {
                let t = choose|t: int| 0 <= t < before.len() && #[trigger] before[t] == e;
                if t < q {
                    assert(after[t] == e);
                } else {
                    assert(after[t + 1] == e);
                }
            }
            if e == xv {
                assert(after[q as int] == xv);
            }
        }
    }
}

/// Inserts `x` into `res` at its place in name order.
fn insert_serving_in_order(res: &mut Vec<Serving>, x: Serving)
    requires
        servings_in_order(serving_records(old(res)@)),
        forall|k: int| 0 <= k < old(res)@.len() ==> #[trigger] old(res)@[k].serving_id < x.serving_id,
    ensures
        servings_in_order(serving_records(final(res)@)),
        forall|e| serving_records(final(res)@).contains(e) <==> (serving_records(old(res)@).contains(e) || e
            == x@),
{
    let mut q: usize = 0;
    while q < res.len() && !named_less(&x.serving_name, x.serving_id, &res[q].serving_name, res[q].serving_id)
        invariant
            q <= res.len(),
            res@ == old(res)@,
            forall|k: int|
                0 <= k < q ==> !named_before(x.serving_name@, x.serving_id, #[trigger] res@[k].serving_name@, res@[k].serving_id),
        decreases res.len() - q,
    {
        q = q + 1;
    }
    let ghost before = serving_records(res@);
    let ghost xv = x@;
    res.insert(q, x);
    proof {
        let after = serving_records(res@);
        before.insert_ensures(q as int, xv);
        assert(after =~= before.insert(q as int, xv));
        assert forall|k: int| 0 <= k < after.len() - 1 implies #[trigger] named_before(
            after[k].name,
            after[k].serving_id,
            after[k + 1].name,
            after[k + 1].serving_id,
        ) by {
            if k + 1 < q {
                assert(named_before(before[k].name, before[k].serving_id, before[k + 1].name, before[k + 1].serving_id));
            } else if k + 1 == q {
                assert(!named_before(xv.name, xv.serving_id, before[k].name, before[k].serving_id));
                lemma_named_before_total(xv.name, xv.serving_id, before[k].name, before[k].serving_id);
            } else if k == q {
            } else {
                assert(after[k] == before[k - 1]);
                assert(named_before(before[k - 1].name, before[k - 1].serving_id, before[k].name, before[k].serving_id));
            }
        }
        assert forall|e| after.contains(e) <==> (before.contains(e) || e == xv) by {
            if after.contains(e) {
                let t = choose|t: int| 0 <= t < after.len() && #[trigger] after[t] == e;
                if t < q {
                    assert(before[t] == e);
                } else if t > q {
                    assert(before[t - 1] == e);
                }
            }
            if before.contains(e) {
                let t = choose|t: int| 0 <= t < before.len() && #[trigger] before[t] == e;
                if t < q {
                    assert(after[t] == e);
                } else {
                    assert(after[t + 1] == e);
                }
            }
            if e == xv {
                assert(after[q as int] == xv);
            }
        }
    }
}

/// A copy of a food.
fn copy_food(f: &FoodEntry) -> (r: FoodEntry)
    ensures
        r@ == f@,
{
    FoodEntry {
        food_id: f.food_id,
        name: f.name.clone(),
        brand: f.brand.clone(),
        serving_unit: f.serving_unit,
        energy: f.energy,
        protein: f.protein,
        fat: f.fat,
        fat_saturated: f.fat_saturated,
        carbs: f.carbs,
        carbs_sugars: f.carbs_sugars,
        fibre: f.fibre,
        sodium: f.sodium,
        created_at: f.created_at,
    }
}

/// A copy of a serving size.
fn copy_serving(s: &Serving) -> (r: Serving)
    ensures
        r@ == s@,
{
    Serving {
        serving_id: s.serving_id,
        food_id: s.food_id,
        serving_name: s.serving_name.clone(),
        serving_amount: s.serving_amount,
        created_at: s.created_at,
    }
}

impl View for Db {
    type V = DbModel;

    closed spec fn view(&self) -> DbModel {
        DbModel {
            foods: self.foods@.map_values(|f: FoodEntry| f@),
            servings: self.servings@.map_values(|s: Serving| s@),
            entries: self.entries@,
            next_food_id: self.next_food_id,
            next_serving_id: self.next_serving_id,
            next_entry_id: self.next_entry_id,
        }
    }
}

impl Db {
    /// The store is in a valid state.
    pub open spec fn wf(&self) -> bool {
        self@.valid()
    }

    /// An empty store.
    pub fn new() -> (r: Db)
        ensures
            r.wf(),
            r@.foods.len() == 0,
            r@.servings.len() == 0,
            r@.entries.len() == 0,
            r@.next_food_id == FIRST_ID,
            r@.next_serving_id == FIRST_ID,
            r@.next_entry_id == FIRST_ID,
    {
        let r = Db {
            foods: Vec::new(),
            servings: Vec::new(),
            entries: Vec::new(),
            next_food_id: FIRST_ID,
            next_serving_id: FIRST_ID,
            next_entry_id: FIRST_ID,
        };
        assert(r@.foods =~= Seq::empty());
        assert(r@.servings =~= Seq::empty());
        r
    }

    /// The number of foods in the library.
    pub fn count_foods(&self) -> (r: usize)
        ensures
            r == self@.foods.len(),
    {
        self.foods.len()
    }

    /// The position of the food with this id.
    pub(crate) fn find_food(&self, id: FoodId) -> (r: Option<usize>)
        requires
            self.wf(),
        ensures
            r is Some <==> self@.has_food(id),
            r matches Some(i) ==> i < self@.foods.len() && self@.food_index(id) == i
                && self@.foods[i as int].food_id == id,
    {
        let mut i: usize = 0;
        while i < self.foods.len()
            invariant
                self.wf(),
                i <= self.foods.len(),
                forall|j: int| 0 <= j < i ==> #[trigger] self@.foods[j].food_id != id,
            decreases self.foods.len() - i,
        {
            if self.foods[i].food_id == id {
                proof { lemma_food_at(self@, i as int); }
                return Some(i);
            }
            i = i + 1;
        }
        None
    }

    /// The position of the serving size with this id.
    pub(crate) fn find_serving(&self, id: ServingId) -> (r: Option<usize>)
        requires
            self.wf(),
        ensures
            r is Some <==> self@.has_serving(id),
            r matches Some(i) ==> i < self@.servings.len() && self@.serving_index(id) == i
                && self@.servings[i as int].serving_id == id,
    {
        let mut i: usize = 0;
        while i < self.servings.len()
            invariant
                self.wf(),
                i <= self.servings.len(),
                forall|j: int| 0 <= j < i ==> #[trigger] self@.servings[j].serving_id != id,
            decreases self.servings.len() - i,
        {
            if self.servings[i].serving_id == id {
                proof { lemma_serving_at(self@, i as int); }
                return Some(i);
            }
            i = i + 1;
        }
        None
    }

    /// The position of the entry with this id.
    fn find_entry(&self, id: EntryId) -> (r: Option<usize>)
        requires
            self.wf(),
        ensures
            r is Some <==> self@.has_entry(id),
            r matches Some(i) ==> i < self@.entries.len() && self@.entry_index(id) == i,
    {
        let mut i: usize = 0;
        while i < self.entries.len()
            invariant
                self.wf(),
                i <= self.entries.len(),
                forall|j: int| 0 <= j < i ==> #[trigger] self@.entries[j].entry_id != id,
            decreases self.entries.len() - i,
        {
            if self.entries[i].entry_id == id {
                proof { lemma_entry_at(self@, i as int); }
                return Some(i);
            }
            i = i + 1;
        }
        None
    }

    /// The food at a position of the table.
    pub(crate) fn food_at(&self, i: usize) -> (r: &FoodEntry)
        requires
            i < self@.foods.len(),
        ensures
            r@ == self@.foods[i as int],
    {
        &self.foods[i]
    }

    /// The serving size at a position of the table.
    pub(crate) fn serving_at(&self, i: usize) -> (r: &Serving)
        requires
            i < self@.servings.len(),
        ensures
            r@ == self@.servings[i as int],
    {
        &self.servings[i]
    }

    /// The serving size with this id, or a not-found error.
    pub fn get_serving_by_id(&self, serving_id: ServingId) -> (r: Result<Serving, AppError>)
        requires
            self.wf(),
        ensures
            r is Ok <==> self@.has_serving(serving_id),
            r matches Ok(s) ==> self@.serving(serving_id) == Some(s@),
            r matches Err(e) ==> e.kind == ErrorKind::NotFound,
    {
        match self.find_serving(serving_id) {
            Some(i) => Ok(copy_serving(&self.servings[i])),
            None => Err(AppError::with_kind(ErrorKind::NotFound, "no serving with this id")),
        }
    }

    /// The entries on a date, in the order of the table.
    pub(crate) fn entries_on(&self, date: Date) -> (r: Vec<Entry>)
        requires
            self.wf(),
        ensures
            r@ == self@.entries_on(date),
    {
        let mut res: Vec<Entry> = Vec::new();
        let mut i: usize = 0;
        assert(self@.entries.take(0) =~= Seq::<Entry>::empty());
        while i < self.entries.len()
            invariant
                i <= self.entries.len(),
                res@ == on_date(self@.entries.take(i as int), date),
            decreases self.entries.len() - i,
        {
            assert(self@.entries.take(i + 1).drop_last() =~= self@.entries.take(i as int));
            if self.entries[i].date == date {
                res.push(self.entries[i]);
            }
            i = i + 1;
        }
        assert(self@.entries.take(self@.entries.len() as int) =~= self@.entries);
        res
    }

    /// The food with this id, or a not-found error.
    pub fn get_food(&self, food_id: FoodId) -> (r: Result<FoodEntry, AppError>)
        requires
            self.wf(),
        ensures
            r is Ok <==> self@.has_food(food_id),
            r matches Ok(f) ==> self@.food(food_id) == Some(f@),
            r matches Err(e) ==> e.kind == ErrorKind::NotFound,
    {
        match self.find_food(food_id) {
            Some(i) => Ok(copy_food(&self.foods[i])),
            None => Err(AppError::with_kind(ErrorKind::NotFound, "no food with this id")),
        }
    }

    /// Adds a food under the next food id and returns that id. An empty name is a
    /// validation error; exhausted ids are a storage error.
    pub fn create_food(&mut self, input: CreateFoodInput) -> (r: Result<FoodId, AppError>)
        requires
            old(self).wf(),
        ensures
            final(self).wf(),
            r is Ok <==> (input.name@.len() > 0 && old(self)@.next_food_id < i64::MAX),
            r matches Ok(id) ==> id == old(self)@.next_food_id && final(self)@ == old(
                self,
            )@.with_food(input.record(id)),
            r matches Err(e) ==> final(self)@ == old(self)@ && e.kind == (if input.name@.len()
                == 0 {
                ErrorKind::Validation
            } else {
                ErrorKind::Storage
            }),
    {
        if input.name.as_str().unicode_len() == 0 {
            return Err(AppError::with_kind(ErrorKind::Validation, "a food needs a name"));
        }
        if self.next_food_id == i64::MAX {
            return Err(AppError::with_kind(ErrorKind::Storage, "no food id is left"));
        }
        let id = self.next_food_id;
        let ghost rec = input.record(id);
        let ghost before = self@;
        let food = FoodEntry {
            food_id: id,
            name: input.name,
            brand: input.brand,
            serving_unit: input.serving_unit,
            energy: input.energy,
            protein: input.protein,
            fat: input.fat,
            fat_saturated: input.fat_saturated,
            carbs: input.carbs,
            carbs_sugars: input.carbs_sugars,
            fibre: input.fibre,
            sodium: input.sodium,
            created_at: input.created_at,
        };
        assert(food@ == rec);
        self.foods.push(food);
        self.next_food_id = id + 1;
        assert(self@.foods =~= before.foods.push(rec));
        assert(self@ == before.with_food(rec));
        proof {
            let m = self@;
            assert forall|j: int| 0 <= j < m.servings.len() implies m.has_food(
                #[trigger] m.servings[j].food_id,
            ) by {
                let k = choose|k: int|
                    0 <= k < before.foods.len() && #[trigger] before.foods[k].food_id
                        == m.servings[j].food_id;
                assert(m.foods[k] == before.foods[k]);
            }
            assert forall|j: int| 0 <= j < m.entries.len() implies m.has_food(
                #[trigger] m.entries[j].food_id,
            ) by {
                let k = choose|k: int|
                    0 <= k < before.foods.len() && #[trigger] before.foods[k].food_id
                        == m.entries[j].food_id;
                assert(m.foods[k] == before.foods[k]);
            }
        }
        Ok(id)
    }

    /// Overwrites every editable field of the food with the input's id. A missing
    /// food is a not-found error; an empty name a validation error.
    pub fn edit_food(&mut self, input: EditFoodInput) -> (r: Result<(), AppError>)
        requires
            old(self).wf(),
        ensures
            final(self).wf(),
            r is Ok <==> (old(self)@.has_food(input.food_id) && input.name@.len() > 0),
            r is Ok ==> final(self)@ == old(self)@.with_food_edited(&input),
            r matches Err(e) ==> final(self)@ == old(self)@ && e.kind == (if !old(
                self,
            )@.has_food(input.food_id) {
                ErrorKind::NotFound
            } else {
                ErrorKind::Validation
            }),
    {
        let i = match self.find_food(input.food_id) {
            Some(i) => i,
            None => return Err(AppError::with_kind(ErrorKind::NotFound, "no food with this id")),
        };
        if input.name.as_str().unicode_len() == 0 {
            return Err(AppError::with_kind(ErrorKind::Validation, "a food needs a name"));
        }
        let ghost before = self@;
        let ghost edited = before.with_food_edited(&input);
        let ghost new_rec = input.apply(before.foods[i as int]);
        let created_at = self.foods[i].created_at;
        let food = FoodEntry {
            food_id: input.food_id,
            name: input.name,
            brand: input.brand,
            serving_unit: input.serving_unit,
            energy: input.energy,
            protein: input.protein,
            fat: input.fat,
            fat_saturated: input.fat_saturated,
            carbs: input.carbs,
            carbs_sugars: input.carbs_sugars,
            fibre: input.fibre,
            sodium: input.sodium,
            created_at,
        };
        assert(food@ == new_rec);
        self.foods.set(i, food);
        proof {
            assert forall|k: int| 0 <= k < before.foods.len() implies #[trigger] self@.foods[k]
                == edited.foods[k] by {
                if k != i as int {
                    if k < i {
                        assert(before.foods[k].food_id < before.foods[i as int].food_id);
                    } else {
                        assert(before.foods[i as int].food_id < before.foods[k].food_id);
                    }
                }
            }
            assert(self@.foods =~= edited.foods);
            assert(self@ == edited);
            let m = self@;
            assert forall|k: int| 0 <= k < m.foods.len() implies #[trigger] m.foods[k].food_id
                == before.foods[k].food_id by {}
            assert forall|j: int| 0 <= j < m.servings.len() implies m.has_food(
                #[trigger] m.servings[j].food_id,
            ) by {
                let k = choose|k: int|
                    0 <= k < before.foods.len() && #[trigger] before.foods[k].food_id
                        == m.servings[j].food_id;
                assert(m.foods[k].food_id == before.foods[k].food_id);
            }
            assert forall|j: int| 0 <= j < m.entries.len() implies m.has_food(
                #[trigger] m.entries[j].food_id,
            ) by {
                let k = choose|k: int|
                    0 <= k < before.foods.len() && #[trigger] before.foods[k].food_id
                        == m.entries[j].food_id;
                assert(m.foods[k].food_id == before.foods[k].food_id);
            }
        }
        Ok(())
    }

    /// Adds a serving size of a food under the next serving id and returns that
    /// id. A zero amount is a validation error, a missing food a not-found error,
    /// exhausted ids a storage error.
    pub fn create_serving(&mut self, input: ServingInput) -> (r: Result<ServingId, AppError>)
        requires
            old(self).wf(),
        ensures
            final(self).wf(),
            r is Ok <==> (input.serving_amount > 0 && old(self)@.has_food(input.food_id) && old(
                self,
            )@.next_serving_id < i64::MAX),
            r matches Ok(id) ==> id == old(self)@.next_serving_id && final(self)@ == old(
                self,
            )@.with_serving(input.record(id)),
            r matches Err(e) ==> final(self)@ == old(self)@ && e.kind == (if input.serving_amount
                == 0 {
                ErrorKind::Validation
            } else if !old(self)@.has_food(input.food_id) {
                ErrorKind::NotFound
            } else {
                ErrorKind::Storage
            }),
    {
        if input.serving_amount == 0 {
            return Err(AppError::with_kind(ErrorKind::Validation, "a serving needs a positive amount"));
        }
        if self.find_food(input.food_id).is_none() {
            return Err(AppError::with_kind(ErrorKind::NotFound, "no food with this id"));
        }
        if self.next_serving_id == i64::MAX {
            return Err(AppError::with_kind(ErrorKind::Storage, "no serving id is left"));
        }
        let id = self.next_serving_id;
        let ghost rec = input.record(id);
        let ghost before = self@;
        let serving = Serving {
            serving_id: id,
            food_id: input.food_id,
            serving_name: input.serving_name,
            serving_amount: input.serving_amount,
            created_at: input.created_at,
        };
        assert(serving@ == rec);
        self.servings.push(serving);
        self.next_serving_id = id + 1;
        assert(self@.servings =~= before.servings.push(rec));
        assert(self@ == before.with_serving(rec));
        Ok(id)
    }

    /// Removes the serving size with this id; nothing happens where there is none.
    /// Entries that refer to it are kept.
    pub fn delete_serving(&mut self, serving_id: ServingId)
        requires
            old(self).wf(),
        ensures
            final(self).wf(),
            final(self)@ == old(self)@.without_serving(serving_id),
    {
        if let Some(i) = self.find_serving(serving_id) {
            let ghost before = self@;
            self.servings.remove(i);
            proof {
                assert(self@.servings =~= before.servings.remove(i as int));
                assert(self@ == before.without_serving(serving_id));
                lemma_remove_keeps_serving_order(before.servings, i as int);
                let m = self@;
                assert forall|k: int| 0 <= k < m.servings.len() implies #[trigger] m.servings[k]
                    == before.servings[if k < i { k } else { k + 1 }] by {}
            }
        }
    }

    /// The summaries of all foods, in name order: by name, then by id.
    pub fn list_foods(&self) -> (r: Vec<FoodListEntry>)
        requires
            self.wf(),
        ensures
            forall|x| summaries(r@).contains(x) <==> self@.food_summaries().contains(x),
            foods_in_order(summaries(r@)),
    {
        let mut res: Vec<FoodListEntry> = Vec::new();
        let mut i: usize = 0;
        let ghost fs = self@.food_summaries();
        assert(summaries(res@) =~= Seq::empty());
        while i < self.foods.len()
            invariant
                self.wf(),
                fs == self@.food_summaries(),
                i <= self.foods.len(),
                foods_in_order(summaries(res@)),
                forall|x| summaries(res@).contains(x) <==> fs.subrange(0, i as int).contains(x),
            decreases self.foods.len() - i,
        {
            let f = &self.foods[i];
            let x = FoodListEntry { food_id: f.food_id, name: f.name.clone(), brand: f.brand.clone() };
            let ghost old_res = summaries(res@);
            proof {
                let m = self@;
                assert(x@ == fs[i as int]);
                assert forall|y|
                    fs.subrange(0, i + 1).contains(y) <==> (fs.subrange(0, i as int).contains(y)
                        || y == x@) by {
                    if fs.subrange(0, i + 1).contains(y) {
                        let t = choose|t: int| 0 <= t < i + 1 && #[trigger] fs.subrange(0, i + 1)[t] == y;
                        if t < i {
                            assert(fs.subrange(0, i as int)[t] == y);
                        }
                    }
                    if fs.subrange(0, i as int).contains(y) {
                        let t = choose|t: int| 0 <= t < i && #[trigger] fs.subrange(0, i as int)[t] == y;
                        assert(fs.subrange(0, i + 1)[t] == y);
                    }
                    if y == x@ {
                        assert(fs.subrange(0, i + 1)[i as int] == y);
                    }
                }
                assert forall|k: int| 0 <= k < res@.len() implies #[trigger] res@[k].food_id
                    < x.food_id by {
                    assert(summaries(res@)[k] == res@[k]@);
                    assert(summaries(res@).contains(res@[k]@));
                    let t = choose|t: int| 0 <= t < i && #[trigger] fs.subrange(0, i as int)[t] == res@[k]@;
                    assert(m.foods[t].food_id == res@[k].food_id);
                }
            }
            insert_food_in_order(&mut res, x);
            proof {
                assert forall|y|
                    summaries(res@).contains(y) <==> fs.subrange(0, i + 1).contains(y) by {
                    assert(fs.subrange(0, i + 1).contains(y) <==> (fs.subrange(0, i as int).contains(
                        y,
                    ) || y == fs[i as int]));
                    assert(old_res.contains(y) <==> fs.subrange(0, i as int).contains(y));
                }
            }
            i = i + 1;
        }
        assert(fs.subrange(0, fs.len() as int) =~= fs);
        res
    }

    /// The serving sizes of a food, in name order: by name, then by id.
    pub fn list_servings(&self, food_id: FoodId) -> (r: Vec<Serving>)
        requires
            self.wf(),
        ensures
            forall|x: ServingRecord|
                serving_records(r@).contains(x) <==> (self@.servings.contains(x) && x.food_id
                    == food_id),
            servings_in_order(serving_records(r@)),
    {
        let mut res: Vec<Serving> = Vec::new();
        let mut i: usize = 0;
        let ghost ss = self@.servings;
        assert(serving_records(res@) =~= Seq::empty());
        while i < self.servings.len()
            invariant
                self.wf(),
                ss == self@.servings,
                i <= self.servings.len(),
                servings_in_order(serving_records(res@)),
                forall|x: ServingRecord|
                    serving_records(res@).contains(x) <==> (ss.subrange(0, i as int).contains(x)
                        && x.food_id == food_id),
            decreases self.servings.len() - i,
        {
            let ghost old_res = serving_records(res@);
            let ghost xv = ss[i as int];
            proof {
                assert forall|y: ServingRecord|
                    ss.subrange(0, i + 1).contains(y) <==> (ss.subrange(0, i as int).contains(y)
                        || y == xv) by {
                    if ss.subrange(0, i + 1).contains(y) {
                        let t = choose|t: int| 0 <= t < i + 1 && #[trigger] ss.subrange(0, i + 1)[t] == y;
                        if t < i {
                            assert(ss.subrange(0, i as int)[t] == y);
                        }
                    }
                    if ss.subrange(0, i as int).contains(y) {
                        let t = choose|t: int| 0 <= t < i && #[trigger] ss.subrange(0, i as int)[t] == y;
                        assert(ss.subrange(0, i + 1)[t] == y);
                    }
                    if y == xv {
                        assert(ss.subrange(0, i + 1)[i as int] == y);
                    }
                }
            }
            if self.servings[i].food_id == food_id {
                let x = copy_serving(&self.servings[i]);
                proof {
                    assert forall|k: int| 0 <= k < res@.len() implies #[trigger] res@[k].serving_id
                        < x.serving_id by {
                        assert(serving_records(res@)[k] == res@[k]@);
                        assert(serving_records(res@).contains(res@[k]@));
                        let t = choose|t: int| 0 <= t < i && #[trigger] ss.subrange(0, i as int)[t] == res@[k]@;
                        assert(ss.subrange(0, i as int)[t] == ss[t]);
                        assert(ss[t].serving_id == res@[k].serving_id);
                        assert(ss[t].serving_id < ss[i as int].serving_id);
                    }
                }
                insert_serving_in_order(&mut res, x);
            }
            proof {
                assert forall|y: ServingRecord|
                    serving_records(res@).contains(y) <==> (ss.subrange(0, i + 1).contains(y)
                        && y.food_id == food_id) by {
                    assert(ss.subrange(0, i + 1).contains(y) <==> (ss.subrange(0, i as int).contains(y)
                        || y == xv));
                    assert(old_res.contains(y) <==> (ss.subrange(0, i as int).contains(y)
                        && y.food_id == food_id));
                }
            }
            i = i + 1;
        }
        assert(ss.subrange(0, ss.len() as int) =~= ss);
        res
    }

    /// The entries of a date, in log order: by creation time, then by id.
    pub fn list_entries(&self, date: Date) -> (r: Vec<Entry>)
        requires
            self.wf(),
        ensures
            forall|e: Entry| r@.contains(e) <==> (self@.entries.contains(e) && e.date == date),
            entries_in_order(r@),
    {
        let mut res: Vec<Entry> = Vec::new();
        let mut i: usize = 0;
        while i < self.entries.len()
            invariant
                self.wf(),
                i <= self.entries.len(),
                entries_in_order(res@),
                forall|e: Entry|
                    res@.contains(e) <==> (self@.entries.subrange(0, i as int).contains(e)
                        && e.date == date),
            decreases self.entries.len() - i,
        {
            let x = self.entries[i];
            let ghost m = self@;
            proof {
                assert forall|e: Entry|
                    m.entries.subrange(0, i + 1).contains(e) <==> (m.entries.subrange(
                        0,
                        i as int,
                    ).contains(e) || e == x) by {
                    if m.entries.subrange(0, i + 1).contains(e) {
                        let t = choose|t: int|
                            0 <= t < i + 1 && #[trigger] m.entries.subrange(0, i + 1)[t] == e;
                        if t < i {
                            assert(m.entries.subrange(0, i as int)[t] == e);
                        }
                    }
                    if m.entries.subrange(0, i as int).contains(e) {
                        let t = choose|t: int|
                            0 <= t < i && #[trigger] m.entries.subrange(0, i as int)[t] == e;
                        assert(m.entries.subrange(0, i + 1)[t] == e);
                    }
                    if e == x {
                        assert(m.entries.subrange(0, i + 1)[i as int] == e);
                    }
                }
            }
            let ghost old_res = res@;
            if x.date == date {
                proof {
                    assert forall|k: int| 0 <= k < res@.len() implies #[trigger] res@[k].entry_id
                        < x.entry_id by {
                        assert(res@.contains(res@[k]));
                        let t = choose|t: int|
                            0 <= t < i && #[trigger] m.entries.subrange(0, i as int)[t] == res@[k];
                        assert(m.entries[t] == res@[k]);
                    }
                }
                insert_entry_in_order(&mut res, x);
            }
            proof {
                assert forall|e: Entry|
                    res@.contains(e) <==> (m.entries.subrange(0, i + 1).contains(e) && e.date
                        == date) by {
                    assert(m.entries.subrange(0, i + 1).contains(e) <==> (m.entries.subrange(
                        0,
                        i as int,
                    ).contains(e) || e == x));
                    assert(old_res.contains(e) <==> (m.entries.subrange(0, i as int).contains(e)
                        && e.date == date));
                }
            }
            i = i + 1;
        }
        assert(self@.entries.subrange(0, self@.entries.len() as int) =~= self@.entries);
        res
    }

    /// Logs an entry under the next entry id and returns that id. A missing food
    /// or serving size is a not-found error, a serving size of another food an
    /// integrity error, exhausted ids a storage error.
    pub fn create_entry(&mut self, input: CreateEntryInput) -> (r: Result<EntryId, AppError>)
        requires
            old(self).wf(),
            input.date.wf(),
        ensures
            final(self).wf(),
            r is Ok <==> old(self)@.entry_error(input) is None,
            r matches Ok(id) ==> id == old(self)@.next_entry_id && final(self)@ == old(
                self,
            )@.with_entry(input.record(id)),
            r matches Err(e) ==> final(self)@ == old(self)@ && old(self)@.entry_error(input)
                == Some(e.kind),
    {
        if self.find_food(input.food_id).is_none() {
            return Err(AppError::with_kind(ErrorKind::NotFound, "no food with this id"));
        }
        if let Some(sid) = input.serving_id {
            match self.find_serving(sid) {
                None => {
                    return Err(AppError::with_kind(ErrorKind::NotFound, "no serving with this id"));
                },
                Some(i) => {
                    proof { lemma_serving_at(self@, i as int); }
                    if self.servings[i].food_id != input.food_id {
                        return Err(
                            AppError::with_kind(
                                ErrorKind::Integrity,
                                "the serving belongs to another food",
                            ),
                        );
                    }
                },
            }
        }
        if self.next_entry_id == i64::MAX {
            return Err(AppError::with_kind(ErrorKind::Storage, "no entry id is left"));
        }
        let id = self.next_entry_id;
        let ghost before = self@;
        let entry = Entry {
            entry_id: id,
            date: input.date,
            food_id: input.food_id,
            serving_id: input.serving_id,
            amount: input.amount,
            created_at: input.created_at,
        };
        self.entries.push(entry);
        self.next_entry_id = id + 1;
        assert(self@.entries =~= before.entries.push(input.record(id)));
        assert(self@ == before.with_entry(input.record(id)));
        Ok(id)
    }

    /// Removes the entry with this id; nothing happens where there is none.
    pub fn delete_entry(&mut self, entry_id: EntryId)
        requires
            old(self).wf(),
        ensures
            final(self).wf(),
            final(self)@ == old(self)@.without_entry(entry_id),
    {
        if let Some(i) = self.find_entry(entry_id) {
            let ghost before = self@;
            self.entries.remove(i);
            proof {
                assert(self@.entries =~= before.entries.remove(i as int));
                assert(self@ == before.without_entry(entry_id));
                lemma_remove_keeps_entry_order(before.entries, i as int);
                let m = self@;
                assert forall|k: int| 0 <= k < m.entries.len() implies #[trigger] m.entries[k]
                    == before.entries[if k < i { k } else { k + 1 }] by {}
            }
        }
    }
}

} // verus!
