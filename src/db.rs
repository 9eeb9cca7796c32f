use crate::date::Date;
use crate::error::{AppError, ErrorKind};
use crate::nutrition::{Factor, Nutrition, NutritionModel};
use crate::text::{lemma_text_lt_total, text_lt};
use vstd::prelude::*;
use vstd::string::*;

verus! {

pub type FoodId = i64;

pub type ServingId = i64;

pub type EntryId = i64;

/// An instant, in milliseconds since the Unix epoch (UTC).
pub type Timestamp = i64;

/// The first id that the store hands out in each table.
pub const FIRST_ID: i64 = 1;

/// The unit in which a food's nutrition facts are given, per 100 of it.
#[derive(Clone, Copy, Debug, PartialEq, Eq, Structural)]
pub enum ServingUnit {
    Grams,
    Milliliters,
}

impl ServingUnit {
    /// The unit's token: `g` or `ml`.
    pub open spec fn token(self) -> Seq<char> {
        match self {
            ServingUnit::Grams => seq!['g'],
            ServingUnit::Milliliters => seq!['m', 'l'],
        }
    }

    /// The unit's token: `g` or `ml`.
    pub fn as_str(self) -> (r: &'static str)
        ensures
            r@ == self.token(),
    {
        match self {
            ServingUnit::Grams => {
                proof { reveal_strlit("g"); }
                assert("g"@ =~= seq!['g']);
                "g"
            },
            ServingUnit::Milliliters => {
                proof { reveal_strlit("ml"); }
                assert("ml"@ =~= seq!['m', 'l']);
                "ml"
            },
        }
    }

    /// The unit with the given token; any other text is a validation error.
    pub fn try_from_str(s: &str) -> (r: Result<ServingUnit, AppError>)
        ensures
            r is Ok <==> (s@ == seq!['g'] || s@ == seq!['m', 'l']),
            r matches Ok(u) ==> u.token() == s@,
            r matches Err(e) ==> e.kind == ErrorKind::Validation,
    {
        let n = s.unicode_len();
        if n == 1 && s.get_char(0) == 'g' {
            assert(s@ =~= seq!['g']);
            Ok(ServingUnit::Grams)
        } else if n == 2 && s.get_char(0) == 'm' && s.get_char(1) == 'l' {
            assert(s@ =~= seq!['m', 'l']);
            Ok(ServingUnit::Milliliters)
        } else {
            Err(AppError::with_kind(ErrorKind::Validation, "Invalid value for serving unit."))
        }
    }
}

/// The data needed to create a food. Nutrient quantities are per 100 of the
/// serving unit, in thousandths.
pub struct CreateFoodInput {
    pub name: String,
    pub brand: String,
    pub serving_unit: ServingUnit,
    pub energy: u64,
    pub protein: u64,
    pub fat: u64,
    pub fat_saturated: u64,
    pub carbs: u64,
    pub carbs_sugars: u64,
    pub fibre: u64,
    pub sodium: u64,
    pub created_at: Timestamp,
}

/// Summary information for a food.
pub struct FoodListEntry {
    pub food_id: FoodId,
    pub name: String,
    pub brand: String,
}

/// A food with its nutrition facts per 100 of its serving unit, in thousandths.
pub struct FoodEntry {
    pub food_id: FoodId,
    pub name: String,
    pub brand: String,
    pub serving_unit: ServingUnit,
    pub energy: u64,
    pub protein: u64,
    pub fat: u64,
    pub fat_saturated: u64,
    pub carbs: u64,
    pub carbs_sugars: u64,
    pub fibre: u64,
    pub sodium: u64,
    pub created_at: Timestamp,
}

/// The data needed to overwrite a food.
pub struct EditFoodInput {
    pub food_id: FoodId,
    pub name: String,
    pub brand: String,
    pub serving_unit: ServingUnit,
    pub energy: u64,
    pub protein: u64,
    pub fat: u64,
    pub fat_saturated: u64,
    pub carbs: u64,
    pub carbs_sugars: u64,
    pub fibre: u64,
    pub sodium: u64,
}

/// The data needed to create a serving size: an amount of the food's unit, in
/// thousandths.
pub struct ServingInput {
    pub food_id: FoodId,
    pub serving_name: String,
    pub serving_amount: u64,
    pub created_at: Timestamp,
}

/// A named serving size of a food, in thousandths of the food's unit.
pub struct Serving {
    pub serving_id: ServingId,
    pub food_id: FoodId,
    pub serving_name: String,
    pub serving_amount: u64,
    pub created_at: Timestamp,
}

/// The data needed to log an entry. The amount counts servings, or units of the
/// food's base unit where no serving is given, in thousandths.
#[derive(Clone, Copy, Debug, PartialEq, Eq, Structural)]
pub struct CreateEntryInput {
    pub date: Date,
    pub food_id: FoodId,
    pub serving_id: Option<ServingId>,
    pub amount: u64,
    pub created_at: Timestamp,
}

/// A logged entry.
#[derive(Clone, Copy, Debug, PartialEq, Eq, Structural)]
pub struct Entry {
    pub entry_id: EntryId,
    pub date: Date,
    pub food_id: FoodId,
    pub serving_id: Option<ServingId>,
    pub amount: u64,
    pub created_at: Timestamp,
}

/// The value of a stored food.
pub struct FoodRecord {
    pub food_id: FoodId,
    pub name: Seq<char>,
    pub brand: Seq<char>,
    pub serving_unit: ServingUnit,
    pub nutrition: Nutrition,
    pub created_at: Timestamp,
}

/// The value of a stored serving size.
pub struct ServingRecord {
    pub serving_id: ServingId,
    pub food_id: FoodId,
    pub name: Seq<char>,
    pub amount: u64,
    pub created_at: Timestamp,
}

impl View for FoodEntry {
    type V = FoodRecord;

    open spec fn view(&self) -> FoodRecord {
        FoodRecord {
            food_id: self.food_id,
            name: self.name@,
            brand: self.brand@,
            serving_unit: self.serving_unit,
            nutrition: Nutrition {
                energy: self.energy,
                protein: self.protein,
                fat: self.fat,
                fat_saturated: self.fat_saturated,
                carbs: self.carbs,
                carbs_sugars: self.carbs_sugars,
                fibre: self.fibre,
                sodium: self.sodium,
            },
            created_at: self.created_at,
        }
    }
}

impl View for FoodListEntry {
    type V = (FoodId, Seq<char>, Seq<char>);

    open spec fn view(&self) -> (FoodId, Seq<char>, Seq<char>) {
        (self.food_id, self.name@, self.brand@)
    }
}

impl View for Serving {
    type V = ServingRecord;

    open spec fn view(&self) -> ServingRecord {
        ServingRecord {
            serving_id: self.serving_id,
            food_id: self.food_id,
            name: self.serving_name@,
            amount: self.serving_amount,
            created_at: self.created_at,
        }
    }
}

impl FoodEntry {
    /// The food's nutrition facts per 100 of its unit.
    pub fn nutrition(&self) -> (r: Nutrition)
        ensures
            r == self@.nutrition,
    {
        Nutrition {
            energy: self.energy,
            protein: self.protein,
            fat: self.fat,
            fat_saturated: self.fat_saturated,
            carbs: self.carbs,
            carbs_sugars: self.carbs_sugars,
            fibre: self.fibre,
            sodium: self.sodium,
        }
    }
}

impl FoodRecord {
    /// The summary of the food that `list_foods` gives.
    pub open spec fn summary(self) -> (FoodId, Seq<char>, Seq<char>) {
        (self.food_id, self.name, self.brand)
    }
}

impl CreateFoodInput {
    /// The food that this input creates under the given id.
    pub open spec fn record(&self, id: FoodId) -> FoodRecord {
        FoodRecord {
            food_id: id,
            name: self.name@,
            brand: self.brand@,
            serving_unit: self.serving_unit,
            nutrition: Nutrition {
                energy: self.energy,
                protein: self.protein,
                fat: self.fat,
                fat_saturated: self.fat_saturated,
                carbs: self.carbs,
                carbs_sugars: self.carbs_sugars,
                fibre: self.fibre,
                sodium: self.sodium,
            },
            created_at: self.created_at,
        }
    }
}

impl EditFoodInput {
    /// The food `f` with every editable field overwritten; its id and creation
    /// time are kept.
    pub open spec fn apply(&self, f: FoodRecord) -> FoodRecord {
        FoodRecord {
            food_id: f.food_id,
            name: self.name@,
            brand: self.brand@,
            serving_unit: self.serving_unit,
            nutrition: Nutrition {
                energy: self.energy,
                protein: self.protein,
                fat: self.fat,
                fat_saturated: self.fat_saturated,
                carbs: self.carbs,
                carbs_sugars: self.carbs_sugars,
                fibre: self.fibre,
                sodium: self.sodium,
            },
            created_at: f.created_at,
        }
    }
}

impl ServingInput {
    /// The serving size that this input creates under the given id.
    pub open spec fn record(&self, id: ServingId) -> ServingRecord {
        ServingRecord {
            serving_id: id,
            food_id: self.food_id,
            name: self.serving_name@,
            amount: self.serving_amount,
            created_at: self.created_at,
        }
    }
}

impl CreateEntryInput {
    /// The entry that this input creates under the given id.
    pub open spec fn record(self, id: EntryId) -> Entry {
        Entry {
            entry_id: id,
            date: self.date,
            food_id: self.food_id,
            serving_id: self.serving_id,
            amount: self.amount,
            created_at: self.created_at,
        }
    }
}

/// The contents of the store: three tables, each in the order of creation, and the
/// next id of each.
pub struct DbModel {
    pub foods: Seq<FoodRecord>,
    pub servings: Seq<ServingRecord>,
    pub entries: Seq<Entry>,
    pub next_food_id: FoodId,
    pub next_serving_id: ServingId,
    pub next_entry_id: EntryId,
}

impl DbModel {
    /// Some food has this id.
    pub open spec fn has_food(self, id: FoodId) -> bool {
        exists|i: int| 0 <= i < self.foods.len() && #[trigger] self.foods[i].food_id == id
    }

    /// Some serving size has this id.
    pub open spec fn has_serving(self, id: ServingId) -> bool {
        exists|i: int| 0 <= i < self.servings.len() && #[trigger] self.servings[i].serving_id == id
    }

    /// Some entry has this id.
    pub open spec fn has_entry(self, id: EntryId) -> bool {
        exists|i: int| 0 <= i < self.entries.len() && #[trigger] self.entries[i].entry_id == id
    }

    /// The position of the food with this id.
    pub open spec fn food_index(self, id: FoodId) -> int {
        choose|i: int| 0 <= i < self.foods.len() && #[trigger] self.foods[i].food_id == id
    }

    /// The position of the serving size with this id.
    pub open spec fn serving_index(self, id: ServingId) -> int {
        choose|i: int| 0 <= i < self.servings.len() && #[trigger] self.servings[i].serving_id == id
    }

    /// The position of the entry with this id.
    pub open spec fn entry_index(self, id: EntryId) -> int {
        choose|i: int| 0 <= i < self.entries.len() && #[trigger] self.entries[i].entry_id == id
    }

    /// The summaries of all foods.
    pub open spec fn food_summaries(self) -> Seq<(FoodId, Seq<char>, Seq<char>)> {
        self.foods.map_values(|f: FoodRecord| f.summary())
    }

    /// The food with this id.
    pub open spec fn food(self, id: FoodId) -> Option<FoodRecord> {
        if self.has_food(id) {
            Some(self.foods[self.food_index(id)])
        } else {
            None
        }
    }

    /// The serving size with this id.
    pub open spec fn serving(self, id: ServingId) -> Option<ServingRecord> {
        if self.has_serving(id) {
            Some(self.servings[self.serving_index(id)])
        } else {
            None
        }
    }

    /// The invariant of the store: in each table the ids increase and lie below the
    /// next id; every serving size and entry refers to a food; serving amounts
    /// are positive and entry dates valid.
    pub open spec fn valid(self) -> bool {
        &&& FIRST_ID <= self.next_food_id
        &&& FIRST_ID <= self.next_serving_id
        &&& FIRST_ID <= self.next_entry_id
        &&& forall|i: int, j: int|
            0 <= i < j < self.foods.len() ==> #[trigger] self.foods[i].food_id
                < #[trigger] self.foods[j].food_id
        &&& forall|i: int|
            0 <= i < self.foods.len() ==> FIRST_ID <= #[trigger] self.foods[i].food_id
                < self.next_food_id
        &&& forall|i: int, j: int|
            0 <= i < j < self.servings.len() ==> #[trigger] self.servings[i].serving_id
                < #[trigger] self.servings[j].serving_id
        &&& forall|i: int|
            0 <= i < self.servings.len() ==> FIRST_ID <= #[trigger] self.servings[i].serving_id
                < self.next_serving_id
        &&& forall|i: int|
            0 <= i < self.servings.len() ==> self.has_food(#[trigger] self.servings[i].food_id)
        &&& forall|i: int| 0 <= i < self.servings.len() ==> #[trigger] self.servings[i].amount > 0
        &&& forall|i: int, j: int|
            0 <= i < j < self.entries.len() ==> #[trigger] self.entries[i].entry_id
                < #[trigger] self.entries[j].entry_id
        &&& forall|i: int|
            0 <= i < self.entries.len() ==> FIRST_ID <= #[trigger] self.entries[i].entry_id
                < self.next_entry_id
        &&& forall|i: int|
            0 <= i < self.entries.len() ==> self.has_food(#[trigger] self.entries[i].food_id)
        &&& forall|i: int| 0 <= i < self.entries.len() ==> #[trigger] self.entries[i].date.wf()
    }

    /// The store after a food is added under the next id.
    pub open spec fn with_food(self, f: FoodRecord) -> DbModel {
        DbModel { foods: self.foods.push(f), next_food_id: (self.next_food_id + 1) as i64, ..self }
    }

    /// The store after a serving size is added under the next id.
    pub open spec fn with_serving(self, s: ServingRecord) -> DbModel {
        DbModel {
            servings: self.servings.push(s),
            next_serving_id: (self.next_serving_id + 1) as i64,
            ..self
        }
    }

    /// The store after an entry is added under the next id.
    pub open spec fn with_entry(self, e: Entry) -> DbModel {
        DbModel {
            entries: self.entries.push(e),
            next_entry_id: (self.next_entry_id + 1) as i64,
            ..self
        }
    }

    /// The store after the food with the input's id is overwritten.
    pub open spec fn with_food_edited(self, input: &EditFoodInput) -> DbModel {
        DbModel {
            foods: self.foods.map_values(
                |f: FoodRecord|
                    if f.food_id == input.food_id {
                        input.apply(f)
                    } else {
                        f
                    },
            ),
            ..self
        }
    }

    /// The store after the serving size with this id, if any, is removed.
    pub open spec fn without_serving(self, id: ServingId) -> DbModel {
        if self.has_serving(id) {
            DbModel { servings: self.servings.remove(self.serving_index(id)), ..self }
        } else {
            self
        }
    }

    /// The store after the entry with this id, if any, is removed.
    pub open spec fn without_entry(self, id: EntryId) -> DbModel {
        if self.has_entry(id) {
            DbModel { entries: self.entries.remove(self.entry_index(id)), ..self }
        } else {
            self
        }
    }
}

/// In a valid store, the food at position `i` is the food with its id.
pub proof fn lemma_food_at(m: DbModel, i: int)
    requires
        m.valid(),
        0 <= i < m.foods.len(),
    ensures
        m.has_food(m.foods[i].food_id),
        m.food_index(m.foods[i].food_id) == i,
        m.food(m.foods[i].food_id) == Some(m.foods[i]),
{
    let id = m.foods[i].food_id;
    assert(m.has_food(id));
    let j = m.food_index(id);
    if j < i {
        assert(m.foods[j].food_id < m.foods[i].food_id);
    } else if i < j {
        assert(m.foods[i].food_id < m.foods[j].food_id);
    }
}

/// In a valid store, the serving size at position `i` is the one with its id.
pub proof fn lemma_serving_at(m: DbModel, i: int)
    requires
        m.valid(),
        0 <= i < m.servings.len(),
    ensures
        m.has_serving(m.servings[i].serving_id),
        m.serving_index(m.servings[i].serving_id) == i,
        m.serving(m.servings[i].serving_id) == Some(m.servings[i]),
{
    let id = m.servings[i].serving_id;
    assert(m.has_serving(id));
    let j = m.serving_index(id);
    if j < i {
        assert(m.servings[j].serving_id < m.servings[i].serving_id);
    } else if i < j {
        assert(m.servings[i].serving_id < m.servings[j].serving_id);
    }
}

/// In a valid store, the entry at position `i` is the one with its id.
pub proof fn lemma_entry_at(m: DbModel, i: int)
    requires
        m.valid(),
        0 <= i < m.entries.len(),
    ensures
        m.has_entry(m.entries[i].entry_id),
        m.entry_index(m.entries[i].entry_id) == i,
{
    let id = m.entries[i].entry_id;
    assert(m.has_entry(id));
    let j = m.entry_index(id);
    if j < i {
        assert(m.entries[j].entry_id < m.entries[i].entry_id);
    } else if i < j {
        assert(m.entries[i].entry_id < m.entries[j].entry_id);
    }
}

impl DbModel {
    /// Why logging this input fails, if it does: a missing food or serving size, a
    /// serving size of another food, or exhausted ids, in that order.
    pub open spec fn entry_error(self, input: CreateEntryInput) -> Option<ErrorKind> {
        if !self.has_food(input.food_id) {
            Some(ErrorKind::NotFound)
        } else if input.serving_id is Some && !self.has_serving(input.serving_id->0) {
            Some(ErrorKind::NotFound)
        } else if input.serving_id is Some && self.serving(input.serving_id->0)->0.food_id
            != input.food_id {
            Some(ErrorKind::Integrity)
        } else if self.next_entry_id == i64::MAX {
            Some(ErrorKind::Storage)
        } else {
            None
        }
    }
}

/// Removing a position keeps the ids of the other entries in increasing order.
pub(crate) proof fn lemma_remove_keeps_entry_order(s: Seq<Entry>, k: int)
    requires
        0 <= k < s.len(),
        forall|i: int, j: int| 0 <= i < j < s.len() ==> #[trigger] s[i].entry_id < #[trigger] s[j].entry_id,
    ensures
        forall|i: int, j: int|
            0 <= i < j < s.remove(k).len() ==> #[trigger] s.remove(k)[i].entry_id
                < #[trigger] s.remove(k)[j].entry_id,
{
    let r = s.remove(k);
    assert forall|i: int, j: int| 0 <= i < j < r.len() implies #[trigger] r[i].entry_id
        < #[trigger] r[j].entry_id by {
        let i2 = if i < k { i } else { i + 1 };
        let j2 = if j < k { j } else { j + 1 };
        assert(r[i] == s[i2] && r[j] == s[j2]);
    }
}

/// Removing a position keeps the ids of the other serving sizes in increasing order.
pub(crate) proof fn lemma_remove_keeps_serving_order(s: Seq<ServingRecord>, k: int)
    requires
        0 <= k < s.len(),
        forall|i: int, j: int| 0 <= i < j < s.len() ==> #[trigger] s[i].serving_id < #[trigger] s[j].serving_id,
    ensures
        forall|i: int, j: int|
            0 <= i < j < s.remove(k).len() ==> #[trigger] s.remove(k)[i].serving_id
                < #[trigger] s.remove(k)[j].serving_id,
{
    let r = s.remove(k);
    assert forall|i: int, j: int| 0 <= i < j < r.len() implies #[trigger] r[i].serving_id
        < #[trigger] r[j].serving_id by {
        let i2 = if i < k { i } else { i + 1 };
        let j2 = if j < k { j } else { j + 1 };
        assert(r[i] == s[i2] && r[j] == s[j2]);
    }
}

/// Log order: by creation time, then by id.
pub open spec fn entry_before(a: Entry, b: Entry) -> bool {
    a.created_at < b.created_at || (a.created_at == b.created_at && a.entry_id < b.entry_id)
}

/// Each entry comes before the next in log order.
pub open spec fn entries_in_order(s: Seq<Entry>) -> bool {
    forall|k: int| 0 <= k < s.len() - 1 ==> #[trigger] entry_before(s[k], s[k + 1])
}

/// Name order: by name in `text_lt` order, then by id.
pub open spec fn named_before(a_name: Seq<char>, a_id: i64, b_name: Seq<char>, b_id: i64) -> bool {
    text_lt(a_name, b_name) || (a_name == b_name && a_id < b_id)
}

/// Each food summary comes before the next in name order.
pub open spec fn foods_in_order(s: Seq<(FoodId, Seq<char>, Seq<char>)>) -> bool {
    forall|k: int|
        0 <= k < s.len() - 1 ==> #[trigger] named_before(s[k].1, s[k].0, s[k + 1].1, s[k + 1].0)
}

/// Each serving size comes before the next in name order.
pub open spec fn servings_in_order(s: Seq<ServingRecord>) -> bool {
    forall|k: int|
        0 <= k < s.len() - 1 ==> #[trigger] named_before(
            s[k].name,
            s[k].serving_id,
            s[k + 1].name,
            s[k + 1].serving_id,
        )
}

/// The views of a list of food summaries.
pub open spec fn summaries(s: Seq<FoodListEntry>) -> Seq<(FoodId, Seq<char>, Seq<char>)> {
    s.map_values(|e: FoodListEntry| e@)
}

/// The views of a list of serving sizes.
pub open spec fn serving_records(s: Seq<Serving>) -> Seq<ServingRecord> {
    s.map_values(|e: Serving| e@)
}

/// Of two different names, or of equal names with different ids, one comes first.
pub proof fn lemma_named_before_total(a_name: Seq<char>, a_id: i64, b_name: Seq<char>, b_id: i64)
    requires
        a_id != b_id,
    ensures
        named_before(a_name, a_id, b_name, b_id) || named_before(b_name, b_id, a_name, a_id),
{
    if a_name != b_name {
        lemma_text_lt_total(a_name, b_name);
    }
}

/// The divisor of a factor for an entry without a serving size: the amount counts
/// thousandths of a unit, and nutrition facts are given per 100 units.
pub const BASE_DIVISOR: u64 = 100_000;

/// The divisor of a factor for an entry with a serving size: the amount counts
/// thousandths of a serving, a serving thousandths of a unit, and nutrition facts
/// are given per 100 units.
pub const SERVING_DIVISOR: u64 = 100_000_000;

/// The entries of `s` on `date`, in the order of `s`.
pub open spec fn on_date(s: Seq<Entry>, date: Date) -> Seq<Entry>
    decreases s.len(),
{
    if s.len() == 0 {
        s
    } else if s.last().date == date {
        on_date(s.drop_last(), date).push(s.last())
    } else {
        on_date(s.drop_last(), date)
    }
}

/// Every entry of `on_date(s, date)` is an entry of `s` on `date`.
pub proof fn lemma_on_date_members(s: Seq<Entry>, date: Date)
    ensures
        forall|k: int|
            0 <= k < on_date(s, date).len() ==> s.contains(#[trigger] on_date(s, date)[k])
                && on_date(s, date)[k].date == date,
    decreases s.len(),
{
    if s.len() > 0 {
        lemma_on_date_members(s.drop_last(), date);
        let d = on_date(s, date);
        assert forall|k: int| 0 <= k < d.len() implies s.contains(#[trigger] d[k]) && d[k].date
            == date by {
            let p = on_date(s.drop_last(), date);
            if k < p.len() {
                assert(d[k] == p[k]);
                let t = choose|t: int| 0 <= t < s.drop_last().len() && #[trigger] s.drop_last()[t] == p[k];
                assert(s[t] == p[k]);
            } else {
                assert(d[k] == s.last());
                assert(s[s.len() - 1] == s.last());
            }
        }
    }
}

impl DbModel {
    /// The entries on a date, in the order of the table.
    pub open spec fn entries_on(self, date: Date) -> Seq<Entry> {
        on_date(self.entries, date)
    }

    /// The serving size through which an entry counts its amount: the one it
    /// refers to, where that still exists and belongs to the entry's food.
    pub open spec fn resolved_serving(self, e: Entry) -> Option<ServingRecord> {
        match e.serving_id {
            Some(sid) => if self.has_serving(sid) && self.serving(sid)->0.food_id == e.food_id {
                self.serving(sid)
            } else {
                None
            },
            None => None,
        }
    }

    /// The factor by which an entry scales its food's facts. With a resolved serving
    /// size, the amount counts servings; otherwise it counts units of the food's
    /// base unit.
    pub open spec fn unit_factor(self, e: Entry) -> Factor {
        match self.resolved_serving(e) {
            Some(s) => Factor { num: (e.amount * s.amount) as u128, den: SERVING_DIVISOR },
            None => Factor { num: e.amount as u128, den: BASE_DIVISOR },
        }
    }

    /// The name of the unit in which an entry's amount is shown: its resolved
    /// serving size's name, or else the token of its food's base unit.
    pub open spec fn unit_label(self, e: Entry) -> Seq<char> {
        match self.resolved_serving(e) {
            Some(s) => s.name,
            None => self.food(e.food_id)->0.serving_unit.token(),
        }
    }

    /// The nutrition that an entry contributes: its food's facts scaled by its
    /// factor (zero where its food is missing).
    pub open spec fn entry_nutrition(self, e: Entry) -> NutritionModel {
        match self.food(e.food_id) {
            Some(f) => f.nutrition@.scale(self.unit_factor(e)),
            None => NutritionModel::zero(),
        }
    }

    /// The sum of the nutrition that the entries of `s` contribute.
    pub open spec fn total(self, s: Seq<Entry>) -> NutritionModel
        decreases s.len(),
    {
        if s.len() == 0 {
            NutritionModel::zero()
        } else {
            self.total(s.drop_last()).add(self.entry_nutrition(s.last()))
        }
    }
}

/// Every quantity of `a` is at most that of `b`.
pub open spec fn nutrition_le(a: NutritionModel, b: NutritionModel) -> bool {
    &&& a.energy <= b.energy
    &&& a.protein <= b.protein
    &&& a.fat <= b.fat
    &&& a.fat_saturated <= b.fat_saturated
    &&& a.carbs <= b.carbs
    &&& a.carbs_sugars <= b.carbs_sugars
    &&& a.fibre <= b.fibre
    &&& a.sodium <= b.sodium
}

/// The total of a prefix is at most the total of the whole, and each entry's
/// contribution is at most the total.
pub proof fn lemma_total_prefix_le(m: DbModel, s: Seq<Entry>, k: int)
    requires
        0 <= k <= s.len(),
    ensures
        nutrition_le(m.total(s.take(k)), m.total(s)),
        k < s.len() ==> nutrition_le(m.entry_nutrition(s[k]), m.total(s)),
    decreases s.len(),
{
    if k == s.len() {
        assert(s.take(k) =~= s);
    } else {
        lemma_total_prefix_le(m, s.drop_last(), k);
        assert(s.drop_last().take(k) =~= s.take(k));
        if k == s.len() - 1 {
            assert(s[k] == s.last());
        } else {
            assert(s.drop_last()[k] == s[k]);
        }
    }
}

} // verus!
