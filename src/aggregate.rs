use crate::date::Date;
use crate::db::{
    lemma_food_at, lemma_on_date_members, lemma_serving_at, lemma_total_prefix_le,
    DbModel, Entry, BASE_DIVISOR, SERVING_DIVISOR,
};
use crate::error::{AppError, ErrorKind};
use crate::nutrition::{Factor, Nutrition};
use crate::store::Db;
use vstd::prelude::*;
use vstd::string::*;

verus! {

/// Every entry of `s` refers to a food of the store.
pub open spec fn foods_present(m: DbModel, s: Seq<Entry>) -> bool {
    forall|k: int| 0 <= k < s.len() ==> m.has_food(#[trigger] s[k].food_id)
}

impl Db {
    /// The position of the serving size through which an entry counts its amount.
    fn resolve_serving(&self, entry: &Entry) -> (r: Option<usize>)
        requires
            self.wf(),
        ensures
            r is Some <==> self@.resolved_serving(*entry) is Some,
            r matches Some(j) ==> j < self@.servings.len() && self@.resolved_serving(*entry)
                == Some(self@.servings[j as int]),
    {
        match entry.serving_id {
            Some(sid) => match self.find_serving(sid) {
                Some(j) => {
                    proof { lemma_serving_at(self@, j as int); }
                    if self.serving_at(j).food_id == entry.food_id {
                        Some(j)
                    } else {
                        None
                    }
                },
                None => None,
            },
            None => None,
        }
    }

    /// The factor by which an entry scales its food's facts.
    pub fn entry_factor(&self, entry: &Entry) -> (r: Factor)
        requires
            self.wf(),
        ensures
            r == self@.unit_factor(*entry),
            r.valid(),
    {
        match self.resolve_serving(entry) {
            Some(j) => {
                let a = entry.amount;
                let b = self.serving_at(j).serving_amount;
                assert((a as int) * (b as int) <= 0xffff_ffff_ffff_ffff_ffff_ffff_ffff_ffff)
                    by (nonlinear_arith)
                    requires
                        a <= 0xffff_ffff_ffff_ffff,
                        b <= 0xffff_ffff_ffff_ffff,
                ;
                Factor { num: (a as u128) * (b as u128), den: SERVING_DIVISOR }
            },
            None => Factor { num: entry.amount as u128, den: BASE_DIVISOR },
        }
    }

    /// The name of the unit in which an entry's amount is shown. A missing food is a
    /// not-found error.
    pub fn entry_unit_label(&self, entry: &Entry) -> (r: Result<String, AppError>)
        requires
            self.wf(),
        ensures
            r is Ok <==> self@.has_food(entry.food_id),
            r matches Ok(s) ==> s@ == self@.unit_label(*entry),
            r matches Err(e) ==> e.kind == ErrorKind::NotFound,
    {
        let i = match self.find_food(entry.food_id) {
            Some(i) => i,
            None => return Err(AppError::with_kind(ErrorKind::NotFound, "no food with this id")),
        };
        proof { lemma_food_at(self@, i as int); }
        match self.resolve_serving(entry) {
            Some(j) => Ok(self.serving_at(j).serving_name.clone()),
            None => Ok(String::from_str(self.food_at(i).serving_unit.as_str())),
        }
    }

    /// The nutrition that an entry contributes. A missing food is a not-found
    /// error; a quantity that does not fit is an overflow error.
    pub fn entry_nutrition(&self, entry: &Entry) -> (r: Result<Nutrition, AppError>)
        requires
            self.wf(),
        ensures
            r is Ok <==> (self@.has_food(entry.food_id) && self@.entry_nutrition(*entry).fits()),
            r matches Ok(n) ==> n@ == self@.entry_nutrition(*entry),
            r matches Err(e) ==> e.kind == (if !self@.has_food(entry.food_id) {
                ErrorKind::NotFound
            } else {
                ErrorKind::Overflow
            }),
    {
        let i = match self.find_food(entry.food_id) {
            Some(i) => i,
            None => return Err(AppError::with_kind(ErrorKind::NotFound, "no food with this id")),
        };
        let food = self.food_at(i);
        proof { lemma_food_at(self@, i as int); }
        let factor = self.entry_factor(entry);
        match food.nutrition().checked_scale(factor) {
            Some(n) => Ok(n),
            None => Err(AppError::with_kind(ErrorKind::Overflow, "a quantity is too large")),
        }
    }

    /// The sum of the nutrition that the entries contribute; zero for no entries.
    /// An entry whose food is missing is a not-found error; a total that does not
    /// fit is an overflow error.
    pub fn calculate_totals(&self, entries: &Vec<Entry>) -> (r: Result<Nutrition, AppError>)
        requires
            self.wf(),
        ensures
            r is Ok <==> (foods_present(self@, entries@) && self@.total(entries@).fits()),
            r matches Ok(n) ==> n@ == self@.total(entries@),
            r matches Err(e) ==> e.kind == (if !foods_present(self@, entries@) {
                ErrorKind::NotFound
            } else {
                ErrorKind::Overflow
            }),
    {
        let mut i: usize = 0;
        while i < entries.len()
            invariant
                self.wf(),
                i <= entries.len(),
                forall|k: int| 0 <= k < i ==> self@.has_food(#[trigger] entries@[k].food_id),
            decreases entries.len() - i,
        {
            if self.find_food(entries[i].food_id).is_none() {
                return Err(AppError::with_kind(ErrorKind::NotFound, "no food with this id"));
            }
            i = i + 1;
        }
        let ghost s = entries@;
        let mut acc = Nutrition::zero();
        let mut i: usize = 0;
        assert(s.take(0) =~= Seq::<Entry>::empty());
        while i < entries.len()
            invariant
                self.wf(),
                s == entries@,
                foods_present(self@, s),
                i <= s.len(),
                acc@ == self@.total(s.take(i as int)),
            decreases s.len() - i,
        {
            proof {
                lemma_total_prefix_le(self@, s, i as int);
                lemma_total_prefix_le(self@, s, i + 1);
                assert(s.take(i + 1).drop_last() =~= s.take(i as int));
                assert(s.take(i + 1).last() == s[i as int]);
            }
            let en = match self.entry_nutrition(&entries[i]) {
                Ok(n) => n,
                Err(e) => {
                    return Err(e);
                },
            };
            acc = match acc.checked_add(en) {
                Some(n) => n,
                None => {
                    return Err(AppError::with_kind(ErrorKind::Overflow, "a total is too large"));
                },
            };
            i = i + 1;
        }
        assert(s.take(s.len() as int) =~= s);
        Ok(acc)
    }

    /// The nutrition total of a date's entries; zero for a date without entries.
    /// A total that does not fit is an overflow error.
    pub fn daily_totals(&self, date: Date) -> (r: Result<Nutrition, AppError>)
        requires
            self.wf(),
        ensures
            r is Ok <==> self@.total(self@.entries_on(date)).fits(),
            r matches Ok(n) ==> n@ == self@.total(self@.entries_on(date)),
            r matches Err(e) ==> e.kind == ErrorKind::Overflow,
    {
        let day = self.entries_on(date);
        proof {
            lemma_on_date_members(self@.entries, date);
            assert forall|k: int| 0 <= k < day@.len() implies self@.has_food(
                #[trigger] day@[k].food_id,
            ) by {
                let t = choose|t: int|
                    0 <= t < self@.entries.len() && #[trigger] self@.entries[t] == day@[k];
                assert(self@.has_food(self@.entries[t].food_id));
            }
        }
        self.calculate_totals(&day)
    }
}

} // verus!
