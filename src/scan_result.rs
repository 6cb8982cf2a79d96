use vstd::prelude::*;

use crate::category::{CategoryModel, CleanableCategory, saturated, sizes_sum};
use crate::text::str_eq;

verus! {

/// What a category reports as its total size.
pub open spec fn category_total(c: CategoryModel) -> u64 {
    saturated(sizes_sum(c.items))
}

/// Sum of the reported totals of a sequence of categories, without any bound.
pub open spec fn totals_sum(cats: Seq<CategoryModel>) -> int
    decreases cats.len(),
{
    if cats.len() == 0 {
        0
    } else {
        totals_sum(cats.drop_last()) + category_total(cats.last())
    }
}

/// Sum of the item counts of a sequence of categories, without any bound.
pub open spec fn counts_sum(cats: Seq<CategoryModel>) -> int
    decreases cats.len(),
{
    if cats.len() == 0 {
        0
    } else {
        counts_sum(cats.drop_last()) + cats.last().items.len()
    }
}

pub proof fn lemma_totals_sum_nonneg(cats: Seq<CategoryModel>)
    ensures
        totals_sum(cats) >= 0,
    decreases cats.len(),
{
    if cats.len() > 0 {
        lemma_totals_sum_nonneg(cats.drop_last());
    }
}

pub proof fn lemma_counts_sum_nonneg(cats: Seq<CategoryModel>)
    ensures
        counts_sum(cats) >= 0,
    decreases cats.len(),
{
    if cats.len() > 0 {
        lemma_counts_sum_nonneg(cats.drop_last());
    }
}

/// All the categories of one scan pass, in registry order.
#[derive(Debug, Clone)]
pub struct ScanResult {
    categories: Vec<CleanableCategory>,
}

impl View for ScanResult {
    type V = Seq<CategoryModel>;

    closed spec fn view(&self) -> Seq<CategoryModel> {
        self.categories@.map_values(|c: CleanableCategory| c@)
    }
}

impl ScanResult {
    pub fn new() -> (r: Self)
        ensures
            r@ == Seq::<CategoryModel>::empty(),
    {
        let r = ScanResult { categories: Vec::new() };
        assert(r@ =~= Seq::<CategoryModel>::empty());
        r
    }

    pub fn add_category(&mut self, category: CleanableCategory)
        ensures
            final(self)@ == old(self)@.push(category@),
    {
        self.categories.push(category);
        assert(self@ =~= old(self)@.push(category@));
    }

    pub fn categories(&self) -> (r: &[CleanableCategory])
        ensures
            r@.map_values(|c: CleanableCategory| c@) == self@,
    {
        self.categories.as_slice()
    }

    /// The first category with the given name.
    pub fn get_category(&self, name: &str) -> (r: Option<&CleanableCategory>)
        ensures
            match r {
                Some(c) => exists|i: int|
                    0 <= i < self@.len() && self@[i] == c@ && c@.name == name@ && forall|j: int|
                        0 <= j < i ==> #[trigger] self@[j].name != name@,
                None => forall|j: int| 0 <= j < self@.len() ==> #[trigger] self@[j].name != name@,
            },
    {
        match self.position_of(name) {
            Some(i) => Some(&self.categories[i]),
            None => None,
        }
    }

    /// The first category with the given name, to be changed in place.
    pub fn get_category_mut(&mut self, name: &str) -> (r: Option<&mut CleanableCategory>)
        ensures
            match r {
                Some(c) => exists|i: int|
                    0 <= i < old(self)@.len() && old(self)@[i] == c@ && c@.name == name@
                        && final(self)@ == old(self)@.update(i, final(c)@) && forall|j: int|
                        0 <= j < i ==> #[trigger] old(self)@[j].name != name@,
                None => final(self)@ == old(self)@ && forall|j: int|
                    0 <= j < old(self)@.len() ==> #[trigger] old(self)@[j].name != name@,
            },
    {
        match self.position_of(name) {
            Some(i) => Some(&mut self.categories[i]),
            None => None,
        }
    }

    fn position_of(&self, name: &str) -> (r: Option<usize>)
        ensures
            match r {
                Some(i) => i < self@.len() && self@[i as int].name == name@ && forall|j: int|
                    0 <= j < i ==> #[trigger] self@[j].name != name@,
                None => forall|j: int| 0 <= j < self@.len() ==> #[trigger] self@[j].name != name@,
            },
    {
        let mut k: usize = 0;
        while k < self.categories.len()
            invariant
                k <= self@.len(),
                self@ == self.categories@.map_values(|c: CleanableCategory| c@),
                forall|j: int| 0 <= j < k ==> #[trigger] self@[j].name != name@,
            decreases self@.len() - k,
        {
            let c_name = self.categories[k].name();
            if str_eq(c_name, name) {
                return Some(k);
            }
            k += 1;
        }
        None
    }

    /// Sum of the category totals (`u64::MAX` where it does not fit).
    pub fn total_size(&self) -> (r: u64)
        ensures
            r == saturated(totals_sum(self@)),
    {
        let mut total: u64 = 0;
        let mut k: usize = 0;
        while k < self.categories.len()
            invariant
                k <= self@.len(),
                self@ == self.categories@.map_values(|c: CleanableCategory| c@),
                total == saturated(totals_sum(self@.take(k as int))),
            decreases self@.len() - k,
        {
            assert(self@.take(k as int + 1).drop_last() =~= self@.take(k as int));
            assert(self@.take(k as int + 1).last() == self@[k as int]);
            proof {
                lemma_totals_sum_nonneg(self@.take(k as int));
            }
            total = total.saturating_add(self.categories[k].total_size());
            k += 1;
        }
        assert(self@.take(k as int) =~= self@);
        total
    }

    /// Number of items over all categories (`usize::MAX` where it does not fit).
    pub fn total_items(&self) -> (r: usize)
        ensures
            r == (if counts_sum(self@) > usize::MAX {
                usize::MAX
            } else {
                counts_sum(self@) as usize
            }),
    {
        let mut total: usize = 0;
        let mut k: usize = 0;
        while k < self.categories.len()
            invariant
                k <= self@.len(),
                self@ == self.categories@.map_values(|c: CleanableCategory| c@),
                total == (if counts_sum(self@.take(k as int)) > usize::MAX {
                    usize::MAX
                } else {
                    counts_sum(self@.take(k as int)) as usize
                }),
            decreases self@.len() - k,
        {
            assert(self@.take(k as int + 1).drop_last() =~= self@.take(k as int));
            assert(self@.take(k as int + 1).last() == self@[k as int]);
            proof {
                lemma_counts_sum_nonneg(self@.take(k as int));
            }
            total = total.saturating_add(self.categories[k].item_count());
            k += 1;
        }
        assert(self@.take(k as int) =~= self@);
        total
    }

    /// Whether any category holds an item.
    pub fn has_items(&self) -> (r: bool)
        ensures
            r == exists|i: int| 0 <= i < self@.len() && #[trigger] self@[i].items.len() > 0,
    {
        let mut k: usize = 0;
        while k < self.categories.len()
            invariant
                k <= self@.len(),
                self@ == self.categories@.map_values(|c: CleanableCategory| c@),
                forall|j: int| 0 <= j < k ==> #[trigger] self@[j].items.len() == 0,
            decreases self@.len() - k,
        {
            if !self.categories[k].is_empty() {
                assert(self@[k as int].items.len() > 0);
                return true;
            }
            k += 1;
        }
        false
    }
}

impl Default for ScanResult {
    fn default() -> (r: Self)
        ensures
            r@ == Seq::<CategoryModel>::empty(),
    {
        ScanResult::new()
    }
}

/// A category's reported total is the sum of its item sizes, and a scan
/// result's reported total is the sum of its categories' totals, wherever
/// those sums fit in a `u64`.
pub proof fn law_totals_are_sums(cats: Seq<CategoryModel>)
    requires
        forall|i: int| 0 <= i < cats.len() ==> sizes_sum(#[trigger] cats[i].items) <= u64::MAX,
        totals_sum(cats) <= u64::MAX,
    ensures
        forall|i: int| 0 <= i < cats.len() ==> category_total(#[trigger] cats[i]) == sizes_sum(cats[i].items),
        saturated(totals_sum(cats)) == totals_sum(cats),
{
    lemma_totals_sum_nonneg(cats);
    assert forall|i: int| 0 <= i < cats.len() implies category_total(#[trigger] cats[i]) == sizes_sum(
        cats[i].items,
    ) by {
        crate::category::lemma_sizes_sum_nonneg(cats[i].items);
    }
}

} // verus!
