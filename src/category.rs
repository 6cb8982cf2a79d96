use vstd::prelude::*;

use crate::item::{CleanableItem, ItemModel};

verus! {

/// Sum of the sizes of a sequence of items, without any bound.
pub open spec fn sizes_sum(items: Seq<ItemModel>) -> int
    decreases items.len(),
{
    if items.len() == 0 {
        0
    } else {
        sizes_sum(items.drop_last()) + items.last().size
    }
}

pub proof fn lemma_sizes_sum_nonneg(items: Seq<ItemModel>)
    ensures
        sizes_sum(items) >= 0,
    decreases items.len(),
{
    if items.len() > 0 {
        lemma_sizes_sum_nonneg(items.drop_last());
    }
}

/// A total as a `u64` reports it: exact while it fits, `u64::MAX` beyond.
pub open spec fn saturated(total: int) -> u64 {
    if total > u64::MAX {
        u64::MAX
    } else {
        total as u64
    }
}

/// Every item of the sequence holds at least one byte.
pub open spec fn all_significant(items: Seq<ItemModel>) -> bool {
    forall|i: int| 0 <= i < items.len() ==> #[trigger] items[i].size > 0
}

pub proof fn lemma_push_significant(items: Seq<ItemModel>, x: ItemModel)
    requires
        all_significant(items),
        x.size > 0,
    ensures
        all_significant(items.push(x)),
{
    assert forall|i: int| 0 <= i < items.push(x).len() implies #[trigger] items.push(x)[i].size > 0 by {
        if i < items.len() {
            assert(items.push(x)[i] == items[i]);
        }
    }
}

/// What a category is, as far as contracts speak of it.
pub struct CategoryModel {
    pub name: Seq<char>,
    pub items: Seq<ItemModel>,
}

/// A named, ordered group of items of one kind.
/// Only items of at least one byte are ever kept.
#[derive(Debug)]
pub struct CleanableCategory {
    name: String,
    items: Vec<CleanableItem>,
}

impl View for CleanableCategory {
    type V = CategoryModel;

    closed spec fn view(&self) -> CategoryModel {
        CategoryModel { name: self.name@, items: self.items@.map_values(|i: CleanableItem| i@) }
    }
}

impl Clone for CleanableCategory {
    /// A copy with the same name and the same items.
    fn clone(&self) -> (r: Self)
        ensures
            r@ == self@,
    {
        proof {
            use_type_invariant(self);
        }
        let mut items: Vec<CleanableItem> = Vec::new();
        let mut k: usize = 0;
        while k < self.items.len()
            invariant
                k <= self.items@.len(),
                items@.len() == k,
                forall|i: int| 0 <= i < k ==> #[trigger] items@[i]@ == self.items@[i]@,
                forall|i: int| 0 <= i < self.items@.len() ==> #[trigger] self.items@[i]@.size > 0,
            decreases self.items@.len() - k,
        {
            items.push(self.items[k].clone_item());
            k += 1;
        }
        let r = CleanableCategory { name: self.name.clone(), items };
        assert(r@.items =~= self@.items);
        r
    }
}

impl CleanableCategory {
    #[verifier::type_invariant]
    spec fn keeps_significant_only(&self) -> bool {
        forall|i: int| 0 <= i < self.items@.len() ==> #[trigger] self.items@[i]@.size > 0
    }

    /// An empty category with the given display name.
    pub fn new(name: String) -> (r: Self)
        ensures
            r@.name == name@,
            r@.items == Seq::<ItemModel>::empty(),
    {
        let r = CleanableCategory { name, items: Vec::new() };
        assert(r@.items =~= Seq::<ItemModel>::empty());
        r
    }

    /// Appends the item when it holds at least one byte; drops it otherwise.
    pub fn add_item(&mut self, item: CleanableItem)
        ensures
            final(self)@.name == old(self)@.name,
            final(self)@.items == (if item@.size > 0 {
                old(self)@.items.push(item@)
            } else {
                old(self)@.items
            }),
    {
        proof {
            use_type_invariant(&*self);
        }
        if item.is_significant() {
            let ghost before = self@.items;
            let mut items: Vec<CleanableItem> = Vec::new();
            std::mem::swap(&mut items, &mut self.items);
            items.push(item);
            self.items = items;
            assert(self@.items =~= before.push(item@));
        }
    }

    pub fn name(&self) -> (r: &str)
        ensures
            r@ == self@.name,
    {
        self.name.as_str()
    }

    /// The items, in the order they were found; none of them is empty.
    pub fn items(&self) -> (r: &[CleanableItem])
        ensures
            r@.map_values(|i: CleanableItem| i@) == self@.items,
            all_significant(self@.items),
    {
        proof {
            use_type_invariant(self);
        }
        self.items.as_slice()
    }

    /// Sum of the item sizes (`u64::MAX` where the sum does not fit).
    pub fn total_size(&self) -> (r: u64)
        ensures
            r == saturated(sizes_sum(self@.items)),
    {
        let mut total: u64 = 0;
        let mut k: usize = 0;
        while k < self.items.len()
            invariant
                k <= self.items@.len(),
                self@.items == self.items@.map_values(|i: CleanableItem| i@),
                total == saturated(sizes_sum(self@.items.take(k as int))),
            decreases self.items@.len() - k,
        {
            assert(self@.items.take(k as int + 1).drop_last() =~= self@.items.take(k as int));
            assert(self@.items.take(k as int + 1).last() == self@.items[k as int]);
            proof {
                lemma_sizes_sum_nonneg(self@.items.take(k as int));
            }
            total = total.saturating_add(self.items[k].size_in_bytes());
            k += 1;
        }
        assert(self@.items.take(k as int) =~= self@.items);
        total
    }

    pub fn item_count(&self) -> (r: usize)
        ensures
            r == self@.items.len(),
    {
        self.items.len()
    }

    /// A category with no item is empty.
    pub fn is_empty(&self) -> (r: bool)
        ensures
            r == (self@.items.len() == 0),
    {
        self.items.len() == 0
    }

    /// The first `count` items, or all of them where there are fewer.
    pub fn take(&self, count: usize) -> (r: &[CleanableItem])
        ensures
            r@.map_values(|i: CleanableItem| i@) == self@.items.take(
                if count < self@.items.len() { count as int } else { self@.items.len() as int },
            ),
    {
        let end: usize = if count < self.items.len() { count } else { self.items.len() };
        let (head, _rest) = self.items.as_slice().split_at(end);
        assert(head@.map_values(|i: CleanableItem| i@) =~= self@.items.take(end as int));
        head
    }
}

} // verus!
