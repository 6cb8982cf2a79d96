use vstd::prelude::*;

use crate::category::{CategoryModel, CleanableCategory};
use crate::category_type::{CategoryType, display_name_of, registry};
use crate::item::{CleanableItem, ItemModel};
use crate::repositories::{ScanError, ScannerRepository};
use crate::scan_result::ScanResult;

verus! {

pub open spec fn item_views(v: Seq<CleanableItem>) -> Seq<ItemModel> {
    v.map_values(|i: CleanableItem| i@)
}

pub open spec fn significant() -> spec_fn(ItemModel) -> bool {
    |i: ItemModel| i.size > 0
}

/// The category a kind gets from what its strategy found: the kind's display
/// name, and the items of at least one byte, in the order found.
pub open spec fn category_of(t: CategoryType, found: Seq<ItemModel>) -> CategoryModel {
    CategoryModel { name: display_name_of(t), items: found.filter(significant()) }
}

/// Builds the category of one kind from the items its strategy found.
pub fn category_from(t: CategoryType, found: &[CleanableItem]) -> (r: CleanableCategory)
    ensures
        r@ == category_of(t, item_views(found@)),
{
    let mut category = CleanableCategory::new(String::from_str(t.display_name()));
    let ghost views = item_views(found@);
    let mut k: usize = 0;
    proof {
        reveal(Seq::filter);
        assert(views.take(0) =~= Seq::<ItemModel>::empty());
        assert(views.take(0).filter(significant()) =~= Seq::<ItemModel>::empty());
    }
    while k < found.len()
        invariant
            k <= found@.len(),
            views == item_views(found@),
            category@ == category_of(t, views.take(k as int)),
        decreases found@.len() - k,
    {
        proof {
            reveal(Seq::filter);
            assert(views.take(k + 1).drop_last() =~= views.take(k as int));
            assert(views.take(k + 1).last() == found@[k as int]@);
        }
        category.add_item(found[k].clone_item());
        k += 1;
    }
    assert(views.take(k as int) =~= views);
    category
}

/// What a full pass gives: one category per kind, in registry order, named
/// after the kind.
pub open spec fn is_full_pass(cats: Seq<CategoryModel>) -> bool {
    &&& cats.len() == registry().len()
    &&& forall|i: int| 0 <= i < cats.len() ==> #[trigger] cats[i].name == display_name_of(registry()[i])
}

/// The scan result made from what each kind's strategy found, in registry order.
pub open spec fn result_of(found: Seq<Seq<ItemModel>>) -> Seq<CategoryModel> {
    Seq::new(found.len(), |i: int| category_of(registry()[i], found[i]))
}

pub open spec fn found_views(found: Seq<Vec<CleanableItem>>) -> Seq<Seq<ItemModel>> {
    found.map_values(|v: Vec<CleanableItem>| item_views(v@))
}

/// Builds the scan result from what each kind's strategy found, given in registry order.
pub fn result_from(found: &Vec<Vec<CleanableItem>>) -> (r: ScanResult)
    requires
        found@.len() == registry().len(),
    ensures
        r@ == result_of(found_views(found@)),
        is_full_pass(r@),
{
    let kinds = CategoryType::all();
    let mut result = ScanResult::new();
    let mut k: usize = 0;
    while k < kinds.len()
        invariant
            kinds@ == registry(),
            found@.len() == registry().len(),
            k <= kinds@.len(),
            result@ == result_of(found_views(found@)).take(k as int),
        decreases kinds@.len() - k,
    {
        let category = category_from(kinds[k], found[k].as_slice());
        result.add_category(category);
        assert(result@ =~= result_of(found_views(found@)).take(k + 1));
        k += 1;
    }
    assert(result@ =~= result_of(found_views(found@)));
    result
}

/// The scan result is made, in registry order, of what each kind's strategy
/// found: its significant items, in the order found.
pub open spec fn is_assembled(cats: Seq<CategoryModel>) -> bool {
    exists|found: Seq<Seq<ItemModel>>| found.len() == registry().len() && cats == #[trigger] result_of(found)
}

/// Runs the strategy of every kind, in registry order, and gathers the
/// categories. A kind whose strategy fails ends the pass with its error.
pub fn scan_all_kinds<R: ScannerRepository>(repository: &R) -> (r: Result<ScanResult, ScanError>)
    ensures
        r matches Ok(result) ==> is_full_pass(result@) && is_assembled(result@),
{
    let kinds = CategoryType::all();
    let mut found: Vec<Vec<CleanableItem>> = Vec::new();
    let mut k: usize = 0;
    while k < kinds.len()
        invariant
            kinds@ == registry(),
            k <= kinds@.len(),
            found@.len() == k,
        decreases kinds@.len() - k,
    {
        match repository.scan_category(kinds[k]) {
            Ok(items) => {
                found.push(items);
            },
            Err(e) => {
                return Err(e);
            },
        }
        k += 1;
    }
    let result = result_from(&found);
    assert(found_views(found@).len() == registry().len());
    Ok(result)
}

/// Runs a full scan pass over one repository.
pub struct Scanner<R: ScannerRepository> {
    repository: R,
}

impl<R: ScannerRepository> Scanner<R> {
    pub fn new(repository: R) -> (r: Self) {
        Scanner { repository }
    }

    /// One category per kind, in registry order, each holding what the kind's
    /// strategy found that has at least one byte.
    pub fn scan_all(&self) -> (r: Result<ScanResult, ScanError>)
        ensures
            r matches Ok(result) ==> is_full_pass(result@) && is_assembled(result@),
    {
        scan_all_kinds(&self.repository)
    }
}

} // verus!
