use vstd::prelude::*;

use crate::category::{CategoryModel, CleanableCategory};
use crate::repositories::{CleanError, CleanerRepository};
use crate::scan_result::ScanResult;

verus! {

/// The safety check: only a non-empty category with a non-empty name is cleaned.
pub open spec fn is_cleanable(c: CategoryModel) -> bool {
    c.items.len() > 0 && c.name.len() > 0
}

/// Which selected indices name a category that passes the safety check.
pub open spec fn cleanable_index(cats: Seq<CategoryModel>) -> spec_fn(usize) -> bool {
    |i: usize| (i as int) < cats.len() && is_cleanable(cats[i as int])
}

/// Position of the first index that names no category, if any.
pub open spec fn first_invalid(indices: Seq<usize>, n: int) -> Option<int>
    decreases indices.len(),
{
    if indices.len() == 0 {
        None
    } else {
        match first_invalid(indices.drop_last(), n) {
            Some(k) => Some(k),
            None => if indices.last() >= n {
                Some(indices.len() - 1)
            } else {
                None
            },
        }
    }
}

/// What a batch does with a selection: refuse it on the first index out of
/// range, or hand to the clean strategy, in selection order, each selected
/// category that passes the safety check.
pub open spec fn cleaning_plan(cats: Seq<CategoryModel>, indices: Seq<usize>) -> Result<
    Seq<usize>,
    CleanError,
> {
    match first_invalid(indices, cats.len() as int) {
        Some(k) => Err(CleanError::InvalidIndex(indices[k])),
        None => Ok(indices.filter(cleanable_index(cats))),
    }
}

/// What one category of a batch gave.
#[derive(Debug)]
pub struct CategoryOutcome {
    /// Index of the category in the scan result.
    pub index: usize,
    /// Units the strategy removed, or why it failed.
    pub result: Result<usize, CleanError>,
}

/// Units removed over a sequence of outcomes; failed categories add nothing.
pub open spec fn cleaned_sum(outcomes: Seq<CategoryOutcome>) -> int
    decreases outcomes.len(),
{
    if outcomes.len() == 0 {
        0
    } else {
        cleaned_sum(outcomes.drop_last()) + match outcomes.last().result {
            Ok(n) => n as int,
            Err(_) => 0,
        }
    }
}

/// A count as a `usize` reports it: exact while it fits, `usize::MAX` beyond.
pub open spec fn saturated_count(total: int) -> usize {
    if total > usize::MAX {
        usize::MAX
    } else {
        total as usize
    }
}

pub proof fn lemma_cleaned_sum_nonneg(outcomes: Seq<CategoryOutcome>)
    ensures
        cleaned_sum(outcomes) >= 0,
    decreases outcomes.len(),
{
    if outcomes.len() > 0 {
        lemma_cleaned_sum_nonneg(outcomes.drop_last());
    }
}

/// Whether the category may be handed to a clean strategy.
pub fn can_clean_category(category: &CleanableCategory) -> (r: bool)
    ensures
        r == is_cleanable(category@),
{
    !category.is_empty() && category.name().unicode_len() > 0
}

/// The categories a batch will clean, or the error that refuses it.
/// Nothing is checked after an index out of range: the whole batch is refused.
pub fn plan_cleanup(result: &ScanResult, indices: &[usize]) -> (r: Result<Vec<usize>, CleanError>)
    ensures
        match r {
            Ok(p) => cleaning_plan(result@, indices@) == Ok::<Seq<usize>, CleanError>(p@),
            Err(e) => cleaning_plan(result@, indices@) == Err::<Seq<usize>, CleanError>(e),
        },
{
    let cats = result.categories();
    let n = cats.len();
    let ghost model = result@;
    let ghost pred = cleanable_index(model);
    let mut plan: Vec<usize> = Vec::new();
    let mut k: usize = 0;
    while k < indices.len()
        invariant
            k <= indices@.len(),
            n == model.len(),
            model == result@,
            cats@.map_values(|c: CleanableCategory| c@) == model,
            pred == cleanable_index(model),
            first_invalid(indices@.take(k as int), n as int) == Option::<int>::None,
            plan@ == indices@.take(k as int).filter(pred),
        decreases indices@.len() - k,
    {
        let i = indices[k];
        proof {
            reveal(Seq::filter);
        }
        assert(indices@.take(k as int + 1).drop_last() =~= indices@.take(k as int));
        assert(indices@.take(k as int + 1).last() == i);
        if i >= n {
            assert(first_invalid(indices@.take(k as int + 1), n as int) == Some(k as int));
            proof {
                lemma_first_invalid_prefix(indices@, n as int, k as int + 1);
            }
            return Err(CleanError::InvalidIndex(i));
        }
        if can_clean_category(&cats[i]) {
            plan.push(i);
        }
        k += 1;
    }
    assert(indices@.take(k as int) =~= indices@);
    Ok(plan)
}

/// Once a prefix holds an index out of range, the whole sequence has it at the same place.
pub proof fn lemma_first_invalid_prefix(indices: Seq<usize>, n: int, len: int)
    requires
        0 <= len <= indices.len(),
        first_invalid(indices.take(len), n) is Some,
    ensures
        first_invalid(indices, n) == first_invalid(indices.take(len), n),
    decreases indices.len() - len,
{
    if len < indices.len() {
        assert(indices.take(len + 1).drop_last() =~= indices.take(len));
        lemma_first_invalid_prefix(indices, n, len + 1);
    } else {
        assert(indices.take(len) =~= indices);
    }
}

/// Units removed over the outcomes of a batch (`usize::MAX` where the sum does not fit).
pub fn total_cleaned(outcomes: &[CategoryOutcome]) -> (r: usize)
    ensures
        r == saturated_count(cleaned_sum(outcomes@)),
{
    let mut total: usize = 0;
    let mut k: usize = 0;
    while k < outcomes.len()
        invariant
            k <= outcomes@.len(),
            total == saturated_count(cleaned_sum(outcomes@.take(k as int))),
        decreases outcomes@.len() - k,
    {
        assert(outcomes@.take(k as int + 1).drop_last() =~= outcomes@.take(k as int));
        assert(outcomes@.take(k as int + 1).last() == outcomes@[k as int]);
        proof {
            lemma_cleaned_sum_nonneg(outcomes@.take(k as int));
        }
        match &outcomes[k].result {
            Ok(n) => {
                total = total.saturating_add(*n);
            },
            Err(_) => {},
        }
        k += 1;
    }
    assert(outcomes@.take(k as int) =~= outcomes@);
    total
}

/// Hands each planned category to the repository, in selection order, and
/// keeps what each gave. A failing category does not stop the others.
pub fn clean_categories<R: CleanerRepository>(
    repository: &R,
    result: &ScanResult,
    indices: &[usize],
) -> (r: Result<Vec<CategoryOutcome>, CleanError>)
    ensures
        match r {
            Ok(v) => cleaning_plan(result@, indices@) == Ok::<Seq<usize>, CleanError>(
                v@.map_values(|o: CategoryOutcome| o.index),
            ),
            Err(e) => cleaning_plan(result@, indices@) == Err::<Seq<usize>, CleanError>(e),
        },
{
    let plan = match plan_cleanup(result, indices) {
        Ok(p) => p,
        Err(e) => {
            return Err(e);
        },
    };
    let cats = result.categories();
    let mut outcomes: Vec<CategoryOutcome> = Vec::new();
    let mut k: usize = 0;
    while k < plan.len()
        invariant
            k <= plan@.len(),
            cleaning_plan(result@, indices@) == Ok::<Seq<usize>, CleanError>(plan@),
            cats@.map_values(|c: CleanableCategory| c@) == result@,
            outcomes@.len() == k,
            outcomes@.map_values(|o: CategoryOutcome| o.index) == plan@.take(k as int),
        decreases plan@.len() - k,
    {
        let index = plan[k];
        proof {
            assert(cleanable_index(result@)(index)) by {
                broadcast use Seq::lemma_filter_pred;
                assert(indices@.filter(cleanable_index(result@))[k as int] == index);
            }
        }
        let outcome = repository.clean_category(&cats[index]);
        let ghost before = outcomes@;
        outcomes.push(CategoryOutcome { index, result: outcome });
        assert forall|j: int| 0 <= j < k implies outcomes@[j].index == plan@[j] by {
            assert(outcomes@[j] == before[j]);
            assert(before.map_values(|o: CategoryOutcome| o.index)[j] == plan@.take(k as int)[j]);
        }
        assert(outcomes@.map_values(|o: CategoryOutcome| o.index) =~= plan@.take(k as int + 1));
        k += 1;
    }
    assert(plan@.take(k as int) =~= plan@);
    Ok(outcomes)
}

/// What a batch over a selection returns: the units removed over the planned
/// categories, whatever each strategy gave, or the error that refused the batch.
pub open spec fn batch_result(
    cats: Seq<CategoryModel>,
    indices: Seq<usize>,
    r: Result<usize, CleanError>,
) -> bool {
    match cleaning_plan(cats, indices) {
        Err(e) => r == Err::<usize, CleanError>(e),
        Ok(plan) => match r {
            Ok(n) => exists|outcomes: Seq<CategoryOutcome>|
                outcomes.map_values(|o: CategoryOutcome| o.index) == plan && n
                    == saturated_count(#[trigger] cleaned_sum(outcomes)),
            Err(_) => false,
        },
    }
}

/// Runs a batch and sums what the strategies removed.
pub fn clean_and_count<R: CleanerRepository>(
    repository: &R,
    result: &ScanResult,
    indices: &[usize],
) -> (r: Result<usize, CleanError>)
    ensures
        batch_result(result@, indices@, r),
        indices@.len() == 0 ==> r == Ok::<usize, CleanError>(0),
{
    match clean_categories(repository, result, indices) {
        Ok(outcomes) => {
            let n = total_cleaned(outcomes.as_slice());
            proof {
                if indices@.len() == 0 {
                    reveal(Seq::filter);
                    assert(outcomes@.map_values(|o: CategoryOutcome| o.index).len() == 0);
                    assert(outcomes@ =~= Seq::<CategoryOutcome>::empty());
                }
            }
            Ok(n)
        },
        Err(e) => Err(e),
    }
}

/// The selective-cleanup coordinator over one repository.
pub struct Cleaner<R: CleanerRepository> {
    repository: R,
}

impl<R: CleanerRepository> Cleaner<R> {
    pub fn new(repository: R) -> (r: Self) {
        Cleaner { repository }
    }

    /// Cleans the selected categories and returns the units removed over the batch.
    /// An index out of range refuses the whole batch before anything is cleaned;
    /// a failing category is skipped and the others go on.
    pub fn clean_selected(&self, result: &ScanResult, selected: &[usize]) -> (r: Result<
        usize,
        CleanError,
    >)
        ensures
            batch_result(result@, selected@, r),
            selected@.len() == 0 ==> r == Ok::<usize, CleanError>(0),
    {
        clean_and_count(&self.repository, result, selected)
    }

    /// Cleans the selected categories and returns what each planned category gave,
    /// so that failures can be reported.
    pub fn clean_each(&self, result: &ScanResult, selected: &[usize]) -> (r: Result<
        Vec<CategoryOutcome>,
        CleanError,
    >)
        ensures
            match r {
                Ok(v) => cleaning_plan(result@, selected@) == Ok::<Seq<usize>, CleanError>(
                    v@.map_values(|o: CategoryOutcome| o.index),
                ),
                Err(e) => cleaning_plan(result@, selected@) == Err::<Seq<usize>, CleanError>(e),
            },
    {
        clean_categories(&self.repository, result, selected)
    }
}

/// An empty selection cleans nothing: no category is handed to a strategy.
pub proof fn law_empty_selection_cleans_nothing(cats: Seq<CategoryModel>)
    ensures
        cleaning_plan(cats, Seq::<usize>::empty()) == Ok::<Seq<usize>, CleanError>(
            Seq::<usize>::empty(),
        ),
{
    reveal(Seq::filter);
}

/// A selection holding an index out of range is refused as a whole, with the
/// first such index, so that no category of it, before or after, is cleaned.
pub proof fn law_out_of_range_refuses_batch(cats: Seq<CategoryModel>, indices: Seq<usize>, k: int)
    requires
        0 <= k < indices.len(),
        indices[k] >= cats.len(),
    ensures
        exists|j: int|
            0 <= j <= k && indices[j] >= cats.len() && cleaning_plan(cats, indices) == Err::<
                Seq<usize>,
                CleanError,
            >(CleanError::InvalidIndex(indices[j])) && forall|m: int|
                0 <= m < j ==> #[trigger] indices[m] < cats.len(),
{
    lemma_first_invalid_found(indices, cats.len() as int, k);
}

/// `first_invalid` finds the first index out of range at or before any such index.
pub proof fn lemma_first_invalid_found(indices: Seq<usize>, n: int, k: int)
    requires
        0 <= k < indices.len(),
        indices[k] >= n,
    ensures
        first_invalid(indices, n) matches Some(j) && 0 <= j <= k && indices[j] >= n && forall|m: int|
            0 <= m < j ==> #[trigger] indices[m] < n,
    decreases indices.len(),
{
    let prefix = indices.drop_last();
    lemma_first_invalid_sound(indices, n);
    if k < indices.len() - 1 {
        assert(prefix[k] == indices[k]);
        lemma_first_invalid_found(prefix, n, k);
    } else {
        if first_invalid(prefix, n) is None {
            lemma_first_invalid_none(prefix, n);
        }
    }
}

pub proof fn lemma_first_invalid_sound(indices: Seq<usize>, n: int)
    ensures
        first_invalid(indices, n) matches Some(j) ==> 0 <= j < indices.len() && indices[j] >= n
            && forall|m: int| 0 <= m < j ==> #[trigger] indices[m] < n,
    decreases indices.len(),
{
    if indices.len() > 0 {
        let prefix = indices.drop_last();
        lemma_first_invalid_sound(prefix, n);
        match first_invalid(prefix, n) {
            Some(j) => {
                assert(indices[j] == prefix[j]);
                assert forall|m: int| 0 <= m < j implies #[trigger] indices[m] < n by {
                    assert(indices[m] == prefix[m]);
                }
            },
            None => {
                lemma_first_invalid_none(prefix, n);
                assert forall|m: int| 0 <= m < indices.len() - 1 implies #[trigger] indices[m] < n by {
                    assert(indices[m] == prefix[m]);
                }
            },
        }
    }
}

pub proof fn lemma_first_invalid_none(indices: Seq<usize>, n: int)
    requires
        first_invalid(indices, n) is None,
    ensures
        forall|m: int| 0 <= m < indices.len() ==> #[trigger] indices[m] < n,
    decreases indices.len(),
{
    if indices.len() > 0 {
        lemma_first_invalid_none(indices.drop_last(), n);
        assert forall|m: int| 0 <= m < indices.len() implies #[trigger] indices[m] < n by {
            if m < indices.len() - 1 {
                assert(indices.drop_last()[m] == indices[m]);
            }
        }
    }
}

/// An empty category is never handed to a clean strategy, whatever the selection.
pub proof fn law_empty_category_is_skipped(cats: Seq<CategoryModel>, indices: Seq<usize>, i: usize)
    requires
        (i as int) < cats.len(),
        cats[i as int].items.len() == 0,
    ensures
        cleaning_plan(cats, indices) matches Ok(plan) ==> !plan.contains(i),
{
    if cleaning_plan(cats, indices) is Ok {
        let plan = indices.filter(cleanable_index(cats));
        if plan.contains(i) {
            let j = choose|j: int| 0 <= j < plan.len() && plan[j] == i;
            indices.lemma_filter_pred(cleanable_index(cats), j);
        }
    }
}

/// Where every planned category gave the same count `c`, the batch removes
/// `c` units per category.
pub proof fn law_uniform_outcomes_add_up(outcomes: Seq<CategoryOutcome>, c: usize)
    requires
        forall|k: int| 0 <= k < outcomes.len() ==> #[trigger] outcomes[k].result == Ok::<usize, CleanError>(c),
    ensures
        cleaned_sum(outcomes) == outcomes.len() * c,
    decreases outcomes.len(),
{
    if outcomes.len() > 0 {
        let prefix = outcomes.drop_last();
        assert forall|k: int| 0 <= k < prefix.len() implies #[trigger] prefix[k].result == Ok::<usize, CleanError>(c) by {
            assert(prefix[k] == outcomes[k]);
        }
        law_uniform_outcomes_add_up(prefix, c);
        assert(outcomes.last().result == Ok::<usize, CleanError>(c));
        assert(outcomes.len() * c == prefix.len() * c + c) by (nonlinear_arith)
            requires outcomes.len() == prefix.len() + 1;
    }
}

} // verus!
