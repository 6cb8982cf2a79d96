use vstd::prelude::*;

use crate::category::CleanableCategory;
use crate::category_type::CategoryType;
use crate::item::CleanableItem;
use crate::scan_result::ScanResult;

verus! {

/// Why a cleanup batch, or one category of it, did not go through.
#[derive(Debug, Clone, PartialEq, Eq)]
pub enum CleanError {
    /// A selected index names no category of the scan result.
    InvalidIndex(usize),
    /// A clean strategy failed on one category.
    StrategyFailed(String),
}

/// Why a scan pass did not go through.
#[derive(Debug, Clone, PartialEq, Eq)]
pub enum ScanError {
    Failed(String),
}

/// Removes the items of a category; implemented for each way of cleaning.
pub trait CleanerRepository {
    /// Removes what the category holds and tells how many units went.
    fn clean_category(&self, category: &CleanableCategory) -> Result<usize, CleanError>;

    /// Whether this repository agrees to clean the category.
    fn can_clean(&self, category: &CleanableCategory) -> bool;
}

/// Finds reclaimable items; implemented for each way of scanning.
pub trait ScannerRepository {
    /// One full pass: one category per kind, in registry order.
    fn scan_system(&self) -> Result<ScanResult, ScanError>;

    /// The items found for one kind.
    fn scan_category(&self, category_type: CategoryType) -> Result<Vec<CleanableItem>, ScanError>;
}

} // verus!
