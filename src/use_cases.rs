use vstd::prelude::*;

use std::sync::Arc;

use crate::cleaner::{batch_result, clean_and_count};
use crate::repositories::{CleanError, CleanerRepository, ScanError, ScannerRepository};
use crate::scan_result::ScanResult;

verus! {

/// Cleans the categories that a caller selected, through a shared repository.
pub struct CleanSelectedCategoriesUseCase<R: CleanerRepository> {
    cleaner_repository: Arc<R>,
}

impl<R: CleanerRepository> CleanSelectedCategoriesUseCase<R> {
    pub fn new(cleaner_repository: Arc<R>) -> (r: Self) {
        CleanSelectedCategoriesUseCase { cleaner_repository }
    }

    /// Cleans the selected categories and returns the units removed over the batch.
    /// An index out of range refuses the whole batch before anything is cleaned;
    /// a failing category is skipped and the others go on.
    pub fn execute(&self, scan_result: &ScanResult, selected_indices: &[usize]) -> (r: Result<
        usize,
        CleanError,
    >)
        ensures
            batch_result(scan_result@, selected_indices@, r),
            selected_indices@.len() == 0 ==> r == Ok::<usize, CleanError>(0),
    {
        clean_and_count(&*self.cleaner_repository, scan_result, selected_indices)
    }
}

/// Runs a full scan through a shared repository.
pub struct ScanSystemUseCase<R: ScannerRepository> {
    scanner_repository: Arc<R>,
}

impl<R: ScannerRepository> ScanSystemUseCase<R> {
    pub fn new(scanner_repository: Arc<R>) -> (r: Self) {
        ScanSystemUseCase { scanner_repository }
    }

    /// The scan result of one full pass, as the repository gives it.
    pub fn execute(&self) -> (r: Result<ScanResult, ScanError>) {
        self.scanner_repository.scan_system()
    }
}

} // verus!
