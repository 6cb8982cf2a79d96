use vstd::prelude::*;

use std::sync::Arc;

use crate::category::CategoryModel;
use crate::cleaner::{cleaned_sum, saturated_count, total_cleaned, CategoryOutcome};
use crate::repositories::{CleanError, ScanError};
use crate::scan_result::ScanResult;

verus! {

/// Where one kind of operation (scan or clean) stands.
#[derive(Debug, Clone, Copy, PartialEq, Eq, Structural)]
pub enum OperationState {
    Idle,
    Running,
    Completed,
    Failed,
}

/// What a clean worker reports back, in order, to the caller's loop.
#[derive(Debug, Clone, PartialEq, Eq)]
pub enum CleanMessage {
    InProgress,
    /// The batch went through; the units removed over it.
    Completed(usize),
    /// The batch was refused.
    Failed(CleanError),
}

/// The message that reports how a clean batch ended: the units removed over
/// its outcomes, or the error that refused it.
pub fn clean_message(outcome: Result<Vec<CategoryOutcome>, CleanError>) -> (r: CleanMessage)
    ensures
        match outcome {
            Ok(v) => r == CleanMessage::Completed(saturated_count(cleaned_sum(v@))),
            Err(e) => r == CleanMessage::Failed(e),
        },
{
    match outcome {
        Ok(outcomes) => CleanMessage::Completed(total_cleaned(outcomes.as_slice())),
        Err(e) => CleanMessage::Failed(e),
    }
}

/// Relies on `Arc::clone`: it makes another pointer to the same value.
#[verifier::external_body]
fn share(a: &Arc<ScanResult>) -> (r: Arc<ScanResult>)
    ensures
        r == *a,
{
    Arc::clone(a)
}

/// What a clean worker is handed: the scan result to clean from and the
/// selected category indices.
pub struct CleanJob {
    pub scan_result: Arc<ScanResult>,
    pub selection: Vec<usize>,
}

/// What the coordinator's contracts speak of.
pub struct CoordinatorModel {
    pub scan: OperationState,
    pub clean: OperationState,
    /// A scan result is held, and may be cleaned from.
    pub has_result: bool,
    /// The scan result held, if any.
    pub result: Option<Seq<CategoryModel>>,
    pub selection: Seq<usize>,
    pub last_cleaned: Option<usize>,
}

/// Decides the state of the scan and clean operations that run off the
/// caller's thread: at most one of each runs at a time, a clean needs a
/// confirmation, a non-empty selection and a held scan result, and a
/// successful clean drops the scan result and the selection.
pub struct ExecutionCoordinator {
    scan: OperationState,
    clean: OperationState,
    scan_result: Option<Arc<ScanResult>>,
    selection: Vec<usize>,
    last_cleaned: Option<usize>,
}

impl View for ExecutionCoordinator {
    type V = CoordinatorModel;

    closed spec fn view(&self) -> CoordinatorModel {
        CoordinatorModel {
            scan: self.scan,
            clean: self.clean,
            has_result: self.scan_result is Some,
            result: match self.scan_result {
                Some(a) => Some((*a)@),
                None => None,
            },
            selection: self.selection@,
            last_cleaned: self.last_cleaned,
        }
    }
}

impl ExecutionCoordinator {
    /// Nothing running, nothing held, nothing selected.
    pub fn new() -> (r: Self)
        ensures
            r@.scan == OperationState::Idle,
            r@.clean == OperationState::Idle,
            !r@.has_result,
            r@.result is None,
            r@.selection == Seq::<usize>::empty(),
            r@.last_cleaned is None,
    {
        ExecutionCoordinator {
            scan: OperationState::Idle,
            clean: OperationState::Idle,
            scan_result: None,
            selection: Vec::new(),
            last_cleaned: None,
        }
    }

    pub fn scan_state(&self) -> (r: OperationState)
        ensures
            r == self@.scan,
    {
        self.scan
    }

    pub fn clean_state(&self) -> (r: OperationState)
        ensures
            r == self@.clean,
    {
        self.clean
    }

    /// The scan result held now, shared with whoever reads it.
    pub fn scan_result(&self) -> (r: Option<Arc<ScanResult>>)
        ensures
            r is Some == self@.has_result,
            r matches Some(a) ==> self@.result == Some((*a)@),
    {
        match &self.scan_result {
            Some(s) => Some(share(s)),
            None => None,
        }
    }

    pub fn selection(&self) -> (r: &[usize])
        ensures
            r@ == self@.selection,
    {
        self.selection.as_slice()
    }

    /// Units removed by the last successful clean.
    pub fn last_cleaned(&self) -> (r: Option<usize>)
        ensures
            r == self@.last_cleaned,
    {
        self.last_cleaned
    }

    /// Asks to start a scan. Tells whether the caller is to start one now; a
    /// request while a scan runs changes nothing.
    pub fn request_scan(&mut self) -> (r: bool)
        ensures
            r == (old(self)@.scan != OperationState::Running),
            final(self)@.scan == OperationState::Running,
            final(self)@.clean == old(self)@.clean,
            final(self)@.has_result == old(self)@.has_result,
            final(self)@.result == old(self)@.result,
            final(self)@.selection == old(self)@.selection,
            final(self)@.last_cleaned == old(self)@.last_cleaned,
    {
        if self.scan == OperationState::Running {
            false
        } else {
            self.scan = OperationState::Running;
            true
        }
    }

    /// Takes the outcome of the running scan. A new result replaces the held
    /// one whole and clears the selection; a failed scan leaves what was held.
    pub fn finish_scan(&mut self, outcome: Result<ScanResult, ScanError>)
        ensures
            final(self)@.clean == old(self)@.clean,
            final(self)@.last_cleaned == old(self)@.last_cleaned,
            match outcome {
                Ok(result) => final(self)@.scan == OperationState::Completed && final(self)@.has_result
                    && final(self)@.result == Some(result@) && final(self)@.selection == Seq::<
                    usize,
                >::empty(),
                Err(_) => final(self)@.scan == OperationState::Failed && final(self)@.has_result
                    == old(self)@.has_result && final(self)@.result == old(self)@.result
                    && final(self)@.selection == old(self)@.selection,
            },
    {
        match outcome {
            Ok(result) => {
                self.scan_result = Some(Arc::new(result));
                self.selection = Vec::new();
                self.scan = OperationState::Completed;
            },
            Err(_) => {
                self.scan = OperationState::Failed;
            },
        }
    }

    /// Sets which categories the next clean is to take.
    pub fn select(&mut self, selection: Vec<usize>)
        ensures
            final(self)@.selection == selection@,
            final(self)@.scan == old(self)@.scan,
            final(self)@.clean == old(self)@.clean,
            final(self)@.has_result == old(self)@.has_result,
            final(self)@.result == old(self)@.result,
            final(self)@.last_cleaned == old(self)@.last_cleaned,
    {
        self.selection = selection;
    }

    /// Asks to start a clean. Hands back the job for the worker when a clean
    /// may start: none runs, the caller confirmed, something is selected and a
    /// scan result is held. Otherwise nothing changes.
    pub fn request_clean(&mut self, confirmed: bool) -> (r: Option<CleanJob>)
        ensures
            ({
                let may_start = old(self)@.clean != OperationState::Running && confirmed && old(
                    self,
                )@.selection.len() > 0 && old(self)@.has_result;
                &&& r is Some == may_start
                &&& may_start ==> final(self)@.clean == OperationState::Running && r->0.selection@
                    == old(self)@.selection && old(self)@.result == Some((*r->0.scan_result)@)
                &&& !may_start ==> final(self)@.clean == old(self)@.clean
            }),
            final(self)@.scan == old(self)@.scan,
            final(self)@.has_result == old(self)@.has_result,
            final(self)@.result == old(self)@.result,
            final(self)@.selection == old(self)@.selection,
            final(self)@.last_cleaned == old(self)@.last_cleaned,
    {
        if self.clean == OperationState::Running || !confirmed || self.selection.len() == 0 {
            return None;
        }
        match &self.scan_result {
            Some(result) => {
                let job = CleanJob { scan_result: share(result), selection: self.selection.clone() };
                self.clean = OperationState::Running;
                Some(job)
            },
            None => None,
        }
    }

    /// Takes one message of the running clean. Success drops the held scan
    /// result and the selection, so that no clean runs again before a new
    /// scan; failure keeps them, so that the caller may retry.
    pub fn on_clean_message(&mut self, message: CleanMessage)
        ensures
            final(self)@.scan == old(self)@.scan,
            match message {
                CleanMessage::InProgress => final(self)@ == old(self)@,
                CleanMessage::Completed(n) => final(self)@.clean == OperationState::Completed
                    && !final(self)@.has_result && final(self)@.result is None && final(self)@.selection == Seq::<usize>::empty()
                    && final(self)@.last_cleaned == Some(n),
                CleanMessage::Failed(_) => final(self)@.clean == OperationState::Failed
                    && final(self)@.has_result == old(self)@.has_result && final(self)@.result
                    == old(self)@.result && final(self)@.selection
                    == old(self)@.selection && final(self)@.last_cleaned == old(self)@.last_cleaned,
            },
    {
        match message {
            CleanMessage::InProgress => {},
            CleanMessage::Completed(n) => {
                self.scan_result = None;
                self.selection = Vec::new();
                self.last_cleaned = Some(n);
                self.clean = OperationState::Completed;
            },
            CleanMessage::Failed(_) => {
                self.clean = OperationState::Failed;
            },
        }
    }
}

} // verus!
