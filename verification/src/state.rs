//! Batch-queue state: the items the user queued for compression, how the
//! list is filtered and ordered, and the bookkeeping of a processing run.
use vstd::prelude::*;
use std::collections::HashMap;
use crate::text::{lowercase, to_lowercase};
use crate::wof::{WofAlgorithm, CompressionState, algorithm_code};

verus! {

broadcast use vstd::std_specs::hash::group_hash_axioms;

/// State of a processing run (kept by the worker threads as one byte).
#[derive(Clone, Copy, Debug, PartialEq, Eq, Structural)]
pub enum ProcessingState {
    /// Not started or finished processing
    Idle,
    /// Actively processing files
    Running,
    /// Paused by user, can be resumed
    Paused,
    /// Cancelled/stopped, cannot be resumed
    Stopped,
}

pub open spec fn processing_state_of(v: u8) -> ProcessingState {
    if v == 1 {
        ProcessingState::Running
    } else if v == 2 {
        ProcessingState::Paused
    } else if v == 3 {
        ProcessingState::Stopped
    } else {
        ProcessingState::Idle
    }
}

pub open spec fn processing_state_byte(s: ProcessingState) -> u8 {
    match s {
        ProcessingState::Idle => 0,
        ProcessingState::Running => 1,
        ProcessingState::Paused => 2,
        ProcessingState::Stopped => 3,
    }
}

impl ProcessingState {
    /// Converts the stored byte back to a state; unknown bytes read as `Idle`.
    pub fn from_u8(v: u8) -> (r: ProcessingState)
        ensures
            r == processing_state_of(v),
    {
        match v {
            1 => ProcessingState::Running,
            2 => ProcessingState::Paused,
            3 => ProcessingState::Stopped,
            _ => ProcessingState::Idle,
        }
    }

    /// The byte a state is stored as.
    pub fn to_u8(self) -> (r: u8)
        ensures
            r == processing_state_byte(self),
    {
        match self {
            ProcessingState::Idle => 0,
            ProcessingState::Running => 1,
            ProcessingState::Paused => 2,
            ProcessingState::Stopped => 3,
        }
    }
}

/// Storing a state as a byte and reading it back gives the same state.
pub proof fn lemma_processing_state_roundtrip(s: ProcessingState)
    ensures
        processing_state_of(processing_state_byte(s)) == s,
{
}

/// App Theme Preference
#[derive(Clone, Copy, Debug, PartialEq, Eq, Structural)]
pub enum AppTheme {
    System,
    Dark,
    Light,
}

impl Default for AppTheme {
    fn default() -> (r: Self)
        ensures
            r == AppTheme::System,
    {
        AppTheme::System
    }
}

/// Action to perform on a batch item
#[derive(Clone, Copy, Debug, PartialEq, Eq, Structural)]
pub enum BatchAction {
    Compress,
    Decompress,
}

impl Default for BatchAction {
    fn default() -> (r: Self)
        ensures
            r == BatchAction::Compress,
    {
        BatchAction::Compress
    }
}

/// Status of a batch item
#[derive(Clone, Debug)]
pub enum BatchStatus {
    Pending,
    Processing,
    Complete,
    Error(String),
}

impl Default for BatchStatus {
    fn default() -> (r: Self)
        ensures
            r is Pending,
    {
        BatchStatus::Pending
    }
}

/// Filter column type
#[derive(Clone, Copy, Debug, PartialEq, Eq, Structural)]
pub enum FilterColumn {
    Path,
    Status,
}

/// Search State
pub struct SearchState {
    pub text: String,
    pub filter_column: FilterColumn,
    pub algorithm_filter: Option<WofAlgorithm>,
    /// 0 = all sizes, 1 = small (under 1 MB), 2 = large (over 100 MB)
    pub size_filter: i32,
    pub use_regex: bool,
    pub case_sensitive: bool,
}

impl Default for SearchState {
    fn default() -> (r: Self)
        ensures
            r.text@ == Seq::<char>::empty(),
            r.filter_column == FilterColumn::Path,
            r.algorithm_filter is None,
            r.size_filter == 0,
            !r.use_regex,
            !r.case_sensitive,
    {
        SearchState {
            text: String::new(),
            filter_column: FilterColumn::Path,
            algorithm_filter: None,
            size_filter: 0,
            use_regex: false,
            case_sensitive: false,
        }
    }
}

/// An item in the batch processing queue.
#[derive(Debug)]
pub struct BatchItem {
    /// Unique identifier
    pub id: u32,
    /// Folder or file path
    pub path: String,
    /// Lower-cased path, for sorting and filtering
    pub path_lower: String,
    /// Selected compression algorithm
    pub algorithm: WofAlgorithm,
    /// Compress or Decompress
    pub action: BatchAction,
    pub status: BatchStatus,
    /// Text shown in place of the status, when set
    pub status_override: Option<String>,
    /// Compression state found by the last scan
    pub final_state: Option<CompressionState>,
    /// (current, total) files
    pub progress: (u64, u64),
    pub logical_size: u64,
    pub disk_size: u64,
    /// Current estimated compressed size
    pub estimated_size: u64,
    /// Estimated sizes per algorithm code
    pub estimation_cache: HashMap<u32, u64>,
}

/// `it` is the item that `BatchItem::new(id, path)` builds.
pub open spec fn is_new_item(it: BatchItem, id: u32, path: Seq<char>) -> bool {
    &&& it.id == id
    &&& it.path@ == path
    &&& it.path_lower@ == lowercase(path)
    &&& it.algorithm == WofAlgorithm::Xpress8K
    &&& it.action == BatchAction::Compress
    &&& it.status is Pending
    &&& it.status_override is None
    &&& it.final_state is None
    &&& it.progress == (0u64, 0u64)
    &&& it.logical_size == 0
    &&& it.disk_size == 0
    &&& it.estimated_size == 0
    &&& it.estimation_cache@ == Map::<u32, u64>::empty()
}

pub open spec fn cached_estimate(it: BatchItem, algo: WofAlgorithm) -> Option<u64> {
    if it.estimation_cache@.contains_key(algorithm_code(algo)) {
        Some(it.estimation_cache@[algorithm_code(algo)])
    } else {
        None
    }
}

impl BatchItem {
    pub fn new(id: u32, path: String) -> (r: Self)
        ensures
            is_new_item(r, id, path@),
    {
        let path_lower = to_lowercase(path.as_str());
        BatchItem {
            id,
            path,
            path_lower,
            algorithm: WofAlgorithm::Xpress8K,
            action: BatchAction::Compress,
            status: BatchStatus::Pending,
            status_override: None,
            final_state: None,
            progress: (0, 0),
            logical_size: 0,
            disk_size: 0,
            estimated_size: 0,
            estimation_cache: HashMap::new(),
        }
    }

    /// The cached estimate for an algorithm, if one was computed.
    pub fn get_cached_estimate(&self, algo: WofAlgorithm) -> (r: Option<u64>)
        ensures
            r == cached_estimate(*self, algo),
    {
        match self.estimation_cache.get(&algo.code()) {
            Some(v) => Some(*v),
            None => None,
        }
    }

    /// Records an estimate for an algorithm and makes it the current estimate.
    pub fn cache_estimate(&mut self, algo: WofAlgorithm, size: u64)
        ensures
            final(self).estimation_cache@ == old(self).estimation_cache@.insert(algorithm_code(algo), size),
            final(self).estimated_size == size,
            final(self).id == old(self).id,
            final(self).path == old(self).path,
            final(self).path_lower == old(self).path_lower,
            final(self).algorithm == old(self).algorithm,
            final(self).action == old(self).action,
            final(self).status == old(self).status,
            final(self).status_override == old(self).status_override,
            final(self).final_state == old(self).final_state,
            final(self).progress == old(self).progress,
            final(self).logical_size == old(self).logical_size,
            final(self).disk_size == old(self).disk_size,
    {
        self.estimation_cache.insert(algo.code(), size);
        self.estimated_size = size;
    }
}

/// A cached estimate reads back as the value last cached for that algorithm.
pub proof fn lemma_cache_then_get(it: BatchItem, cache: Map<u32, u64>, algo: WofAlgorithm, other: WofAlgorithm, size: u64)
    requires
        cache == it.estimation_cache@.insert(algorithm_code(algo), size),
    ensures
        cache.contains_key(algorithm_code(algo)) && cache[algorithm_code(algo)] == size,
        other != algo ==> (cache.contains_key(algorithm_code(other)) == it.estimation_cache@.contains_key(algorithm_code(other))),
{
}

} // verus!
