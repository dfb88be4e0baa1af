//! Compression algorithms offered by the Windows Overlay Filter and the
//! compression state that a scan reports for a folder.
use vstd::prelude::*;

verus! {

/// A compression algorithm.
#[derive(Clone, Copy, Debug, PartialEq, Eq, Structural)]
pub enum WofAlgorithm {
    Xpress4K,
    Lzx,
    Xpress8K,
    Xpress16K,
    Lznt1,
}

/// The compression state of a file or folder as found by a scan.
#[derive(Clone, Copy, Debug, PartialEq, Eq, Structural)]
pub enum CompressionState {
    Uncompressed,
    Specific(WofAlgorithm),
    Mixed,
}

pub open spec fn algorithm_code(a: WofAlgorithm) -> u32 {
    match a {
        WofAlgorithm::Xpress4K => 0,
        WofAlgorithm::Lzx => 1,
        WofAlgorithm::Xpress8K => 2,
        WofAlgorithm::Xpress16K => 3,
        WofAlgorithm::Lznt1 => 4,
    }
}

impl WofAlgorithm {
    /// The provider number of the algorithm (XPRESS4K 0, LZX 1, XPRESS8K 2,
    /// XPRESS16K 3, LZNT1 4); it keys estimate caches and orders the algorithm column.
    pub fn code(self) -> (r: u32)
        ensures
            r == algorithm_code(self),
    {
        match self {
            WofAlgorithm::Xpress4K => 0,
            WofAlgorithm::Lzx => 1,
            WofAlgorithm::Xpress8K => 2,
            WofAlgorithm::Xpress16K => 3,
            WofAlgorithm::Lznt1 => 4,
        }
    }

    /// The inverse of `code`.
    pub fn from_code(code: u32) -> (r: Option<WofAlgorithm>)
        ensures
            r matches Some(a) ==> algorithm_code(a) == code,
            r is None <==> code > 4,
    {
        match code {
            0 => Some(WofAlgorithm::Xpress4K),
            1 => Some(WofAlgorithm::Lzx),
            2 => Some(WofAlgorithm::Xpress8K),
            3 => Some(WofAlgorithm::Xpress16K),
            4 => Some(WofAlgorithm::Lznt1),
            _ => None,
        }
    }

    /// The upper-case name shown in lists ("XPRESS4K", "LZX", ...).
    pub fn display_name(self) -> (r: &'static str)
        ensures
            r@ == algorithm_name(self),
    {
        match self {
            WofAlgorithm::Xpress4K => "XPRESS4K",
            WofAlgorithm::Lzx => "LZX",
            WofAlgorithm::Xpress8K => "XPRESS8K",
            WofAlgorithm::Xpress16K => "XPRESS16K",
            WofAlgorithm::Lznt1 => "LZNT1",
        }
    }
}

pub open spec fn algorithm_name(a: WofAlgorithm) -> Seq<char> {
    match a {
        WofAlgorithm::Xpress4K => "XPRESS4K"@,
        WofAlgorithm::Lzx => "LZX"@,
        WofAlgorithm::Xpress8K => "XPRESS8K"@,
        WofAlgorithm::Xpress16K => "XPRESS16K"@,
        WofAlgorithm::Lznt1 => "LZNT1"@,
    }
}

/// Codes are distinct for distinct algorithms.
pub proof fn lemma_algorithm_code_injective(a: WofAlgorithm, b: WofAlgorithm)
    ensures
        algorithm_code(a) == algorithm_code(b) <==> a == b,
{
}

} // verus!
