//! Log file discovery helpers: the name filter for log files and the choice
//! of the most recently modified one. Reading the directory itself is the
//! caller's job; these decide on plain values.

use vstd::prelude::*;
use crate::bytes::{match_at, matches_at};

verus! {

/// File name prefix of a log file: `"output_log_"`.
pub open spec fn log_name_prefix() -> Seq<u8> {
    seq![111u8, 117u8, 116u8, 112u8, 117u8, 116u8, 95u8, 108u8, 111u8, 103u8, 95u8]
}

/// File name suffix of a log file: `".txt"`.
pub open spec fn log_name_suffix() -> Seq<u8> {
    seq![46u8, 116u8, 120u8, 116u8]
}

/// A candidate file name that the watcher accepts.
pub open spec fn is_log_name(name: Seq<u8>) -> bool {
    &&& name.len() >= log_name_prefix().len()
    &&& name.subrange(0, log_name_prefix().len() as int) == log_name_prefix()
    &&& name.len() >= log_name_suffix().len()
    &&& name.subrange(name.len() - log_name_suffix().len(), name.len() as int) == log_name_suffix()
}

pub fn prefix_bytes() -> (r: Vec<u8>)
    ensures
        r@ == log_name_prefix(),
{
    let v: Vec<u8> = vec![111u8, 117u8, 116u8, 112u8, 117u8, 116u8, 95u8, 108u8, 111u8, 103u8, 95u8];
    proof {
        assert(v@ =~= log_name_prefix());
    }
    v
}

pub fn suffix_bytes() -> (r: Vec<u8>)
    ensures
        r@ == log_name_suffix(),
{
    let v: Vec<u8> = vec![46u8, 116u8, 120u8, 116u8];
    proof {
        assert(v@ =~= log_name_suffix());
    }
    v
}

/// Decide the name filter exactly.
pub fn is_log_file_name(name: &[u8]) -> (r: bool)
    ensures
        r == is_log_name(name@),
{
    let prefix = prefix_bytes();
    let suffix = suffix_bytes();
    let n = name.len();
    if n < prefix.len() || n < suffix.len() {
        return false;
    }
    let has_prefix = matches_at(name, prefix.as_slice(), 0);
    let has_suffix = matches_at(name, suffix.as_slice(), n - suffix.len());
    has_prefix && has_suffix
}

/// Index of the most recently modified candidate: the greatest time, and on
/// ties the last such index, as a fold over the list would keep it.
pub fn latest_index(times: &Vec<u64>) -> (r: Option<usize>)
    ensures
        match r {
            None => times@.len() == 0,
            Some(i) => {
                &&& 0 <= i < times@.len()
                &&& forall|j: int| 0 <= j < times@.len() ==> times@[j] <= times@[i as int]
                &&& forall|j: int| i < j < times@.len() ==> times@[j] < times@[i as int]
            },
        },
{
    let n = times.len();
    if n == 0 {
        return None;
    }
    let mut best: usize = 0;
    let mut j: usize = 1;
    while j < n
        invariant
            n == times@.len(),
            0 <= best < j <= n,
            forall|k: int| 0 <= k < j ==> times@[k] <= times@[best as int],
            forall|k: int| best < k < j ==> times@[k] < times@[best as int],
        decreases n - j,
    {
        if times[j] >= times[best] {
            best = j;
        }
        j += 1;
    }
    Some(best)
}

} // verus!
