//! How much memory the host can still commit.
//!
//! Windows has a hard commit limit, RAM plus page file, and an allocation past
//! it fails. The OS reports the free part directly; the host's swap counters
//! tell it only while commit exceeds physical RAM. Other systems have no such
//! limit: the kernel can hand out the available RAM plus the free swap.
use vstd::prelude::*;

use crate::text::{parse_unsigned, trim};
#[allow(unused_imports)]
use crate::text::{trimmed, unsigned};

verus! {

/// The commit headroom the host's counters tell, in bytes: on Windows only
/// while commit exceeds RAM, elsewhere always. With no swap "used" on Windows,
/// the charge is below RAM and unknown, and the free part is just the page
/// file.
pub fn from_counters(windows: bool, available: u64, free_swap: u64, used_swap: u64) -> (out: Option<
    u64,
>)
    ensures
        out == (if windows {
            if used_swap > 0 {
                Some(free_swap)
            } else {
                None
            }
        } else if available + free_swap <= u64::MAX {
            Some((available + free_swap) as u64)
        } else {
            Some(u64::MAX)
        }),
{
    if windows {
        if used_swap > 0 {
            Some(free_swap)
        } else {
            None
        }
    } else {
        match available.checked_add(free_swap) {
            Some(sum) => Some(sum),
            None => Some(u64::MAX),
        }
    }
}

/// Parse the OS query's answer: one positive integer (KiB).
pub fn parse_free_virtual_kib(stdout: &str) -> (out: Option<u64>)
    ensures
        out == match unsigned(trimmed(stdout@)) {
            Some(kib) => if kib > 0 {
                Some(kib)
            } else {
                None
            },
            None => None,
        },
{
    match parse_unsigned(trim(stdout).as_str()) {
        Some(kib) => if kib > 0 {
            Some(kib)
        } else {
            None
        },
        None => None,
    }
}

} // verus!
