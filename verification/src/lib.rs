//! Terminal visualization of drive capacity and partition usage.
//!
//! The library holds the whole data pipeline on plain values: parsing the
//! mount table, deriving bytes-used from filesystem statistics, filtering
//! discovered device names, proportional width allocation for the aggregate
//! bar, and layout of the per-partition detail lines. Reading the kernel
//! pseudo-files, querying the terminal and printing with colors live in the
//! surrounding binary, which hands plain values in and takes plain values out.

pub mod chart;
pub mod discover;
pub mod mounts;
pub mod text;
pub mod units;

use vstd::prelude::*;

verus! {

/// Width policy for the aggregate chart: with no controlling terminal the
/// chart is 80 columns wide; with a detected terminal width `c` it is
/// `min(c - 10, 100)`, floored at 0.
pub open spec fn chart_width_spec(term_cols: Option<u16>) -> int {
    match term_cols {
        None => 80,
        Some(c) => if c >= 110 {
            100
        } else if c >= 10 {
            c - 10
        } else {
            0
        },
    }
}

/// Number of columns the aggregate bar may use, from the detected terminal
/// width (`None` when the width cannot be queried).
pub fn chart_width(term_cols: Option<u16>) -> (w: usize)
    ensures
        w == chart_width_spec(term_cols),
{
    match term_cols {
        None => 80,
        Some(c) => {
            let shrunk: u16 = if c >= 10 { c - 10 } else { 0 };
            if shrunk > 100 { 100 } else { shrunk as usize }
        },
    }
}

} // verus!
