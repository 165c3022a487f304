//! Combining measured sizes and declared capacities into the usage report.
use vstd::arithmetic::div_mod::{lemma_basic_div, lemma_div_multiples_vanish_fancy};
use vstd::prelude::*;

verus! {

/// `size / capacity * 100`, carried to tenths of a percent with half-up
/// rounding, so that the one-decimal rendering of the ratio can be read off
/// exactly.
pub open spec fn spec_percent_tenths(size: u64, capacity: u64) -> int
    recommends
        capacity > 0,
{
    ((size * 1000) + (capacity / 2)) / (capacity as int)
}

/// The pair of derived percentages, in tenths of a percent.
#[derive(Clone, Copy, Debug, PartialEq, Eq)]
pub struct Percentages {
    pub code_tenths: u128,
    pub data_tenths: u128,
}

/// The sole externally observable result of the pipeline: both raw byte
/// counts, and the derived percentages when capacity data was available.
#[derive(Clone, Copy, Debug, PartialEq, Eq)]
pub struct UsageReport {
    pub code_bytes: u64,
    pub data_bytes: u64,
    pub percentages: Option<Percentages>,
}

/// Tenths of a percent of `capacity` that `size` occupies.
pub fn percent_tenths(size: u64, capacity: u64) -> (r: u128)
    requires
        capacity > 0,
    ensures
        r as int == spec_percent_tenths(size, capacity),
{
    ((size as u128) * 1000 + (capacity as u128) / 2) / (capacity as u128)
}

impl UsageReport {
    /// Combine the measured sizes with the optional capacities.  The raw
    /// byte counts are always reported; the percentages are derived exactly
    /// when capacity data is present, and omitted otherwise.
    pub fn build(sizes: crate::binary::SectionSizes, layout: Option<(u64, u64)>) -> (r:
        UsageReport)
        requires
            layout matches Some(caps) ==> caps.0 > 0 && caps.1 > 0,
        ensures
            r.code_bytes == sizes.code,
            r.data_bytes == sizes.data,
            r.percentages is Some <==> layout is Some,
            layout matches Some(caps) ==> r.percentages matches Some(p) && p.code_tenths as int
                == spec_percent_tenths(sizes.code, caps.0) && p.data_tenths as int
                == spec_percent_tenths(sizes.data, caps.1),
    {
        match layout {
            None => UsageReport {
                code_bytes: sizes.code,
                data_bytes: sizes.data,
                percentages: None,
            },
            Some((flash, ram)) => UsageReport {
                code_bytes: sizes.code,
                data_bytes: sizes.data,
                percentages: Some(
                    Percentages {
                        code_tenths: percent_tenths(sizes.code, flash),
                        data_tenths: percent_tenths(sizes.data, ram),
                    },
                ),
            },
        }
    }
}

/// A zero size occupies zero tenths of a percent of any capacity.
pub proof fn lemma_zero_size_percent(capacity: u64)
    requires
        capacity > 0,
    ensures
        spec_percent_tenths(0, capacity) == 0,
{
    assert(0 <= capacity as int / 2 < capacity as int);
    lemma_basic_div(capacity as int / 2, capacity as int);
}

/// A size equal to the capacity occupies exactly one hundred percent.
pub proof fn lemma_full_size_percent(capacity: u64)
    requires
        capacity > 0,
    ensures
        spec_percent_tenths(capacity, capacity) == 1000,
{
    assert(0 <= capacity as int / 2 < capacity as int);
    lemma_div_multiples_vanish_fancy(1000, capacity as int / 2, capacity as int);
    assert(capacity as int * 1000 == capacity * 1000);
}

} // verus!
