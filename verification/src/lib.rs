//! Reports the static code/data footprint of a compiled firmware binary,
//! optionally expressed as a percentage of the target device's declared
//! flash/RAM capacity.
//!
//! The pipeline locates the produced binary across the conventional and the
//! known cross-compiled output layouts, sums the sizes of its code-bearing
//! and data-bearing sections, optionally reads the device capacities from a
//! declarative memory-layout description, and combines everything into a
//! single report.
use vstd::prelude::*;

pub mod binary;
pub mod error;
pub mod layout;
pub mod mode;
pub mod report;

use crate::binary::{elf_sections, read_size_from, spec_section_sizes};
use crate::error::Error;
use crate::layout::{
    first_memory, layout_items, layout_numbers_safe, parse_layout, region_sum,
    spec_layout_numbers_safe, spec_memory_size,
};
use crate::report::{spec_percent_tenths, UsageReport};

verus! {

/// Read the program and data memory capacities from the contents of a
/// memory-layout description, when one could be read at all.
///
/// `content` is `None` when the description was absent or unreadable.  The
/// capacities are present only when the text parses, a memory directive is
/// present, and the regions named `flash` and `ram` (case ignored) both sum
/// to strictly positive 64-bit lengths; any failure degrades to `None`,
/// never to an error.  A text holding a multiplier-suffixed number too long
/// to scale within a 64-bit length ([`spec_layout_numbers_safe`]) is
/// treated like an unparsable one.
pub fn memory_size(content: Option<&str>) -> (r: Option<(u64, u64)>)
    ensures
        match content {
            None => r is None,
            Some(s) => r == if spec_layout_numbers_safe(s@) {
                spec_memory_size(layout_items(s@))
            } else {
                None
            },
        },
{
    let s = match content {
        Some(s) => s,
        None => {
            return None;
        },
    };
    if !layout_numbers_safe(s) {
        return None;
    }
    let items = match parse_layout(s) {
        Some(items) => items,
        None => {
            return None;
        },
    };
    let regions = match first_memory(&items) {
        Some(regions) => regions,
        None => {
            return None;
        },
    };
    let code = match region_sum(regions, "flash") {
        Some(c) => c,
        None => {
            return None;
        },
    };
    let data = match region_sum(regions, "ram") {
        Some(d) => d,
        None => {
            return None;
        },
    };
    if code != 0 && data != 0 {
        Some((code, data))
    } else {
        None
    }
}

/// The core pipeline, once every file content is in hand: measure the
/// section sizes of the binary image, read the optional capacities from the
/// layout description, and combine both into the report.
///
/// The report always carries the raw byte counts; it carries percentages
/// exactly when the layout yields capacities.  The only failure is a binary
/// image that does not parse.
pub fn try_main(binary_bytes: &[u8], layout_content: Option<&str>) -> (r: Result<
    UsageReport,
    Error,
>)
    ensures
        ({
            let caps = match layout_content {
                None => None,
                Some(s) => if spec_layout_numbers_safe(s@) {
                    spec_memory_size(layout_items(s@))
                } else {
                    None
                },
            };
            match elf_sections(binary_bytes@) {
                None => r == Err::<UsageReport, Error>(Error::InvalidBinary),
                Some(secs) => r matches Ok(rep) && ({
                    let sizes = spec_section_sizes(secs);
                    &&& rep.code_bytes == sizes.code
                    &&& rep.data_bytes == sizes.data
                    &&& (rep.percentages is Some <==> caps is Some)
                    &&& (caps matches Some(c) ==> rep.percentages matches Some(p)
                        && p.code_tenths as int == spec_percent_tenths(sizes.code, c.0)
                        && p.data_tenths as int == spec_percent_tenths(sizes.data, c.1))
                }),
            }
        }),
{
    let sizes = match read_size_from(binary_bytes) {
        Ok(s) => s,
        Err(e) => {
            return Err(e);
        },
    };
    let caps = memory_size(layout_content);
    Ok(UsageReport::build(sizes, caps))
}

} // verus!
