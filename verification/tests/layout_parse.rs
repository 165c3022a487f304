//! Tests for extracting region capacities from a memory-layout description.
use cargo_size::layout::{
    eq_ignore_case, first_memory, layout_numbers_safe, region_sum, LayoutItem, MemoryRegion,
};
use cargo_size::memory_size;

fn region(name: &str, length: u64) -> MemoryRegion {
    MemoryRegion {
        name: name.to_string(),
        length,
    }
}

#[test]
fn reads_flash_and_ram_lengths() {
    let text = "MEMORY\n{\n  FLASH : ORIGIN = 0x00000000, LENGTH = 262144\n  RAM : ORIGIN = 0x20000000, LENGTH = 65536\n}\n";
    assert_eq!(memory_size(Some(text)), Some((262144, 65536)));
}

#[test]
fn region_names_match_case_insensitively() {
    let text = "MEMORY\n{\n  flash : ORIGIN = 0, LENGTH = 1024\n  Ram : ORIGIN = 0, LENGTH = 512\n}\n";
    assert_eq!(memory_size(Some(text)), Some((1024, 512)));
}

#[test]
fn duplicate_regions_are_summed_not_overridden() {
    let text = "MEMORY\n{\n  FLASH : ORIGIN = 0, LENGTH = 1000\n  flash : ORIGIN = 0, LENGTH = 24\n  RAM : ORIGIN = 0, LENGTH = 512\n}\n";
    assert_eq!(memory_size(Some(text)), Some((1024, 512)));
}

#[test]
fn absent_description_yields_no_capacities() {
    assert_eq!(memory_size(None), None);
}

#[test]
fn unparsable_description_yields_no_capacities() {
    assert_eq!(memory_size(Some("MEMORY { FLASH }")), None);
}

#[test]
fn other_region_names_yield_no_capacities() {
    let text = "MEMORY\n{\n  CODE : ORIGIN = 0, LENGTH = 262144\n  DATA : ORIGIN = 0, LENGTH = 65536\n}\n";
    assert_eq!(memory_size(Some(text)), None);
}

#[test]
fn zero_flash_capacity_yields_no_capacities() {
    let text = "MEMORY\n{\n  FLASH : ORIGIN = 0, LENGTH = 0\n  RAM : ORIGIN = 0, LENGTH = 512\n}\n";
    assert_eq!(memory_size(Some(text)), None);
}

#[test]
fn zero_ram_capacity_yields_no_capacities() {
    let text = "MEMORY\n{\n  FLASH : ORIGIN = 0, LENGTH = 1024\n  RAM : ORIGIN = 0, LENGTH = 0\n}\n";
    assert_eq!(memory_size(Some(text)), None);
}

#[test]
fn missing_memory_directive_yields_no_capacities() {
    assert_eq!(memory_size(Some("ENTRY(main)\n")), None);
}

#[test]
fn multiplier_suffixed_lengths_are_scaled() {
    let text = "MEMORY\n{\n  FLASH : ORIGIN = 0, LENGTH = 256K\n  RAM : ORIGIN = 0, LENGTH = 64K\n}\n";
    assert_eq!(memory_size(Some(text)), Some((262144, 65536)));
}

#[test]
fn widest_safe_suffixed_length_is_still_scaled() {
    let text = "MEMORY\n{\n  FLASH : ORIGIN = 0, LENGTH = 9999999999999k\n  RAM : ORIGIN = 0, LENGTH = 512\n}\n";
    assert_eq!(memory_size(Some(text)), Some((9999999999999 * 1024, 512)));
}

#[test]
fn oversized_suffixed_length_yields_no_capacities() {
    // Long enough that scaling it would leave the 64-bit range; the whole
    // description degrades to absent capacities instead of failing.
    let text = "MEMORY\n{\n  FLASH : ORIGIN = 0, LENGTH = 18446744073709551615k\n  RAM : ORIGIN = 0, LENGTH = 512\n}\n";
    assert_eq!(memory_size(Some(text)), None);
}

#[test]
fn oversized_mega_suffixed_length_yields_no_capacities() {
    let text = "MEMORY\n{\n  FLASH : ORIGIN = 0, LENGTH = 99999999999999M\n  RAM : ORIGIN = 0, LENGTH = 512\n}\n";
    assert_eq!(memory_size(Some(text)), None);
}

#[test]
fn number_scan_accepts_short_suffixed_tokens() {
    assert!(layout_numbers_safe(""));
    assert!(layout_numbers_safe("MEMORY { FLASH : ORIGIN = 0x0, LENGTH = 262144 }"));
    assert!(layout_numbers_safe("LENGTH = 256K"));
    assert!(layout_numbers_safe("LENGTH = 9999999999999k")); // 13 characters before the suffix
    assert!(layout_numbers_safe("LENGTH = 99999999999999")); // no suffix at all
}

#[test]
fn number_scan_rejects_long_suffixed_tokens() {
    assert!(!layout_numbers_safe("LENGTH = 99999999999999k")); // 14 characters before the suffix
    assert!(!layout_numbers_safe("LENGTH = 18446744073709551615k"));
    assert!(!layout_numbers_safe("x = 99999999999999M ;"));
}

#[test]
fn matching_ignores_ascii_case_only_for_letters() {
    assert!(eq_ignore_case("FLASH", "flash"));
    assert!(eq_ignore_case("Flash", "flash"));
    assert!(eq_ignore_case("ram", "RAM"));
    assert!(!eq_ignore_case("CODE", "flash"));
    assert!(!eq_ignore_case("flash2", "flash"));
    assert!(!eq_ignore_case("", "flash"));
}

#[test]
fn region_sum_adds_every_matching_region() {
    let regions = vec![region("FLASH", 100), region("other", 7), region("flash", 28)];
    assert_eq!(region_sum(&regions, "flash"), Some(128));
    assert_eq!(region_sum(&regions, "ram"), Some(0));
}

#[test]
fn region_sum_reports_a_sum_out_of_range() {
    let regions = vec![region("FLASH", u64::MAX), region("flash", 1)];
    assert_eq!(region_sum(&regions, "flash"), None);
}

#[test]
fn first_memory_directive_wins() {
    let items = vec![
        LayoutItem::Other,
        LayoutItem::Memory(vec![region("FLASH", 64)]),
        LayoutItem::Memory(vec![region("FLASH", 1024)]),
    ];
    let regions = first_memory(&items).unwrap();
    assert_eq!(regions.len(), 1);
    assert_eq!(regions[0].length, 64);
}
