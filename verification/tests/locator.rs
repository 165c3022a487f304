//! Tests for locating the build artifact across output layouts.
use cargo_size::error::Error;
use cargo_size::mode::{supported_cross_platforms, Mode};

fn strings(items: &[&str]) -> Vec<String> {
    items.iter().map(|s| s.to_string()).collect()
}

#[test]
fn mode_new_follows_the_release_flag() {
    assert_eq!(Mode::new(false), Mode::Debug);
    assert_eq!(Mode::new(true), Mode::Release);
}

#[test]
fn mode_selects_its_output_subdirectory() {
    assert_eq!(Mode::Debug.dir_name(), "debug");
    assert_eq!(Mode::Release.dir_name(), "release");
}

#[test]
fn supported_cross_platforms_are_fixed() {
    assert_eq!(
        supported_cross_platforms(),
        strings(&[
            "thumbv6m-none-eabi",
            "thumbv7m-none-eabi",
            "thumbv7em-none-eabi",
            "thumbv7em-none-eabihf",
        ])
    );
}

#[test]
fn native_layout_is_the_only_candidate_without_triples() {
    let cands = Mode::Debug.candidates(&"myapp".to_string(), &strings(&["debug", "release"]));
    assert_eq!(cands.len(), 1);
    assert_eq!(cands[0].components, strings(&["target", "debug", "myapp"]));
}

#[test]
fn nested_layout_is_probed_after_the_native_one() {
    let subdirs = strings(&["debug", "thumbv7em-none-eabihf"]);
    let cands = Mode::Debug.candidates(&"myapp".to_string(), &subdirs);
    assert_eq!(cands.len(), 2);
    assert_eq!(cands[0].components, strings(&["target", "debug", "myapp"]));
    assert_eq!(
        cands[1].components,
        strings(&["target", "thumbv7em-none-eabihf", "debug", "myapp"])
    );
}

#[test]
fn first_listed_triple_breaks_the_tie() {
    let subdirs = strings(&["thumbv7em-none-eabihf", "thumbv6m-none-eabi"]);
    let cands = Mode::Release.candidates(&"fw".to_string(), &subdirs);
    assert_eq!(cands.len(), 2);
    assert_eq!(
        cands[1].components,
        strings(&["target", "thumbv6m-none-eabi", "release", "fw"])
    );
}

#[test]
fn missing_native_binary_falls_back_to_the_nested_layout() {
    let subdirs = strings(&["thumbv7em-none-eabihf"]);
    let found = Mode::Debug
        .binary(&"myapp".to_string(), &subdirs, &vec![false, true])
        .unwrap();
    assert_eq!(
        found.components,
        strings(&["target", "thumbv7em-none-eabihf", "debug", "myapp"])
    );
}

#[test]
fn native_binary_is_preferred_when_both_exist() {
    let subdirs = strings(&["thumbv7em-none-eabihf"]);
    let found = Mode::Debug
        .binary(&"myapp".to_string(), &subdirs, &vec![true, true])
        .unwrap();
    assert_eq!(found.components, strings(&["target", "debug", "myapp"]));
}

#[test]
fn release_mode_probes_the_release_subdirectory() {
    let found = Mode::Release
        .binary(&"myapp".to_string(), &strings(&["release"]), &vec![true])
        .unwrap();
    assert_eq!(found.components, strings(&["target", "release", "myapp"]));
}

#[test]
fn no_existing_candidate_reports_binary_not_found() {
    let subdirs = strings(&["thumbv7em-none-eabihf"]);
    let result = Mode::Debug.binary(&"myapp".to_string(), &subdirs, &vec![false, false]);
    assert_eq!(result, Err(Error::BinaryNotFound));
}
