//! Tests of the split-point heuristic.

use ghs_demangle::preprocess;

#[test]
fn no_marker_prefixes_full_length() {
    assert_eq!(preprocess("hello".to_string()), "5hello");
}

#[test]
fn all_alphanumeric_after_double_underscore_is_one_identifier() {
    assert_eq!(preprocess("__abc".to_string()), "5__abc");
}

#[test]
fn double_underscore_without_second_marker_is_one_identifier() {
    assert_eq!(preprocess("__a_b".to_string()), "5__a_b");
}

#[test]
fn double_underscore_with_second_marker_falls_through() {
    // Rules one and two do not apply; no sub-marker exists either, so the
    // whole string is the identifier.
    assert_eq!(preprocess("__a__b".to_string()), "6__a__b");
}

#[test]
fn argument_marker_sets_the_split_point() {
    assert_eq!(preprocess("foo__Fi".to_string()), "3foo__Fi");
}

#[test]
fn template_marker_sets_the_split_point() {
    assert_eq!(preprocess("ab__tm__1_".to_string()), "2ab__tm__1_");
}

#[test]
fn namespace_marker_is_adjusted_two_earlier() {
    assert_eq!(preprocess("abcQ2_1A1B".to_string()), "1abcQ2_1A1B");
}

#[test]
fn namespace_adjustment_floors_at_zero() {
    assert_eq!(preprocess("Q2_4Name5Space".to_string()), "0Q2_4Name5Space");
}

#[test]
fn smallest_candidate_wins() {
    assert_eq!(preprocess("aQ1_b__F".to_string()), "0aQ1_b__F");
}

#[test]
fn empty_input_gets_a_zero_prefix() {
    assert_eq!(preprocess(String::new()), "0");
}
