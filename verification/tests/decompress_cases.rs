//! Tests of the back-reference decompressor.

use ghs_demangle::decompress;

#[test]
fn string_without_marker_passes_through() {
    assert_eq!(decompress("plain").unwrap(), "plain");
}

#[test]
fn literal_tokens_concatenate() {
    // One even token, no separator at all.
    assert_eq!(decompress("__CPR3__abc").unwrap(), "abc");
}

#[test]
fn backref_reencodes_length_prefixed_token() {
    // "4name" then a back-reference to offset 0, then a literal tail: the
    // token at offset 0 is re-emitted with a freshly computed length prefix.
    assert_eq!(decompress("__CPR13__4nameJ0Jxyz").unwrap(), "4name4namexyz");
}

#[test]
fn empty_backref_stands_for_separator() {
    assert_eq!(decompress("__CPR0__abJJcd").unwrap(), "abJcd");
}

#[test]
fn expected_length_field_is_not_enforced() {
    // The decimal field disagrees with the real length; output is unchanged.
    assert_eq!(decompress("__CPR999__ab").unwrap(), "ab");
}

#[test]
fn missing_length_digits_fail() {
    assert!(decompress("__CPRxx").is_none());
}

#[test]
fn missing_double_underscore_fails() {
    assert!(decompress("__CPR5ab").is_none());
}

#[test]
fn backref_offset_out_of_range_fails() {
    assert!(decompress("__CPR1__aJ9Jb").is_none());
}

#[test]
fn backref_offset_not_numeric_fails() {
    assert!(decompress("__CPR1__aJxJb").is_none());
}

#[test]
fn backref_target_without_length_prefix_fails() {
    // Offset 0 points at "ab", which carries no digit run to re-encode.
    assert!(decompress("__CPR2__abJ0J").is_none());
}

#[test]
fn thunk_prefix_drops_twenty_five_characters() {
    // Thirteen marker characters plus twelve more make the fixed prefix.
    assert_eq!(decompress("__ghs_thunk__0123456789ab3foo").unwrap(), "3foo");
}

#[test]
fn short_thunk_fails() {
    assert!(decompress("__ghs_thunk__").is_none());
}
