//! Grammar-level scenarios: the productions applied to already
//! length-prefixed input.

use ghs_demangle::ListOutcome;
use ghs_demangle::Name;
use ghs_demangle::ParseOutcome;
use ghs_demangle::arguments;
use ghs_demangle::read_function;
use ghs_demangle::read_name;
use ghs_demangle::read_names;
use ghs_demangle::render;
use ghs_demangle::template;

fn expect_name(r: ParseOutcome) -> (Name, usize) {
    match r {
        ParseOutcome::Found(n, p) => (n, p),
        _ => panic!("expected a parsed name"),
    }
}

fn expect_list(r: ListOutcome) -> (Vec<Name>, usize) {
    match r {
        ListOutcome::Found(v, p) => (v, p),
        _ => panic!("expected a parsed list"),
    }
}

#[test]
fn length_prefixed_identifier() {
    let (n, p) = expect_name(read_function("4name", 0));
    assert_eq!(p, 5);
    match &n {
        Name::Identifier(s) => assert_eq!(s, "name"),
        _ => panic!("expected an identifier"),
    }
    assert_eq!(render(&n), "name");
}

#[test]
fn two_level_namespace() {
    let (n, p) = expect_name(read_function("Q2_4Name5Space", 0));
    assert_eq!(p, 14);
    assert_eq!(render(&n), "Name::Space");
}

#[test]
fn unsigned_modifier_on_base_type() {
    let (n, p) = expect_name(read_name("Ui", 0));
    assert_eq!(p, 2);
    assert_eq!(render(&n), "unsigned int");
}

#[test]
fn backref_appends_copy_of_first_entry() {
    let (v, p) = expect_list(read_names("1A1BT1", 0));
    assert_eq!(p, 6);
    let texts: Vec<String> = v.iter().map(render).collect();
    assert_eq!(texts, ["A", "B", "A"]);
}

#[test]
fn backref_out_of_range_is_fatal() {
    assert!(matches!(read_names("1AT2", 0), ListOutcome::Fatal));
    assert!(matches!(read_names("1AT0", 0), ListOutcome::Fatal));
}

#[test]
fn repeat_expands_copies() {
    let (v, p) = expect_list(read_names("1A1BN22", 0));
    assert_eq!(p, 7);
    let texts: Vec<String> = v.iter().map(render).collect();
    assert_eq!(texts, ["A", "B", "B", "B"]);
}

#[test]
fn repeat_out_of_range_is_fatal() {
    assert!(matches!(read_names("1AN22", 0), ListOutcome::Fatal));
}

#[test]
fn repeat_with_zero_copies_reads_nothing() {
    let (v, p) = expect_list(read_names("1AN09", 0));
    assert_eq!(p, 5);
    assert_eq!(v.len(), 1);
}

#[test]
fn value_argument_with_implicit_typename() {
    let (v, p) = expect_list(read_names("X3abc", 0));
    assert_eq!(p, 5);
    assert_eq!(v.len(), 1);
    assert_eq!(render(&v[0]), "abc as typename");
}

#[test]
fn value_argument_with_typed_literal() {
    let (v, p) = expect_list(read_names("XiL_3_abc", 0));
    assert_eq!(p, 9);
    assert_eq!(v.len(), 1);
    assert_eq!(render(&v[0]), "abc as int");
}

#[test]
fn numeric_type_reference() {
    let (n, p) = expect_name(read_name("Z12Z", 0));
    assert_eq!(p, 4);
    assert_eq!(render(&n), "12");
}

#[test]
fn numeric_type_reference_drops_leading_zeros() {
    let (n, _) = expect_name(read_name("Z007Z", 0));
    assert_eq!(render(&n), "7");
}

#[test]
fn numeric_type_reference_with_second_field() {
    let (n, p) = expect_name(read_name("Z1_2Z", 0));
    assert_eq!(p, 5);
    assert_eq!(render(&n), "1");
}

#[test]
fn sized_array() {
    let (n, p) = expect_name(read_name("A3_i", 0));
    assert_eq!(p, 4);
    assert_eq!(render(&n), "int[3]");
}

#[test]
fn function_pointer() {
    let (n, p) = expect_name(read_name("Fi_v", 0));
    assert_eq!(p, 4);
    assert_eq!(render(&n), "(void *(int))");
}

#[test]
fn namespace_of_depth_zero_is_empty() {
    let (n, p) = expect_name(read_name("Q0_", 0));
    assert_eq!(p, 3);
    assert_eq!(render(&n), "");
}

#[test]
fn backref_inside_template_list() {
    let (n, p) = expect_name(read_function("3foo__tm__5_1AT1", 0));
    assert_eq!(p, 16);
    assert_eq!(render(&n), "foo<A, A>");
}

#[test]
fn template_with_trailing_garbage_mismatches() {
    // The raw string must be consumed entirely as a names list.
    let (n, _) = expect_name(read_name("3foo__tm__5_1A@@", 0));
    assert_eq!(render(&n), "foo");
}

#[test]
fn fatal_inside_template_is_not_swallowed() {
    assert!(matches!(read_name("3foo__tm__5_1AT2", 0), ParseOutcome::Fatal));
}

#[test]
fn mismatch_on_garbage() {
    assert!(matches!(read_name("", 0), ParseOutcome::Mismatch));
    assert!(matches!(read_name("@", 0), ParseOutcome::Mismatch));
    assert!(matches!(read_function("@", 0), ParseOutcome::Mismatch));
}

#[test]
fn template_discards_the_leading_separator_character() {
    let (v, p) = expect_list(template("__tm__2_i", 0));
    assert_eq!(p, 9);
    assert_eq!(v.len(), 1);
    assert_eq!(render(&v[0]), "int");
}

#[test]
fn argument_list_tags() {
    let (v, p) = expect_list(arguments("__Fi", 0));
    assert_eq!(p, 4);
    assert_eq!(v.len(), 1);
    let (v2, p2) = expect_list(arguments("CFic", 0));
    assert_eq!(p2, 4);
    assert_eq!(v2.len(), 2);
    assert!(matches!(arguments("ic", 0), ListOutcome::Mismatch));
}

#[test]
fn empty_names_list_consumes_nothing() {
    let (v, p) = expect_list(read_names("", 0));
    assert_eq!(p, 0);
    assert!(v.is_empty());
}
