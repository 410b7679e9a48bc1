//! End-to-end tests of the whole demangling pipeline.

use ghs_demangle::Name;
use ghs_demangle::ParseOutcome;
use ghs_demangle::demangle;
use ghs_demangle::read_function;
use ghs_demangle::render;

#[test]
fn plain_identifier_passes_through() {
    let n = demangle("hello".to_string());
    match &n {
        Name::Identifier(s) => assert_eq!(s, "hello"),
        _ => panic!("expected an identifier"),
    }
    assert_eq!(render(&n), "hello");
}

#[test]
fn empty_input_never_panics() {
    let n = demangle(String::new());
    assert_eq!(render(&n), "");
}

#[test]
fn function_with_int_argument() {
    let n = demangle("foo__Fi".to_string());
    assert_eq!(render(&n), "foo(int)");
}

#[test]
fn template_with_two_arguments() {
    let n = demangle("bar__tm__3_iv".to_string());
    assert_eq!(render(&n), "bar<int, void>");
}

#[test]
fn compressed_symbol_with_empty_backref() {
    let n = demangle("__CPR7__fooJJbar".to_string());
    assert_eq!(render(&n), "fooJbar");
}

#[test]
fn decompression_failure_echoes_input() {
    let n = demangle("__CPR".to_string());
    match &n {
        Name::Identifier(s) => assert_eq!(s, "__CPR"),
        _ => panic!("expected the opaque fallback"),
    }
}

#[test]
fn fatal_backref_echoes_input_but_is_distinguishable() {
    // The grammar reports the index violation as fatal ...
    match read_function("3foo__FT1", 0) {
        ParseOutcome::Fatal => {}
        _ => panic!("expected a fatal names-list index violation"),
    }
    // ... and the total entry point falls back to echoing the input.
    let n = demangle("foo__FT1".to_string());
    match &n {
        Name::Identifier(s) => assert_eq!(s, "foo__FT1"),
        _ => panic!("expected the opaque fallback"),
    }
}

#[test]
fn repeated_runs_give_identical_text() {
    let a = render(&demangle("foo__Fi".to_string()));
    let b = render(&demangle("foo__Fi".to_string()));
    assert_eq!(a, b);
}

#[test]
fn static_member_marker_is_consumed_by_the_grammar() {
    match read_function("3foo__S__Fv", 0) {
        ParseOutcome::Found(n, p) => {
            assert_eq!(p, 11);
            assert_eq!(render(&n), "foo(void)");
        }
        _ => panic!("expected a parse"),
    }
    // Through the whole pipeline the splitter puts the split point at the
    // argument marker, so the static marker stays inside the identifier.
    let n = demangle("foo__S__Fv".to_string());
    assert_eq!(render(&n), "foo__S(void)");
}

#[test]
fn return_type_suffix() {
    match read_function("3foo_i", 0) {
        ParseOutcome::Found(n, p) => {
            assert_eq!(p, 6);
            assert_eq!(render(&n), "int foo");
        }
        _ => panic!("expected a parse"),
    }
}

#[test]
fn inner_name_qualification() {
    match read_function("3foo__3bar", 0) {
        ParseOutcome::Found(n, _) => assert_eq!(render(&n), "bar::foo"),
        _ => panic!("expected a parse"),
    }
}
