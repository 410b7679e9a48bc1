//! Tests of the renderer over hand-built trees, one per variant.

use ghs_demangle::Modifier;
use ghs_demangle::Name;
use ghs_demangle::render;

fn ident(s: &str) -> Name {
    Name::Identifier_from_str(s)
}

#[test]
fn identifier_renders_as_its_text() {
    assert_eq!(render(&ident("x")), "x");
    assert_eq!(render(&Name::identifier_from_string("y".to_string())), "y");
}

#[test]
fn base_type_renders_its_keyword() {
    assert_eq!(render(&Name::BaseType('L')), "long long");
    assert_eq!(render(&Name::BaseType('e')), "...");
}

#[test]
fn unknown_base_type_renders_empty() {
    assert_eq!(render(&Name::BaseType('q')), "");
}

#[test]
fn modifiers_render_on_their_side() {
    let pre = Name::Modifier(
        Modifier::OnPrefix("const".to_string()),
        Box::new(Name::BaseType('i')),
    );
    assert_eq!(render(&pre), "const int");
    let suf = Name::Modifier(
        Modifier::OnSuffix("restrict".to_string()),
        Box::new(Name::BaseType('i')),
    );
    assert_eq!(render(&suf), "int restrict");
}

#[test]
fn arguments_join_with_comma_space() {
    let n = Name::WithArguments(
        Box::new(ident("f")),
        vec![Name::BaseType('i'), Name::BaseType('c')],
    );
    assert_eq!(render(&n), "f(int, char)");
}

#[test]
fn empty_argument_list() {
    let n = Name::WithArguments(Box::new(ident("f")), Vec::new());
    assert_eq!(render(&n), "f()");
}

#[test]
fn template_arguments_use_angle_brackets() {
    let n = Name::Template(
        Box::new(ident("f")),
        vec![Name::BaseType('i'), Name::BaseType('c')],
    );
    assert_eq!(render(&n), "f<int, char>");
}

#[test]
fn namespace_joins_with_double_colon() {
    let n = Name::Namespace(vec![ident("a"), ident("b"), ident("c")]);
    assert_eq!(render(&n), "a::b::c");
    assert_eq!(render(&Name::Namespace(Vec::new())), "");
}

#[test]
fn in_name_puts_the_parent_first() {
    let n = Name::InName(Box::new(ident("leaf")), Box::new(ident("scope")));
    assert_eq!(render(&n), "scope::leaf");
}

#[test]
fn return_value_precedes_the_base() {
    let n = Name::WithReturnValue(Box::new(ident("f")), Box::new(Name::BaseType('i')));
    assert_eq!(render(&n), "int f");
}

#[test]
fn function_pointer_is_parenthesized() {
    let n = Name::FunctionPointer(vec![Name::BaseType('i')], Box::new(Name::BaseType('v')));
    assert_eq!(render(&n), "(void *(int))");
    let none = Name::FunctionPointer(Vec::new(), Box::new(Name::BaseType('v')));
    assert_eq!(render(&none), "(void *())");
}

#[test]
fn value_argument_renders_value_as_type() {
    let n = Name::ValueArgument(Box::new(Name::BaseType('i')), "5".to_string());
    assert_eq!(render(&n), "5 as int");
}

#[test]
fn sized_array_renders_element_and_size() {
    let n = Name::SizedArray(10, Box::new(Name::BaseType('c')));
    assert_eq!(render(&n), "char[10]");
    let zero = Name::SizedArray(0, Box::new(Name::BaseType('c')));
    assert_eq!(render(&zero), "char[0]");
}

#[test]
fn deep_copy_preserves_the_rendering() {
    let n = Name::Template(
        Box::new(Name::Namespace(vec![ident("a"), ident("b")])),
        vec![Name::SizedArray(3, Box::new(Name::BaseType('i')))],
    );
    let c = n.deep_copy();
    assert_eq!(render(&c), render(&n));
    assert_eq!(render(&c), "a::b<int[3]>");
}
