//! Tests of the injected code tables.

use ghs_demangle::Modifier;
use ghs_demangle::get_base_types;
use ghs_demangle::get_name_modifiers;
use ghs_demangle::get_special_names;

#[test]
fn base_type_table_has_the_twelve_codes() {
    let t = get_base_types();
    assert_eq!(t.len(), 12);
    assert_eq!(t[0], ('v', "void".to_string()));
    assert_eq!(t[1], ('i', "int".to_string()));
    assert_eq!(t[9], ('L', "long long".to_string()));
    assert_eq!(t[11], ('r', "long double".to_string()));
}

#[test]
fn modifier_table_has_the_nine_codes() {
    let t = get_name_modifiers();
    assert_eq!(t.len(), 9);
    assert_eq!(t[0].0, 'U');
    match &t[0].1 {
        Modifier::OnPrefix(s) => assert_eq!(s, "unsigned"),
        Modifier::OnSuffix(_) => panic!("expected a prefix modifier"),
    }
    assert_eq!(t[8].0, 'u');
    match &t[8].1 {
        Modifier::OnPrefix(s) => assert_eq!(s, "restrict"),
        Modifier::OnSuffix(_) => panic!("expected a prefix modifier"),
    }
}

#[test]
fn special_name_table_has_all_spellings() {
    let t = get_special_names();
    assert_eq!(t.len(), 42);
    assert_eq!(t[0], ("__ct".to_string(), "#".to_string()));
    assert!(t.contains(&("__eq".to_string(), "operator==".to_string())));
    assert!(t.contains(&("__vd".to_string(), "operator delete[]".to_string())));
}
