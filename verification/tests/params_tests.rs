use covers::params::{has_scope_impl, parse_params, Params, RewriteError};
use covers::rewrite::{choose_prefix, Prefix};

#[test]
fn reference_is_first_trimmed_element() {
    let p = parse_params("  my_crate::mock_foo  , scope = impl").unwrap();
    assert_eq!(p.reference, "my_crate::mock_foo");
}

#[test]
fn reference_alone_parses() {
    let p = parse_params("mock_foo").unwrap();
    assert_eq!(p.reference, "mock_foo");
    assert_eq!(p.options.len(), 0);
}

#[test]
fn empty_arguments_fail_with_reference_required() {
    assert!(matches!(parse_params(""), Err(RewriteError::MissingReference)));
}

#[test]
fn blank_arguments_fail_with_reference_required() {
    assert!(matches!(parse_params("   "), Err(RewriteError::MissingReference)));
}

#[test]
fn option_with_one_separator_parses() {
    let p = parse_params("m, scope = impl").unwrap();
    assert_eq!(p.options.len(), 1);
    assert_eq!(p.options[0].0, "scope");
    assert_eq!(p.options[0].1, "impl");
}

#[test]
fn option_without_separator_fails() {
    assert!(matches!(parse_params("m, scope"), Err(RewriteError::BadOption)));
}

#[test]
fn option_with_two_separators_fails() {
    assert!(matches!(parse_params("m, a = b = c"), Err(RewriteError::BadOption)));
}

#[test]
fn options_are_lower_cased() {
    let p = parse_params("m, SCOPE = Impl").unwrap();
    assert_eq!(p.options[0].0, "scope");
    assert_eq!(p.options[0].1, "impl");
}

#[test]
fn later_scope_option_wins() {
    let p = parse_params("m, scope = impl, scope = free").unwrap();
    assert!(!has_scope_impl(&p));
    let q = parse_params("m, scope = free, scope = impl").unwrap();
    assert!(has_scope_impl(&q));
}

#[test]
fn scope_impl_detected() {
    let p = parse_params("Struct::mock_baz, scope = impl").unwrap();
    assert!(has_scope_impl(&p));
}

#[test]
fn missing_scope_option_is_not_impl() {
    let p = parse_params("mock_foo").unwrap();
    assert!(!has_scope_impl(&p));
}

#[test]
fn scope_lookup_ignores_other_keys() {
    let p = Params { reference: "m".to_string(), options: vec![("other".to_string(), "impl".to_string())] };
    assert!(!has_scope_impl(&p));
}

#[test]
fn error_messages_are_fixed_per_variant() {
    assert_eq!(RewriteError::PrefixConflict.message(), "only a single prefix may be selected");
    assert_eq!(
        RewriteError::MissingReference.message(),
        "at least a fully-qualified reference to the mock has to be provided"
    );
    assert_eq!(
        RewriteError::BadOption.message(),
        "extra parameters should be provided in `key = value` format"
    );
}

#[test]
fn single_prefix_selections_resolve() {
    assert_eq!(choose_prefix(false, false), Ok(Prefix::Underscore));
    assert_eq!(choose_prefix(true, false), Ok(Prefix::DoubleUnderscore));
    assert_eq!(choose_prefix(false, true), Ok(Prefix::Orig));
}

#[test]
fn conflicting_prefix_selection_is_an_error() {
    assert_eq!(choose_prefix(true, true), Err(RewriteError::PrefixConflict));
}
