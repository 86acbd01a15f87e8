use covers::params::RewriteError;
use covers::rewrite::{cmp, create_name_token, mock, mocked, BuildMode, Prefix, Rewritten, Stage};
use covers::token::{render, Delim, Token};

fn t_ident(s: &str) -> Token {
    Token::ident(s.to_string())
}

fn t_punct(s: &str) -> Token {
    Token::punct(s.to_string())
}

fn t_group(delim: Delim, text: &str, inner: Vec<Token>) -> Token {
    Token::group(delim, text.to_string(), inner)
}

fn dev_mode() -> BuildMode {
    BuildMode { debug: true, test: false }
}

fn release_mode() -> BuildMode {
    BuildMode { debug: false, test: false }
}

fn foo_tokens() -> Vec<Token> {
    vec![
        t_ident("fn"),
        t_ident("foo"),
        t_group(
            Delim::Paren,
            "(name: &str)",
            vec![t_ident("name"), t_punct(":"), t_punct("&"), t_ident("str")],
        ),
        t_punct("->"),
        t_ident("String"),
        t_group(Delim::Brace, "{ 1 }", vec![]),
    ]
}

#[test]
fn release_build_passes_input_through_unchanged() {
    let input = foo_tokens();
    let expected = render(&input);
    match mocked("mock_foo", input, release_mode(), Prefix::Underscore) {
        Ok(Rewritten::Unchanged(v)) => assert_eq!(render(&v), expected),
        _ => panic!("expected the unchanged token sequence"),
    }
}

#[test]
fn plain_function_is_rewritten() {
    let out = mocked("mock_foo", foo_tokens(), dev_mode(), Prefix::Underscore).unwrap();
    let expected = "pub fn _foo (name: &str) -> String { 1 }\n\nfn foo (name: &str) -> String {\n    #[cfg(test)]\n    return mock_foo(name);\n    #[cfg(not(test))]\n    return _foo(name);\n}\n";
    match out {
        Rewritten::Source(code) => assert_eq!(code, expected),
        _ => panic!("expected rewritten source"),
    }
}

#[test]
fn static_method_with_scope_impl_is_qualified() {
    let input = vec![
        t_ident("fn"),
        t_ident("baz"),
        t_group(
            Delim::Paren,
            "(name: &str)",
            vec![t_ident("name"), t_punct(":"), t_punct("&"), t_ident("str")],
        ),
        t_group(Delim::Brace, "{ 1 }", vec![]),
    ];
    let out = mocked("Struct::mock_baz, scope = impl", input, dev_mode(), Prefix::Underscore)
        .unwrap();
    let expected = "pub fn _baz (name: &str) { 1 }\n\nfn baz (name: &str) {\n    #[cfg(test)]\n    return Struct::mock_baz(name);\n    #[cfg(not(test))]\n    return Self::_baz(name);\n}\n";
    match out {
        Rewritten::Source(code) => assert_eq!(code, expected),
        _ => panic!("expected rewritten source"),
    }
}

#[test]
fn receiver_method_is_qualified_and_passes_self() {
    let input = vec![
        t_ident("fn"),
        t_ident("xxx"),
        t_group(
            Delim::Paren,
            "(self, name: &str)",
            vec![
                t_ident("self"),
                t_punct(","),
                t_ident("name"),
                t_punct(":"),
                t_punct("&"),
                t_ident("str"),
            ],
        ),
        t_group(Delim::Brace, "{ 1 }", vec![]),
    ];
    let out = mocked("module::yyy", input, dev_mode(), Prefix::Underscore).unwrap();
    let expected = "pub fn _xxx (self, name: &str) { 1 }\n\nfn xxx (self, name: &str) {\n    #[cfg(test)]\n    return module::yyy(self, name);\n    #[cfg(not(test))]\n    return Self::_xxx(self, name);\n}\n";
    match out {
        Rewritten::Source(code) => assert_eq!(code, expected),
        _ => panic!("expected rewritten source"),
    }
}

#[test]
fn parameterless_function_gets_empty_call() {
    let input = vec![
        t_ident("fn"),
        t_ident("tick"),
        t_group(Delim::Paren, "()", vec![]),
        t_group(Delim::Brace, "{ 1 }", vec![]),
    ];
    let out = mocked("mock_tick", input, dev_mode(), Prefix::Underscore).unwrap();
    let expected = "pub fn _tick () { 1 }\n\nfn tick () {\n    #[cfg(test)]\n    return mock_tick();\n    #[cfg(not(test))]\n    return _tick();\n}\n";
    match out {
        Rewritten::Source(code) => assert_eq!(code, expected),
        _ => panic!("expected rewritten source"),
    }
}

#[test]
fn alternative_prefix_renames_accordingly() {
    let input = vec![
        t_ident("fn"),
        t_ident("tick"),
        t_group(Delim::Paren, "()", vec![]),
        t_group(Delim::Brace, "{ 1 }", vec![]),
    ];
    let out = mocked("mock_tick", input, dev_mode(), Prefix::Orig).unwrap();
    match out {
        Rewritten::Source(code) => {
            assert!(code.contains("pub fn _orig_tick ()"));
            assert!(code.contains("return _orig_tick();"));
        },
        _ => panic!("expected rewritten source"),
    }
}

#[test]
fn missing_reference_aborts_the_rewrite() {
    match mocked("", foo_tokens(), dev_mode(), Prefix::Underscore) {
        Err(RewriteError::MissingReference) => {},
        _ => panic!("expected the reference-required error"),
    }
}

#[test]
fn malformed_option_aborts_the_rewrite() {
    match mocked("mock_foo, scope impl", foo_tokens(), dev_mode(), Prefix::Underscore) {
        Err(RewriteError::BadOption) => {},
        _ => panic!("expected the key-value-format error"),
    }
}

#[test]
fn release_build_erases_marked_function() {
    let out = mock(foo_tokens(), release_mode(), false);
    assert_eq!(out.len(), 0);
}

#[test]
fn dev_build_elevates_marked_function() {
    let out = mock(foo_tokens(), dev_mode(), false);
    assert_eq!(render(&out), "pub fn foo (name: &str) -> String { 1 }");
}

#[test]
fn no_pub_toggle_keeps_marked_function_as_is() {
    let out = mock(foo_tokens(), dev_mode(), true);
    assert_eq!(render(&out), "fn foo (name: &str) -> String { 1 }");
}

#[test]
fn test_build_also_rewrites() {
    let mode = BuildMode { debug: false, test: true };
    let out = mocked("mock_foo", foo_tokens(), mode, Prefix::Underscore).unwrap();
    assert!(matches!(out, Rewritten::Source(_)));
    let erased = mock(foo_tokens(), release_mode(), false);
    assert!(erased.is_empty());
    let kept = mock(foo_tokens(), mode, false);
    assert!(!kept.is_empty());
}

#[test]
fn attribute_tokens_stay_on_both_functions() {
    let input = vec![
        t_punct("#"),
        t_group(Delim::Bracket, "[inline]", vec![t_ident("inline")]),
        t_ident("fn"),
        t_ident("f"),
        t_group(Delim::Paren, "()", vec![]),
        t_group(Delim::Brace, "{ 1 }", vec![]),
    ];
    let out = mocked("m", input, dev_mode(), Prefix::Underscore).unwrap();
    let expected = "# [inline] pub fn _f () { 1 }\n\n# [inline] fn f () {\n    #[cfg(test)]\n    return m();\n    #[cfg(not(test))]\n    return _f();\n}\n";
    match out {
        Rewritten::Source(code) => assert_eq!(code, expected),
        _ => panic!("expected rewritten source"),
    }
}

#[test]
fn stage_comparison_follows_the_rank_order() {
    assert!(cmp(&Stage::Start, Stage::FnIdentFound) < 0);
    assert!(cmp(&Stage::FnIdentFound, Stage::FnIdentFound) == 0);
    assert!(cmp(&Stage::FnBodyFound, Stage::FnArgsFound) > 0);
}

#[test]
fn name_token_is_prefixed() {
    let t = create_name_token("_", &t_ident("foo"));
    assert_eq!(t.text, "_foo");
}
