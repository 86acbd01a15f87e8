use covers::args::{parse_args, parse_one_arg};
use covers::token::{render, Delim, Token};
use covers::visibility::make_public;

fn mk_ident(s: &str) -> Token {
    Token::ident(s.to_string())
}

fn mk_punct(s: &str) -> Token {
    Token::punct(s.to_string())
}

fn mk_group(delim: Delim, text: &str, inner: Vec<Token>) -> Token {
    Token::group(delim, text.to_string(), inner)
}

fn name_colon_type(name: &str, ty: &str) -> Vec<Token> {
    vec![mk_ident(name), mk_punct(":"), mk_punct("&"), mk_ident(ty)]
}

#[test]
fn empty_parameter_list_gives_empty_string() {
    let tokens: Vec<Token> = vec![];
    assert_eq!(parse_args(&tokens), "");
}

#[test]
fn single_parameter_reduces_to_its_name() {
    let tokens = name_colon_type("name", "str");
    assert_eq!(parse_args(&tokens), "name");
}

#[test]
fn two_parameters_join_with_comma_space() {
    let mut tokens = name_colon_type("a", "str");
    tokens.push(mk_punct(","));
    tokens.extend(name_colon_type("b", "str"));
    assert_eq!(parse_args(&tokens), "a, b");
}

#[test]
fn sole_receiver_reduces_to_self() {
    let tokens = vec![mk_ident("self")];
    assert_eq!(parse_args(&tokens), "self");
}

#[test]
fn receiver_then_parameter_starts_with_self() {
    let mut tokens = vec![mk_ident("self"), mk_punct(",")];
    tokens.extend(name_colon_type("name", "str"));
    assert_eq!(parse_args(&tokens), "self, name");
}

#[test]
fn trailing_comma_adds_no_empty_chunk() {
    let mut tokens = name_colon_type("name", "str");
    tokens.push(mk_punct(","));
    assert_eq!(parse_args(&tokens), "name");
}

#[test]
fn chunk_ending_in_self_reduces_to_self() {
    let tokens = vec![mk_punct("&"), mk_ident("self")];
    assert_eq!(parse_one_arg(&tokens, 0, 2), "self");
}

#[test]
fn chunk_not_ending_in_self_takes_first_token() {
    let tokens = name_colon_type("count", "usize");
    assert_eq!(parse_one_arg(&tokens, 0, 4), "count");
}

#[test]
fn elevator_inserts_pub_before_fn() {
    let tokens = vec![mk_ident("fn"), mk_ident("foo"), mk_group(Delim::Paren, "()", vec![])];
    let out = make_public(tokens);
    assert_eq!(render(&out), "pub fn foo ()");
}

#[test]
fn elevator_keeps_existing_visibility() {
    let tokens = vec![mk_ident("pub"), mk_ident("fn"), mk_ident("foo")];
    let out = make_public(tokens);
    assert_eq!(render(&out), "pub fn foo");
}

#[test]
fn elevator_leaves_sequences_without_fn_alone() {
    let tokens = vec![mk_ident("struct"), mk_ident("S")];
    let out = make_public(tokens);
    assert_eq!(render(&out), "struct S");
}

#[test]
fn elevator_is_idempotent() {
    let tokens = vec![mk_ident("fn"), mk_ident("foo"), mk_group(Delim::Paren, "()", vec![])];
    let once = make_public(tokens);
    let rendered_once = render(&once);
    let twice = make_public(once);
    assert_eq!(render(&twice), rendered_once);
}

#[test]
fn elevator_respects_attribute_tokens_before_fn() {
    let tokens = vec![
        mk_punct("#"),
        mk_group(Delim::Bracket, "[inline]", vec![mk_ident("inline")]),
        mk_ident("fn"),
        mk_ident("f"),
    ];
    let out = make_public(tokens);
    assert_eq!(render(&out), "# [inline] pub fn f");
}

#[test]
fn render_joins_token_texts_with_spaces() {
    let tokens = vec![mk_ident("fn"), mk_ident("f"), mk_group(Delim::Brace, "{ 1 }", vec![])];
    assert_eq!(render(&tokens), "fn f { 1 }");
}

#[test]
fn render_of_no_tokens_is_empty() {
    let tokens: Vec<Token> = vec![];
    assert_eq!(render(&tokens), "");
}
