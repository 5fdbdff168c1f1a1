use otter_fusion::codegen::{is_float, is_int_or_char, is_signed_int};
use otter_fusion::get_core_module;
use otter_fusion::hir::PrimitiveType;
use otter_fusion::tokens::{Token, TokenListBuilder, TokenType};

#[test]
fn core_module_is_named_and_parsed() {
    let m = get_core_module("struct Unit { }");
    assert_eq!(m.name, "of:core");
    assert_eq!(m.program.items.len(), 1);
    assert_eq!(get_core_module("").program.items.len(), 0);
}

#[test]
fn primitive_classes() {
    assert!(is_signed_int(&PrimitiveType::Int16));
    assert!(!is_signed_int(&PrimitiveType::Uint16));
    assert!(is_float(&PrimitiveType::Float64));
    assert!(!is_float(&PrimitiveType::Int64));
    assert!(is_int_or_char(&PrimitiveType::Char));
    assert!(is_int_or_char(&PrimitiveType::Uint8));
    assert!(!is_int_or_char(&PrimitiveType::Bool));
    assert!(!is_int_or_char(&PrimitiveType::Float32));
}

#[test]
fn token_text_lengths() {
    assert_eq!(TokenType::LeftParen.text_len(), 1);
    assert_eq!(TokenType::EqEq.text_len(), 2);
    assert_eq!(TokenType::Function.text_len(), 8);
    assert_eq!(TokenType::Identifier("abc".to_string()).text_len(), 3);
    assert_eq!(TokenType::StringLit("ab".to_string()).text_len(), 4);
    assert_eq!(TokenType::CharLit('x').text_len(), 3);
    assert_eq!(TokenType::EOF.text_len(), 0);
}

#[test]
fn token_constructors_and_builder() {
    let t = Token::identifier("x".to_string(), 1, 1, 2);
    assert_eq!(t.token_type, TokenType::Identifier("x".to_string()));
    assert_eq!(t.clone(), t);
    let toks = TokenListBuilder::new().kw_var().space().identifier("x").newline().semicolon().build();
    assert_eq!(toks.len(), 3);
    assert_eq!(toks[0], Token::new(TokenType::Var, 0, 1, 1));
    assert_eq!(toks[1], Token::new(TokenType::Identifier("x".to_string()), 4, 1, 5));
    assert_eq!(toks[2], Token::new(TokenType::Semicolon, 6, 2, 1));
}

#[test]
fn builder_spaces_compose_and_adjacent_tokens_abut() {
    let a = TokenListBuilder::new().spaces(2).spaces(3).kw_var().build();
    let b = TokenListBuilder::new().spaces(5).kw_var().build();
    let c = TokenListBuilder::new().space().space().space().space().space().kw_var().build();
    assert_eq!(a, b);
    assert_eq!(b, c);
    let d = TokenListBuilder::new().spaces(0).kw_function().identifier("main").left_paren().build();
    assert_eq!(d.len(), 3);
    for k in 0..2 {
        assert_eq!(d[k + 1].line, d[k].line);
        assert_eq!(d[k + 1].position, d[k].position + d[k].token_type.text_len());
        assert_eq!(d[k + 1].column, d[k].column + d[k].token_type.text_len());
    }
}
