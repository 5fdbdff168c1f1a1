use otter_fusion::ast::{
    BinaryOperator, Block, Expr, FieldDecl, FunctionDecl, GenericParam, ItemKind, Literal, ParamDecl,
    PrimitiveType, Program, Span, Statement, StructDecl, TypeExpr, UnaryOperator,
};
use otter_fusion::lexer::Lexer;
use otter_fusion::parser::{Parser, ParserError};
use otter_fusion::tokens::{Token, TokenType};

fn parse(src: &str) -> Result<Program, ParserError> {
    let toks = Lexer::new(src).scan_all().unwrap();
    Parser::new(toks).parse()
}

fn expr(src: &str) -> Expr {
    let toks = Lexer::new(src).scan_all().unwrap();
    Parser::new(toks).parse_expr().unwrap()
}

fn var(n: &str) -> Expr {
    Expr::Variable(n.to_string())
}

fn int_expr(v: &str) -> Expr {
    Expr::Literal(Literal::Int(v.to_string()))
}

fn bin(l: Expr, op: BinaryOperator, r: Expr) -> Expr {
    Expr::BinaryOp(Box::new(l), op, Box::new(r))
}

#[test]
fn empty_program() {
    assert_eq!(parse("").unwrap(), Program { items: vec![] });
}

#[test]
fn function_with_params_and_return() {
    let p = parse("function add(a: i32, b: i32): i32 { return a + b; }").unwrap();
    assert_eq!(p.items.len(), 1);
    assert_eq!(p.items[0].span, Span { line: 1, column: 9 });
    let expected = FunctionDecl {
        name: "add".to_string(),
        has_self_param: false,
        is_extern: false,
        generics: vec![],
        return_type: Some(TypeExpr::Primitive(PrimitiveType::Int32)),
        params: vec![
            ParamDecl {
                name: "a".to_string(),
                ty: TypeExpr::Primitive(PrimitiveType::Int32),
                is_pointer: false,
            },
            ParamDecl {
                name: "b".to_string(),
                ty: TypeExpr::Primitive(PrimitiveType::Int32),
                is_pointer: false,
            },
        ],
        body: Some(Block {
            statements: vec![Statement::Return(Some(bin(var("a"), BinaryOperator::Add, var("b"))))],
            returns: None,
        }),
        span: Span { line: 1, column: 9 },
    };
    assert_eq!(p.items[0].kind, ItemKind::Function(expected));
}

#[test]
fn struct_with_fields_generics_and_method() {
    // `self` lexes as a keyword, so the receiver is written with another
    // name and renamed at the token level.
    let toks: Vec<Token> = Lexer::new("struct Box<T> { value: T function get(me: Box<T>): T { me.value } }")
        .scan_all()
        .unwrap()
        .into_iter()
        .map(|t| match t.token_type {
            TokenType::Identifier(ref n) if n == "me" => {
                Token::new(TokenType::Identifier("self".to_string()), t.position, t.line, t.column)
            }
            _ => t,
        })
        .collect();
    let p = Parser::new(toks).parse().unwrap();
    match &p.items[0].kind {
        ItemKind::Struct(s) => {
            assert_eq!(s.name, "Box");
            assert!(!s.is_extern);
            assert_eq!(s.generics, vec![GenericParam { name: "T".to_string(), bounds: vec![] }]);
            assert_eq!(
                s.fields,
                vec![FieldDecl {
                    name: "value".to_string(),
                    ty: TypeExpr::Named("T".to_string(), vec![]),
                    is_pointer: false,
                }]
            );
            assert_eq!(s.methods.len(), 1);
            assert!(s.methods[0].has_self_param);
            assert_eq!(s.methods[0].params, vec![]);
            assert_eq!(
                s.methods[0].body,
                Some(Block { statements: vec![], returns: Some(Expr::Member(Box::new(var("self")), "value".to_string())) })
            );
        }
        other => panic!("unexpected item {:?}", other),
    }
}

#[test]
fn extern_struct_with_pointer_field() {
    let p = parse("extern struct Buffer { data: *u8 size: u64 }").unwrap();
    assert_eq!(
        p.items[0].kind,
        ItemKind::Struct(StructDecl {
            name: "Buffer".to_string(),
            is_extern: true,
            generics: vec![],
            fields: vec![
                FieldDecl {
                    name: "data".to_string(),
                    ty: TypeExpr::Primitive(PrimitiveType::Uint8),
                    is_pointer: true,
                },
                FieldDecl {
                    name: "size".to_string(),
                    ty: TypeExpr::Primitive(PrimitiveType::Uint64),
                    is_pointer: false,
                },
            ],
            methods: vec![],
            implements: vec![],
        })
    );
    assert_eq!(p.items[0].span, Span { line: 1, column: 14 });
}

#[test]
fn extern_function_without_body() {
    let p = parse("extern function puts(s: str): i32;").unwrap();
    match &p.items[0].kind {
        ItemKind::Function(f) => {
            assert!(f.is_extern);
            assert_eq!(f.body, None);
            assert_eq!(f.name, "puts");
        }
        other => panic!("unexpected item {:?}", other),
    }
}

#[test]
fn type_alias_with_union() {
    let p = parse("type MaybeInt = i64 | null;").unwrap();
    match &p.items[0].kind {
        ItemKind::TypeAlias(a) => {
            assert_eq!(a.name, "MaybeInt");
            assert_eq!(
                a.ty,
                TypeExpr::Union(vec![
                    TypeExpr::Primitive(PrimitiveType::Int64),
                    TypeExpr::Primitive(PrimitiveType::Null),
                ])
            );
        }
        other => panic!("unexpected item {:?}", other),
    }
}

#[test]
fn interface_and_extend() {
    let p = parse("interface Shape { function area(): i64; } extend Circle: Shape { function area(): i64 { 1 } }")
        .unwrap();
    assert_eq!(p.items.len(), 2);
    match &p.items[0].kind {
        ItemKind::Interface(i) => {
            assert_eq!(i.name, "Shape");
            assert_eq!(i.methods.len(), 1);
            assert_eq!(i.methods[0].body, None);
        }
        other => panic!("unexpected item {:?}", other),
    }
    match &p.items[1].kind {
        ItemKind::Extend(e) => {
            assert_eq!(e.target, TypeExpr::Named("Circle".to_string(), vec![]));
            assert_eq!(e.implements, vec![TypeExpr::Named("Shape".to_string(), vec![])]);
            assert_eq!(e.methods.len(), 1);
        }
        other => panic!("unexpected item {:?}", other),
    }
}

#[test]
fn precedence_and_associativity() {
    assert_eq!(
        expr("a + b * c"),
        bin(var("a"), BinaryOperator::Add, bin(var("b"), BinaryOperator::Mul, var("c")))
    );
    assert_eq!(
        expr("a - b - c"),
        bin(bin(var("a"), BinaryOperator::Sub, var("b")), BinaryOperator::Sub, var("c"))
    );
    assert_eq!(
        expr("a || b && c == d"),
        bin(
            var("a"),
            BinaryOperator::Or,
            bin(var("b"), BinaryOperator::And, bin(var("c"), BinaryOperator::Eq, var("d")))
        )
    );
    assert_eq!(expr("-x"), Expr::UnaryOp(UnaryOperator::Neg, Box::new(var("x"))));
}

#[test]
fn calls_members_casts_and_literals() {
    assert_eq!(
        expr("f(1, x.y)"),
        Expr::Call(
            Box::new(var("f")),
            vec![],
            vec![int_expr("1"), Expr::Member(Box::new(var("x")), "y".to_string())]
        )
    );
    assert_eq!(
        expr("x as i32"),
        Expr::As(Box::new(var("x")), TypeExpr::Primitive(PrimitiveType::Int32))
    );
    assert_eq!(expr("[1, 2,]"), Expr::LiteralList(vec![int_expr("1"), int_expr("2")]));
    assert_eq!(
        expr("{\"a\": 1}"),
        Expr::LiteralMap(vec![(Expr::Literal(Literal::String("a".to_string())), int_expr("1"))])
    );
    assert_eq!(expr("{}"), Expr::LiteralMap(vec![]));
    assert_eq!(
        expr("{ { x } }"),
        Expr::Block(Box::new(Block { statements: vec![], returns: Some(var("x")) }))
    );
}

#[test]
fn statements_in_blocks() {
    let p = parse("function f() { var i: i64 = 0; while i < 3 { break; }; for x in xs { continue; }; }").unwrap();
    match &p.items[0].kind {
        ItemKind::Function(f) => {
            let body = f.body.as_ref().unwrap();
            assert_eq!(body.statements.len(), 3);
            assert_eq!(
                body.statements[0],
                Statement::VarDecl(
                    "i".to_string(),
                    Some(TypeExpr::Primitive(PrimitiveType::Int64)),
                    Some(int_expr("0"))
                )
            );
            assert!(matches!(body.statements[1], Statement::While(_, _)));
            assert!(matches!(body.statements[2], Statement::For(_, _, _)));
        }
        other => panic!("unexpected item {:?}", other),
    }
}

#[test]
fn error_names_the_token_where_parsing_stopped() {
    match parse("function 1") {
        Err(ParserError::UnexpectedToken(t)) => {
            assert_eq!(t, Token::new(TokenType::Int("1".to_string()), 10, 1, 11));
        }
        other => panic!("expected an error, got {:?}", other),
    }
    let e = parse("var").unwrap_err();
    assert_eq!(e.span(), (1, 4));
}

#[test]
fn running_out_of_tokens_reports_eof() {
    match parse("struct S {") {
        Err(ParserError::UnexpectedToken(t)) => assert_eq!(t.token_type, TokenType::EOF),
        other => panic!("expected an error, got {:?}", other),
    }
}

#[test]
fn primitive_names() {
    let p = Parser::new(vec![]);
    assert_eq!(p.parse_optional_primitive("i8"), Some(PrimitiveType::Int8));
    assert_eq!(p.parse_optional_primitive("u64"), Some(PrimitiveType::Uint64));
    assert_eq!(p.parse_optional_primitive("f32"), Some(PrimitiveType::Float32));
    assert_eq!(p.parse_optional_primitive("str"), Some(PrimitiveType::String));
    assert_eq!(p.parse_optional_primitive("null"), Some(PrimitiveType::Null));
    assert_eq!(p.parse_optional_primitive("int"), None);
}

#[test]
fn expect_helpers() {
    let toks = Lexer::new("x ;").scan_all().unwrap();
    let mut p = Parser::new(toks);
    assert!(!p.expect_optional(TokenType::Semicolon));
    assert_eq!(p.expect_identifier().unwrap(), "x");
    assert!(p.expect(TokenType::Comma).is_err());
    assert!(p.expect(TokenType::Semicolon).is_ok());
    assert_eq!(p.peek().token_type, TokenType::EOF);
    p.back();
    assert_eq!(p.peek().token_type, TokenType::Semicolon);
    p.advance();
    p.advance();
    assert_eq!(p.peek().token_type, TokenType::EOF);
}

#[test]
fn conditionals_groups_and_type_tests() {
    assert_eq!(
        expr("if c { 1 } else { 2 }"),
        Expr::If(
            Box::new(var("c")),
            Box::new(Block { statements: vec![], returns: Some(int_expr("1")) }),
            Some(Box::new(Block { statements: vec![], returns: Some(int_expr("2")) }))
        )
    );
    assert_eq!(
        expr("(a + b) * c"),
        bin(bin(var("a"), BinaryOperator::Add, var("b")), BinaryOperator::Mul, var("c"))
    );
    assert_eq!(
        expr("!x is T"),
        Expr::UnaryOp(
            UnaryOperator::Not,
            Box::new(Expr::Is(Box::new(var("x")), TypeExpr::Named("T".to_string(), vec![])))
        )
    );
    assert_eq!(
        expr("{'k': 1, 2: x}"),
        Expr::LiteralMap(vec![
            (Expr::Literal(Literal::Char('k')), int_expr("1")),
            (int_expr("2"), var("x")),
        ])
    );
}
