use vstd::prelude::*;

use crate::ast::{
    BinaryOperator, Block, Expr, ExtendDecl, ExternParam, FieldDecl, FunctionDecl, GenericParam,
    InterfaceDecl, Item, ItemKind, Literal, ParamDecl, PrimitiveType, Program, Span, Statement,
    StructDecl, TypeAliasDecl, TypeExpr, UnaryOperator,
};
use crate::grammar::{
    g_extern_fn_tail, g_fn_type_tail, g_type_args_tail, wrap_union, extern_m, extern_ms, g_extern_param, g_extern_params_rest, g_extern_type_atom, g_extern_type_expr,
    g_extern_union_rest, g_type_args, g_type_atom, g_type_expr, g_types_rest, g_union_rest, lemma_extern_ms,
    lemma_type_ms, type_m, type_ms, TypeM, block_m, expr_m, exprs_m, pairs_m, stmt_m, stmts_m, g_block,
    g_block_items, g_block_or_map, g_call_args, g_call_tail, g_expr, g_expr_bp, g_expr_loop, g_exprs_rest, g_if,
    g_list, g_list_rest, g_list_tail, g_map, g_map_entries, g_map_tail, g_paren, g_prefix, g_statement,
    lemma_exprs_push, lemma_pairs_push, lemma_stmts_push, BlockM, ExprM, StmtM, generic_m, generics_m, param_m,
    params_m, GenericM, ParamM,
};
use crate::item_grammar::{
    at_token, field_m, fields_m, function_m, functions_m, g_bounds_rest, g_closed, g_extend, g_extend_body,
    g_extend_members, g_function, g_generic_param, g_generic_params, g_generics_rest, g_implements,
    g_implements_items, g_interface, g_item, g_maybe_pointer, g_param, g_params, g_params_rest, g_program,
    g_struct, g_struct_body, g_struct_members, g_type_alias, with_bounds, law_program_parse_reaches_end, g_function_from_name, g_function_from_generics,
    g_function_from_params, g_return_annotation, g_function_body, self_word, item_m, items_m, struct_m, FunctionM, ItemM, StructM,
};
use crate::text::{chars_of, word_is};
use crate::tokens::{spec_token, SpecToken, Token, TokenKind, TokenType};

verus! {

/// The token that the parser sees once it has run past the last token.
pub open spec fn eof_token() -> SpecToken {
    spec_token(TokenKind::EOF, 0, 0, 0)
}

/// The token at index `i` of `toks`, or the end-of-input token past the end.
pub open spec fn token_at(toks: Seq<SpecToken>, i: int) -> SpecToken {
    if 0 <= i < toks.len() {
        toks[i]
    } else {
        eof_token()
    }
}

/// The primitive type that a type name stands for, if it names one.
pub open spec fn primitive_named(n: Seq<char>) -> Option<PrimitiveType> {
    if n == seq!['i', '8'] {
        Some(PrimitiveType::Int8)
    } else if n == seq!['i', '1', '6'] {
        Some(PrimitiveType::Int16)
    } else if n == seq!['i', '3', '2'] {
        Some(PrimitiveType::Int32)
    } else if n == seq!['i', '6', '4'] {
        Some(PrimitiveType::Int64)
    } else if n == seq!['u', '8'] {
        Some(PrimitiveType::Uint8)
    } else if n == seq!['u', '1', '6'] {
        Some(PrimitiveType::Uint16)
    } else if n == seq!['u', '3', '2'] {
        Some(PrimitiveType::Uint32)
    } else if n == seq!['u', '6', '4'] {
        Some(PrimitiveType::Uint64)
    } else if n == seq!['f', '3', '2'] {
        Some(PrimitiveType::Float32)
    } else if n == seq!['f', '6', '4'] {
        Some(PrimitiveType::Float64)
    } else if n == seq!['s', 't', 'r'] {
        Some(PrimitiveType::String)
    } else if n == seq!['c', 'h', 'a', 'r'] {
        Some(PrimitiveType::Char)
    } else if n == seq!['b', 'o', 'o', 'l'] {
        Some(PrimitiveType::Bool)
    } else if n == seq!['n', 'u', 'l', 'l'] {
        Some(PrimitiveType::Null)
    } else {
        None
    }
}

/// Binding power of an infix operator: higher binds tighter.
pub open spec fn spec_precedence(op: BinaryOperator) -> u8 {
    match op {
        BinaryOperator::Or => 1,
        BinaryOperator::And => 2,
        BinaryOperator::Eq | BinaryOperator::Neq => 3,
        BinaryOperator::Lt | BinaryOperator::Le | BinaryOperator::Gt | BinaryOperator::Ge => 4,
        BinaryOperator::Add | BinaryOperator::Sub => 5,
        BinaryOperator::Mul | BinaryOperator::Div | BinaryOperator::Mod => 6,
    }
}

/// The infix operator that a token stands for, if any.
pub open spec fn infix_operator(k: TokenKind) -> Option<BinaryOperator> {
    match k {
        TokenKind::Or => Some(BinaryOperator::Or),
        TokenKind::And => Some(BinaryOperator::And),
        TokenKind::EqEq => Some(BinaryOperator::Eq),
        TokenKind::BangEq => Some(BinaryOperator::Neq),
        TokenKind::LT => Some(BinaryOperator::Lt),
        TokenKind::GT => Some(BinaryOperator::Gt),
        TokenKind::Plus => Some(BinaryOperator::Add),
        TokenKind::Minus => Some(BinaryOperator::Sub),
        TokenKind::Star => Some(BinaryOperator::Mul),
        TokenKind::Slash => Some(BinaryOperator::Div),
        TokenKind::Percent => Some(BinaryOperator::Mod),
        _ => None,
    }
}

/// The models of the items of a parsed program, or `None` for an error.
pub open spec fn r_program(r: Result<Program, ParserError>) -> Option<Seq<ItemM>> {
    match r {
        Ok(p) => Some(items_m(p.items@)),
        Err(_) => None,
    }
}

/// The model of a parsed item, or `None` for an error.
pub open spec fn r_item(r: Result<Item, ParserError>) -> Option<ItemM> {
    match r {
        Ok(i) => Some(item_m(i)),
        Err(_) => None,
    }
}

/// The model of a parsed struct declaration, or `None` for an error.
pub open spec fn r_struct(r: Result<StructDecl, ParserError>) -> Option<StructM> {
    match r {
        Ok(d) => Some(struct_m(d)),
        Err(_) => None,
    }
}

/// The model of a parsed function declaration, or `None` for an error.
pub open spec fn r_function(r: Result<FunctionDecl, ParserError>) -> Option<FunctionM> {
    match r {
        Ok(f) => Some(function_m(f)),
        Err(_) => None,
    }
}

/// The models of parsed function declarations, or `None` for an error.
pub open spec fn r_functions(r: Result<Vec<FunctionDecl>, ParserError>) -> Option<Seq<FunctionM>> {
    match r {
        Ok(v) => Some(functions_m(v@)),
        Err(_) => None,
    }
}

/// The models of parsed fields and methods, or `None` for an error.
pub open spec fn r_members(r: Result<(Vec<FieldDecl>, Vec<FunctionDecl>), ParserError>) -> Option<
    (Seq<ParamM>, Seq<FunctionM>),
> {
    match r {
        Ok(m) => Some((fields_m(m.0@), functions_m(m.1@))),
        Err(_) => None,
    }
}

/// The models of parsed generic parameters, or `None` for an error.
pub open spec fn r_generics(r: Result<Vec<GenericParam>, ParserError>) -> Option<Seq<GenericM>> {
    match r {
        Ok(v) => Some(generics_m(v@)),
        Err(_) => None,
    }
}

/// The model of a parsed generic parameter, or `None` for an error.
pub open spec fn r_generic(r: Result<GenericParam, ParserError>) -> Option<GenericM> {
    match r {
        Ok(g) => Some(generic_m(g)),
        Err(_) => None,
    }
}

/// The model of a parsed field, or `None` for an error.
pub open spec fn r_field(r: Result<FieldDecl, ParserError>) -> Option<ParamM> {
    match r {
        Ok(f) => Some(field_m(f)),
        Err(_) => None,
    }
}

/// The models of parsed parameters, or `None` for an error.
pub open spec fn r_params(r: Result<Vec<ParamDecl>, ParserError>) -> Option<Seq<ParamM>> {
    match r {
        Ok(v) => Some(params_m(v@)),
        Err(_) => None,
    }
}

/// The model of a parsed parameter, or `None` for an error.
pub open spec fn r_param(r: Result<ParamDecl, ParserError>) -> Option<ParamM> {
    match r {
        Ok(p) => Some(param_m(p)),
        Err(_) => None,
    }
}

/// The model of a parsed type with its pointer flag, or `None` for an error.
pub open spec fn r_typed(r: Result<(TypeExpr, bool), ParserError>) -> Option<(TypeM, bool)> {
    match r {
        Ok(p) => Some((type_m(p.0), p.1)),
        Err(_) => None,
    }
}

/// The model of a parsed type, or `None` for an error.
pub open spec fn r_type(r: Result<TypeExpr, ParserError>) -> Option<TypeM> {
    match r {
        Ok(t) => Some(type_m(t)),
        Err(_) => None,
    }
}

/// The models of parsed types, or `None` for an error.
pub open spec fn r_types(r: Result<Vec<TypeExpr>, ParserError>) -> Option<Seq<TypeM>> {
    match r {
        Ok(v) => Some(type_ms(v@)),
        Err(_) => None,
    }
}

/// The model of a parsed extern function type parameter.
pub open spec fn r_extern(r: Result<ExternParam, ParserError>) -> Option<(Seq<char>, TypeM, bool)> {
    match r {
        Ok(p) => Some(extern_m(p)),
        Err(_) => None,
    }
}

proof fn lemma_type_ms_push(s: Seq<TypeExpr>, x: TypeExpr)
    ensures
        type_ms(s.push(x)) == type_ms(s).push(type_m(x)),
{
    assert(s.push(x).drop_last() =~= s);
}

proof fn lemma_extern_ms_push(s: Seq<ExternParam>, x: ExternParam)
    ensures
        extern_ms(s.push(x)) == extern_ms(s).push(extern_m(x)),
{
    assert(s.push(x).drop_last() =~= s);
}

/// The model of a parsed expression, or `None` for an error.
pub open spec fn r_expr(r: Result<Expr, ParserError>) -> Option<ExprM> {
    match r {
        Ok(e) => Some(expr_m(e)),
        Err(_) => None,
    }
}

/// The model of a parsed block, or `None` for an error.
pub open spec fn r_block(r: Result<Block, ParserError>) -> Option<BlockM> {
    match r {
        Ok(b) => Some(block_m(b)),
        Err(_) => None,
    }
}

/// The model of a parsed statement, or `None` for an error.
pub open spec fn r_stmt(r: Result<Statement, ParserError>) -> Option<StmtM> {
    match r {
        Ok(s) => Some(stmt_m(s)),
        Err(_) => None,
    }
}

/// The model of a block made of `stmts` and the value `returns`.
spec fn block_parts_m(stmts: Seq<Statement>, returns: Option<Expr>) -> BlockM {
    BlockM {
        statements: stmts_m(stmts),
        returns: match returns {
            Some(e) => Some(expr_m(e)),
            None => None,
        },
    }
}

/// A token that may open a map literal entry.
pub open spec fn is_map_key(k: TokenKind) -> bool {
    k is StringLit || k is Int || k is Float || k is CharLit
}

#[derive(Debug)]
pub enum ParserError {
    UnexpectedToken(Token),
}

impl ParserError {
    /// The (line, column) of the token at which parsing stopped.
    pub fn span(&self) -> (r: (usize, usize))
        ensures
            r == (match self {
                ParserError::UnexpectedToken(tok) => (tok.line, tok.column),
            }),
    {
        match self {
            ParserError::UnexpectedToken(tok) => (tok.line, tok.column),
        }
    }
}

/// Recursive-descent parser over a list of tokens.
#[derive(Debug)]
pub struct Parser {
    tokens: Vec<Token>,
    /// Index of the current token.
    current: usize,
    /// The token returned past the end of the input.
    eof: Token,
}

impl Parser {
    pub closed spec fn spec_tokens(&self) -> Seq<SpecToken> {
        self.tokens@.map_values(|t: Token| t@)
    }

    pub closed spec fn spec_current(&self) -> nat {
        self.current as nat
    }

    /// The parser stands within (or just past) its tokens.
    pub closed spec fn wf(&self) -> bool {
        &&& self.current <= self.tokens@.len()
        &&& self.eof@ == eof_token()
    }

    /// The token the parser currently looks at.
    pub open spec fn spec_peek(&self) -> SpecToken {
        token_at(self.spec_tokens(), self.spec_current() as int)
    }

    /// An error that reports the token at which the parser stands.
    pub open spec fn stopped_at(&self, e: ParserError) -> bool {
        match e {
            ParserError::UnexpectedToken(t) => t@ == self.spec_peek(),
        }
    }

    /// What every parsing step keeps: the tokens, the bounds, and forward
    /// motion; an error names the token where the parser stopped; with
    /// `strict`, success consumed at least one token.
    pub open spec fn step<T>(o: Parser, n: Parser, r: Result<T, ParserError>, strict: bool) -> bool {
        &&& n.wf()
        &&& n.spec_tokens() == o.spec_tokens()
        &&& n.spec_current() >= o.spec_current()
        &&& match r {
            Ok(_) => strict ==> n.spec_current() > o.spec_current(),
            Err(e) => n.stopped_at(e),
        }
    }

    pub fn new(tokens: Vec<Token>) -> (r: Self)
        ensures
            r.wf(),
            r.spec_tokens() == tokens@.map_values(|t: Token| t@),
            r.spec_current() == 0,
    {
        Parser { tokens, current: 0, eof: Token { token_type: TokenType::EOF, position: 0, line: 0, column: 0 } }
    }

    /// Parses items until the end of the input.
    pub fn parse(&mut self) -> (r: Result<Program, ParserError>)
        requires
            old(self).wf(),
        ensures
            Self::step(*old(self), *final(self), r, false),
            g_program(old(self).spec_tokens(), old(self).spec_current() as int, Seq::empty()) == (
                r_program(r),
                final(self).spec_current() as int,
            ),
            r is Ok ==> final(self).spec_peek().kind is EOF,
    {
        let ghost t = self.spec_tokens();
        let ghost i0 = self.spec_current() as int;
        let mut program = Program { items: Vec::new() };
        proof {
            assert(items_m(program.items@) =~= Seq::<ItemM>::empty());
        }
        while !self.is_at_end()
            invariant
                Self::step(*old(self), *self, Ok::<(), ParserError>(()), false),
                t == self.spec_tokens(),
                t == old(self).spec_tokens(),
                i0 == old(self).spec_current() as int,
                g_program(t, self.spec_current() as int, items_m(program.items@)) == g_program(
                    t,
                    i0,
                    Seq::empty(),
                ),
            decreases self.spec_tokens().len() - self.spec_current(),
        {
            let item = self.parse_item()?;
            proof {
                assert(items_m(program.items@.push(item)) =~= items_m(program.items@).push(item_m(item)));
            }
            program.items.push(item);
        }
        proof {
            law_program_parse_reaches_end(t, i0, Seq::empty());
        }
        Ok(program)
    }

    /// Parses one top-level item.
    #[verifier::rlimit(80)]
    pub fn parse_item(&mut self) -> (r: Result<Item, ParserError>)
        requires
            old(self).wf(),
        ensures
            Self::step(*old(self), *final(self), r, true),
            g_item(old(self).spec_tokens(), old(self).spec_current() as int) == (
                r_item(r),
                final(self).spec_current() as int,
            ),
        decreases old(self).spec_tokens().len() - old(self).spec_current(), 10nat,
    {
        let span = self.peek().span();
        let tt = self.peek().token_type.clone();
        match tt {
            TokenType::Type => self.parse_type_decl(),
            TokenType::Struct => {
                let decl = self.parse_struct_decl(false)?;
                Ok(Item { kind: ItemKind::Struct(decl), span })
            },
            TokenType::Interface => self.parse_interface_decl(),
            TokenType::Function => {
                let decl = self.parse_function_decl(false)?;
                Ok(Item { kind: ItemKind::Function(decl), span })
            },
            TokenType::Extend => self.parse_extend_decl(),
            TokenType::Extern => {
                self.advance();
                let next_span = self.peek().span();
                let next = self.peek().token_type.clone();
                match next {
                    TokenType::Struct => {
                        let decl = self.parse_struct_decl(true)?;
                        Ok(Item { kind: ItemKind::Struct(decl), span: next_span })
                    },
                    TokenType::Function => {
                        let decl = self.parse_function_decl(true)?;
                        Ok(Item { kind: ItemKind::Function(decl), span: next_span })
                    },
                    _ => Err(ParserError::UnexpectedToken(self.peek().clone())),
                }
            },
            _ => Err(ParserError::UnexpectedToken(self.peek().clone())),
        }
    }

    /// `type Name<G> = T;`
    pub fn parse_type_decl(&mut self) -> (r: Result<Item, ParserError>)
        requires
            old(self).wf(),
        ensures
            Self::step(*old(self), *final(self), r, true),
            at_token(
                old(self).spec_tokens(),
                old(self).spec_current() as int,
                g_type_alias(old(self).spec_tokens(), old(self).spec_current() as int),
            ) == (r_item(r), final(self).spec_current() as int),
        decreases old(self).spec_tokens().len() - old(self).spec_current(), 9nat,
    {
        reveal(g_type_alias);
        let span = self.peek().span();
        self.expect(TokenType::Type)?;
        let name = self.expect_identifier()?;
        let generics = self.parse_generic_params()?;
        self.expect(TokenType::Eq)?;
        let ty = self.parse_type_expr()?;
        self.expect(TokenType::Semicolon)?;
        Ok(Item { kind: ItemKind::TypeAlias(TypeAliasDecl { name, generics, ty }), span })
    }

    /// `struct Name<G>: I { fields and methods }`
    pub fn parse_struct_decl(&mut self, is_extern: bool) -> (r: Result<StructDecl, ParserError>)
        requires
            old(self).wf(),
        ensures
            Self::step(*old(self), *final(self), r, true),
            g_struct(old(self).spec_tokens(), old(self).spec_current() as int, is_extern) == (
                r_struct(r),
                final(self).spec_current() as int,
            ),
        decreases old(self).spec_tokens().len() - old(self).spec_current(), 9nat,
    {
        reveal(g_struct);
        self.expect(TokenType::Struct)?;
        let name = self.expect_identifier()?;
        let generics = self.parse_generic_params()?;
        let implements = self.parse_implements()?;
        let (fields, methods) = self.parse_struct_body(is_extern)?;
        Ok(StructDecl { name, is_extern, fields, generics, implements, methods })
    }

    /// `interface Name<G>: I { fields and methods }`
    pub fn parse_interface_decl(&mut self) -> (r: Result<Item, ParserError>)
        requires
            old(self).wf(),
        ensures
            Self::step(*old(self), *final(self), r, true),
            at_token(
                old(self).spec_tokens(),
                old(self).spec_current() as int,
                g_interface(old(self).spec_tokens(), old(self).spec_current() as int),
            ) == (r_item(r), final(self).spec_current() as int),
        decreases old(self).spec_tokens().len() - old(self).spec_current(), 9nat,
    {
        reveal(g_interface);
        let span = self.peek().span();
        self.expect(TokenType::Interface)?;
        let name = self.expect_identifier()?;
        let generics = self.parse_generic_params()?;
        let implements = self.parse_implements()?;
        let (fields, methods) = self.parse_struct_body(false)?;
        Ok(
            Item {
                kind: ItemKind::Interface(InterfaceDecl { name, generics, implements, fields, methods }),
                span,
            },
        )
    }

    /// `function name<G>(params): T { body }`, or `;` in place of the body.
    /// A first parameter named `self` marks a method and is dropped from the
    /// parameter list.
    #[verifier::rlimit(100)]
    #[verifier::spinoff_prover]
    pub fn parse_function_decl(&mut self, is_extern: bool) -> (r: Result<FunctionDecl, ParserError>)
        requires
            old(self).wf(),
        ensures
            Self::step(*old(self), *final(self), r, true),
            g_function(old(self).spec_tokens(), old(self).spec_current() as int, is_extern) == (
                r_function(r),
                final(self).spec_current() as int,
            ),
        decreases old(self).spec_tokens().len() - old(self).spec_current(), 9nat,
    {
        reveal(g_function);
        let ghost t = self.spec_tokens();
        let ghost i0 = self.spec_current() as int;
        let span = self.peek().span();
        self.expect(TokenType::Function)?;
        let name = self.expect_identifier()?;
        let ghost line = token_at(t, i0).line;
        let ghost column = token_at(t, i0).column;
        assert(g_function(t, i0, is_extern) == g_function_from_name(
            t,
            self.spec_current() as int,
            is_extern,
            name@,
            line,
            column,
        ));
        let generics = self.parse_generic_params()?;
        assert(g_function(t, i0, is_extern) == g_function_from_generics(
            t,
            self.spec_current() as int,
            is_extern,
            name@,
            generics_m(generics@),
            line,
            column,
        ));
        let mut params = self.parse_function_args(is_extern)?;
        let ghost ps = params_m(params@);
        assert(g_function(t, i0, is_extern) == g_function_from_params(
            t,
            self.spec_current() as int,
            is_extern,
            name@,
            generics_m(generics@),
            ps,
            line,
            column,
        ));
        let ghost i3 = self.spec_current() as int;
        let mut return_type = None;
        if self.expect_optional(TokenType::Colon) {
            return_type = Some(self.parse_return_type(is_extern)?);
        }
        let ghost rt = if return_type is Some {
            Some(type_m(return_type->0))
        } else {
            None
        };
        assert(g_return_annotation(t, i3, is_extern) == (Some(rt), self.spec_current() as int));
        let self_name = "self".to_owned();
        proof {
            reveal_strlit("self");
            assert(self_name@ =~= self_word());
            if params@.len() > 0 {
                assert(ps[0] == param_m(params@[0]));
            }
        }
        let has_self_param = params.len() > 0 && params[0].name == self_name;
        assert(has_self_param == (ps.len() > 0 && ps[0].name == self_word()));
        if has_self_param {
            params.remove(0);
            proof {
                assert(params_m(params@) =~= ps.drop_first());
            }
        }
        let ghost i4 = self.spec_current() as int;
        let body = if self.peek().token_type == TokenType::Semicolon {
            self.advance();
            None
        } else {
            Some(self.parse_block()?)
        };
        Ok(FunctionDecl { name, has_self_param, is_extern, generics, return_type, params, body, span })
    }

    /// The return type of a function: in extern declarations an extern type.
    fn parse_return_type(&mut self, in_extern: bool) -> (r: Result<TypeExpr, ParserError>)
        requires
            old(self).wf(),
        ensures
            Self::step(*old(self), *final(self), r, true),
            (if in_extern {
                g_extern_type_expr(old(self).spec_tokens(), old(self).spec_current() as int)
            } else {
                g_type_expr(old(self).spec_tokens(), old(self).spec_current() as int)
            }) == (r_type(r), final(self).spec_current() as int),
        decreases old(self).spec_tokens().len() - old(self).spec_current(), 6nat,
    {
        if in_extern {
            self.parse_extern_type_expr()
        } else {
            self.parse_type_expr()
        }
    }

    /// In extern declarations a type may be a pointer `*T`, alone or in a union.
    fn parse_extern_type_expr(&mut self) -> (r: Result<TypeExpr, ParserError>)
        requires
            old(self).wf(),
        ensures
            Self::step(*old(self), *final(self), r, true),
            g_extern_type_expr(old(self).spec_tokens(), old(self).spec_current() as int) == (
                r_type(r),
                final(self).spec_current() as int,
            ),
        decreases old(self).spec_tokens().len() - old(self).spec_current(), 5nat,
    {
        let ghost t = self.spec_tokens();
        let ghost i0 = self.spec_current() as int;
        let ty = self.parse_extern_type_atom()?;
        if self.peek().token_type == TokenType::Pipe {
            let ghost j = self.spec_current() as int;
            let ghost whole = g_extern_union_rest(t, j, seq![type_m(ty)]);
            assert(g_extern_type_expr(t, i0) == wrap_union(whole));
            let mut variants = Vec::new();
            variants.push(ty);
            proof {
                lemma_type_ms(variants@);
                assert(type_ms(variants@) =~= seq![type_m(variants@[0])]);
            }
            while self.expect_optional(TokenType::Pipe)
                invariant
                    Self::step(*old(self), *self, Ok::<(), ParserError>(()), true),
                    t == self.spec_tokens(),
                    t == old(self).spec_tokens(),
                    i0 == old(self).spec_current() as int,
                    g_extern_union_rest(t, self.spec_current() as int, type_ms(variants@)) == whole,
                    g_extern_type_expr(t, i0) == wrap_union(whole),
                decreases self.spec_tokens().len() - self.spec_current(),
            {
                let x = self.parse_extern_type_atom()?;
                proof {
                    lemma_type_ms_push(variants@, x);
                }
                variants.push(x);
            }
            Ok(TypeExpr::Union(variants))
        } else {
            Ok(ty)
        }
    }

    fn parse_extern_type_atom(&mut self) -> (r: Result<TypeExpr, ParserError>)
        requires
            old(self).wf(),
        ensures
            Self::step(*old(self), *final(self), r, true),
            g_extern_type_atom(old(self).spec_tokens(), old(self).spec_current() as int) == (
                r_type(r),
                final(self).spec_current() as int,
            ),
        decreases old(self).spec_tokens().len() - old(self).spec_current(), 4nat,
    {
        if self.peek().token_type == TokenType::Star {
            self.advance();
            let inner = self.parse_type_atom()?;
            Ok(TypeExpr::Pointer(Box::new(inner)))
        } else {
            self.parse_type_atom()
        }
    }

    fn parse_extern_fn_type_param(&mut self) -> (r: Result<ExternParam, ParserError>)
        requires
            old(self).wf(),
        ensures
            Self::step(*old(self), *final(self), r, true),
            g_extern_param(old(self).spec_tokens(), old(self).spec_current() as int) == (
                r_extern(r),
                final(self).spec_current() as int,
            ),
        decreases old(self).spec_tokens().len() - old(self).spec_current(), 4nat,
    {
        let name = self.expect_identifier()?;
        self.expect(TokenType::Colon)?;
        let is_pointer = self.expect_optional(TokenType::Star);
        let ty = self.parse_type_expr()?;
        Ok(ExternParam { name, ty, is_pointer })
    }

    /// `extend<G> Name<T>: I { methods }`
    pub fn parse_extend_decl(&mut self) -> (r: Result<Item, ParserError>)
        requires
            old(self).wf(),
        ensures
            Self::step(*old(self), *final(self), r, true),
            at_token(
                old(self).spec_tokens(),
                old(self).spec_current() as int,
                g_extend(old(self).spec_tokens(), old(self).spec_current() as int),
            ) == (r_item(r), final(self).spec_current() as int),
        decreases old(self).spec_tokens().len() - old(self).spec_current(), 9nat,
    {
        reveal(g_extend);
        let span = self.peek().span();
        self.expect(TokenType::Extend)?;
        let generics = self.parse_generic_params()?;
        let name = self.expect_identifier()?;
        let type_args = self.parse_type_args()?;
        let implements = self.parse_implements()?;
        let methods = self.parse_extend_body()?;
        Ok(
            Item {
                kind: ItemKind::Extend(
                    ExtendDecl {
                        target: TypeExpr::Named(name, type_args),
                        generic_params: generics,
                        implements,
                        methods,
                    },
                ),
                span,
            },
        )
    }

    /// `<A, B: Bound + Bound>`, or nothing.
    pub fn parse_generic_params(&mut self) -> (r: Result<Vec<GenericParam>, ParserError>)
        requires
            old(self).wf(),
        ensures
            Self::step(*old(self), *final(self), r, false),
            g_generic_params(old(self).spec_tokens(), old(self).spec_current() as int) == (
                r_generics(r),
                final(self).spec_current() as int,
            ),
        decreases old(self).spec_tokens().len() - old(self).spec_current(), 8nat,
    {
        let ghost t = self.spec_tokens();
        let ghost i0 = self.spec_current() as int;
        if !self.expect_optional(TokenType::LT) {
            let none: Vec<GenericParam> = Vec::new();
            proof {
                assert(generics_m(none@) =~= Seq::<GenericM>::empty());
            }
            return Ok(none);
        }
        let mut params: Vec<GenericParam> = Vec::new();
        if self.peek().token_type != TokenType::GT {
            let g0 = self.parse_generic_param()?;
            let ghost whole = g_generics_rest(t, self.spec_current() as int, seq![generic_m(g0)]);
            assert(g_generic_params(t, i0) == g_closed(t, TokenKind::GT, whole));
            proof {
                assert(generics_m(params@.push(g0)) =~= seq![generic_m(g0)]);
            }
            params.push(g0);
            while self.expect_optional(TokenType::Comma)
                invariant
                    Self::step(*old(self), *self, Ok::<(), ParserError>(()), true),
                    t == self.spec_tokens(),
                    t == old(self).spec_tokens(),
                    i0 == old(self).spec_current() as int,
                    g_generics_rest(t, self.spec_current() as int, generics_m(params@)) == whole,
                    g_generic_params(t, i0) == g_closed(t, TokenKind::GT, whole),
                decreases self.spec_tokens().len() - self.spec_current(),
            {
                let x = self.parse_generic_param()?;
                proof {
                    assert(generics_m(params@.push(x)) =~= generics_m(params@).push(generic_m(x)));
                }
                params.push(x);
            }
        } else {
            proof {
                assert(generics_m(params@) =~= Seq::<GenericM>::empty());
            }
        }
        self.expect(TokenType::GT)?;
        Ok(params)
    }

    /// `T`, or `T: A + B`.
    fn parse_generic_param(&mut self) -> (r: Result<GenericParam, ParserError>)
        requires
            old(self).wf(),
        ensures
            Self::step(*old(self), *final(self), r, true),
            g_generic_param(old(self).spec_tokens(), old(self).spec_current() as int) == (
                r_generic(r),
                final(self).spec_current() as int,
            ),
        decreases old(self).spec_tokens().len() - old(self).spec_current(), 4nat,
    {
        let ghost t = self.spec_tokens();
        let ghost i0 = self.spec_current() as int;
        let name = self.expect_identifier()?;
        let ghost i1 = self.spec_current() as int;
        let bounds = if self.expect_optional(TokenType::Colon) {
            let mut bounds: Vec<TypeExpr> = Vec::new();
            let b0 = self.parse_type_atom()?;
            let ghost whole = g_bounds_rest(t, self.spec_current() as int, seq![type_m(b0)]);
            assert(g_generic_param(t, i0) == with_bounds(name@, whole));
            proof {
                lemma_type_ms_push(bounds@, b0);
                assert(type_ms(bounds@.push(b0)) =~= seq![type_m(b0)]);
            }
            bounds.push(b0);
            while self.expect_optional(TokenType::Plus)
                invariant
                    Self::step(*old(self), *self, Ok::<(), ParserError>(()), true),
                    t == self.spec_tokens(),
                    t == old(self).spec_tokens(),
                    i0 == old(self).spec_current() as int,
                    i1 < self.spec_current(),
                    g_bounds_rest(t, self.spec_current() as int, type_ms(bounds@)) == whole,
                    g_generic_param(t, i0) == with_bounds(name@, whole),
                ensures
                    whole == (Some(type_ms(bounds@)), self.spec_current() as int),
                decreases self.spec_tokens().len() - self.spec_current(),
            {
                let x = self.parse_type_atom()?;
                proof {
                    lemma_type_ms_push(bounds@, x);
                }
                bounds.push(x);
            }
            bounds
        } else {
            let none: Vec<TypeExpr> = Vec::new();
            proof {
                assert(type_ms(none@) =~= Seq::<TypeM>::empty());
            }
            none
        };
        Ok(GenericParam { name, bounds })
    }

    /// `: I + J`, or nothing.
    pub fn parse_implements(&mut self) -> (r: Result<Vec<TypeExpr>, ParserError>)
        requires
            old(self).wf(),
        ensures
            Self::step(*old(self), *final(self), r, false),
            g_implements(old(self).spec_tokens(), old(self).spec_current() as int) == (
                r_types(r),
                final(self).spec_current() as int,
            ),
        decreases old(self).spec_tokens().len() - old(self).spec_current(), 8nat,
    {
        let ghost t = self.spec_tokens();
        let ghost i0 = self.spec_current() as int;
        if !self.expect_optional(TokenType::Colon) {
            let none: Vec<TypeExpr> = Vec::new();
            proof {
                assert(type_ms(none@) =~= Seq::<TypeM>::empty());
            }
            return Ok(none);
        }
        let mut implements: Vec<TypeExpr> = Vec::new();
        let ghost whole = g_implements_items(t, self.spec_current() as int, Seq::empty());
        proof {
            assert(type_ms(implements@) =~= Seq::<TypeM>::empty());
        }
        loop
            invariant_except_break
                g_implements_items(t, self.spec_current() as int, type_ms(implements@)) == whole,
            invariant
                Self::step(*old(self), *self, Ok::<(), ParserError>(()), true),
                t == self.spec_tokens(),
                t == old(self).spec_tokens(),
                i0 == old(self).spec_current() as int,
                g_implements(t, i0) == whole,
            ensures
                whole == (Some(type_ms(implements@)), self.spec_current() as int),
            decreases self.spec_tokens().len() - self.spec_current(),
        {
            let type_expr = self.parse_type_expr()?;
            proof {
                lemma_type_ms_push(implements@, type_expr);
            }
            implements.push(type_expr);
            if !self.expect_optional(TokenType::Plus) {
                break;
            }
        }
        Ok(implements)
    }

    /// A type, or a union of types `A | B | C`.
    pub fn parse_type_expr(&mut self) -> (r: Result<TypeExpr, ParserError>)
        requires
            old(self).wf(),
        ensures
            Self::step(*old(self), *final(self), r, true),
            g_type_expr(old(self).spec_tokens(), old(self).spec_current() as int) == (
                r_type(r),
                final(self).spec_current() as int,
            ),
        decreases old(self).spec_tokens().len() - old(self).spec_current(), 5nat,
    {
        let ghost t = self.spec_tokens();
        let ghost i0 = self.spec_current() as int;
        let ty = self.parse_type_atom()?;
        if self.peek().token_type == TokenType::Pipe {
            let ghost j = self.spec_current() as int;
            let ghost whole = g_union_rest(t, j, seq![type_m(ty)]);
            assert(g_type_expr(t, i0) == wrap_union(whole));
            let mut variants = Vec::new();
            variants.push(ty);
            proof {
                lemma_type_ms(variants@);
                assert(type_ms(variants@) =~= seq![type_m(variants@[0])]);
            }
            while self.expect_optional(TokenType::Pipe)
                invariant
                    Self::step(*old(self), *self, Ok::<(), ParserError>(()), true),
                    t == self.spec_tokens(),
                    t == old(self).spec_tokens(),
                    i0 == old(self).spec_current() as int,
                    g_union_rest(t, self.spec_current() as int, type_ms(variants@)) == whole,
                    g_type_expr(t, i0) == wrap_union(whole),
                decreases self.spec_tokens().len() - self.spec_current(),
            {
                let x = self.parse_type_atom()?;
                proof {
                    lemma_type_ms_push(variants@, x);
                }
                variants.push(x);
            }
            Ok(TypeExpr::Union(variants))
        } else {
            Ok(ty)
        }
    }

    #[verifier::rlimit(40)]
    fn parse_type_atom(&mut self) -> (r: Result<TypeExpr, ParserError>)
        requires
            old(self).wf(),
        ensures
            Self::step(*old(self), *final(self), r, true),
            g_type_atom(old(self).spec_tokens(), old(self).spec_current() as int) == (
                r_type(r),
                final(self).spec_current() as int,
            ),
        decreases old(self).spec_tokens().len() - old(self).spec_current(), 3nat,
    {
        let ghost t = self.spec_tokens();
        let ghost i0 = self.spec_current() as int;
        let token = self.peek().clone();
        match token.token_type {
            TokenType::Identifier(name) => {
                if let Some(primitive) = self.parse_optional_primitive(name.as_str()) {
                    self.advance();
                    Ok(TypeExpr::Primitive(primitive))
                } else {
                    self.advance();
                    let args = self.parse_type_args()?;
                    Ok(TypeExpr::Named(name, args))
                }
            },
            TokenType::Null => {
                self.advance();
                Ok(TypeExpr::Primitive(PrimitiveType::Null))
            },
            TokenType::Extern => {
                // extern (name: T, name: *T) => return_type
                self.advance();
                self.expect(TokenType::LeftParen)?;
                let ghost i2 = self.spec_current() as int;
                let mut params = Vec::new();
                if self.peek().token_type != TokenType::RightParen {
                    let p0 = self.parse_extern_fn_type_param()?;
                    let ghost j = self.spec_current() as int;
                    let ghost whole = g_extern_params_rest(t, j, seq![extern_m(p0)]);
                    assert(g_type_atom(t, i0) == g_extern_fn_tail(t, i2, whole));
                    params.push(p0);
                    proof {
                        lemma_extern_ms(params@);
                        assert(extern_ms(params@) =~= seq![extern_m(params@[0])]);
                    }
                    while self.expect_optional(TokenType::Comma)
                        invariant
                            Self::step(*old(self), *self, Ok::<(), ParserError>(()), true),
                            t == self.spec_tokens(),
                            t == old(self).spec_tokens(),
                            i0 == old(self).spec_current() as int,
                            i2 <= self.spec_current(),
                            g_extern_params_rest(t, self.spec_current() as int, extern_ms(params@)) == whole,
                            g_type_atom(t, i0) == g_extern_fn_tail(t, i2, whole),
                        decreases self.spec_tokens().len() - self.spec_current(),
                    {
                        let x = self.parse_extern_fn_type_param()?;
                        proof {
                            lemma_extern_ms_push(params@, x);
                        }
                        params.push(x);
                    }
                } else {
                    proof {
                        assert(extern_ms(params@) =~= Seq::<(Seq<char>, TypeM, bool)>::empty());
                    }
                }
                self.expect(TokenType::RightParen)?;
                self.expect(TokenType::FatArrow)?;
                let return_type = self.parse_extern_type_expr()?;
                Ok(TypeExpr::ExternFunction(params, Box::new(return_type)))
            },
            TokenType::LeftParen => {
                // (param_types) -> return_type
                self.advance();
                let ghost i1 = self.spec_current() as int;
                let mut param_types = Vec::new();
                if self.peek().token_type != TokenType::RightParen {
                    let p0 = self.parse_type_expr()?;
                    let ghost j = self.spec_current() as int;
                    let ghost whole = g_types_rest(t, j, seq![type_m(p0)]);
                    assert(g_type_atom(t, i0) == g_fn_type_tail(t, i1, whole));
                    param_types.push(p0);
                    proof {
                        lemma_type_ms(param_types@);
                        assert(type_ms(param_types@) =~= seq![type_m(param_types@[0])]);
                    }
                    while self.expect_optional(TokenType::Comma)
                        invariant
                            Self::step(*old(self), *self, Ok::<(), ParserError>(()), true),
                            t == self.spec_tokens(),
                            t == old(self).spec_tokens(),
                            i0 == old(self).spec_current() as int,
                            i1 <= self.spec_current(),
                            g_types_rest(t, self.spec_current() as int, type_ms(param_types@)) == whole,
                            g_type_atom(t, i0) == g_fn_type_tail(t, i1, whole),
                        decreases self.spec_tokens().len() - self.spec_current(),
                    {
                        let x = self.parse_type_expr()?;
                        proof {
                            lemma_type_ms_push(param_types@, x);
                        }
                        param_types.push(x);
                    }
                } else {
                    proof {
                        assert(type_ms(param_types@) =~= Seq::<TypeM>::empty());
                    }
                }
                self.expect(TokenType::RightParen)?;
                self.expect(TokenType::Minus)?;
                self.expect(TokenType::GT)?;
                let return_type = self.parse_type_expr()?;
                Ok(TypeExpr::Function(param_types, Box::new(return_type)))
            },
            _ => Err(ParserError::UnexpectedToken(token)),
        }
    }

    /// `<T, U>`, or nothing.
    pub fn parse_type_args(&mut self) -> (r: Result<Vec<TypeExpr>, ParserError>)
        requires
            old(self).wf(),
        ensures
            Self::step(*old(self), *final(self), r, false),
            g_type_args(old(self).spec_tokens(), old(self).spec_current() as int) == (
                r_types(r),
                final(self).spec_current() as int,
            ),
        decreases old(self).spec_tokens().len() - old(self).spec_current(), 8nat,
    {
        let ghost t = self.spec_tokens();
        let ghost i0 = self.spec_current() as int;
        if !self.expect_optional(TokenType::LT) {
            let none: Vec<TypeExpr> = Vec::new();
            proof {
                assert(type_ms(none@) =~= Seq::<TypeM>::empty());
            }
            return Ok(none);
        }
        let mut args = Vec::new();
        if self.peek().token_type != TokenType::GT {
            let a0 = self.parse_type_expr()?;
            let ghost j = self.spec_current() as int;
            let ghost whole = g_types_rest(t, j, seq![type_m(a0)]);
            assert(g_type_args(t, i0) == g_type_args_tail(t, whole));
            args.push(a0);
            proof {
                lemma_type_ms(args@);
                assert(type_ms(args@) =~= seq![type_m(args@[0])]);
            }
            while self.expect_optional(TokenType::Comma)
                invariant
                    Self::step(*old(self), *self, Ok::<(), ParserError>(()), true),
                    t == self.spec_tokens(),
                    t == old(self).spec_tokens(),
                    i0 == old(self).spec_current() as int,
                    g_types_rest(t, self.spec_current() as int, type_ms(args@)) == whole,
                    g_type_args(t, i0) == g_type_args_tail(t, whole),
                decreases self.spec_tokens().len() - self.spec_current(),
            {
                let x = self.parse_type_expr()?;
                proof {
                    lemma_type_ms_push(args@, x);
                }
                args.push(x);
            }
        } else {
            proof {
                assert(type_ms(args@) =~= Seq::<TypeM>::empty());
            }
        }
        self.expect(TokenType::GT)?;
        Ok(args)
    }

    /// `name: T` (in extern structs `name: *T` too).
    pub fn parse_field(&mut self, in_extern: bool) -> (r: Result<FieldDecl, ParserError>)
        requires
            old(self).wf(),
        ensures
            Self::step(*old(self), *final(self), r, true),
            g_param(old(self).spec_tokens(), old(self).spec_current() as int, in_extern) == (
                r_field(r),
                final(self).spec_current() as int,
            ),
        decreases old(self).spec_tokens().len() - old(self).spec_current(), 7nat,
    {
        let name = self.expect_identifier()?;
        self.expect(TokenType::Colon)?;
        let (ty, is_pointer) = self.parse_maybe_pointer_type(in_extern)?;
        Ok(FieldDecl { name, ty, is_pointer })
    }

    /// `{ fields and methods }`
    #[verifier::rlimit(80)]
    pub fn parse_struct_body(&mut self, in_extern: bool) -> (r: Result<(Vec<FieldDecl>, Vec<FunctionDecl>), ParserError>)
        requires
            old(self).wf(),
        ensures
            Self::step(*old(self), *final(self), r, true),
            g_struct_body(old(self).spec_tokens(), old(self).spec_current() as int, in_extern) == (
                r_members(r),
                final(self).spec_current() as int,
            ),
        decreases old(self).spec_tokens().len() - old(self).spec_current(), 8nat,
    {
        let ghost t = self.spec_tokens();
        let ghost i0 = self.spec_current() as int;
        self.expect(TokenType::LeftBrace)?;
        let mut fields: Vec<FieldDecl> = Vec::new();
        let mut methods: Vec<FunctionDecl> = Vec::new();
        let ghost whole = g_struct_members(t, self.spec_current() as int, in_extern, Seq::empty(), Seq::empty());
        proof {
            assert(fields_m(fields@) =~= Seq::<ParamM>::empty());
            assert(functions_m(methods@) =~= Seq::<FunctionM>::empty());
        }
        loop
            invariant_except_break
                g_struct_members(t, self.spec_current() as int, in_extern, fields_m(fields@), functions_m(methods@))
                    == whole,
            invariant
                Self::step(*old(self), *self, Ok::<(), ParserError>(()), true),
                t == self.spec_tokens(),
                t == old(self).spec_tokens(),
                i0 == old(self).spec_current() as int,
                g_struct_body(t, i0, in_extern) == whole,
            ensures
                whole == (Some((fields_m(fields@), functions_m(methods@))), self.spec_current() as int),
            decreases self.spec_tokens().len() - self.spec_current(),
        {
            let tt = self.peek().token_type.clone();
            match tt {
                TokenType::Identifier(_) => {
                    let f = self.parse_field(in_extern)?;
                    proof {
                        assert(fields_m(fields@.push(f)) =~= fields_m(fields@).push(field_m(f)));
                    }
                    fields.push(f);
                },
                TokenType::Function => {
                    let m = self.parse_function_decl(false)?;
                    proof {
                        assert(functions_m(methods@.push(m)) =~= functions_m(methods@).push(function_m(m)));
                    }
                    methods.push(m);
                },
                TokenType::RightBrace => {
                    self.advance();
                    break;
                },
                _ => {
                    return Err(ParserError::UnexpectedToken(self.peek().clone()));
                },
            }
        }
        Ok((fields, methods))
    }

    /// `{ methods }`
    pub fn parse_extend_body(&mut self) -> (r: Result<Vec<FunctionDecl>, ParserError>)
        requires
            old(self).wf(),
        ensures
            Self::step(*old(self), *final(self), r, true),
            g_extend_body(old(self).spec_tokens(), old(self).spec_current() as int) == (
                r_functions(r),
                final(self).spec_current() as int,
            ),
        decreases old(self).spec_tokens().len() - old(self).spec_current(), 8nat,
    {
        let ghost t = self.spec_tokens();
        let ghost i0 = self.spec_current() as int;
        self.expect(TokenType::LeftBrace)?;
        let mut methods: Vec<FunctionDecl> = Vec::new();
        let ghost whole = g_extend_members(t, self.spec_current() as int, Seq::empty());
        proof {
            assert(functions_m(methods@) =~= Seq::<FunctionM>::empty());
        }
        loop
            invariant_except_break
                g_extend_members(t, self.spec_current() as int, functions_m(methods@)) == whole,
            invariant
                Self::step(*old(self), *self, Ok::<(), ParserError>(()), true),
                t == self.spec_tokens(),
                t == old(self).spec_tokens(),
                i0 == old(self).spec_current() as int,
                g_extend_body(t, i0) == whole,
            ensures
                whole == (Some(functions_m(methods@)), self.spec_current() as int),
            decreases self.spec_tokens().len() - self.spec_current(),
        {
            let tt = self.peek().token_type.clone();
            match tt {
                TokenType::Function => {
                    let m = self.parse_function_decl(false)?;
                    proof {
                        assert(functions_m(methods@.push(m)) =~= functions_m(methods@).push(function_m(m)));
                    }
                    methods.push(m);
                },
                TokenType::RightBrace => {
                    self.advance();
                    break;
                },
                _ => {
                    return Err(ParserError::UnexpectedToken(self.peek().clone()));
                },
            }
        }
        Ok(methods)
    }

    /// `(a: T, b: U)`
    pub fn parse_function_args(&mut self, in_extern: bool) -> (r: Result<Vec<ParamDecl>, ParserError>)
        requires
            old(self).wf(),
        ensures
            Self::step(*old(self), *final(self), r, true),
            g_params(old(self).spec_tokens(), old(self).spec_current() as int, in_extern) == (
                r_params(r),
                final(self).spec_current() as int,
            ),
        decreases old(self).spec_tokens().len() - old(self).spec_current(), 8nat,
    {
        let ghost t = self.spec_tokens();
        let ghost i0 = self.spec_current() as int;
        self.expect(TokenType::LeftParen)?;
        let mut params: Vec<ParamDecl> = Vec::new();
        if self.peek().token_type != TokenType::RightParen {
            let p0 = self.parse_param_decl(in_extern)?;
            let ghost whole = g_params_rest(t, self.spec_current() as int, in_extern, seq![param_m(p0)]);
            assert(g_params(t, i0, in_extern) == g_closed(t, TokenKind::RightParen, whole));
            proof {
                assert(params_m(params@.push(p0)) =~= seq![param_m(p0)]);
            }
            params.push(p0);
            while self.expect_optional(TokenType::Comma)
                invariant
                    Self::step(*old(self), *self, Ok::<(), ParserError>(()), true),
                    t == self.spec_tokens(),
                    t == old(self).spec_tokens(),
                    i0 == old(self).spec_current() as int,
                    g_params_rest(t, self.spec_current() as int, in_extern, params_m(params@)) == whole,
                    g_params(t, i0, in_extern) == g_closed(t, TokenKind::RightParen, whole),
                decreases self.spec_tokens().len() - self.spec_current(),
            {
                let x = self.parse_param_decl(in_extern)?;
                proof {
                    assert(params_m(params@.push(x)) =~= params_m(params@).push(param_m(x)));
                }
                params.push(x);
            }
        } else {
            proof {
                assert(params_m(params@) =~= Seq::<ParamM>::empty());
            }
        }
        self.expect(TokenType::RightParen)?;
        Ok(params)
    }

    /// `name: T` (in extern functions `name: *T` too).
    pub fn parse_param_decl(&mut self, in_extern: bool) -> (r: Result<ParamDecl, ParserError>)
        requires
            old(self).wf(),
        ensures
            Self::step(*old(self), *final(self), r, true),
            g_param(old(self).spec_tokens(), old(self).spec_current() as int, in_extern) == (
                r_param(r),
                final(self).spec_current() as int,
            ),
        decreases old(self).spec_tokens().len() - old(self).spec_current(), 7nat,
    {
        let name = self.expect_identifier()?;
        self.expect(TokenType::Colon)?;
        let (ty, is_pointer) = self.parse_maybe_pointer_type(in_extern)?;
        Ok(ParamDecl { name, ty, is_pointer })
    }

    /// In extern contexts a field or parameter type may carry a leading `*`.
    fn parse_maybe_pointer_type(&mut self, in_extern: bool) -> (r: Result<(TypeExpr, bool), ParserError>)
        requires
            old(self).wf(),
        ensures
            Self::step(*old(self), *final(self), r, true),
            g_maybe_pointer(old(self).spec_tokens(), old(self).spec_current() as int, in_extern) == (
                r_typed(r),
                final(self).spec_current() as int,
            ),
        decreases old(self).spec_tokens().len() - old(self).spec_current(), 6nat,
    {
        if in_extern && self.peek().token_type == TokenType::Star {
            self.advance();
            let ty = self.parse_type_expr()?;
            Ok((ty, true))
        } else if in_extern {
            let ty = self.parse_extern_type_expr()?;
            Ok((ty, false))
        } else {
            let ty = self.parse_type_expr()?;
            Ok((ty, false))
        }
    }

    /// `{ statements; final_expression }`, or `;` for an empty body. A last
    /// expression statement without `;` becomes the block's value.
    pub fn parse_block(&mut self) -> (r: Result<Block, ParserError>)
        requires
            old(self).wf(),
        ensures
            Self::step(*old(self), *final(self), r, true),
            g_block(old(self).spec_tokens(), old(self).spec_current() as int) == (
                r_block(r),
                final(self).spec_current() as int,
            ),
        decreases old(self).spec_tokens().len() - old(self).spec_current(), 8nat,
    {
        let ghost t = self.spec_tokens();
        let ghost i0 = self.spec_current() as int;
        if self.peek().token_type == TokenType::Semicolon {
            self.advance();
            let empty = Block { statements: Vec::new(), returns: None };
            proof {
                assert(stmts_m(empty.statements@) =~= Seq::<StmtM>::empty());
            }
            return Ok(empty);
        }
        self.expect(TokenType::LeftBrace)?;
        let mut statements: Vec<Statement> = Vec::new();
        let mut final_expression: Option<Expr> = None;
        let ghost whole = g_block_items(t, self.spec_current() as int, Seq::empty());
        proof {
            assert(stmts_m(statements@) =~= Seq::<StmtM>::empty());
        }
        loop
            invariant_except_break
                final_expression is None,
                g_block_items(t, self.spec_current() as int, stmts_m(statements@)) == whole,
            invariant
                Self::step(*old(self), *self, Ok::<(), ParserError>(()), true),
                t == self.spec_tokens(),
                t == old(self).spec_tokens(),
                i0 == old(self).spec_current() as int,
                g_block(t, i0) == whole,
            ensures
                whole == (Some(block_parts_m(statements@, final_expression)), self.spec_current() as int),
            decreases self.spec_tokens().len() - self.spec_current(),
        {
            if self.peek().token_type == TokenType::RightBrace {
                self.advance();
                break;
            }
            let stmt = self.parse_statement()?;
            if self.expect_optional(TokenType::Semicolon) {
                proof {
                    lemma_stmts_push(statements@, stmt);
                }
                statements.push(stmt);
            } else if self.peek().token_type == TokenType::RightBrace {
                match stmt {
                    Statement::Expr(expr) => {
                        final_expression = Some(expr);
                    },
                    other => {
                        proof {
                            lemma_stmts_push(statements@, other);
                        }
                        statements.push(other);
                    },
                }
                self.advance();
                break;
            } else {
                return Err(ParserError::UnexpectedToken(self.peek().clone()));
            }
        }
        Ok(Block { statements, returns: final_expression })
    }

    /// One statement: `var`, `return`, `while`, `for`, `break`, `continue`,
    /// or an expression.
    #[verifier::rlimit(50)]
    pub fn parse_statement(&mut self) -> (r: Result<Statement, ParserError>)
        requires
            old(self).wf(),
        ensures
            Self::step(*old(self), *final(self), r, true),
            g_statement(old(self).spec_tokens(), old(self).spec_current() as int) == (
                r_stmt(r),
                final(self).spec_current() as int,
            ),
        decreases old(self).spec_tokens().len() - old(self).spec_current(), 8nat,
    {
        let ghost t = self.spec_tokens();
        let ghost i0 = self.spec_current() as int;
        let tt = self.peek().token_type.clone();
        match tt {
            TokenType::Var => {
                self.expect(TokenType::Var)?;
                let name = self.expect_identifier()?;
                let ty: Option<TypeExpr> = if self.expect_optional(TokenType::Colon) {
                    Some(self.parse_type_expr()?)
                } else {
                    None
                };
                let value: Option<Expr> = if self.expect_optional(TokenType::Eq) {
                    Some(self.parse_expr()?)
                } else {
                    None
                };
                Ok(Statement::VarDecl(name, ty, value))
            },
            TokenType::Return => {
                self.expect(TokenType::Return)?;
                if self.peek().token_type == TokenType::Semicolon || self.peek().token_type
                    == TokenType::RightBrace {
                    return Ok(Statement::Return(None));
                }
                let expr = self.parse_expr()?;
                Ok(Statement::Return(Some(expr)))
            },
            TokenType::While => {
                self.expect(TokenType::While)?;
                let condition = self.parse_expr()?;
                let body = self.parse_block()?;
                Ok(Statement::While(condition, body))
            },
            TokenType::For => {
                self.expect(TokenType::For)?;
                let name = self.expect_identifier()?;
                self.expect(TokenType::In)?;
                let iterable = self.parse_expr()?;
                let body = self.parse_block()?;
                Ok(Statement::For(name, iterable, body))
            },
            TokenType::Break => {
                self.expect(TokenType::Break)?;
                Ok(Statement::Break)
            },
            TokenType::Continue => {
                self.expect(TokenType::Continue)?;
                Ok(Statement::Continue)
            },
            _ => {
                let e = self.parse_expr()?;
                Ok(Statement::Expr(e))
            },
        }
    }

    /// An expression, by precedence climbing.
    pub fn parse_expr(&mut self) -> (r: Result<Expr, ParserError>)
        requires
            old(self).wf(),
        ensures
            Self::step(*old(self), *final(self), r, true),
            g_expr(old(self).spec_tokens(), old(self).spec_current() as int) == (
                r_expr(r),
                final(self).spec_current() as int,
            ),
        decreases old(self).spec_tokens().len() - old(self).spec_current(), 7nat,
    {
        self.parse_expr_bp(0)
    }

    /// An expression whose infix operators all bind at least as tightly as
    /// `min_bp`; postfix `.member`, calls, `as` and `is` are taken as they come.
    fn parse_expr_bp(&mut self, min_bp: u8) -> (r: Result<Expr, ParserError>)
        requires
            old(self).wf(),
        ensures
            Self::step(*old(self), *final(self), r, true),
            g_expr_bp(old(self).spec_tokens(), old(self).spec_current() as int, min_bp as int) == (
                r_expr(r),
                final(self).spec_current() as int,
            ),
        decreases old(self).spec_tokens().len() - old(self).spec_current(), 6nat,
    {
        let ghost t = self.spec_tokens();
        let ghost i0 = self.spec_current() as int;
        let mut lhs = self.parse_prefix()?;
        loop
            invariant
                Self::step(*old(self), *self, Ok::<(), ParserError>(()), true),
                t == self.spec_tokens(),
                t == old(self).spec_tokens(),
                i0 == old(self).spec_current() as int,
                g_expr_bp(t, i0, min_bp as int) == g_expr_loop(
                    t,
                    self.spec_current() as int,
                    min_bp as int,
                    expr_m(lhs),
                ),
            ensures
                g_expr_bp(t, i0, min_bp as int) == (Some(expr_m(lhs)), self.spec_current() as int),
            decreases self.spec_tokens().len() - self.spec_current(),
        {
            let tt = self.peek().token_type.clone();
            let op: BinaryOperator = match tt {
                TokenType::Dot => {
                    self.advance();
                    let member = self.expect_identifier()?;
                    lhs = Expr::Member(Box::new(lhs), member);
                    continue;
                },
                TokenType::LeftParen => {
                    lhs = self.parse_call_args(lhs, Vec::new())?;
                    continue;
                },
                TokenType::As => {
                    if 15 < min_bp {
                        break;
                    }
                    self.advance();
                    let ty = self.parse_type_expr()?;
                    lhs = Expr::As(Box::new(lhs), ty);
                    continue;
                },
                TokenType::Is => {
                    if 15 < min_bp {
                        break;
                    }
                    self.advance();
                    let ty = self.parse_type_expr()?;
                    lhs = Expr::Is(Box::new(lhs), ty);
                    continue;
                },
                TokenType::Or => BinaryOperator::Or,
                TokenType::And => BinaryOperator::And,
                TokenType::EqEq => BinaryOperator::Eq,
                TokenType::BangEq => BinaryOperator::Neq,
                TokenType::LT => BinaryOperator::Lt,
                TokenType::GT => BinaryOperator::Gt,
                TokenType::Plus => BinaryOperator::Add,
                TokenType::Minus => BinaryOperator::Sub,
                TokenType::Star => BinaryOperator::Mul,
                TokenType::Slash => BinaryOperator::Div,
                TokenType::Percent => BinaryOperator::Mod,
                _ => {
                    break;
                },
            };
            let prec = self.infix_precedence(&op);
            if prec < min_bp {
                break;
            }
            self.advance();
            let rhs = self.parse_expr_bp(prec + 1)?;
            lhs = Expr::BinaryOp(Box::new(lhs), op, Box::new(rhs));
        }
        Ok(lhs)
    }

    /// A literal, a variable, a unary operation or a bracketed form.
    fn parse_prefix(&mut self) -> (r: Result<Expr, ParserError>)
        requires
            old(self).wf(),
        ensures
            Self::step(*old(self), *final(self), r, true),
            g_prefix(old(self).spec_tokens(), old(self).spec_current() as int) == (
                r_expr(r),
                final(self).spec_current() as int,
            ),
        decreases old(self).spec_tokens().len() - old(self).spec_current(), 5nat,
    {
        let tt = self.peek().token_type.clone();
        match tt {
            TokenType::Minus => {
                self.advance();
                let expr = self.parse_expr_bp(13)?;
                Ok(Expr::UnaryOp(UnaryOperator::Neg, Box::new(expr)))
            },
            TokenType::Bang => {
                self.advance();
                let expr = self.parse_expr_bp(13)?;
                Ok(Expr::UnaryOp(UnaryOperator::Not, Box::new(expr)))
            },
            TokenType::Int(v) => {
                self.advance();
                Ok(Expr::Literal(Literal::Int(v)))
            },
            TokenType::Float(v) => {
                self.advance();
                Ok(Expr::Literal(Literal::Float(v)))
            },
            TokenType::StringLit(v) => {
                self.advance();
                Ok(Expr::Literal(Literal::String(v)))
            },
            TokenType::CharLit(v) => {
                self.advance();
                Ok(Expr::Literal(Literal::Char(v)))
            },
            TokenType::True => {
                self.advance();
                Ok(Expr::Literal(Literal::Bool(true)))
            },
            TokenType::False => {
                self.advance();
                Ok(Expr::Literal(Literal::Bool(false)))
            },
            TokenType::Null => {
                self.advance();
                Ok(Expr::Literal(Literal::Null))
            },
            TokenType::LeftParen => self.parse_paren_or_fn_literal(),
            TokenType::LeftBracket => self.parse_list_literal(),
            TokenType::LeftBrace => self.parse_block_or_map(),
            TokenType::Identifier(name) => {
                self.advance();
                Ok(Expr::Variable(name))
            },
            TokenType::If => self.parse_if_expr(),
            _ => Err(ParserError::UnexpectedToken(self.peek().clone())),
        }
    }

    /// Binding power of an infix operator.
    fn infix_precedence(&self, op: &BinaryOperator) -> (r: u8)
        ensures
            r == spec_precedence(*op),
    {
        match op {
            BinaryOperator::Or => 1,
            BinaryOperator::And => 2,
            BinaryOperator::Eq | BinaryOperator::Neq => 3,
            BinaryOperator::Lt | BinaryOperator::Le | BinaryOperator::Gt | BinaryOperator::Ge => 4,
            BinaryOperator::Add | BinaryOperator::Sub => 5,
            BinaryOperator::Mul | BinaryOperator::Div | BinaryOperator::Mod => 6,
        }
    }

    /// `callee(args)`, the call carrying `type_args`.
    fn parse_call_args(&mut self, callee: Expr, type_args: Vec<TypeExpr>) -> (r: Result<Expr, ParserError>)
        requires
            old(self).wf(),
        ensures
            Self::step(*old(self), *final(self), r, true),
            g_call_args(
                old(self).spec_tokens(),
                old(self).spec_current() as int,
                expr_m(callee),
                type_ms(type_args@),
            ) == (r_expr(r), final(self).spec_current() as int),
        decreases old(self).spec_tokens().len() - old(self).spec_current(), 4nat,
    {
        let ghost t = self.spec_tokens();
        let ghost i0 = self.spec_current() as int;
        let ghost cm = expr_m(callee);
        let ghost tm = type_ms(type_args@);
        self.expect(TokenType::LeftParen)?;
        let mut args: Vec<Expr> = Vec::new();
        if self.peek().token_type != TokenType::RightParen {
            let a0 = self.parse_expr()?;
            let ghost whole = g_exprs_rest(t, self.spec_current() as int, seq![expr_m(a0)]);
            assert(g_call_args(t, i0, cm, tm) == g_call_tail(cm, tm, t, whole));
            proof {
                lemma_exprs_push(args@, a0);
                assert(args@.push(a0) =~= seq![a0]);
                assert(exprs_m(args@.push(a0)) =~= seq![expr_m(a0)]);
            }
            args.push(a0);
            while self.expect_optional(TokenType::Comma)
                invariant
                    Self::step(*old(self), *self, Ok::<(), ParserError>(()), true),
                    t == self.spec_tokens(),
                    t == old(self).spec_tokens(),
                    i0 == old(self).spec_current() as int,
                    g_exprs_rest(t, self.spec_current() as int, exprs_m(args@)) == whole,
                    g_call_args(t, i0, cm, tm) == g_call_tail(cm, tm, t, whole),
                decreases self.spec_tokens().len() - self.spec_current(),
            {
                let x = self.parse_expr()?;
                proof {
                    lemma_exprs_push(args@, x);
                }
                args.push(x);
            }
        } else {
            proof {
                assert(exprs_m(args@) =~= Seq::<ExprM>::empty());
            }
        }
        self.expect(TokenType::RightParen)?;
        Ok(Expr::Call(Box::new(callee), type_args, args))
    }

    /// `( expr )`
    fn parse_paren_or_fn_literal(&mut self) -> (r: Result<Expr, ParserError>)
        requires
            old(self).wf(),
        ensures
            Self::step(*old(self), *final(self), r, true),
            g_paren(old(self).spec_tokens(), old(self).spec_current() as int) == (
                r_expr(r),
                final(self).spec_current() as int,
            ),
        decreases old(self).spec_tokens().len() - old(self).spec_current(), 4nat,
    {
        self.expect(TokenType::LeftParen)?;
        let expr = self.parse_expr()?;
        self.expect(TokenType::RightParen)?;
        Ok(expr)
    }

    /// `[a, b, c]`, a trailing comma allowed.
    fn parse_list_literal(&mut self) -> (r: Result<Expr, ParserError>)
        requires
            old(self).wf(),
        ensures
            Self::step(*old(self), *final(self), r, true),
            g_list(old(self).spec_tokens(), old(self).spec_current() as int) == (
                r_expr(r),
                final(self).spec_current() as int,
            ),
        decreases old(self).spec_tokens().len() - old(self).spec_current(), 4nat,
    {
        let ghost t = self.spec_tokens();
        let ghost i0 = self.spec_current() as int;
        self.expect(TokenType::LeftBracket)?;
        let mut elements: Vec<Expr> = Vec::new();
        if self.peek().token_type != TokenType::RightBracket {
            let e0 = self.parse_expr()?;
            let ghost whole = g_list_rest(t, self.spec_current() as int, seq![expr_m(e0)]);
            assert(g_list(t, i0) == g_list_tail(t, whole));
            proof {
                lemma_exprs_push(elements@, e0);
                assert(elements@.push(e0) =~= seq![e0]);
                assert(exprs_m(elements@.push(e0)) =~= seq![expr_m(e0)]);
            }
            elements.push(e0);
            while self.expect_optional(TokenType::Comma)
                invariant
                    Self::step(*old(self), *self, Ok::<(), ParserError>(()), true),
                    t == self.spec_tokens(),
                    t == old(self).spec_tokens(),
                    i0 == old(self).spec_current() as int,
                    g_list_rest(t, self.spec_current() as int, exprs_m(elements@)) == whole,
                    g_list(t, i0) == g_list_tail(t, whole),
                ensures
                    whole == (Some(exprs_m(elements@)), self.spec_current() as int),
                decreases self.spec_tokens().len() - self.spec_current(),
            {
                if self.peek().token_type == TokenType::RightBracket {
                    break;
                }
                let x = self.parse_expr()?;
                proof {
                    lemma_exprs_push(elements@, x);
                }
                elements.push(x);
            }
        } else {
            proof {
                assert(exprs_m(elements@) =~= Seq::<ExprM>::empty());
            }
        }
        self.expect(TokenType::RightBracket)?;
        Ok(Expr::LiteralList(elements))
    }

    /// `if cond { ... } else { ... }`
    fn parse_if_expr(&mut self) -> (r: Result<Expr, ParserError>)
        requires
            old(self).wf(),
        ensures
            Self::step(*old(self), *final(self), r, true),
            g_if(old(self).spec_tokens(), old(self).spec_current() as int) == (
                r_expr(r),
                final(self).spec_current() as int,
            ),
        decreases old(self).spec_tokens().len() - old(self).spec_current(), 4nat,
    {
        self.expect(TokenType::If)?;
        let cond = self.parse_expr()?;
        let then_branch = self.parse_block()?;
        let else_branch = if self.expect_optional(TokenType::Else) {
            Some(Box::new(self.parse_block()?))
        } else {
            None
        };
        Ok(Expr::If(Box::new(cond), Box::new(then_branch), else_branch))
    }

    /// `{}` (an empty map), a map literal, or a block expression.
    fn parse_block_or_map(&mut self) -> (r: Result<Expr, ParserError>)
        requires
            old(self).wf(),
        ensures
            Self::step(*old(self), *final(self), r, true),
            g_block_or_map(old(self).spec_tokens(), old(self).spec_current() as int) == (
                r_expr(r),
                final(self).spec_current() as int,
            ),
        decreases old(self).spec_tokens().len() - old(self).spec_current(), 4nat,
    {
        self.expect(TokenType::LeftBrace)?;
        if self.peek().token_type == TokenType::RightBrace {
            self.advance();
            let empty: Vec<(Expr, Expr)> = Vec::new();
            proof {
                assert(pairs_m(empty@) =~= Seq::<(ExprM, ExprM)>::empty());
            }
            return Ok(Expr::LiteralMap(empty));
        }
        let is_map = self.check_is_map();
        if is_map {
            self.parse_map_literal()
        } else {
            let block = self.parse_block()?;
            Ok(Expr::Block(Box::new(block)))
        }
    }

    /// Whether the parser stands at a literal followed by `:`, which opens a
    /// map literal entry. Leaves the position unchanged.
    fn check_is_map(&mut self) -> (r: bool)
        requires
            old(self).wf(),
        ensures
            final(self).wf(),
            final(self).spec_tokens() == old(self).spec_tokens(),
            final(self).spec_current() == old(self).spec_current(),
            r == (is_map_key(old(self).spec_peek().kind) && token_at(
                old(self).spec_tokens(),
                old(self).spec_current() + 1int,
            ).kind == TokenKind::Colon && old(self).spec_current() < old(self).spec_tokens().len()),
    {
        let is_key = match self.peek().token_type {
            TokenType::StringLit(_) | TokenType::Int(_) | TokenType::Float(_) | TokenType::CharLit(
                _,
            ) => true,
            _ => false,
        };
        if !is_key {
            return false;
        }
        self.advance();
        let tok2 = self.peek().clone();
        self.back();
        tok2.token_type == TokenType::Colon
    }

    /// `"key": value, ...}` after the opening brace.
    #[verifier::rlimit(50)]
    fn parse_map_literal(&mut self) -> (r: Result<Expr, ParserError>)
        requires
            old(self).wf(),
        ensures
            Self::step(*old(self), *final(self), r, true),
            g_map(old(self).spec_tokens(), old(self).spec_current() as int) == (
                r_expr(r),
                final(self).spec_current() as int,
            ),
        decreases old(self).spec_tokens().len() - old(self).spec_current(), 4nat,
    {
        let ghost t = self.spec_tokens();
        let ghost i0 = self.spec_current() as int;
        let mut entries: Vec<(Expr, Expr)> = Vec::new();
        let ghost whole = g_map_entries(t, i0, Seq::empty());
        proof {
            assert(pairs_m(entries@) =~= Seq::<(ExprM, ExprM)>::empty());
        }
        loop
            invariant_except_break
                g_map_entries(t, self.spec_current() as int, pairs_m(entries@)) == whole,
            invariant
                Self::step(*old(self), *self, Ok::<(), ParserError>(()), false),
                t == self.spec_tokens(),
                t == old(self).spec_tokens(),
                i0 == old(self).spec_current() as int,
                g_map(t, i0) == g_map_tail(t, whole),
            ensures
                whole == (Some(pairs_m(entries@)), self.spec_current() as int),
                self.spec_current() > i0,
            decreases self.spec_tokens().len() - self.spec_current(),
        {
            let tt = self.peek().token_type.clone();
            let key = match tt {
                TokenType::StringLit(s) => {
                    self.advance();
                    Expr::Literal(Literal::String(s))
                },
                TokenType::Int(i) => {
                    self.advance();
                    Expr::Literal(Literal::Int(i))
                },
                TokenType::Float(f) => {
                    self.advance();
                    Expr::Literal(Literal::Float(f))
                },
                TokenType::CharLit(c) => {
                    self.advance();
                    Expr::Literal(Literal::Char(c))
                },
                _ => {
                    return Err(ParserError::UnexpectedToken(self.peek().clone()));
                },
            };
            self.expect(TokenType::Colon)?;
            let value = self.parse_expr()?;
            proof {
                lemma_pairs_push(entries@, (key, value));
            }
            entries.push((key, value));
            if !self.expect_optional(TokenType::Comma) {
                break;
            }
        }
        self.expect(TokenType::RightBrace)?;
        Ok(Expr::LiteralMap(entries))
    }

    fn is_at_end(&self) -> (r: bool)
        requires
            self.wf(),
        ensures
            r == (self.spec_peek().kind is EOF),
    {
        self.peek().token_type == TokenType::EOF
    }

    /// The current token, or an end-of-input token past the end.
    pub fn peek(&self) -> (r: &Token)
        requires
            self.wf(),
        ensures
            r@ == self.spec_peek(),
    {
        if self.current < self.tokens.len() {
            &self.tokens[self.current]
        } else {
            &self.eof
        }
    }

    /// Moves to the next token, unless past the end already.
    pub fn advance(&mut self)
        requires
            old(self).wf(),
        ensures
            final(self).wf(),
            final(self).spec_tokens() == old(self).spec_tokens(),
            final(self).spec_current() == (if old(self).spec_current() < old(
                self,
            ).spec_tokens().len() {
                old(self).spec_current() + 1
            } else {
                old(self).spec_current()
            }),
    {
        if self.current < self.tokens.len() {
            self.current = self.current + 1;
        }
    }

    /// Moves back one token, unless at the first.
    pub fn back(&mut self)
        requires
            old(self).wf(),
        ensures
            final(self).wf(),
            final(self).spec_tokens() == old(self).spec_tokens(),
            final(self).spec_current() == (if old(self).spec_current() > 0 {
                (old(self).spec_current() - 1) as nat
            } else {
                0
            }),
    {
        if self.current > 0 {
            self.current = self.current - 1;
        }
    }

    /// Consumes the current token if it is of the given kind; else reports it.
    pub fn expect(&mut self, token_type: TokenType) -> (r: Result<(), ParserError>)
        requires
            old(self).wf(),
        ensures
            Self::step(*old(self), *final(self), r, !(token_type@ is EOF)),
            r is Ok <==> old(self).spec_peek().kind == token_type@,
            r is Ok ==> final(self).spec_current() == (if old(self).spec_current() < old(
                self,
            ).spec_tokens().len() {
                old(self).spec_current() + 1
            } else {
                old(self).spec_current()
            }),
            r is Err ==> final(self).spec_current() == old(self).spec_current(),
    {
        if self.peek().token_type == token_type {
            self.advance();
            return Ok(());
        }
        Err(ParserError::UnexpectedToken(self.peek().clone()))
    }

    /// Consumes the current token if it is of the given kind.
    pub fn expect_optional(&mut self, token_type: TokenType) -> (r: bool)
        requires
            old(self).wf(),
        ensures
            Self::step(*old(self), *final(self), Ok::<(), ParserError>(()), r && !(token_type@ is EOF)),
            r == (old(self).spec_peek().kind == token_type@),
            r ==> final(self).spec_current() == (if old(self).spec_current() < old(
                self,
            ).spec_tokens().len() {
                old(self).spec_current() + 1
            } else {
                old(self).spec_current()
            }),
            !r ==> final(self).spec_current() == old(self).spec_current(),
    {
        if self.peek().token_type == token_type {
            self.advance();
            return true;
        }
        false
    }

    /// Consumes the current token if it is an identifier, and yields its name.
    pub fn expect_identifier(&mut self) -> (r: Result<String, ParserError>)
        requires
            old(self).wf(),
        ensures
            Self::step(*old(self), *final(self), r, true),
            r is Ok <==> old(self).spec_peek().kind is Identifier,
            r matches Ok(name) ==> old(self).spec_peek().kind == TokenKind::Identifier(name@),
            r is Ok ==> final(self).spec_current() == old(self).spec_current() + 1,
            r is Err ==> final(self).spec_current() == old(self).spec_current(),
    {
        let token = self.peek().clone();
        if let TokenType::Identifier(name) = token.token_type {
            proof {
                lemma_not_eof_in_bounds(*self, TokenKind::Identifier(name@));
            }
            self.advance();
            return Ok(name);
        }
        Err(ParserError::UnexpectedToken(token))
    }

    /// The primitive type that `name` stands for, if any.
    pub fn parse_optional_primitive(&self, name: &str) -> (r: Option<PrimitiveType>)
        ensures
            r == primitive_named(name@),
    {
        let n = chars_of(name);
        if word_is(&n, &['i', '8']) {
            Some(PrimitiveType::Int8)
        } else if word_is(&n, &['i', '1', '6']) {
            Some(PrimitiveType::Int16)
        } else if word_is(&n, &['i', '3', '2']) {
            Some(PrimitiveType::Int32)
        } else if word_is(&n, &['i', '6', '4']) {
            Some(PrimitiveType::Int64)
        } else if word_is(&n, &['u', '8']) {
            Some(PrimitiveType::Uint8)
        } else if word_is(&n, &['u', '1', '6']) {
            Some(PrimitiveType::Uint16)
        } else if word_is(&n, &['u', '3', '2']) {
            Some(PrimitiveType::Uint32)
        } else if word_is(&n, &['u', '6', '4']) {
            Some(PrimitiveType::Uint64)
        } else if word_is(&n, &['f', '3', '2']) {
            Some(PrimitiveType::Float32)
        } else if word_is(&n, &['f', '6', '4']) {
            Some(PrimitiveType::Float64)
        } else if word_is(&n, &['s', 't', 'r']) {
            Some(PrimitiveType::String)
        } else if word_is(&n, &['c', 'h', 'a', 'r']) {
            Some(PrimitiveType::Char)
        } else if word_is(&n, &['b', 'o', 'o', 'l']) {
            Some(PrimitiveType::Bool)
        } else if word_is(&n, &['n', 'u', 'l', 'l']) {
            Some(PrimitiveType::Null)
        } else {
            None
        }
    }
}

/// A token kind other than `EOF` is only ever seen within the tokens.
proof fn lemma_not_eof_in_bounds(p: Parser, k: TokenKind)
    requires
        p.wf(),
        p.spec_peek().kind == k,
        !(k is EOF),
    ensures
        p.spec_current() < p.spec_tokens().len(),
{
}

} // verus!
