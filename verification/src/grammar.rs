use vstd::prelude::*;

use crate::ast::{
    BinaryOperator, Block, Expr, ExternParam, GenericParam, Literal, ParamDecl, PrimitiveType, Statement, TypeExpr,
    UnaryOperator,
};
use crate::parser::{infix_operator, is_map_key, primitive_named, spec_precedence, token_at};
use crate::tokens::{SpecToken, TokenKind};

verus! {

// ---------------------------------------------------------------------------
// The model of the syntax tree
// ---------------------------------------------------------------------------

/// The mathematical model of a type expression.
pub enum TypeM {
    Primitive(PrimitiveType),
    Union(Seq<TypeM>),
    Named(Seq<char>, Seq<TypeM>),
    Function(Seq<TypeM>, Box<TypeM>),
    Pointer(Box<TypeM>),
    /// Parameters as (name, type, is_pointer), and the return type.
    ExternFunction(Seq<(Seq<char>, TypeM, bool)>, Box<TypeM>),
}

/// The model of a type expression.
pub open spec fn type_m(t: TypeExpr) -> TypeM
    decreases t,
{
    match t {
        TypeExpr::Primitive(p) => TypeM::Primitive(p),
        TypeExpr::Union(v) => TypeM::Union(type_ms(v@)),
        TypeExpr::Named(n, a) => TypeM::Named(n@, type_ms(a@)),
        TypeExpr::Function(ps, r) => TypeM::Function(type_ms(ps@), Box::new(type_m(*r))),
        TypeExpr::Pointer(b) => TypeM::Pointer(Box::new(type_m(*b))),
        TypeExpr::ExternFunction(ps, r) => TypeM::ExternFunction(extern_ms(ps@), Box::new(type_m(*r))),
    }
}

/// The models of a sequence of type expressions.
pub open spec fn type_ms(s: Seq<TypeExpr>) -> Seq<TypeM>
    decreases s,
{
    if s.len() == 0 {
        Seq::empty()
    } else {
        type_ms(s.drop_last()).push(type_m(s.last()))
    }
}

/// The models of extern function type parameters.
pub open spec fn extern_ms(s: Seq<ExternParam>) -> Seq<(Seq<char>, TypeM, bool)>
    decreases s,
{
    if s.len() == 0 {
        Seq::empty()
    } else {
        extern_ms(s.drop_last()).push(extern_m(s.last()))
    }
}

/// The model of one extern function type parameter.
pub open spec fn extern_m(p: ExternParam) -> (Seq<char>, TypeM, bool)
    decreases p,
{
    (p.name@, type_m(p.ty), p.is_pointer)
}

pub proof fn lemma_type_ms(s: Seq<TypeExpr>)
    ensures
        type_ms(s).len() == s.len(),
        forall|i: int| 0 <= i < s.len() ==> #[trigger] type_ms(s)[i] == type_m(s[i]),
    decreases s.len(),
{
    if s.len() > 0 {
        lemma_type_ms(s.drop_last());
    }
}

pub proof fn lemma_extern_ms(s: Seq<ExternParam>)
    ensures
        extern_ms(s).len() == s.len(),
        forall|i: int| 0 <= i < s.len() ==> #[trigger] extern_ms(s)[i] == extern_m(s[i]),
    decreases s.len(),
{
    if s.len() > 0 {
        lemma_extern_ms(s.drop_last());
    }
}

// ---------------------------------------------------------------------------
// The grammar of types, over a token list and a position
// ---------------------------------------------------------------------------

/// The kind of the token at position `i` (`EOF` past the end).
pub open spec fn kind_at(t: Seq<SpecToken>, i: int) -> TokenKind {
    token_at(t, i).kind
}

/// The position after consuming the token at `i`: the next one, or `i`
/// itself past the end.
pub open spec fn adv(t: Seq<SpecToken>, i: int) -> int {
    if 0 <= i < t.len() {
        i + 1
    } else {
        i
    }
}

/// A sub-parse that started at `i` and stopped at `j` went forward and
/// stayed within the tokens.
pub open spec fn moved(t: Seq<SpecToken>, i: int, j: int) -> bool {
    i < j <= t.len()
}

/// A union of the parsed members, or the error.
pub open spec fn wrap_union(w: (Option<Seq<TypeM>>, int)) -> (Option<TypeM>, int) {
    match w.0 {
        None => (None, w.1),
        Some(vs) => (Some(TypeM::Union(vs)), w.1),
    }
}

/// The end of `<...>` once its arguments are parsed: the closing `>`.
pub open spec fn g_type_args_tail(t: Seq<SpecToken>, w: (Option<Seq<TypeM>>, int)) -> (Option<Seq<TypeM>>, int) {
    match w.0 {
        None => (None, w.1),
        Some(args) => if kind_at(t, w.1) == TokenKind::GT {
            (Some(args), adv(t, w.1))
        } else {
            (None, w.1)
        },
    }
}

/// A type atom from position `i`: what it parses to (`None` for an error)
/// and where parsing stops.
pub open spec fn g_type_atom(t: Seq<SpecToken>, i: int) -> (Option<TypeM>, int)
    decreases t.len() - i, 3int,
{
    if i < 0 || i > t.len() {
        (None, i)
    } else {
        match kind_at(t, i) {
            TokenKind::Identifier(n) => match primitive_named(n) {
                Some(p) => (Some(TypeM::Primitive(p)), adv(t, i)),
                None => {
                    let (a, j) = g_type_args(t, adv(t, i));
                    match a {
                        Some(args) => (Some(TypeM::Named(n, args)), j),
                        None => (None, j),
                    }
                },
            },
            TokenKind::Null => (Some(TypeM::Primitive(PrimitiveType::Null)), adv(t, i)),
            TokenKind::Extern => {
                let i1 = adv(t, i);
                if kind_at(t, i1) != TokenKind::LeftParen {
                    (None, i1)
                } else {
                    let i2 = adv(t, i1);
                    let (ps, i3) = if kind_at(t, i2) != TokenKind::RightParen {
                        let (p, j) = g_extern_param(t, i2);
                        match p {
                            None => (None, j),
                            Some(p0) => if moved(t, i2, j) {
                                g_extern_params_rest(t, j, seq![p0])
                            } else {
                                (None, j)
                            },
                        }
                    } else {
                        (Some(Seq::empty()), i2)
                    };
                    g_extern_fn_tail(t, i2, (ps, i3))
                }
            },
            TokenKind::LeftParen => {
                let i1 = adv(t, i);
                let (ps, i2) = if kind_at(t, i1) != TokenKind::RightParen {
                    let (p, j) = g_type_expr(t, i1);
                    match p {
                        None => (None, j),
                        Some(p0) => if moved(t, i1, j) {
                            g_types_rest(t, j, seq![p0])
                        } else {
                            (None, j)
                        },
                    }
                } else {
                    (Some(Seq::empty()), i1)
                };
                g_fn_type_tail(t, i1, (ps, i2))
            },
            _ => (None, i),
        }
    }
}

/// The end of an extern function type once its parameters (started at
/// `i2`) are parsed: `) => T`.
pub open spec fn g_extern_fn_tail(t: Seq<SpecToken>, i2: int, w: (Option<Seq<(Seq<char>, TypeM, bool)>>, int)) -> (
    Option<TypeM>,
    int,
)
    decreases t.len() - i2, 2int,
{
    let i3 = w.1;
    match w.0 {
        None => (None, i3),
        Some(ps) => if !(0 <= i2 <= i3 <= t.len()) {
            (None, i3)
        } else if kind_at(t, i3) != TokenKind::RightParen {
            (None, i3)
        } else {
            let i4 = adv(t, i3);
            if kind_at(t, i4) != TokenKind::FatArrow {
                (None, i4)
            } else {
                let (r, i5) = g_extern_type_expr(t, adv(t, i4));
                match r {
                    None => (None, i5),
                    Some(r) => (Some(TypeM::ExternFunction(ps, Box::new(r))), i5),
                }
            }
        },
    }
}

/// The end of a function type once its parameter types (started at `i1`)
/// are parsed: `) -> T`.
pub open spec fn g_fn_type_tail(t: Seq<SpecToken>, i1: int, w: (Option<Seq<TypeM>>, int)) -> (Option<TypeM>, int)
    decreases t.len() - i1, 2int,
{
    let i2 = w.1;
    match w.0 {
        None => (None, i2),
        Some(ps) => if !(0 <= i1 <= i2 <= t.len()) {
            (None, i2)
        } else if kind_at(t, i2) != TokenKind::RightParen {
            (None, i2)
        } else {
            let i3 = adv(t, i2);
            if kind_at(t, i3) != TokenKind::Minus {
                (None, i3)
            } else {
                let i4 = adv(t, i3);
                if kind_at(t, i4) != TokenKind::GT {
                    (None, i4)
                } else {
                    let (r, i5) = g_type_expr(t, adv(t, i4));
                    match r {
                        None => (None, i5),
                        Some(r) => (Some(TypeM::Function(ps, Box::new(r))), i5),
                    }
                }
            }
        },
    }
}

/// More types, each after a comma, appended to `acc`.
pub open spec fn g_types_rest(t: Seq<SpecToken>, i: int, acc: Seq<TypeM>) -> (Option<Seq<TypeM>>, int)
    decreases t.len() - i, 6int,
{
    if i < 0 || i > t.len() {
        (None, i)
    } else if kind_at(t, i) == TokenKind::Comma {
        let (x, j) = g_type_expr(t, adv(t, i));
        match x {
            None => (None, j),
            Some(x) => if moved(t, i, j) {
                g_types_rest(t, j, acc.push(x))
            } else {
                (None, j)
            },
        }
    } else {
        (Some(acc), i)
    }
}

/// More union members, each after a `|`, appended to `acc`.
pub open spec fn g_union_rest(t: Seq<SpecToken>, i: int, acc: Seq<TypeM>) -> (Option<Seq<TypeM>>, int)
    decreases t.len() - i, 4int,
{
    if i < 0 || i > t.len() {
        (None, i)
    } else if kind_at(t, i) == TokenKind::Pipe {
        let (x, j) = g_type_atom(t, adv(t, i));
        match x {
            None => (None, j),
            Some(x) => if moved(t, i, j) {
                g_union_rest(t, j, acc.push(x))
            } else {
                (None, j)
            },
        }
    } else {
        (Some(acc), i)
    }
}

/// A type, or a union `A | B | ...` of type atoms.
pub open spec fn g_type_expr(t: Seq<SpecToken>, i: int) -> (Option<TypeM>, int)
    decreases t.len() - i, 5int,
{
    if i < 0 || i > t.len() {
        (None, i)
    } else {
        let (a, j) = g_type_atom(t, i);
        match a {
            None => (None, j),
            Some(a) => if !(i <= j <= t.len()) {
                (None, j)
            } else if kind_at(t, j) == TokenKind::Pipe {
                wrap_union(g_union_rest(t, j, seq![a]))
            } else {
                (Some(a), j)
            },
        }
    }
}

/// `<T, U>`, or nothing (no tokens consumed) when no `<` comes.
pub open spec fn g_type_args(t: Seq<SpecToken>, i: int) -> (Option<Seq<TypeM>>, int)
    decreases t.len() - i, 7int,
{
    if i < 0 || i > t.len() {
        (None, i)
    } else if kind_at(t, i) != TokenKind::LT {
        (Some(Seq::empty()), i)
    } else {
        let i1 = adv(t, i);
        let (args, i2) = if kind_at(t, i1) != TokenKind::GT {
            let (x, j) = g_type_expr(t, i1);
            match x {
                None => (None, j),
                Some(x) => if moved(t, i1, j) {
                    g_types_rest(t, j, seq![x])
                } else {
                    (None, j)
                },
            }
        } else {
            (Some(Seq::empty()), i1)
        };
        g_type_args_tail(t, (args, i2))
    }
}

/// In extern declarations: `*T` (a pointer to a type atom) or a type atom.
pub open spec fn g_extern_type_atom(t: Seq<SpecToken>, i: int) -> (Option<TypeM>, int)
    decreases t.len() - i, 4int,
{
    if i < 0 || i > t.len() {
        (None, i)
    } else if kind_at(t, i) == TokenKind::Star {
        let (a, j) = g_type_atom(t, adv(t, i));
        match a {
            None => (None, j),
            Some(a) => (Some(TypeM::Pointer(Box::new(a))), j),
        }
    } else {
        g_type_atom(t, i)
    }
}

/// More extern union members, each after a `|`, appended to `acc`.
pub open spec fn g_extern_union_rest(t: Seq<SpecToken>, i: int, acc: Seq<TypeM>) -> (Option<Seq<TypeM>>, int)
    decreases t.len() - i, 5int,
{
    if i < 0 || i > t.len() {
        (None, i)
    } else if kind_at(t, i) == TokenKind::Pipe {
        let (x, j) = g_extern_type_atom(t, adv(t, i));
        match x {
            None => (None, j),
            Some(x) => if moved(t, i, j) {
                g_extern_union_rest(t, j, acc.push(x))
            } else {
                (None, j)
            },
        }
    } else {
        (Some(acc), i)
    }
}

/// In extern declarations: an extern type atom, or a union of them.
pub open spec fn g_extern_type_expr(t: Seq<SpecToken>, i: int) -> (Option<TypeM>, int)
    decreases t.len() - i, 6int,
{
    if i < 0 || i > t.len() {
        (None, i)
    } else {
        let (a, j) = g_extern_type_atom(t, i);
        match a {
            None => (None, j),
            Some(a) => if !(i <= j <= t.len()) {
                (None, j)
            } else if kind_at(t, j) == TokenKind::Pipe {
                wrap_union(g_extern_union_rest(t, j, seq![a]))
            } else {
                (Some(a), j)
            },
        }
    }
}

/// A parameter of an extern function type: `name: T` or `name: *T`.
pub open spec fn g_extern_param(t: Seq<SpecToken>, i: int) -> (Option<(Seq<char>, TypeM, bool)>, int)
    decreases t.len() - i, 6int,
{
    if i < 0 || i > t.len() {
        (None, i)
    } else {
        match kind_at(t, i) {
            TokenKind::Identifier(n) => {
                let i1 = adv(t, i);
                if kind_at(t, i1) != TokenKind::Colon {
                    (None, i1)
                } else {
                    let i2 = adv(t, i1);
                    let is_pointer = kind_at(t, i2) == TokenKind::Star;
                    let i3 = if is_pointer {
                        adv(t, i2)
                    } else {
                        i2
                    };
                    let (ty, i4) = g_type_expr(t, i3);
                    match ty {
                        None => (None, i4),
                        Some(ty) => (Some((n, ty, is_pointer)), i4),
                    }
                }
            },
            _ => (None, i),
        }
    }
}

/// More extern function type parameters, each after a comma.
pub open spec fn g_extern_params_rest(
    t: Seq<SpecToken>,
    i: int,
    acc: Seq<(Seq<char>, TypeM, bool)>,
) -> (Option<Seq<(Seq<char>, TypeM, bool)>>, int)
    decreases t.len() - i, 7int,
{
    if i < 0 || i > t.len() {
        (None, i)
    } else if kind_at(t, i) == TokenKind::Comma {
        let (x, j) = g_extern_param(t, adv(t, i));
        match x {
            None => (None, j),
            Some(x) => if moved(t, i, j) {
                g_extern_params_rest(t, j, acc.push(x))
            } else {
                (None, j)
            },
        }
    } else {
        (Some(acc), i)
    }
}


// ---------------------------------------------------------------------------
// The model of expressions, statements and blocks
// ---------------------------------------------------------------------------

/// The model of a literal.
pub enum LitM {
    Int(Seq<char>),
    Float(Seq<char>),
    Str(Seq<char>),
    Char(char),
    Bool(bool),
    Null,
}

/// The model of a generic parameter: its name and bounds.
pub struct GenericM {
    pub name: Seq<char>,
    pub bounds: Seq<TypeM>,
}

/// The model of a parameter: name, type, and whether it is a pointer.
pub struct ParamM {
    pub name: Seq<char>,
    pub ty: TypeM,
    pub is_pointer: bool,
}

/// The model of an expression.
pub enum ExprM {
    Literal(LitM),
    Variable(Seq<char>),
    If(Box<ExprM>, Box<BlockM>, Option<Box<BlockM>>),
    Call(Box<ExprM>, Seq<TypeM>, Seq<ExprM>),
    LiteralMap(Seq<(ExprM, ExprM)>),
    LiteralList(Seq<ExprM>),
    StructInit(TypeM, Seq<(Seq<char>, ExprM)>),
    As(Box<ExprM>, TypeM),
    Is(Box<ExprM>, TypeM),
    Member(Box<ExprM>, Seq<char>),
    BinaryOp(Box<ExprM>, BinaryOperator, Box<ExprM>),
    UnaryOp(UnaryOperator, Box<ExprM>),
    FunctionLiteral(Seq<GenericM>, Seq<ParamM>, Option<TypeM>, Box<BlockM>),
    Block(Box<BlockM>),
}

/// The model of a block.
pub struct BlockM {
    pub statements: Seq<StmtM>,
    pub returns: Option<ExprM>,
}

/// The model of a statement.
pub enum StmtM {
    VarDecl(Seq<char>, Option<TypeM>, Option<ExprM>),
    Return(Option<ExprM>),
    Expr(ExprM),
    For(Seq<char>, ExprM, BlockM),
    While(ExprM, BlockM),
    Break,
    Continue,
}

pub open spec fn lit_m(l: Literal) -> LitM {
    match l {
        Literal::Int(s) => LitM::Int(s@),
        Literal::Float(s) => LitM::Float(s@),
        Literal::String(s) => LitM::Str(s@),
        Literal::Char(c) => LitM::Char(c),
        Literal::Bool(b) => LitM::Bool(b),
        Literal::Null => LitM::Null,
    }
}

pub open spec fn generic_m(g: GenericParam) -> GenericM {
    GenericM { name: g.name@, bounds: type_ms(g.bounds@) }
}

pub open spec fn generics_m(s: Seq<GenericParam>) -> Seq<GenericM> {
    s.map_values(|g: GenericParam| generic_m(g))
}

pub open spec fn param_m(p: ParamDecl) -> ParamM {
    ParamM { name: p.name@, ty: type_m(p.ty), is_pointer: p.is_pointer }
}

pub open spec fn params_m(s: Seq<ParamDecl>) -> Seq<ParamM> {
    s.map_values(|p: ParamDecl| param_m(p))
}

/// The model of an expression.
pub open spec fn expr_m(e: Expr) -> ExprM
    decreases e,
{
    match e {
        Expr::Literal(l) => ExprM::Literal(lit_m(l)),
        Expr::Variable(n) => ExprM::Variable(n@),
        Expr::If(c, b, e2) => ExprM::If(
            Box::new(expr_m(*c)),
            Box::new(block_m(*b)),
            match e2 {
                Some(x) => Some(Box::new(block_m(*x))),
                None => None,
            },
        ),
        Expr::Call(f, ts, args) => ExprM::Call(Box::new(expr_m(*f)), type_ms(ts@), exprs_m(args@)),
        Expr::LiteralMap(es) => ExprM::LiteralMap(pairs_m(es@)),
        Expr::LiteralList(es) => ExprM::LiteralList(exprs_m(es@)),
        Expr::StructInit(t, fs) => ExprM::StructInit(type_m(t), inits_m(fs@)),
        Expr::As(x, t) => ExprM::As(Box::new(expr_m(*x)), type_m(t)),
        Expr::Is(x, t) => ExprM::Is(Box::new(expr_m(*x)), type_m(t)),
        Expr::Member(x, n) => ExprM::Member(Box::new(expr_m(*x)), n@),
        Expr::BinaryOp(l, op, r) => ExprM::BinaryOp(Box::new(expr_m(*l)), op, Box::new(expr_m(*r))),
        Expr::UnaryOp(op, x) => ExprM::UnaryOp(op, Box::new(expr_m(*x))),
        Expr::FunctionLiteral(gs, ps, rt, b) => ExprM::FunctionLiteral(
            generics_m(gs@),
            params_m(ps@),
            match rt {
                Some(t) => Some(type_m(t)),
                None => None,
            },
            Box::new(block_m(*b)),
        ),
        Expr::Block(b) => ExprM::Block(Box::new(block_m(*b))),
    }
}

pub open spec fn exprs_m(s: Seq<Expr>) -> Seq<ExprM>
    decreases s,
{
    if s.len() == 0 {
        Seq::empty()
    } else {
        exprs_m(s.drop_last()).push(expr_m(s.last()))
    }
}

pub open spec fn pairs_m(s: Seq<(Expr, Expr)>) -> Seq<(ExprM, ExprM)>
    decreases s,
{
    if s.len() == 0 {
        Seq::empty()
    } else {
        pairs_m(s.drop_last()).push((expr_m(s.last().0), expr_m(s.last().1)))
    }
}

pub open spec fn inits_m(s: Seq<(String, Expr)>) -> Seq<(Seq<char>, ExprM)>
    decreases s,
{
    if s.len() == 0 {
        Seq::empty()
    } else {
        inits_m(s.drop_last()).push((s.last().0@, expr_m(s.last().1)))
    }
}

/// The model of a block.
pub open spec fn block_m(b: Block) -> BlockM
    decreases b,
{
    BlockM {
        statements: stmts_m(b.statements@),
        returns: match b.returns {
            Some(e) => Some(expr_m(e)),
            None => None,
        },
    }
}

pub open spec fn stmts_m(s: Seq<Statement>) -> Seq<StmtM>
    decreases s,
{
    if s.len() == 0 {
        Seq::empty()
    } else {
        stmts_m(s.drop_last()).push(stmt_m(s.last()))
    }
}

/// The model of a statement.
pub open spec fn stmt_m(s: Statement) -> StmtM
    decreases s,
{
    match s {
        Statement::VarDecl(n, t, v) => StmtM::VarDecl(
            n@,
            match t {
                Some(t) => Some(type_m(t)),
                None => None,
            },
            match v {
                Some(v) => Some(expr_m(v)),
                None => None,
            },
        ),
        Statement::Return(v) => StmtM::Return(
            match v {
                Some(v) => Some(expr_m(v)),
                None => None,
            },
        ),
        Statement::Expr(e) => StmtM::Expr(expr_m(e)),
        Statement::For(n, e, b) => StmtM::For(n@, expr_m(e), block_m(b)),
        Statement::While(e, b) => StmtM::While(expr_m(e), block_m(b)),
        Statement::Break => StmtM::Break,
        Statement::Continue => StmtM::Continue,
    }
}

pub proof fn lemma_exprs_push(s: Seq<Expr>, x: Expr)
    ensures
        exprs_m(s.push(x)) == exprs_m(s).push(expr_m(x)),
{
    assert(s.push(x).drop_last() =~= s);
}

pub proof fn lemma_pairs_push(s: Seq<(Expr, Expr)>, x: (Expr, Expr))
    ensures
        pairs_m(s.push(x)) == pairs_m(s).push((expr_m(x.0), expr_m(x.1))),
{
    assert(s.push(x).drop_last() =~= s);
}

pub proof fn lemma_stmts_push(s: Seq<Statement>, x: Statement)
    ensures
        stmts_m(s.push(x)) == stmts_m(s).push(stmt_m(x)),
{
    assert(s.push(x).drop_last() =~= s);
}

// ---------------------------------------------------------------------------
// The grammar of expressions, statements and blocks
// ---------------------------------------------------------------------------

/// An expression from position `i`.
pub open spec fn g_expr(t: Seq<SpecToken>, i: int) -> (Option<ExprM>, int)
    decreases t.len() - i, 7int,
{
    if i < 0 || i > t.len() {
        (None, i)
    } else {
        g_expr_bp(t, i, 0)
    }
}

/// An expression whose infix operators bind at least as tightly as `min_bp`.
pub open spec fn g_expr_bp(t: Seq<SpecToken>, i: int, min_bp: int) -> (Option<ExprM>, int)
    decreases t.len() - i, 6int,
{
    if i < 0 || i > t.len() {
        (None, i)
    } else {
        let (lhs, j) = g_prefix(t, i);
        match lhs {
            None => (None, j),
            Some(lhs) => if !(i <= j <= t.len()) {
                (None, j)
            } else {
                g_expr_loop(t, j, min_bp, lhs)
            },
        }
    }
}

/// Postfix forms and infix operators after `lhs`, from position `i`.
pub open spec fn g_expr_loop(t: Seq<SpecToken>, i: int, min_bp: int, lhs: ExprM) -> (Option<ExprM>, int)
    decreases t.len() - i, 4int,
{
    if i < 0 || i > t.len() {
        (None, i)
    } else {
        match kind_at(t, i) {
            TokenKind::Dot => {
                let i1 = adv(t, i);
                match kind_at(t, i1) {
                    TokenKind::Identifier(m) => g_expr_loop(
                        t,
                        adv(t, i1),
                        min_bp,
                        ExprM::Member(Box::new(lhs), m),
                    ),
                    _ => (None, i1),
                }
            },
            TokenKind::LeftParen => {
                let (c, j) = g_call_args(t, i, lhs, Seq::empty());
                match c {
                    None => (None, j),
                    Some(c) => if moved(t, i, j) {
                        g_expr_loop(t, j, min_bp, c)
                    } else {
                        (None, j)
                    },
                }
            },
            TokenKind::As => if 15 < min_bp {
                (Some(lhs), i)
            } else {
                let (ty, j) = g_type_expr(t, adv(t, i));
                match ty {
                    None => (None, j),
                    Some(ty) => if moved(t, i, j) {
                        g_expr_loop(t, j, min_bp, ExprM::As(Box::new(lhs), ty))
                    } else {
                        (None, j)
                    },
                }
            },
            TokenKind::Is => if 15 < min_bp {
                (Some(lhs), i)
            } else {
                let (ty, j) = g_type_expr(t, adv(t, i));
                match ty {
                    None => (None, j),
                    Some(ty) => if moved(t, i, j) {
                        g_expr_loop(t, j, min_bp, ExprM::Is(Box::new(lhs), ty))
                    } else {
                        (None, j)
                    },
                }
            },
            k => match infix_operator(k) {
                Some(op) => if (spec_precedence(op) as int) < min_bp {
                    (Some(lhs), i)
                } else {
                    let (rhs, j) = g_expr_bp(t, adv(t, i), spec_precedence(op) + 1);
                    match rhs {
                        None => (None, j),
                        Some(rhs) => if moved(t, i, j) {
                            g_expr_loop(t, j, min_bp, ExprM::BinaryOp(Box::new(lhs), op, Box::new(rhs)))
                        } else {
                            (None, j)
                        },
                    }
                },
                None => (Some(lhs), i),
            },
        }
    }
}

/// The expression that the token at `i` starts.
pub open spec fn g_prefix(t: Seq<SpecToken>, i: int) -> (Option<ExprM>, int)
    decreases t.len() - i, 5int,
{
    if i < 0 || i > t.len() {
        (None, i)
    } else {
        match kind_at(t, i) {
            TokenKind::Minus => {
                let (x, j) = g_expr_bp(t, adv(t, i), 13);
                match x {
                    None => (None, j),
                    Some(x) => (Some(ExprM::UnaryOp(UnaryOperator::Neg, Box::new(x))), j),
                }
            },
            TokenKind::Bang => {
                let (x, j) = g_expr_bp(t, adv(t, i), 13);
                match x {
                    None => (None, j),
                    Some(x) => (Some(ExprM::UnaryOp(UnaryOperator::Not, Box::new(x))), j),
                }
            },
            TokenKind::Int(v) => (Some(ExprM::Literal(LitM::Int(v))), adv(t, i)),
            TokenKind::Float(v) => (Some(ExprM::Literal(LitM::Float(v))), adv(t, i)),
            TokenKind::StringLit(v) => (Some(ExprM::Literal(LitM::Str(v))), adv(t, i)),
            TokenKind::CharLit(c) => (Some(ExprM::Literal(LitM::Char(c))), adv(t, i)),
            TokenKind::True => (Some(ExprM::Literal(LitM::Bool(true))), adv(t, i)),
            TokenKind::False => (Some(ExprM::Literal(LitM::Bool(false))), adv(t, i)),
            TokenKind::Null => (Some(ExprM::Literal(LitM::Null)), adv(t, i)),
            TokenKind::LeftParen => g_paren(t, i),
            TokenKind::LeftBracket => g_list(t, i),
            TokenKind::LeftBrace => g_block_or_map(t, i),
            TokenKind::Identifier(n) => (Some(ExprM::Variable(n)), adv(t, i)),
            TokenKind::If => g_if(t, i),
            _ => (None, i),
        }
    }
}

/// `( expr )`
pub open spec fn g_paren(t: Seq<SpecToken>, i: int) -> (Option<ExprM>, int)
    decreases t.len() - i, 3int,
{
    if i < 0 || i > t.len() {
        (None, i)
    } else if kind_at(t, i) != TokenKind::LeftParen {
        (None, i)
    } else {
        let (x, j) = g_expr(t, adv(t, i));
        match x {
            None => (None, j),
            Some(x) => if kind_at(t, j) == TokenKind::RightParen {
                (Some(x), adv(t, j))
            } else {
                (None, j)
            },
        }
    }
}

/// `(args)` after a callee, which is given the type arguments `targs`.
pub open spec fn g_call_args(t: Seq<SpecToken>, i: int, callee: ExprM, targs: Seq<TypeM>) -> (Option<ExprM>, int)
    decreases t.len() - i, 3int,
{
    if i < 0 || i > t.len() {
        (None, i)
    } else if kind_at(t, i) != TokenKind::LeftParen {
        (None, i)
    } else {
        let i1 = adv(t, i);
        let (args, j) = if kind_at(t, i1) != TokenKind::RightParen {
            let (x, j0) = g_expr(t, i1);
            match x {
                None => (None, j0),
                Some(x) => if moved(t, i1, j0) {
                    g_exprs_rest(t, j0, seq![x])
                } else {
                    (None, j0)
                },
            }
        } else {
            (Some(Seq::empty()), i1)
        };
        g_call_tail(callee, targs, t, (args, j))
    }
}

/// The closing `)` of a call once its arguments are parsed.
pub open spec fn g_call_tail(callee: ExprM, targs: Seq<TypeM>, t: Seq<SpecToken>, w: (Option<Seq<ExprM>>, int)) -> (
    Option<ExprM>,
    int,
) {
    match w.0 {
        None => (None, w.1),
        Some(args) => if kind_at(t, w.1) == TokenKind::RightParen {
            (Some(ExprM::Call(Box::new(callee), targs, args)), adv(t, w.1))
        } else {
            (None, w.1)
        },
    }
}

/// More expressions, each after a comma.
pub open spec fn g_exprs_rest(t: Seq<SpecToken>, i: int, acc: Seq<ExprM>) -> (Option<Seq<ExprM>>, int)
    decreases t.len() - i, 8int,
{
    if i < 0 || i > t.len() {
        (None, i)
    } else if kind_at(t, i) == TokenKind::Comma {
        let (x, j) = g_expr(t, adv(t, i));
        match x {
            None => (None, j),
            Some(x) => if moved(t, i, j) {
                g_exprs_rest(t, j, acc.push(x))
            } else {
                (None, j)
            },
        }
    } else {
        (Some(acc), i)
    }
}

/// `[a, b, c]`, a trailing comma allowed.
pub open spec fn g_list(t: Seq<SpecToken>, i: int) -> (Option<ExprM>, int)
    decreases t.len() - i, 3int,
{
    if i < 0 || i > t.len() {
        (None, i)
    } else if kind_at(t, i) != TokenKind::LeftBracket {
        (None, i)
    } else {
        let i1 = adv(t, i);
        let (els, j) = if kind_at(t, i1) != TokenKind::RightBracket {
            let (x, j0) = g_expr(t, i1);
            match x {
                None => (None, j0),
                Some(x) => if moved(t, i1, j0) {
                    g_list_rest(t, j0, seq![x])
                } else {
                    (None, j0)
                },
            }
        } else {
            (Some(Seq::empty()), i1)
        };
        g_list_tail(t, (els, j))
    }
}

/// The closing `]` of a list once its elements are parsed.
pub open spec fn g_list_tail(t: Seq<SpecToken>, w: (Option<Seq<ExprM>>, int)) -> (Option<ExprM>, int) {
    match w.0 {
        None => (None, w.1),
        Some(els) => if kind_at(t, w.1) == TokenKind::RightBracket {
            (Some(ExprM::LiteralList(els)), adv(t, w.1))
        } else {
            (None, w.1)
        },
    }
}

/// More list elements, each after a comma; a comma before `]` ends them.
pub open spec fn g_list_rest(t: Seq<SpecToken>, i: int, acc: Seq<ExprM>) -> (Option<Seq<ExprM>>, int)
    decreases t.len() - i, 8int,
{
    if i < 0 || i > t.len() {
        (None, i)
    } else if kind_at(t, i) == TokenKind::Comma {
        let i1 = adv(t, i);
        if kind_at(t, i1) == TokenKind::RightBracket {
            (Some(acc), i1)
        } else {
            let (x, j) = g_expr(t, i1);
            match x {
                None => (None, j),
                Some(x) => if moved(t, i, j) {
                    g_list_rest(t, j, acc.push(x))
                } else {
                    (None, j)
                },
            }
        }
    } else {
        (Some(acc), i)
    }
}

/// `if cond { ... }`, with an optional `else { ... }`.
pub open spec fn g_if(t: Seq<SpecToken>, i: int) -> (Option<ExprM>, int)
    decreases t.len() - i, 3int,
{
    if i < 0 || i > t.len() {
        (None, i)
    } else if kind_at(t, i) != TokenKind::If {
        (None, i)
    } else {
        let (c, j) = g_expr(t, adv(t, i));
        match c {
            None => (None, j),
            Some(c) => if !moved(t, i, j) {
                (None, j)
            } else {
                let (b, k) = g_block(t, j);
                match b {
                    None => (None, k),
                    Some(b) => if !(j <= k <= t.len()) {
                        (None, k)
                    } else if kind_at(t, k) == TokenKind::Else {
                        let (e, l) = g_block(t, adv(t, k));
                        match e {
                            None => (None, l),
                            Some(e) => (Some(ExprM::If(Box::new(c), Box::new(b), Some(Box::new(e)))), l),
                        }
                    } else {
                        (Some(ExprM::If(Box::new(c), Box::new(b), None)), k)
                    },
                }
            },
        }
    }
}

/// `{}`, a map literal, or a block expression (whose block must open with
/// a second `{`).
pub open spec fn g_block_or_map(t: Seq<SpecToken>, i: int) -> (Option<ExprM>, int)
    decreases t.len() - i, 3int,
{
    if i < 0 || i > t.len() {
        (None, i)
    } else if kind_at(t, i) != TokenKind::LeftBrace {
        (None, i)
    } else {
        let i1 = adv(t, i);
        if kind_at(t, i1) == TokenKind::RightBrace {
            (Some(ExprM::LiteralMap(Seq::empty())), adv(t, i1))
        } else if is_map_key(kind_at(t, i1)) && kind_at(t, i1 + 1) == TokenKind::Colon && i1 < t.len() {
            g_map(t, i1)
        } else {
            let (b, j) = g_block(t, i1);
            match b {
                None => (None, j),
                Some(b) => (Some(ExprM::Block(Box::new(b))), j),
            }
        }
    }
}

/// The entries of a map literal and its closing brace.
pub open spec fn g_map(t: Seq<SpecToken>, i: int) -> (Option<ExprM>, int)
    decreases t.len() - i, 4int,
{
    if i < 0 || i > t.len() {
        (None, i)
    } else {
        g_map_tail(t, g_map_entries(t, i, Seq::empty()))
    }
}

/// The closing `}` of a map literal once its entries are parsed.
pub open spec fn g_map_tail(t: Seq<SpecToken>, w: (Option<Seq<(ExprM, ExprM)>>, int)) -> (Option<ExprM>, int) {
    match w.0 {
        None => (None, w.1),
        Some(es) => if kind_at(t, w.1) == TokenKind::RightBrace {
            (Some(ExprM::LiteralMap(es)), adv(t, w.1))
        } else {
            (None, w.1)
        },
    }
}

/// The literal expression of a map key token.
pub open spec fn key_m(k: TokenKind) -> Option<ExprM> {
    match k {
        TokenKind::StringLit(s) => Some(ExprM::Literal(LitM::Str(s))),
        TokenKind::Int(v) => Some(ExprM::Literal(LitM::Int(v))),
        TokenKind::Float(v) => Some(ExprM::Literal(LitM::Float(v))),
        TokenKind::CharLit(c) => Some(ExprM::Literal(LitM::Char(c))),
        _ => None,
    }
}

/// `key: value` entries separated by commas, appended to `acc`.
pub open spec fn g_map_entries(t: Seq<SpecToken>, i: int, acc: Seq<(ExprM, ExprM)>) -> (
    Option<Seq<(ExprM, ExprM)>>,
    int,
)
    decreases t.len() - i, 3int,
{
    if i < 0 || i > t.len() {
        (None, i)
    } else {
        match key_m(kind_at(t, i)) {
            None => (None, i),
            Some(key) => {
                let i1 = adv(t, i);
                if kind_at(t, i1) != TokenKind::Colon {
                    (None, i1)
                } else {
                    let (v, j) = g_expr(t, adv(t, i1));
                    match v {
                        None => (None, j),
                        Some(v) => if !moved(t, i, j) {
                            (None, j)
                        } else if kind_at(t, j) == TokenKind::Comma {
                            g_map_entries(t, adv(t, j), acc.push((key, v)))
                        } else {
                            (Some(acc.push((key, v))), j)
                        },
                    }
                }
            },
        }
    }
}

/// A block: `;` (empty) or `{ statements }`, the last expression without
/// `;` giving its value.
pub open spec fn g_block(t: Seq<SpecToken>, i: int) -> (Option<BlockM>, int)
    decreases t.len() - i, 10int,
{
    if i < 0 || i > t.len() {
        (None, i)
    } else if kind_at(t, i) == TokenKind::Semicolon {
        (Some(BlockM { statements: Seq::empty(), returns: None }), adv(t, i))
    } else if kind_at(t, i) != TokenKind::LeftBrace {
        (None, i)
    } else {
        g_block_items(t, adv(t, i), Seq::empty())
    }
}

/// The statements of a block after `stmts`, up to its closing brace.
pub open spec fn g_block_items(t: Seq<SpecToken>, i: int, stmts: Seq<StmtM>) -> (Option<BlockM>, int)
    decreases t.len() - i, 9int,
{
    if i < 0 || i > t.len() {
        (None, i)
    } else if kind_at(t, i) == TokenKind::RightBrace {
        (Some(BlockM { statements: stmts, returns: None }), adv(t, i))
    } else {
        let (st, j) = g_statement(t, i);
        match st {
            None => (None, j),
            Some(st) => if !(i <= j <= t.len()) {
                (None, j)
            } else if kind_at(t, j) == TokenKind::Semicolon {
                g_block_items(t, adv(t, j), stmts.push(st))
            } else if kind_at(t, j) == TokenKind::RightBrace {
                (
                    Some(
                        match st {
                            StmtM::Expr(e) => BlockM { statements: stmts, returns: Some(e) },
                            other => BlockM { statements: stmts.push(other), returns: None },
                        },
                    ),
                    adv(t, j),
                )
            } else {
                (None, j)
            },
        }
    }
}

/// One statement.
pub open spec fn g_statement(t: Seq<SpecToken>, i: int) -> (Option<StmtM>, int)
    decreases t.len() - i, 8int,
{
    if i < 0 || i > t.len() {
        (None, i)
    } else {
        match kind_at(t, i) {
            TokenKind::Var => {
                let i1 = adv(t, i);
                match kind_at(t, i1) {
                    TokenKind::Identifier(n) => {
                        let i2 = adv(t, i1);
                        let (ty, i3) = if kind_at(t, i2) == TokenKind::Colon {
                            let (x, j) = g_type_expr(t, adv(t, i2));
                            match x {
                                None => (None, j),
                                Some(x) => (Some(Some(x)), j),
                            }
                        } else {
                            (Some(None), i2)
                        };
                        match ty {
                            None => (None, i3),
                            Some(ty) => if !(i2 <= i3 <= t.len()) {
                                (None, i3)
                            } else if kind_at(t, i3) == TokenKind::Eq {
                                let (v, j) = g_expr(t, adv(t, i3));
                                match v {
                                    None => (None, j),
                                    Some(v) => (Some(StmtM::VarDecl(n, ty, Some(v))), j),
                                }
                            } else {
                                (Some(StmtM::VarDecl(n, ty, None)), i3)
                            },
                        }
                    },
                    _ => (None, i1),
                }
            },
            TokenKind::Return => {
                let i1 = adv(t, i);
                if kind_at(t, i1) == TokenKind::Semicolon || kind_at(t, i1) == TokenKind::RightBrace {
                    (Some(StmtM::Return(None)), i1)
                } else {
                    let (v, j) = g_expr(t, i1);
                    match v {
                        None => (None, j),
                        Some(v) => (Some(StmtM::Return(Some(v))), j),
                    }
                }
            },
            TokenKind::While => {
                let (c, j) = g_expr(t, adv(t, i));
                match c {
                    None => (None, j),
                    Some(c) => if !moved(t, i, j) {
                        (None, j)
                    } else {
                        let (b, k) = g_block(t, j);
                        match b {
                            None => (None, k),
                            Some(b) => (Some(StmtM::While(c, b)), k),
                        }
                    },
                }
            },
            TokenKind::For => {
                let i1 = adv(t, i);
                match kind_at(t, i1) {
                    TokenKind::Identifier(n) => {
                        let i2 = adv(t, i1);
                        if kind_at(t, i2) != TokenKind::In {
                            (None, i2)
                        } else {
                            let (e, j) = g_expr(t, adv(t, i2));
                            match e {
                                None => (None, j),
                                Some(e) => if !moved(t, i, j) {
                                    (None, j)
                                } else {
                                    let (b, k) = g_block(t, j);
                                    match b {
                                        None => (None, k),
                                        Some(b) => (Some(StmtM::For(n, e, b)), k),
                                    }
                                },
                            }
                        }
                    },
                    _ => (None, i1),
                }
            },
            TokenKind::Break => (Some(StmtM::Break), adv(t, i)),
            TokenKind::Continue => (Some(StmtM::Continue), adv(t, i)),
            _ => {
                let (e, j) = g_expr(t, i);
                match e {
                    None => (None, j),
                    Some(e) => (Some(StmtM::Expr(e)), j),
                }
            },
        }
    }
}

} // verus!
