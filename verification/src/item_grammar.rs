use vstd::prelude::*;

use crate::ast::{FieldDecl, FunctionDecl, Item, ItemKind, StructDecl};
use crate::grammar::{
    adv, block_m, g_block, g_extern_type_expr, g_type_args, g_type_atom, g_type_expr, generics_m, kind_at,
    moved, params_m, type_m, type_ms, BlockM, GenericM, ParamM, TypeM,
};
use crate::parser::token_at;
use crate::tokens::{SpecToken, TokenKind};

verus! {

// ---------------------------------------------------------------------------
// The model of declarations
// ---------------------------------------------------------------------------

/// The model of a function declaration.
pub struct FunctionM {
    pub name: Seq<char>,
    pub has_self_param: bool,
    pub is_extern: bool,
    pub generics: Seq<GenericM>,
    pub return_type: Option<TypeM>,
    pub params: Seq<ParamM>,
    pub body: Option<BlockM>,
    pub line: usize,
    pub column: usize,
}

/// The model of a struct declaration.
pub struct StructM {
    pub name: Seq<char>,
    pub is_extern: bool,
    pub generics: Seq<GenericM>,
    pub fields: Seq<ParamM>,
    pub methods: Seq<FunctionM>,
    pub implements: Seq<TypeM>,
}

/// The model of what an item declares.
pub enum ItemKindM {
    /// Name, generic parameters, aliased type.
    TypeAlias(Seq<char>, Seq<GenericM>, TypeM),
    /// Name, generic parameters, implemented interfaces, fields, methods.
    Interface(Seq<char>, Seq<GenericM>, Seq<TypeM>, Seq<ParamM>, Seq<FunctionM>),
    Struct(StructM),
    Function(FunctionM),
    /// Target type, generic parameters, implemented interfaces, methods.
    Extend(TypeM, Seq<GenericM>, Seq<TypeM>, Seq<FunctionM>),
    /// An import, which the parser never produces.
    Import,
}

/// The model of an item and the place where it starts.
pub struct ItemM {
    pub kind: ItemKindM,
    pub line: usize,
    pub column: usize,
}

/// The model of a field: like a parameter, a name, a type and a pointer flag.
pub open spec fn field_m(f: FieldDecl) -> ParamM {
    ParamM { name: f.name@, ty: type_m(f.ty), is_pointer: f.is_pointer }
}

pub open spec fn fields_m(s: Seq<FieldDecl>) -> Seq<ParamM> {
    s.map_values(|f: FieldDecl| field_m(f))
}

pub open spec fn function_m(f: FunctionDecl) -> FunctionM {
    FunctionM {
        name: f.name@,
        has_self_param: f.has_self_param,
        is_extern: f.is_extern,
        generics: generics_m(f.generics@),
        return_type: match f.return_type {
            Some(t) => Some(type_m(t)),
            None => None,
        },
        params: params_m(f.params@),
        body: match f.body {
            Some(b) => Some(block_m(b)),
            None => None,
        },
        line: f.span.line,
        column: f.span.column,
    }
}

pub open spec fn functions_m(s: Seq<FunctionDecl>) -> Seq<FunctionM> {
    s.map_values(|f: FunctionDecl| function_m(f))
}

pub open spec fn struct_m(d: StructDecl) -> StructM {
    StructM {
        name: d.name@,
        is_extern: d.is_extern,
        generics: generics_m(d.generics@),
        fields: fields_m(d.fields@),
        methods: functions_m(d.methods@),
        implements: type_ms(d.implements@),
    }
}

pub open spec fn item_kind_m(k: ItemKind) -> ItemKindM {
    match k {
        ItemKind::TypeAlias(a) => ItemKindM::TypeAlias(a.name@, generics_m(a.generics@), type_m(a.ty)),
        ItemKind::Interface(d) => ItemKindM::Interface(
            d.name@,
            generics_m(d.generics@),
            type_ms(d.implements@),
            fields_m(d.fields@),
            functions_m(d.methods@),
        ),
        ItemKind::Struct(d) => ItemKindM::Struct(struct_m(d)),
        ItemKind::Function(f) => ItemKindM::Function(function_m(f)),
        ItemKind::Extend(d) => ItemKindM::Extend(
            type_m(d.target),
            generics_m(d.generic_params@),
            type_ms(d.implements@),
            functions_m(d.methods@),
        ),
        ItemKind::Import(_) => ItemKindM::Import,
    }
}

pub open spec fn item_m(i: Item) -> ItemM {
    ItemM { kind: item_kind_m(i.kind), line: i.span.line, column: i.span.column }
}

pub open spec fn items_m(s: Seq<Item>) -> Seq<ItemM> {
    s.map_values(|i: Item| item_m(i))
}

// ---------------------------------------------------------------------------
// The grammar of declarations
// ---------------------------------------------------------------------------

/// A parse of `w` followed by the token `k`, which is consumed.
pub open spec fn g_closed<A>(t: Seq<SpecToken>, k: TokenKind, w: (Option<A>, int)) -> (Option<A>, int) {
    match w.0 {
        None => (None, w.1),
        Some(a) => if kind_at(t, w.1) == k {
            (Some(a), adv(t, w.1))
        } else {
            (None, w.1)
        },
    }
}

/// More bounds of a generic parameter, each after a `+`.
pub open spec fn g_bounds_rest(t: Seq<SpecToken>, i: int, acc: Seq<TypeM>) -> (Option<Seq<TypeM>>, int)
    decreases t.len() - i,
{
    if i < 0 || i > t.len() {
        (None, i)
    } else if kind_at(t, i) == TokenKind::Plus {
        let (x, j) = g_type_atom(t, adv(t, i));
        match x {
            None => (None, j),
            Some(x) => if moved(t, i, j) {
                g_bounds_rest(t, j, acc.push(x))
            } else {
                (None, j)
            },
        }
    } else {
        (Some(acc), i)
    }
}

/// The generic parameter `n` with the parsed bounds.
pub open spec fn with_bounds(n: Seq<char>, w: (Option<Seq<TypeM>>, int)) -> (Option<GenericM>, int) {
    match w.0 {
        None => (None, w.1),
        Some(bs) => (Some(GenericM { name: n, bounds: bs }), w.1),
    }
}

/// A generic parameter `T` or `T: A + B`.
pub open spec fn g_generic_param(t: Seq<SpecToken>, i: int) -> (Option<GenericM>, int) {
    match kind_at(t, i) {
        TokenKind::Identifier(n) => {
            let i1 = adv(t, i);
            if kind_at(t, i1) == TokenKind::Colon {
                let (b, j) = g_type_atom(t, adv(t, i1));
                match b {
                    None => (None, j),
                    Some(b) => if moved(t, i1, j) {
                        with_bounds(n, g_bounds_rest(t, j, seq![b]))
                    } else {
                        (None, j)
                    },
                }
            } else {
                (Some(GenericM { name: n, bounds: Seq::empty() }), i1)
            }
        },
        _ => (None, i),
    }
}

/// More generic parameters, each after a comma.
pub open spec fn g_generics_rest(t: Seq<SpecToken>, i: int, acc: Seq<GenericM>) -> (Option<Seq<GenericM>>, int)
    decreases t.len() - i,
{
    if i < 0 || i > t.len() {
        (None, i)
    } else if kind_at(t, i) == TokenKind::Comma {
        let (x, j) = g_generic_param(t, adv(t, i));
        match x {
            None => (None, j),
            Some(x) => if moved(t, i, j) {
                g_generics_rest(t, j, acc.push(x))
            } else {
                (None, j)
            },
        }
    } else {
        (Some(acc), i)
    }
}

/// `<A, B: Bound>`, or nothing (no tokens consumed) when no `<` comes.
pub open spec fn g_generic_params(t: Seq<SpecToken>, i: int) -> (Option<Seq<GenericM>>, int) {
    if kind_at(t, i) != TokenKind::LT {
        (Some(Seq::empty()), i)
    } else {
        let i1 = adv(t, i);
        let w = if kind_at(t, i1) != TokenKind::GT {
            let (g, j) = g_generic_param(t, i1);
            match g {
                None => (None, j),
                Some(g) => if moved(t, i1, j) {
                    g_generics_rest(t, j, seq![g])
                } else {
                    (None, j)
                },
            }
        } else {
            (Some(Seq::empty()), i1)
        };
        g_closed(t, TokenKind::GT, w)
    }
}

/// Implemented interfaces after the `:`, separated by `+`, appended to `acc`.
pub open spec fn g_implements_items(t: Seq<SpecToken>, i: int, acc: Seq<TypeM>) -> (Option<Seq<TypeM>>, int)
    decreases t.len() - i,
{
    if i < 0 || i > t.len() {
        (None, i)
    } else {
        let (x, j) = g_type_expr(t, i);
        match x {
            None => (None, j),
            Some(x) => if !moved(t, i, j) {
                (None, j)
            } else if kind_at(t, j) == TokenKind::Plus {
                g_implements_items(t, adv(t, j), acc.push(x))
            } else {
                (Some(acc.push(x)), j)
            },
        }
    }
}

/// `: I + J`, or nothing (no tokens consumed) when no `:` comes.
pub open spec fn g_implements(t: Seq<SpecToken>, i: int) -> (Option<Seq<TypeM>>, int) {
    if kind_at(t, i) != TokenKind::Colon {
        (Some(Seq::empty()), i)
    } else {
        g_implements_items(t, adv(t, i), Seq::empty())
    }
}

/// The type of a field or parameter; in extern declarations it may carry a
/// leading `*` (then the flag is set) or be an extern type.
pub open spec fn g_maybe_pointer(t: Seq<SpecToken>, i: int, in_extern: bool) -> (Option<(TypeM, bool)>, int) {
    if in_extern && kind_at(t, i) == TokenKind::Star {
        let (ty, j) = g_type_expr(t, adv(t, i));
        match ty {
            None => (None, j),
            Some(ty) => (Some((ty, true)), j),
        }
    } else {
        let (ty, j) = if in_extern {
            g_extern_type_expr(t, i)
        } else {
            g_type_expr(t, i)
        };
        match ty {
            None => (None, j),
            Some(ty) => (Some((ty, false)), j),
        }
    }
}

/// A field or a parameter: `name: T`.
pub open spec fn g_param(t: Seq<SpecToken>, i: int, in_extern: bool) -> (Option<ParamM>, int) {
    match kind_at(t, i) {
        TokenKind::Identifier(n) => {
            let i1 = adv(t, i);
            if kind_at(t, i1) != TokenKind::Colon {
                (None, i1)
            } else {
                let (p, j) = g_maybe_pointer(t, adv(t, i1), in_extern);
                match p {
                    None => (None, j),
                    Some(p) => (Some(ParamM { name: n, ty: p.0, is_pointer: p.1 }), j),
                }
            }
        },
        _ => (None, i),
    }
}

/// More parameters, each after a comma.
pub open spec fn g_params_rest(t: Seq<SpecToken>, i: int, in_extern: bool, acc: Seq<ParamM>) -> (
    Option<Seq<ParamM>>,
    int,
)
    decreases t.len() - i,
{
    if i < 0 || i > t.len() {
        (None, i)
    } else if kind_at(t, i) == TokenKind::Comma {
        let (x, j) = g_param(t, adv(t, i), in_extern);
        match x {
            None => (None, j),
            Some(x) => if moved(t, i, j) {
                g_params_rest(t, j, in_extern, acc.push(x))
            } else {
                (None, j)
            },
        }
    } else {
        (Some(acc), i)
    }
}

/// `(a: T, b: U)`
pub open spec fn g_params(t: Seq<SpecToken>, i: int, in_extern: bool) -> (Option<Seq<ParamM>>, int) {
    if kind_at(t, i) != TokenKind::LeftParen {
        (None, i)
    } else {
        let i1 = adv(t, i);
        let w = if kind_at(t, i1) != TokenKind::RightParen {
            let (p, j) = g_param(t, i1, in_extern);
            match p {
                None => (None, j),
                Some(p) => if moved(t, i1, j) {
                    g_params_rest(t, j, in_extern, seq![p])
                } else {
                    (None, j)
                },
            }
        } else {
            (Some(Seq::empty()), i1)
        };
        g_closed(t, TokenKind::RightParen, w)
    }
}

/// The name of the receiver parameter.
pub open spec fn self_word() -> Seq<char> {
    seq!['s', 'e', 'l', 'f']
}

/// The optional `: T` return annotation of a function; in extern
/// declarations an extern type.
pub open spec fn g_return_annotation(t: Seq<SpecToken>, i: int, is_extern: bool) -> (Option<Option<TypeM>>, int) {
    if kind_at(t, i) == TokenKind::Colon {
        let (x, j) = if is_extern {
            g_extern_type_expr(t, adv(t, i))
        } else {
            g_type_expr(t, adv(t, i))
        };
        match x {
            None => (None, j),
            Some(x) => (Some(Some(x)), j),
        }
    } else {
        (Some(None), i)
    }
}

/// The body of a function: `;` for none, or a block.
pub open spec fn g_function_body(t: Seq<SpecToken>, i: int) -> (Option<Option<BlockM>>, int) {
    if kind_at(t, i) == TokenKind::Semicolon {
        (Some(None), adv(t, i))
    } else {
        let (b, j) = g_block(t, i);
        match b {
            None => (None, j),
            Some(b) => (Some(Some(b)), j),
        }
    }
}

/// The rest of a function declaration once its parameters `ps` are parsed:
/// a first parameter named `self` sets the method flag and leaves the list.
pub open spec fn g_function_from_params(
    t: Seq<SpecToken>,
    i: int,
    is_extern: bool,
    n: Seq<char>,
    gs: Seq<GenericM>,
    ps: Seq<ParamM>,
    line: usize,
    column: usize,
) -> (Option<FunctionM>, int) {
    let (rt, i4) = g_return_annotation(t, i, is_extern);
    match rt {
        None => (None, i4),
        Some(rt) => {
            let has_self = ps.len() > 0 && ps[0].name == self_word();
            let (body, i5) = g_function_body(t, i4);
            match body {
                None => (None, i5),
                Some(body) => (
                    Some(
                        FunctionM {
                            name: n,
                            has_self_param: has_self,
                            is_extern,
                            generics: gs,
                            return_type: rt,
                            params: if has_self {
                                ps.drop_first()
                            } else {
                                ps
                            },
                            body,
                            line,
                            column,
                        },
                    ),
                    i5,
                ),
            }
        },
    }
}

/// The rest of a function declaration once its generic parameters are parsed.
pub open spec fn g_function_from_generics(
    t: Seq<SpecToken>,
    i: int,
    is_extern: bool,
    n: Seq<char>,
    gs: Seq<GenericM>,
    line: usize,
    column: usize,
) -> (Option<FunctionM>, int) {
    let (ps, i3) = g_params(t, i, is_extern);
    match ps {
        None => (None, i3),
        Some(ps) => g_function_from_params(t, i3, is_extern, n, gs, ps, line, column),
    }
}

/// The rest of a function declaration once its name `n` is read.
pub open spec fn g_function_from_name(
    t: Seq<SpecToken>,
    i: int,
    is_extern: bool,
    n: Seq<char>,
    line: usize,
    column: usize,
) -> (Option<FunctionM>, int) {
    let (gs, i2) = g_generic_params(t, i);
    match gs {
        None => (None, i2),
        Some(gs) => g_function_from_generics(t, i2, is_extern, n, gs, line, column),
    }
}

/// `function name<G>(params): T { body }`, or `;` in place of the body; the
/// declaration starts at the `function` token.
#[verifier::opaque]
pub open spec fn g_function(t: Seq<SpecToken>, i: int, is_extern: bool) -> (Option<FunctionM>, int) {
    if kind_at(t, i) != TokenKind::Function {
        (None, i)
    } else {
        let i1 = adv(t, i);
        match kind_at(t, i1) {
            TokenKind::Identifier(n) => g_function_from_name(
                t,
                adv(t, i1),
                is_extern,
                n,
                token_at(t, i).line,
                token_at(t, i).column,
            ),
            _ => (None, i1),
        }
    }
}

/// Fields and methods up to the closing brace, appended to `fs` and `ms`.
pub open spec fn g_struct_members(
    t: Seq<SpecToken>,
    i: int,
    in_extern: bool,
    fs: Seq<ParamM>,
    ms: Seq<FunctionM>,
) -> (Option<(Seq<ParamM>, Seq<FunctionM>)>, int)
    decreases t.len() - i,
{
    if i < 0 || i > t.len() {
        (None, i)
    } else {
        match kind_at(t, i) {
            TokenKind::Identifier(_) => {
                let (f, j) = g_param(t, i, in_extern);
                match f {
                    None => (None, j),
                    Some(f) => if moved(t, i, j) {
                        g_struct_members(t, j, in_extern, fs.push(f), ms)
                    } else {
                        (None, j)
                    },
                }
            },
            TokenKind::Function => {
                let (m, j) = g_function(t, i, false);
                match m {
                    None => (None, j),
                    Some(m) => if moved(t, i, j) {
                        g_struct_members(t, j, in_extern, fs, ms.push(m))
                    } else {
                        (None, j)
                    },
                }
            },
            TokenKind::RightBrace => (Some((fs, ms)), adv(t, i)),
            _ => (None, i),
        }
    }
}

/// `{ fields and methods }`
pub open spec fn g_struct_body(t: Seq<SpecToken>, i: int, in_extern: bool) -> (
    Option<(Seq<ParamM>, Seq<FunctionM>)>,
    int,
) {
    if kind_at(t, i) != TokenKind::LeftBrace {
        (None, i)
    } else {
        g_struct_members(t, adv(t, i), in_extern, Seq::empty(), Seq::empty())
    }
}

/// Methods up to the closing brace, appended to `ms`.
pub open spec fn g_extend_members(t: Seq<SpecToken>, i: int, ms: Seq<FunctionM>) -> (Option<Seq<FunctionM>>, int)
    decreases t.len() - i,
{
    if i < 0 || i > t.len() {
        (None, i)
    } else {
        match kind_at(t, i) {
            TokenKind::Function => {
                let (m, j) = g_function(t, i, false);
                match m {
                    None => (None, j),
                    Some(m) => if moved(t, i, j) {
                        g_extend_members(t, j, ms.push(m))
                    } else {
                        (None, j)
                    },
                }
            },
            TokenKind::RightBrace => (Some(ms), adv(t, i)),
            _ => (None, i),
        }
    }
}

/// `{ methods }`
pub open spec fn g_extend_body(t: Seq<SpecToken>, i: int) -> (Option<Seq<FunctionM>>, int) {
    if kind_at(t, i) != TokenKind::LeftBrace {
        (None, i)
    } else {
        g_extend_members(t, adv(t, i), Seq::empty())
    }
}

/// The name, generics and interfaces that open a struct or interface
/// declaration after its keyword at `i`, and where they end.
pub open spec fn g_decl_head(t: Seq<SpecToken>, i: int) -> (Option<(Seq<char>, Seq<GenericM>, Seq<TypeM>)>, int) {
    let i1 = adv(t, i);
    match kind_at(t, i1) {
        TokenKind::Identifier(n) => {
            let (gs, i2) = g_generic_params(t, adv(t, i1));
            match gs {
                None => (None, i2),
                Some(gs) => {
                    let (im, i3) = g_implements(t, i2);
                    match im {
                        None => (None, i3),
                        Some(im) => (Some((n, gs, im)), i3),
                    }
                },
            }
        },
        _ => (None, i1),
    }
}

/// `struct Name<G>: I { fields and methods }`
#[verifier::opaque]
pub open spec fn g_struct(t: Seq<SpecToken>, i: int, is_extern: bool) -> (Option<StructM>, int) {
    if kind_at(t, i) != TokenKind::Struct {
        (None, i)
    } else {
        let (h, i3) = g_decl_head(t, i);
        match h {
            None => (None, i3),
            Some(h) => {
                let (b, i4) = g_struct_body(t, i3, is_extern);
                match b {
                    None => (None, i4),
                    Some(b) => (
                        Some(
                            StructM {
                                name: h.0,
                                is_extern,
                                generics: h.1,
                                fields: b.0,
                                methods: b.1,
                                implements: h.2,
                            },
                        ),
                        i4,
                    ),
                }
            },
        }
    }
}

/// `interface Name<G>: I { fields and methods }`
#[verifier::opaque]
pub open spec fn g_interface(t: Seq<SpecToken>, i: int) -> (Option<ItemKindM>, int) {
    if kind_at(t, i) != TokenKind::Interface {
        (None, i)
    } else {
        let (h, i3) = g_decl_head(t, i);
        match h {
            None => (None, i3),
            Some(h) => {
                let (b, i4) = g_struct_body(t, i3, false);
                match b {
                    None => (None, i4),
                    Some(b) => (Some(ItemKindM::Interface(h.0, h.1, h.2, b.0, b.1)), i4),
                }
            },
        }
    }
}

/// `type Name<G> = T;`
#[verifier::opaque]
pub open spec fn g_type_alias(t: Seq<SpecToken>, i: int) -> (Option<ItemKindM>, int) {
    if kind_at(t, i) != TokenKind::Type {
        (None, i)
    } else {
        let i1 = adv(t, i);
        match kind_at(t, i1) {
            TokenKind::Identifier(n) => {
                let (gs, i2) = g_generic_params(t, adv(t, i1));
                match gs {
                    None => (None, i2),
                    Some(gs) => if kind_at(t, i2) != TokenKind::Eq {
                        (None, i2)
                    } else {
                        let (ty, i3) = g_type_expr(t, adv(t, i2));
                        match ty {
                            None => (None, i3),
                            Some(ty) => g_closed(t, TokenKind::Semicolon, (Some(ItemKindM::TypeAlias(n, gs, ty)), i3)),
                        }
                    },
                }
            },
            _ => (None, i1),
        }
    }
}

/// `extend<G> Name<T>: I { methods }`
#[verifier::opaque]
pub open spec fn g_extend(t: Seq<SpecToken>, i: int) -> (Option<ItemKindM>, int) {
    if kind_at(t, i) != TokenKind::Extend {
        (None, i)
    } else {
        let (gs, i1) = g_generic_params(t, adv(t, i));
        match gs {
            None => (None, i1),
            Some(gs) => match kind_at(t, i1) {
                TokenKind::Identifier(n) => {
                    let (args, i2) = g_type_args(t, adv(t, i1));
                    match args {
                        None => (None, i2),
                        Some(args) => {
                            let (im, i3) = g_implements(t, i2);
                            match im {
                                None => (None, i3),
                                Some(im) => {
                                    let (ms, i4) = g_extend_body(t, i3);
                                    match ms {
                                        None => (None, i4),
                                        Some(ms) => (Some(ItemKindM::Extend(TypeM::Named(n, args), gs, im, ms)), i4),
                                    }
                                },
                            }
                        },
                    }
                },
                _ => (None, i1),
            },
        }
    }
}

/// An item of kind `k` that starts at the token at `i`.
pub open spec fn at_token(t: Seq<SpecToken>, i: int, w: (Option<ItemKindM>, int)) -> (Option<ItemM>, int) {
    match w.0 {
        None => (None, w.1),
        Some(k) => (Some(ItemM { kind: k, line: token_at(t, i).line, column: token_at(t, i).column }), w.1),
    }
}

/// A struct declaration as an item kind.
pub open spec fn struct_item(w: (Option<StructM>, int)) -> (Option<ItemKindM>, int) {
    match w.0 {
        None => (None, w.1),
        Some(s) => (Some(ItemKindM::Struct(s)), w.1),
    }
}

/// A function declaration as an item kind.
pub open spec fn function_item(w: (Option<FunctionM>, int)) -> (Option<ItemKindM>, int) {
    match w.0 {
        None => (None, w.1),
        Some(f) => (Some(ItemKindM::Function(f)), w.1),
    }
}

/// One top-level item. An `extern` item starts at the keyword after `extern`.
pub open spec fn g_item(t: Seq<SpecToken>, i: int) -> (Option<ItemM>, int) {
    match kind_at(t, i) {
        TokenKind::Type => at_token(t, i, g_type_alias(t, i)),
        TokenKind::Struct => at_token(t, i, struct_item(g_struct(t, i, false))),
        TokenKind::Interface => at_token(t, i, g_interface(t, i)),
        TokenKind::Function => at_token(t, i, function_item(g_function(t, i, false))),
        TokenKind::Extend => at_token(t, i, g_extend(t, i)),
        TokenKind::Extern => {
            let i1 = adv(t, i);
            match kind_at(t, i1) {
                TokenKind::Struct => at_token(t, i1, struct_item(g_struct(t, i1, true))),
                TokenKind::Function => at_token(t, i1, function_item(g_function(t, i1, true))),
                _ => (None, i1),
            }
        },
        _ => (None, i),
    }
}

/// Items up to the end of the input, appended to `acc`.
pub open spec fn g_program(t: Seq<SpecToken>, i: int, acc: Seq<ItemM>) -> (Option<Seq<ItemM>>, int)
    decreases t.len() - i,
{
    if i < 0 || i > t.len() {
        (None, i)
    } else if kind_at(t, i) is EOF {
        (Some(acc), i)
    } else {
        let (x, j) = g_item(t, i);
        match x {
            None => (None, j),
            Some(x) => if moved(t, i, j) {
                g_program(t, j, acc.push(x))
            } else {
                (None, j)
            },
        }
    }
}

/// A program parses only up to the end of its tokens: where a parse of
/// items succeeds, the token at which it stops is the end-of-input token.
pub proof fn law_program_parse_reaches_end(t: Seq<SpecToken>, i: int, acc: Seq<ItemM>)
    ensures
        g_program(t, i, acc).0 is Some ==> kind_at(t, g_program(t, i, acc).1) is EOF,
    decreases t.len() - i,
{
    if 0 <= i <= t.len() && !(kind_at(t, i) is EOF) {
        let (x, j) = g_item(t, i);
        if let Some(x) = x {
            if moved(t, i, j) {
                law_program_parse_reaches_end(t, j, acc.push(x));
            }
        }
    }
}

} // verus!
