pub mod ast;
pub mod bench;
pub mod codegen;
pub mod debug;
pub mod grammar;
pub mod hir;
pub mod item_grammar;
pub mod lexer;
pub mod lower;
pub mod mir;
pub mod parser;
pub mod source_map;
pub mod text;
pub mod tokens;
pub mod validator;

use vstd::prelude::*;

verus! {

/// What the front end makes of a source text: the models of the items of
/// its program when it lexes and parses, else `None`.
pub open spec fn spec_front_end(source: Seq<char>) -> Option<Seq<item_grammar::ItemM>> {
    match lexer::spec_lex(source) {
        Err(_) => None,
        Ok(tokens) => item_grammar::g_program(tokens, 0, Seq::empty()).0,
    }
}

/// Lexes and parses the text of the `of:core` prelude module, which every
/// compilation unit receives: the module named `of:core` with the parsed
/// program. The prelude text must lex and parse.
pub fn get_core_module(source: &str) -> (r: ast::Module)
    requires
        source@.len() < usize::MAX,
        spec_front_end(source@) is Some,
    ensures
        r.name@ == "of:core"@,
        spec_front_end(source@) == Some(item_grammar::items_m(r.program.items@)),
{
    let mut lx = lexer::Lexer::new(source);
    let tokens = match lx.scan_all() {
        Ok(t) => t,
        Err(_) => {
            proof {
                assert(false);
            }
            Vec::new()
        },
    };
    let mut p = parser::Parser::new(tokens);
    let program = match p.parse() {
        Ok(program) => program,
        Err(_) => {
            proof {
                assert(false);
            }
            ast::Program { items: Vec::new() }
        },
    };
    proof {
        reveal_strlit("of:core");
    }
    ast::Module { name: "of:core".to_owned(), program }
}

} // verus!
pub mod rt;
