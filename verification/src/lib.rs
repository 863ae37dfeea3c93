//! The Nex front end: the lexer, source spans, and the syntax-tree plumbing.
//!
//! The lexer turns source text into a stream of [`Token`]s:
//! `tokenize("let x = 1;")` yields `Let`, `Ident("x")`, `Eq`, `Int(1)`, `Semi`
//! and `Eof`, with no errors.

pub mod astdebug;
pub mod chars;
pub mod cli;
pub mod diag;
pub mod dump;
pub mod error;
pub mod expr;
pub mod fmt;
pub mod laws;
pub mod lexer;
pub mod lexspec;
pub mod node;
pub mod numbers;
pub mod pattern;
pub mod quote;
pub mod span;
pub mod stmt;
pub mod text;
pub mod token;

pub use cli::Command;
pub use diag::{locate, render, Diagnostic};
pub use dump::{dump_tokens, render_dump, token_line};
pub use error::{LexError, LexErrorKind};
pub use expr::{BinaryOp, Block, Expr, ExprKind, FieldInit, MatchArm, UnaryOp};
pub use lexer::Lexer;
pub use node::{spanning, AstNode, HasSpan, Ident, NodeId, NodeIdGen, NodeInfo, Spanned};
pub use pattern::{Pattern, PatternKind};
pub use span::Span;
pub use stmt::{Stmt, StmtKind};
pub use token::{Token, TokenKind};

use vstd::prelude::*;
use vstd::string::StringSliceAdditionalSpecFns;
use lexspec::{lex, lex_from, lemma_lex_from_step, scan};

verus! {

/// The abstract values of a sequence of tokens.
pub open spec fn token_views(ts: Seq<Token>) -> Seq<token::TokenView> {
    ts.map_values(|t: Token| t@)
}

/// Scans `src` completely, returning every token (ending in `Eof`) alongside
/// every recoverable error encountered.
pub fn tokenize(src: &str) -> (r: (Vec<Token>, Vec<LexError>))
    requires
        src.spec_bytes().len() <= u32::MAX,
    ensures
        token_views(r.0@) == lex(src@).0,
        r.1@ == lex(src@).1,
{
    let ghost s = src@;
    let mut lexer = Lexer::new(src);
    let mut tokens: Vec<Token> = Vec::new();
    loop
        invariant
            lexer.wf(),
            lexer.source() == s,
            s == src@,
            !lexer.is_finished() ==> token_views(tokens@) + lex_from(s, lexer.position()).0 == lex(s).0
                && lexer.reported() + lex_from(s, lexer.position()).1 == lex(s).1,
            lexer.is_finished() ==> token_views(tokens@) == lex(s).0 && lexer.reported() == lex(s).1,
        ensures
            token_views(tokens@) == lex(s).0,
            lexer.reported() == lex(s).1,
        decreases lexer.remaining(),
    {
        proof {
            lexer.lemma_position();
            if !lexer.is_finished() {
                lemma_lex_from_step(s, lexer.position(), token_views(tokens@), lexer.reported());
            }
        }
        let ghost before = tokens@;
        match lexer.next_token() {
            Some(token) => {
                tokens.push(token);
                proof {
                    assert(token_views(tokens@) =~= token_views(before).push(token@));
                    lexer.lemma_position();
                }
            },
            None => {
                break;
            },
        }
    }
    (tokens, lexer.into_errors())
}

/// The kinds of a sequence of token views.
pub open spec fn kinds_of(ts: Seq<token::TokenView>) -> Seq<token::KindView> {
    ts.map_values(|t: token::TokenView| t.kind)
}

/// Scans `src`, discarding spans. Convenient for tests that only care about
/// the shape of the token stream.
pub fn tokenize_kinds(src: &str) -> (r: Vec<TokenKind>)
    requires
        src.spec_bytes().len() <= u32::MAX,
    ensures
        r@.map_values(|k: TokenKind| k@) == kinds_of(lex(src@).0),
{
    let ghost s = src@;
    let mut lexer = Lexer::new(src);
    let mut kinds: Vec<TokenKind> = Vec::new();
    let ghost mut done: Seq<token::TokenView> = Seq::empty();
    loop
        invariant
            lexer.wf(),
            lexer.source() == s,
            s == src@,
            kinds@.map_values(|k: TokenKind| k@) == kinds_of(done),
            !lexer.is_finished() ==> done + lex_from(s, lexer.position()).0 == lex(s).0,
            lexer.is_finished() ==> done == lex(s).0,
        ensures
            kinds@.map_values(|k: TokenKind| k@) == kinds_of(lex(s).0),
        decreases lexer.remaining(),
    {
        proof {
            lexer.lemma_position();
            if !lexer.is_finished() {
                lemma_lex_from_step(s, lexer.position(), done, lexer.reported());
            }
        }
        let ghost before = kinds@;
        match lexer.next_token() {
            Some(token) => {
                proof {
                    assert(kinds_of(done.push(token@)) =~= kinds_of(done).push(token@.kind));
                    done = done.push(token@);
                    lexer.lemma_position();
                }
                kinds.push(token.kind);
                proof {
                    assert(kinds@.map_values(|k: TokenKind| k@) =~= before.map_values(|k: TokenKind| k@).push(
                        token@.kind,
                    ));
                }
            },
            None => {
                break;
            },
        }
    }
    kinds
}

} // verus!
