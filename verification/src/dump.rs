//! The token listing printed by `nex lex`: one `Kind@start..end` line per
//! token, then an `-- errors --` section when there are errors.

use vstd::prelude::*;
use crate::error::{LexError, message_text};
use crate::lexspec::lex;
use vstd::string::StringSliceAdditionalSpecFns;
use crate::fmt::{int_text, push_int};
use crate::quote::{debug_quoted, quote};
use crate::span::span_text;
use crate::text::{push_char, push_str};
use crate::token::{KindView, Token, TokenKind, TokenView, variant_name};

verus! {

/// The debug form of a token kind; a float literal shows as `float_text`, the
/// debug form of its value.
pub open spec fn kind_text(k: KindView, float_text: Seq<char>) -> Seq<char> {
    match k {
        KindView::Ident(w) => "Ident("@ + debug_quoted(w) + ")"@,
        KindView::Int(v) => "Int("@ + int_text(v as int) + ")"@,
        KindView::Float(_) => "Float("@ + float_text + ")"@,
        KindView::Str(w) => "Str("@ + debug_quoted(w) + ")"@,
        KindView::Fixed(k) => variant_name(k),
    }
}

/// One line of the listing, without its newline.
pub open spec fn token_text(t: TokenView, float_text: Seq<char>) -> Seq<char> {
    kind_text(t.kind, float_text) + seq!['@'] + span_text(t.span)
}

/// The token lines of the listing.
pub open spec fn token_lines(ts: Seq<TokenView>, floats: Seq<Seq<char>>) -> Seq<char>
    decreases ts.len(),
{
    if ts.len() == 0 {
        Seq::empty()
    } else {
        token_lines(ts.drop_last(), floats) + token_text(ts.last(), floats[ts.len() - 1]) + seq!['\n']
    }
}

/// The error lines of the listing.
pub open spec fn error_lines(es: Seq<LexError>) -> Seq<char>
    decreases es.len(),
{
    if es.len() == 0 {
        Seq::empty()
    } else {
        error_lines(es.drop_last()) + message_text(es.last().kind) + seq!['@'] + span_text(es.last().span)
            + seq!['\n']
    }
}

/// The whole listing.
pub open spec fn listing(ts: Seq<TokenView>, es: Seq<LexError>, floats: Seq<Seq<char>>) -> Seq<char> {
    if es.len() == 0 {
        token_lines(ts, floats)
    } else {
        token_lines(ts, floats) + "\n-- errors --\n"@ + error_lines(es)
    }
}

/// The debug form of `token` and its span, `Kind@start..end`; a float
/// literal's value shows as `float_text`.
pub fn token_line(token: &Token, float_text: &str) -> (r: String)
    ensures
        r@ == token_text(token@, float_text@),
{
    let mut out = match &token.kind {
        TokenKind::Ident(w) => {
            let mut o = String::from_str("Ident(");
            let q = quote(w.as_str());
            push_str(&mut o, q.as_str());
            push_str(&mut o, ")");
            o
        },
        TokenKind::Int(v) => {
            let mut o = String::from_str("Int(");
            push_int(&mut o, *v);
            push_str(&mut o, ")");
            o
        },
        TokenKind::Float(_) => {
            let mut o = String::from_str("Float(");
            push_str(&mut o, float_text);
            push_str(&mut o, ")");
            o
        },
        TokenKind::Str(w) => {
            let mut o = String::from_str("Str(");
            let q = quote(w.as_str());
            push_str(&mut o, q.as_str());
            push_str(&mut o, ")");
            o
        },
        other => String::from_str(other.variant_name()),
    };
    push_char(&mut out, '@');
    let s = token.span.to_debug_string();
    push_str(&mut out, s.as_str());
    out
}

/// Renders a token stream and its errors as the `nex lex` listing.
/// `float_texts[i]` is the debug form of the value of token `i` when that
/// token is a float literal (and is otherwise unused).
pub fn render_dump(tokens: &Vec<Token>, errors: &Vec<LexError>, float_texts: &Vec<String>) -> (r: String)
    requires
        float_texts@.len() == tokens@.len(),
    ensures
        r@ == listing(
            tokens@.map_values(|t: Token| t@),
            errors@,
            float_texts@.map_values(|f: String| f@),
        ),
{
    let ghost ts = tokens@.map_values(|t: Token| t@);
    let ghost fs = float_texts@.map_values(|f: String| f@);
    let mut out = String::new();
    let mut i: usize = 0;
    while i < tokens.len()
        invariant
            i <= tokens.len(),
            float_texts@.len() == tokens@.len(),
            ts == tokens@.map_values(|t: Token| t@),
            fs == float_texts@.map_values(|f: String| f@),
            out@ == token_lines(ts.take(i as int), fs),
        decreases tokens.len() - i,
    {
        let line = token_line(&tokens[i], float_texts[i].as_str());
        push_str(&mut out, line.as_str());
        push_char(&mut out, '\n');
        proof {
            assert(ts.take(i + 1).drop_last() =~= ts.take(i as int));
        }
        i = i + 1;
    }
    proof {
        assert(ts.take(tokens@.len() as int) =~= ts);
    }
    if errors.len() > 0 {
        push_str(&mut out, "\n-- errors --\n");
        let ghost head = out@;
        let mut j: usize = 0;
        while j < errors.len()
            invariant
                j <= errors.len(),
                out@ == head + error_lines(errors@.take(j as int)),
            decreases errors.len() - j,
        {
            let e = &errors[j];
            let m = e.kind.message();
            let s = e.span.to_debug_string();
            push_str(&mut out, m.as_str());
            push_char(&mut out, '@');
            push_str(&mut out, s.as_str());
            push_char(&mut out, '\n');
            proof {
                let es = errors@.take(j + 1);
                assert(es.drop_last() =~= errors@.take(j as int));
                assert(out@ =~= head + error_lines(es));
            }
            j = j + 1;
        }
        proof {
            assert(errors@.take(errors@.len() as int) =~= errors@);
        }
    }
    out
}

/// `out` is what `show` may give back for a float literal whose text is
/// `text`.
pub open spec fn float_shown<F: Fn(&str) -> String>(show: F, text: Seq<char>, out: Seq<char>) -> bool {
    exists|a: &str, o: String| a@ == text && o@ == out && #[trigger] show.ensures((a,), o)
}

/// `floats[i]` is what `show` may give for the text of token `i` when that
/// token is a float literal.
pub open spec fn floats_shown<F: Fn(&str) -> String>(
    show: F,
    ts: Seq<TokenView>,
    floats: Seq<Seq<char>>,
) -> bool {
    &&& floats.len() == ts.len()
    &&& forall|i: int|
        0 <= i < floats.len() ==> (ts[i].kind matches KindView::Float(text) ==> float_shown(
            show,
            text,
            #[trigger] floats[i],
        ))
}

/// For each token, what `show` gives for its text when it is a float literal,
/// and an empty text otherwise.
pub fn show_floats<F: Fn(&str) -> String>(tokens: &Vec<Token>, show: &F) -> (r: Vec<String>)
    requires
        forall|t: &str| #[trigger] show.requires((t,)),
    ensures
        floats_shown(*show, tokens@.map_values(|t: Token| t@), r@.map_values(|f: String| f@)),
{
    let ghost ts = tokens@.map_values(|t: Token| t@);
    let mut floats: Vec<String> = Vec::new();
    let mut i: usize = 0;
    while i < tokens.len()
        invariant
            i <= tokens.len(),
            floats@.len() == i,
            ts == tokens@.map_values(|t: Token| t@),
            forall|t: &str| #[trigger] show.requires((t,)),
            forall|k: int|
                0 <= k < i ==> (ts[k].kind matches KindView::Float(text) ==> float_shown(
                    *show,
                    text,
                    #[trigger] floats@[k]@,
                )),
        decreases tokens.len() - i,
    {
        let shown = match &tokens[i].kind {
            TokenKind::Float(t) => {
                let a = t.as_str();
                let o = show(a);
                assert(float_shown(*show, t@, o@));
                o
            },
            _ => String::new(),
        };
        floats.push(shown);
        i = i + 1;
    }
    proof {
        let fs = floats@.map_values(|f: String| f@);
        assert forall|k: int|
            0 <= k < fs.len() implies (ts[k].kind matches KindView::Float(text) ==> float_shown(
                *show,
                text,
                #[trigger] fs[k],
            )) by {
            assert(fs[k] == floats@[k]@);
        }
    }
    floats
}

/// Scans `src` and renders the `nex lex` listing of its tokens and errors.
/// Each float literal's value shows as what `show_float` gives for its text
/// (the debug form of its value, for the listing `nex lex` prints).
pub fn dump_tokens<F: Fn(&str) -> String>(src: &str, show_float: F) -> (r: String)
    requires
        src.spec_bytes().len() <= u32::MAX,
        forall|t: &str| #[trigger] show_float.requires((t,)),
    ensures
        exists|floats: Seq<Seq<char>>|
            {
                &&& floats_shown(show_float, lex(src@).0, floats)
                &&& r@ == listing(lex(src@).0, lex(src@).1, floats)
            },
{
    let (tokens, errors) = crate::tokenize(src);
    let floats = show_floats(&tokens, &show_float);
    render_dump(&tokens, &errors, &floats)
}

} // verus!
