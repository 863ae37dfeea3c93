//! Tokens: what the lexer produces.

use vstd::prelude::*;
use crate::fmt::{int_text, push_int};
use crate::quote::{debug_quoted, quote};
use crate::span::Span;
use crate::text::{chars_equal_str, chars_of, push_str, string_from_chars};

verus! {

/// Every distinct lexical unit Nex recognises.
///
/// A float literal is held as its source text with the `_` separators removed
/// (always digits, optionally a `.` and more digits, optionally an exponent);
/// turning that text into a binary floating-point value is left to the consumer.
#[derive(Clone, Debug, PartialEq)]
pub enum TokenKind {
    // --- identifiers & literals ---
    Ident(String),
    Int(i64),
    Float(String),
    Str(String),

    // --- keywords ---
    Fn,
    Let,
    Mut,
    If,
    Else,
    For,
    While,
    Return,
    Struct,
    Enum,
    Match,
    Use,
    Mod,
    Pub,
    True,
    False,
    In,
    Break,
    Continue,
    Const,
    Type,
    Impl,
    SelfValue,

    // --- operators and punctuation ---
    Plus,
    Minus,
    Star,
    Slash,
    Percent,
    Amp,
    Pipe,
    Caret,
    Shl,
    Shr,
    AmpAmp,
    PipePipe,
    Bang,
    Eq,
    EqEq,
    BangEq,
    Lt,
    LtEq,
    Gt,
    GtEq,
    PlusEq,
    MinusEq,
    StarEq,
    SlashEq,
    Arrow,
    FatArrow,
    Dot,
    DotDot,
    DotDotEq,
    ColonColon,
    Colon,
    Semi,
    Comma,
    LParen,
    RParen,
    LBrace,
    RBrace,
    LBracket,
    RBracket,

    /// End of input. Produced exactly once at the end of a token stream.
    Eof,
}

/// The abstract value of a token kind: the text of identifiers, strings and
/// float literals as character sequences, every other kind as itself.
pub enum KindView {
    Ident(Seq<char>),
    Int(i64),
    Float(Seq<char>),
    Str(Seq<char>),
    Fixed(TokenKind),
}

impl View for TokenKind {
    type V = KindView;

    open spec fn view(&self) -> KindView {
        match self {
            TokenKind::Ident(s) => KindView::Ident(s@),
            TokenKind::Int(v) => KindView::Int(*v),
            TokenKind::Float(t) => KindView::Float(t@),
            TokenKind::Str(s) => KindView::Str(s@),
            _ => KindView::Fixed(*self),
        }
    }
}

/// The keyword token spelt `word`, if `word` is a keyword.
pub open spec fn keyword_of(word: Seq<char>) -> Option<TokenKind> {
    if word == "fn"@ {
        Some(TokenKind::Fn)
    } else if word == "let"@ {
        Some(TokenKind::Let)
    } else if word == "mut"@ {
        Some(TokenKind::Mut)
    } else if word == "if"@ {
        Some(TokenKind::If)
    } else if word == "else"@ {
        Some(TokenKind::Else)
    } else if word == "for"@ {
        Some(TokenKind::For)
    } else if word == "while"@ {
        Some(TokenKind::While)
    } else if word == "return"@ {
        Some(TokenKind::Return)
    } else if word == "struct"@ {
        Some(TokenKind::Struct)
    } else if word == "enum"@ {
        Some(TokenKind::Enum)
    } else if word == "match"@ {
        Some(TokenKind::Match)
    } else if word == "use"@ {
        Some(TokenKind::Use)
    } else if word == "mod"@ {
        Some(TokenKind::Mod)
    } else if word == "pub"@ {
        Some(TokenKind::Pub)
    } else if word == "true"@ {
        Some(TokenKind::True)
    } else if word == "false"@ {
        Some(TokenKind::False)
    } else if word == "in"@ {
        Some(TokenKind::In)
    } else if word == "break"@ {
        Some(TokenKind::Break)
    } else if word == "continue"@ {
        Some(TokenKind::Continue)
    } else if word == "const"@ {
        Some(TokenKind::Const)
    } else if word == "type"@ {
        Some(TokenKind::Type)
    } else if word == "impl"@ {
        Some(TokenKind::Impl)
    } else if word == "self"@ {
        Some(TokenKind::SelfValue)
    } else {
        None
    }
}

/// Whether `k` is one of the keyword tokens.
pub open spec fn keyword_kind(k: TokenKind) -> bool {
    k is Fn
    || k is Let
    || k is Mut
    || k is If
    || k is Else
    || k is For
    || k is While
    || k is Return
    || k is Struct
    || k is Enum
    || k is Match
    || k is Use
    || k is Mod
    || k is Pub
    || k is True
    || k is False
    || k is In
    || k is Break
    || k is Continue
    || k is Const
    || k is Type
    || k is Impl
    || k is SelfValue
}

/// Whether `k` is a literal token (numbers, strings, `true` and `false`).
pub open spec fn literal_kind(k: TokenKind) -> bool {
    k is Int || k is Float || k is Str || k is True || k is False
}

/// The short description used in diagnostics.
pub open spec fn description(k: TokenKind) -> Seq<char> {
    match k {
        TokenKind::Ident(_) => "identifier"@,
        TokenKind::Int(_) => "integer literal"@,
        TokenKind::Float(_) => "float literal"@,
        TokenKind::Str(_) => "string literal"@,
        TokenKind::Fn => "`fn`"@,
        TokenKind::Let => "`let`"@,
        TokenKind::Mut => "`mut`"@,
        TokenKind::If => "`if`"@,
        TokenKind::Else => "`else`"@,
        TokenKind::For => "`for`"@,
        TokenKind::While => "`while`"@,
        TokenKind::Return => "`return`"@,
        TokenKind::Struct => "`struct`"@,
        TokenKind::Enum => "`enum`"@,
        TokenKind::Match => "`match`"@,
        TokenKind::Use => "`use`"@,
        TokenKind::Mod => "`mod`"@,
        TokenKind::Pub => "`pub`"@,
        TokenKind::True => "`true`"@,
        TokenKind::False => "`false`"@,
        TokenKind::In => "`in`"@,
        TokenKind::Break => "`break`"@,
        TokenKind::Continue => "`continue`"@,
        TokenKind::Const => "`const`"@,
        TokenKind::Type => "`type`"@,
        TokenKind::Impl => "`impl`"@,
        TokenKind::SelfValue => "`self`"@,
        TokenKind::Plus => "`+`"@,
        TokenKind::Minus => "`-`"@,
        TokenKind::Star => "`*`"@,
        TokenKind::Slash => "`/`"@,
        TokenKind::Percent => "`%`"@,
        TokenKind::Amp => "`&`"@,
        TokenKind::Pipe => "`|`"@,
        TokenKind::Caret => "`^`"@,
        TokenKind::Shl => "`<<`"@,
        TokenKind::Shr => "`>>`"@,
        TokenKind::AmpAmp => "`&&`"@,
        TokenKind::PipePipe => "`||`"@,
        TokenKind::Bang => "`!`"@,
        TokenKind::Eq => "`=`"@,
        TokenKind::EqEq => "`==`"@,
        TokenKind::BangEq => "`!=`"@,
        TokenKind::Lt => "`<`"@,
        TokenKind::LtEq => "`<=`"@,
        TokenKind::Gt => "`>`"@,
        TokenKind::GtEq => "`>=`"@,
        TokenKind::PlusEq => "`+=`"@,
        TokenKind::MinusEq => "`-=`"@,
        TokenKind::StarEq => "`*=`"@,
        TokenKind::SlashEq => "`/=`"@,
        TokenKind::Arrow => "`->`"@,
        TokenKind::FatArrow => "`=>`"@,
        TokenKind::Dot => "`.`"@,
        TokenKind::DotDot => "`..`"@,
        TokenKind::DotDotEq => "`..=`"@,
        TokenKind::ColonColon => "`::`"@,
        TokenKind::Colon => "`:`"@,
        TokenKind::Semi => "`;`"@,
        TokenKind::Comma => "`,`"@,
        TokenKind::LParen => "`(`"@,
        TokenKind::RParen => "`)`"@,
        TokenKind::LBrace => "`{`"@,
        TokenKind::RBrace => "`}`"@,
        TokenKind::LBracket => "`[`"@,
        TokenKind::RBracket => "`]`"@,
        TokenKind::Eof => "end of file"@,
    }
}

/// The variant name of a kind that carries no value, as its debug form shows it.
pub open spec fn variant_name(k: TokenKind) -> Seq<char> {
    match k {
        TokenKind::Ident(_) => "Ident"@,
        TokenKind::Int(_) => "Int"@,
        TokenKind::Float(_) => "Float"@,
        TokenKind::Str(_) => "Str"@,
        TokenKind::Fn => "Fn"@,
        TokenKind::Let => "Let"@,
        TokenKind::Mut => "Mut"@,
        TokenKind::If => "If"@,
        TokenKind::Else => "Else"@,
        TokenKind::For => "For"@,
        TokenKind::While => "While"@,
        TokenKind::Return => "Return"@,
        TokenKind::Struct => "Struct"@,
        TokenKind::Enum => "Enum"@,
        TokenKind::Match => "Match"@,
        TokenKind::Use => "Use"@,
        TokenKind::Mod => "Mod"@,
        TokenKind::Pub => "Pub"@,
        TokenKind::True => "True"@,
        TokenKind::False => "False"@,
        TokenKind::In => "In"@,
        TokenKind::Break => "Break"@,
        TokenKind::Continue => "Continue"@,
        TokenKind::Const => "Const"@,
        TokenKind::Type => "Type"@,
        TokenKind::Impl => "Impl"@,
        TokenKind::SelfValue => "SelfValue"@,
        TokenKind::Plus => "Plus"@,
        TokenKind::Minus => "Minus"@,
        TokenKind::Star => "Star"@,
        TokenKind::Slash => "Slash"@,
        TokenKind::Percent => "Percent"@,
        TokenKind::Amp => "Amp"@,
        TokenKind::Pipe => "Pipe"@,
        TokenKind::Caret => "Caret"@,
        TokenKind::Shl => "Shl"@,
        TokenKind::Shr => "Shr"@,
        TokenKind::AmpAmp => "AmpAmp"@,
        TokenKind::PipePipe => "PipePipe"@,
        TokenKind::Bang => "Bang"@,
        TokenKind::Eq => "Eq"@,
        TokenKind::EqEq => "EqEq"@,
        TokenKind::BangEq => "BangEq"@,
        TokenKind::Lt => "Lt"@,
        TokenKind::LtEq => "LtEq"@,
        TokenKind::Gt => "Gt"@,
        TokenKind::GtEq => "GtEq"@,
        TokenKind::PlusEq => "PlusEq"@,
        TokenKind::MinusEq => "MinusEq"@,
        TokenKind::StarEq => "StarEq"@,
        TokenKind::SlashEq => "SlashEq"@,
        TokenKind::Arrow => "Arrow"@,
        TokenKind::FatArrow => "FatArrow"@,
        TokenKind::Dot => "Dot"@,
        TokenKind::DotDot => "DotDot"@,
        TokenKind::DotDotEq => "DotDotEq"@,
        TokenKind::ColonColon => "ColonColon"@,
        TokenKind::Colon => "Colon"@,
        TokenKind::Semi => "Semi"@,
        TokenKind::Comma => "Comma"@,
        TokenKind::LParen => "LParen"@,
        TokenKind::RParen => "RParen"@,
        TokenKind::LBrace => "LBrace"@,
        TokenKind::RBrace => "RBrace"@,
        TokenKind::LBracket => "LBracket"@,
        TokenKind::RBracket => "RBracket"@,
        TokenKind::Eof => "Eof"@,
    }
}

impl TokenKind {
    /// Maps an identifier spelling onto its keyword token, if it is one.
    pub fn keyword_from_str(word: &str) -> (r: Option<TokenKind>)
        ensures
            r == keyword_of(word@),
    {
        let cs = crate::text::chars_of(word);
        keyword_from_chars(cs.as_slice())
    }

    pub fn is_keyword(&self) -> (r: bool)
        ensures
            r == keyword_kind(*self),
    {
        match self {
            TokenKind::Fn
            | TokenKind::Let
            | TokenKind::Mut
            | TokenKind::If
            | TokenKind::Else
            | TokenKind::For
            | TokenKind::While
            | TokenKind::Return
            | TokenKind::Struct
            | TokenKind::Enum
            | TokenKind::Match
            | TokenKind::Use
            | TokenKind::Mod
            | TokenKind::Pub
            | TokenKind::True
            | TokenKind::False
            | TokenKind::In
            | TokenKind::Break
            | TokenKind::Continue
            | TokenKind::Const
            | TokenKind::Type
            | TokenKind::Impl
            | TokenKind::SelfValue => true,
            _ => false,
        }
    }

    pub fn is_literal(&self) -> (r: bool)
        ensures
            r == literal_kind(*self),
    {
        match self {
            TokenKind::Int(_) | TokenKind::Float(_) | TokenKind::Str(_) | TokenKind::True
            | TokenKind::False => true,
            _ => false,
        }
    }

    /// A short, human-readable name used in diagnostics ("expected `;`, found ...").
    pub fn describe(&self) -> (r: &'static str)
        ensures
            r@ == description(*self),
    {
        match self {
            TokenKind::Ident(_) => "identifier",
            TokenKind::Int(_) => "integer literal",
            TokenKind::Float(_) => "float literal",
            TokenKind::Str(_) => "string literal",
            TokenKind::Fn => "`fn`",
            TokenKind::Let => "`let`",
            TokenKind::Mut => "`mut`",
            TokenKind::If => "`if`",
            TokenKind::Else => "`else`",
            TokenKind::For => "`for`",
            TokenKind::While => "`while`",
            TokenKind::Return => "`return`",
            TokenKind::Struct => "`struct`",
            TokenKind::Enum => "`enum`",
            TokenKind::Match => "`match`",
            TokenKind::Use => "`use`",
            TokenKind::Mod => "`mod`",
            TokenKind::Pub => "`pub`",
            TokenKind::True => "`true`",
            TokenKind::False => "`false`",
            TokenKind::In => "`in`",
            TokenKind::Break => "`break`",
            TokenKind::Continue => "`continue`",
            TokenKind::Const => "`const`",
            TokenKind::Type => "`type`",
            TokenKind::Impl => "`impl`",
            TokenKind::SelfValue => "`self`",
            TokenKind::Plus => "`+`",
            TokenKind::Minus => "`-`",
            TokenKind::Star => "`*`",
            TokenKind::Slash => "`/`",
            TokenKind::Percent => "`%`",
            TokenKind::Amp => "`&`",
            TokenKind::Pipe => "`|`",
            TokenKind::Caret => "`^`",
            TokenKind::Shl => "`<<`",
            TokenKind::Shr => "`>>`",
            TokenKind::AmpAmp => "`&&`",
            TokenKind::PipePipe => "`||`",
            TokenKind::Bang => "`!`",
            TokenKind::Eq => "`=`",
            TokenKind::EqEq => "`==`",
            TokenKind::BangEq => "`!=`",
            TokenKind::Lt => "`<`",
            TokenKind::LtEq => "`<=`",
            TokenKind::Gt => "`>`",
            TokenKind::GtEq => "`>=`",
            TokenKind::PlusEq => "`+=`",
            TokenKind::MinusEq => "`-=`",
            TokenKind::StarEq => "`*=`",
            TokenKind::SlashEq => "`/=`",
            TokenKind::Arrow => "`->`",
            TokenKind::FatArrow => "`=>`",
            TokenKind::Dot => "`.`",
            TokenKind::DotDot => "`..`",
            TokenKind::DotDotEq => "`..=`",
            TokenKind::ColonColon => "`::`",
            TokenKind::Colon => "`:`",
            TokenKind::Semi => "`;`",
            TokenKind::Comma => "`,`",
            TokenKind::LParen => "`(`",
            TokenKind::RParen => "`)`",
            TokenKind::LBrace => "`{`",
            TokenKind::RBrace => "`}`",
            TokenKind::LBracket => "`[`",
            TokenKind::RBracket => "`]`",
            TokenKind::Eof => "end of file",
        }
    }

    /// The variant's name, as the debug form of the kind starts.
    pub fn variant_name(&self) -> (r: &'static str)
        ensures
            r@ == variant_name(*self),
    {
        match self {
            TokenKind::Ident(_) => "Ident",
            TokenKind::Int(_) => "Int",
            TokenKind::Float(_) => "Float",
            TokenKind::Str(_) => "Str",
            TokenKind::Fn => "Fn",
            TokenKind::Let => "Let",
            TokenKind::Mut => "Mut",
            TokenKind::If => "If",
            TokenKind::Else => "Else",
            TokenKind::For => "For",
            TokenKind::While => "While",
            TokenKind::Return => "Return",
            TokenKind::Struct => "Struct",
            TokenKind::Enum => "Enum",
            TokenKind::Match => "Match",
            TokenKind::Use => "Use",
            TokenKind::Mod => "Mod",
            TokenKind::Pub => "Pub",
            TokenKind::True => "True",
            TokenKind::False => "False",
            TokenKind::In => "In",
            TokenKind::Break => "Break",
            TokenKind::Continue => "Continue",
            TokenKind::Const => "Const",
            TokenKind::Type => "Type",
            TokenKind::Impl => "Impl",
            TokenKind::SelfValue => "SelfValue",
            TokenKind::Plus => "Plus",
            TokenKind::Minus => "Minus",
            TokenKind::Star => "Star",
            TokenKind::Slash => "Slash",
            TokenKind::Percent => "Percent",
            TokenKind::Amp => "Amp",
            TokenKind::Pipe => "Pipe",
            TokenKind::Caret => "Caret",
            TokenKind::Shl => "Shl",
            TokenKind::Shr => "Shr",
            TokenKind::AmpAmp => "AmpAmp",
            TokenKind::PipePipe => "PipePipe",
            TokenKind::Bang => "Bang",
            TokenKind::Eq => "Eq",
            TokenKind::EqEq => "EqEq",
            TokenKind::BangEq => "BangEq",
            TokenKind::Lt => "Lt",
            TokenKind::LtEq => "LtEq",
            TokenKind::Gt => "Gt",
            TokenKind::GtEq => "GtEq",
            TokenKind::PlusEq => "PlusEq",
            TokenKind::MinusEq => "MinusEq",
            TokenKind::StarEq => "StarEq",
            TokenKind::SlashEq => "SlashEq",
            TokenKind::Arrow => "Arrow",
            TokenKind::FatArrow => "FatArrow",
            TokenKind::Dot => "Dot",
            TokenKind::DotDot => "DotDot",
            TokenKind::DotDotEq => "DotDotEq",
            TokenKind::ColonColon => "ColonColon",
            TokenKind::Colon => "Colon",
            TokenKind::Semi => "Semi",
            TokenKind::Comma => "Comma",
            TokenKind::LParen => "LParen",
            TokenKind::RParen => "RParen",
            TokenKind::LBrace => "LBrace",
            TokenKind::RBrace => "RBrace",
            TokenKind::LBracket => "LBracket",
            TokenKind::RBracket => "RBracket",
            TokenKind::Eof => "Eof",
        }
    }
}

/// Where the run of backticks starting at `lo` ends.
pub open spec fn ticks_from(d: Seq<char>, lo: int) -> int
    decreases d.len() - lo,
{
    if 0 <= lo < d.len() && d[lo] == '`' {
        ticks_from(d, lo + 1)
    } else {
        lo
    }
}

/// Where the run of backticks ending at `hi` (and not reaching below `lo`)
/// starts.
pub open spec fn ticks_before(d: Seq<char>, lo: int, hi: int) -> int
    decreases hi - lo,
{
    if lo < hi && d[hi - 1] == '`' {
        ticks_before(d, lo, hi - 1)
    } else {
        hi
    }
}

/// `d` with every leading and trailing backtick removed.
pub open spec fn trim_ticks(d: Seq<char>) -> Seq<char> {
    let lo = ticks_from(d, 0);
    d.subrange(lo, ticks_before(d, lo, d.len() as int))
}

/// The display form of a token kind: an identifier's name, an integer in
/// decimal, a float as `float_text` (the display form of its value), a string
/// quoted and escaped, and anything else as its description without the
/// backticks.
pub open spec fn display_text(k: TokenKind, float_text: Seq<char>) -> Seq<char> {
    match k {
        TokenKind::Ident(w) => w@,
        TokenKind::Int(v) => int_text(v as int),
        TokenKind::Float(_) => float_text,
        TokenKind::Str(w) => debug_quoted(w@),
        _ => trim_ticks(description(k)),
    }
}

/// `d` without its leading and trailing backticks.
fn trimmed(d: &str) -> (r: String)
    ensures
        r@ == trim_ticks(d@),
{
    let cs = chars_of(d);
    let ghost s = cs@;
    let mut lo: usize = 0;
    while lo < cs.len() && cs[lo] == '`'
        invariant
            lo <= cs.len(),
            s == cs@,
            ticks_from(s, lo as int) == ticks_from(s, 0),
        decreases cs.len() - lo,
    {
        lo = lo + 1;
    }
    let mut hi: usize = cs.len();
    while lo < hi && cs[hi - 1] == '`'
        invariant
            lo <= hi <= cs.len(),
            s == cs@,
            lo == ticks_from(s, 0),
            ticks_before(s, lo as int, hi as int) == ticks_before(s, lo as int, s.len() as int),
        decreases hi,
    {
        hi = hi - 1;
    }
    string_from_chars(&cs, lo, hi)
}

impl TokenKind {
    /// The kind as it reads in a message; a float literal shows as
    /// `float_text`, the display form of its value.
    pub fn to_display_string(&self, float_text: &str) -> (r: String)
        ensures
            r@ == display_text(*self, float_text@),
    {
        match self {
            TokenKind::Ident(name) => {
                let mut out = String::new();
                push_str(&mut out, name.as_str());
                assert(out@ =~= name@);
                out
            },
            TokenKind::Int(v) => {
                let mut out = String::new();
                push_int(&mut out, *v);
                assert(out@ =~= int_text(*v as int));
                out
            },
            TokenKind::Float(_) => {
                let mut out = String::new();
                push_str(&mut out, float_text);
                assert(out@ =~= float_text@);
                out
            },
            TokenKind::Str(w) => quote(w.as_str()),
            other => trimmed(other.describe()),
        }
    }
}

/// The keyword token spelt by `word`, if any.
pub fn keyword_from_chars(word: &[char]) -> (r: Option<TokenKind>)
    ensures
        r == keyword_of(word@),
{
    if chars_equal_str(word, "fn") {
        Some(TokenKind::Fn)
    } else if chars_equal_str(word, "let") {
        Some(TokenKind::Let)
    } else if chars_equal_str(word, "mut") {
        Some(TokenKind::Mut)
    } else if chars_equal_str(word, "if") {
        Some(TokenKind::If)
    } else if chars_equal_str(word, "else") {
        Some(TokenKind::Else)
    } else if chars_equal_str(word, "for") {
        Some(TokenKind::For)
    } else if chars_equal_str(word, "while") {
        Some(TokenKind::While)
    } else if chars_equal_str(word, "return") {
        Some(TokenKind::Return)
    } else if chars_equal_str(word, "struct") {
        Some(TokenKind::Struct)
    } else if chars_equal_str(word, "enum") {
        Some(TokenKind::Enum)
    } else if chars_equal_str(word, "match") {
        Some(TokenKind::Match)
    } else if chars_equal_str(word, "use") {
        Some(TokenKind::Use)
    } else if chars_equal_str(word, "mod") {
        Some(TokenKind::Mod)
    } else if chars_equal_str(word, "pub") {
        Some(TokenKind::Pub)
    } else if chars_equal_str(word, "true") {
        Some(TokenKind::True)
    } else if chars_equal_str(word, "false") {
        Some(TokenKind::False)
    } else if chars_equal_str(word, "in") {
        Some(TokenKind::In)
    } else if chars_equal_str(word, "break") {
        Some(TokenKind::Break)
    } else if chars_equal_str(word, "continue") {
        Some(TokenKind::Continue)
    } else if chars_equal_str(word, "const") {
        Some(TokenKind::Const)
    } else if chars_equal_str(word, "type") {
        Some(TokenKind::Type)
    } else if chars_equal_str(word, "impl") {
        Some(TokenKind::Impl)
    } else if chars_equal_str(word, "self") {
        Some(TokenKind::SelfValue)
    } else {
        None
    }
}

/// A token: what it is, and where it came from.
#[derive(Clone, Debug, PartialEq)]
pub struct Token {
    pub kind: TokenKind,
    pub span: Span,
}

/// The abstract value of a token.
pub struct TokenView {
    pub kind: KindView,
    pub span: Span,
}

impl View for Token {
    type V = TokenView;

    open spec fn view(&self) -> TokenView {
        TokenView { kind: self.kind@, span: self.span }
    }
}

impl Token {
    pub fn new(kind: TokenKind, span: Span) -> (r: Token)
        ensures
            r.kind == kind,
            r.span == span,
    {
        Token { kind, span }
    }

    pub fn is_eof(&self) -> (r: bool)
        ensures
            r == (self.kind is Eof),
    {
        match self.kind {
            TokenKind::Eof => true,
            _ => false,
        }
    }
}

} // verus!
