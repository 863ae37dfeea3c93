//! A minimal source-snippet diagnostic renderer.

use vstd::prelude::*;
use vstd::string::StringSliceAdditionalSpecFns;
use crate::fmt::{decimal, push_decimal};
use crate::lexspec::{lemma_line_end, line_end};
use crate::span::Span;
use crate::text::{
    byte_len, byte_offset, chars_of, char_width, lemma_byte_len_encoding, lemma_byte_offset_mono,
    lemma_boundary_index, lemma_encoded_boundary, push_char, push_str, utf8_width,
};
use vstd::utf8::*;

verus! {

/// A message about a span of source text, with an optional hint.
pub struct Diagnostic {
    pub message: String,
    pub span: Span,
    pub help: Option<String>,
}

/// The index of the first character of `s`, from `i` on, whose byte offset is
/// at least `off` (the end of `s` when there is none).
pub open spec fn index_from(s: Seq<char>, i: int, off: int) -> int
    decreases s.len() - i,
{
    if i < 0 || i >= s.len() || byte_offset(s, i) >= off {
        i
    } else {
        index_from(s, i + 1, off)
    }
}

/// The index of the character that starts at byte offset `off`.
pub open spec fn char_index_at(s: Seq<char>, off: int) -> int {
    index_from(s, 0, off)
}

/// Whether byte offset `off` is where a character of `s` starts (or the end).
pub open spec fn on_boundary(s: Seq<char>, off: int) -> bool {
    0 <= off <= byte_len(s) && byte_offset(s, char_index_at(s, off)) == off
}

/// The index where the line holding index `i` starts.
pub open spec fn line_start_of(s: Seq<char>, i: int) -> int
    decreases i,
{
    if i <= 0 {
        0
    } else if s[i - 1] == '\n' {
        i
    } else {
        line_start_of(s, i - 1)
    }
}

/// How many newlines `t` holds.
pub open spec fn newlines(t: Seq<char>) -> nat
    decreases t.len(),
{
    if t.len() == 0 {
        0
    } else {
        newlines(t.drop_last()) + if t.last() == '\n' { 1nat } else { 0nat }
    }
}

/// `n` copies of `c`.
pub open spec fn repeat(c: char, n: nat) -> Seq<char> {
    Seq::new(n, |_i: int| c)
}

/// The caret count under a diagnostic: its span clamped to the line, at least one.
pub open spec fn caret_width(start: int, end: int, line_end_offset: int) -> nat {
    let end_on_line = if end <= line_end_offset { end } else { line_end_offset };
    if end_on_line > start { (end_on_line - start) as nat } else { 1 }
}

/// `error: message` and `  --> path:line:column`.
pub open spec fn header_text(path: Seq<char>, message: Seq<char>, no: Seq<char>, col: nat) -> Seq<char> {
    "error: "@ + message + "\n"@ + "  --> "@ + path + ":"@ + no + ":"@ + decimal(col) + "\n"@
}

/// The gutter line above the source line.
pub open spec fn rule_text(gutter: nat) -> Seq<char> {
    repeat(' ', gutter) + " |\n"@
}

/// The numbered source line.
pub open spec fn source_text(no: Seq<char>, line: Seq<char>) -> Seq<char> {
    no + " | "@ + line + "\n"@
}

/// The caret line under the offending text.
pub open spec fn caret_text(gutter: nat, indent: nat, width: nat) -> Seq<char> {
    repeat(' ', gutter) + " | "@ + repeat(' ', indent) + repeat('^', width) + "\n"@
}

/// The hint line, when there is a hint.
pub open spec fn help_line(gutter: nat, help: Option<Seq<char>>) -> Seq<char> {
    match help {
        Some(h) => repeat(' ', gutter) + " = help: "@ + h + "\n"@,
        None => Seq::empty(),
    }
}

/// The hint of a diagnostic, as characters.
pub open spec fn help_of(d: &Diagnostic) -> Option<Seq<char>> {
    match d.help {
        Some(h) => Some(h@),
        None => None,
    }
}

/// The rendering of one diagnostic against the source `s` read from `path`.
pub open spec fn render_one(path: Seq<char>, s: Seq<char>, d: &Diagnostic) -> Seq<char> {
    let ci = char_index_at(s, d.span.start as int);
    let ls = line_start_of(s, ci);
    let le = line_end(s, ls);
    let no = decimal(newlines(s.take(ls)) + 1);
    let width = caret_width(d.span.start as int, d.span.end as int, byte_offset(s, le) as int);
    header_text(path, d.message@, no, (ci - ls + 1) as nat) + rule_text(no.len()) + source_text(no, s.subrange(ls, le))
        + caret_text(no.len(), (ci - ls) as nat, width) + help_line(no.len(), help_of(d)) + "\n"@
}

/// The renderings of the diagnostics, one after another.
pub open spec fn render_all(path: Seq<char>, s: Seq<char>, ds: Seq<Diagnostic>) -> Seq<char>
    decreases ds.len(),
{
    if ds.len() == 0 {
        Seq::empty()
    } else {
        render_all(path, s, ds.drop_last()) + render_one(path, s, &ds.last())
    }
}

/// Rendering no diagnostics gives nothing, and rendering two lists one after
/// the other gives the two renderings one after the other.
pub proof fn render_concatenates(path: Seq<char>, s: Seq<char>, a: Seq<Diagnostic>, b: Seq<Diagnostic>)
    ensures
        render_all(path, s, Seq::empty()) == Seq::<char>::empty(),
        render_all(path, s, a + b) == render_all(path, s, a) + render_all(path, s, b),
    decreases b.len(),
{
    if b.len() == 0 {
        assert(a + b =~= a);
        assert(render_all(path, s, a) + Seq::<char>::empty() =~= render_all(path, s, a));
    } else {
        assert((a + b).drop_last() =~= a + b.drop_last());
        assert((a + b).last() == b.last());
        render_concatenates(path, s, a, b.drop_last());
        assert(render_all(path, s, a + b) =~= render_all(path, s, a) + render_all(path, s, b));
    }
}

proof fn lemma_index_from(s: Seq<char>, i: int, off: int)
    requires
        0 <= i <= s.len(),
    ensures
        i <= index_from(s, i, off) <= s.len(),
        index_from(s, i, off) < s.len() ==> byte_offset(s, index_from(s, i, off)) >= off,
    decreases s.len() - i,
{
    if i < s.len() && byte_offset(s, i) < off {
        lemma_index_from(s, i + 1, off);
    }
}

proof fn lemma_index_from_offset(s: Seq<char>, i: int, k: int)
    requires
        0 <= i <= k <= s.len(),
    ensures
        index_from(s, i, byte_offset(s, k) as int) == k,
    decreases k - i,
{
    if i < k {
        lemma_byte_offset_mono(s, i, k);
        lemma_index_from_offset(s, i + 1, k);
    }
}

/// The byte offset where character `k` starts is a boundary, and the
/// character found there is `k`.
pub proof fn lemma_offset_on_boundary(s: Seq<char>, k: int)
    requires
        0 <= k <= s.len(),
    ensures
        char_index_at(s, byte_offset(s, k) as int) == k,
        on_boundary(s, byte_offset(s, k) as int),
{
    lemma_index_from_offset(s, 0, k);
    lemma_byte_offset_mono(s, k, s.len() as int);
}

/// A byte offset is a boundary in the sense `render` and `locate` use exactly
/// when `str::is_char_boundary` holds of it in the UTF-8 bytes of the text
/// (the bytes of a `str` whose characters are `s`).
pub proof fn lemma_on_boundary_is_char_boundary(s: Seq<char>, off: int)
    ensures
        on_boundary(s, off) <==> is_char_boundary(encode_utf8(s), off),
{
    if on_boundary(s, off) {
        lemma_index_from(s, 0, off);
        lemma_encoded_boundary(s, char_index_at(s, off));
    }
    if is_char_boundary(encode_utf8(s), off) {
        let k = lemma_boundary_index(s, off);
        lemma_offset_on_boundary(s, k);
    }
}

proof fn lemma_line_start(s: Seq<char>, i: int)
    requires
        0 <= i <= s.len(),
    ensures
        0 <= line_start_of(s, i) <= i,
        forall|k: int| line_start_of(s, i) <= k < i ==> s[k] != '\n',
    decreases i,
{
    if i > 0 && s[i - 1] != '\n' {
        lemma_line_start(s, i - 1);
    }
}

/// Appends `n` copies of `c`.
fn push_repeat(out: &mut String, c: char, n: usize)
    ensures
        final(out)@ == old(out)@ + repeat(c, n as nat),
{
    let mut i: usize = 0;
    while i < n
        invariant
            i <= n,
            out@ == old(out)@ + repeat(c, i as nat),
        decreases n - i,
    {
        push_char(out, c);
        assert(old(out)@ + repeat(c, (i + 1) as nat) =~= (old(out)@ + repeat(c, i as nat)).push(c));
        i = i + 1;
    }
}

/// Where a byte offset falls: `(line_no, col_no, line_start, line_end)`, the
/// numbers 1-based and the line given by its first character's index and the
/// index where it ends.
fn locate_in(cs: &Vec<char>, offset: usize) -> (r: (usize, usize, usize, usize))
    requires
        on_boundary(cs@, offset as int),
        byte_len(cs@) <= usize::MAX,
        cs@.len() < usize::MAX,
    ensures
        ({
            let ci = char_index_at(cs@, offset as int);
            let ls = line_start_of(cs@, ci);
            &&& r.0 == newlines(cs@.take(ls)) + 1
            &&& r.1 == ci - ls + 1
            &&& r.2 == ls
            &&& r.3 == line_end(cs@, ls)
            &&& 0 <= ls <= ci <= r.3 <= cs@.len()
        }),
{
    let ghost s = cs@;
    proof {
        lemma_index_from(s, 0, offset as int);
    }
    // the character index of `offset`
    let mut ci: usize = 0;
    let mut pos: usize = 0;
    while ci < cs.len() && pos < offset
        invariant
            ci <= cs.len(),
            pos == byte_offset(s, ci as int),
            s == cs@,
            byte_len(s) <= usize::MAX,
            index_from(s, ci as int, offset as int) == char_index_at(s, offset as int),
        decreases cs.len() - ci,
    {
        proof {
            lemma_byte_offset_mono(s, ci + 1, s.len() as int);
        }
        pos = pos + utf8_width(cs[ci]);
        ci = ci + 1;
    }
    assert(ci == char_index_at(s, offset as int));
    // back to the start of its line
    let mut ls = ci;
    proof {
        lemma_line_start(s, ci as int);
    }
    while ls > 0 && cs[ls - 1] != '\n'
        invariant
            ls <= ci <= cs.len(),
            s == cs@,
            line_start_of(s, ls as int) == line_start_of(s, ci as int),
        decreases ls,
    {
        ls = ls - 1;
    }
    // forward to its end
    let mut le = ls;
    proof {
        lemma_line_end(s, ls as int);
        lemma_line_start(s, ci as int);
    }
    while le < cs.len() && cs[le] != '\n'
        invariant
            ls <= le <= cs.len(),
            s == cs@,
            line_end(s, le as int) == line_end(s, ls as int),
        decreases cs.len() - le,
    {
        le = le + 1;
    }
    proof {
        // the line holding `ci` runs at least up to `ci`
        assert forall|k: int| ls <= k < ci implies s[k] != '\n' by {
            lemma_line_start(s, ci as int);
        }
        lemma_line_end_past(s, ls as int, ci as int);
    }
    // count the newlines before the line
    let mut k: usize = 0;
    let mut lines: usize = 0;
    while k < ls
        invariant
            k <= ls <= cs.len(),
            s == cs@,
            lines == newlines(s.take(k as int)),
            lines <= k,
        decreases ls - k,
    {
        assert(s.take(k + 1).drop_last() =~= s.take(k as int));
        if cs[k] == '\n' {
            lines = lines + 1;
        }
        k = k + 1;
    }
    (lines + 1, ci - ls + 1, ls, le)
}

proof fn lemma_line_end_past(s: Seq<char>, ls: int, ci: int)
    requires
        0 <= ls <= ci <= s.len(),
        forall|k: int| ls <= k < ci ==> s[k] != '\n',
    ensures
        ci <= line_end(s, ls),
    decreases ci - ls,
{
    lemma_line_end(s, ls);
    if ls < ci {
        lemma_line_end_past(s, ls + 1, ci);
        assert(line_end(s, ls) == line_end(s, ls + 1));
    }
}

/// Renders `diagnostics` against `src` (read from `path`), annotating the
/// offending lines.
pub fn render(path: &str, src: &str, diagnostics: &[Diagnostic]) -> (r: String)
    requires
        forall|k: int| 0 <= k < diagnostics@.len() ==> on_boundary(src@, (#[trigger] diagnostics@[k]).span.start as int),
        src@.len() < usize::MAX,
        src.spec_bytes().len() <= usize::MAX,
    ensures
        r@ == render_all(path@, src@, diagnostics@),
{
    let cs = chars_of(src);
    proof {
        lemma_byte_len_encoding(src@);
    }
    let mut out = String::new();
    let mut i: usize = 0;
    while i < diagnostics.len()
        invariant
            i <= diagnostics.len(),
            cs@ == src@,
            byte_len(cs@) <= usize::MAX,
            cs@.len() < usize::MAX,
            forall|k: int| 0 <= k < diagnostics@.len() ==> on_boundary(src@, (#[trigger] diagnostics@[k]).span.start as int),
            out@ == render_all(path@, src@, diagnostics@.take(i as int)),
        decreases diagnostics.len() - i,
    {
        let d = &diagnostics[i];
        render_one_into(&mut out, path, &cs, d);
        proof {
            assert(diagnostics@.take(i + 1).drop_last() =~= diagnostics@.take(i as int));
        }
        i = i + 1;
    }
    proof {
        assert(diagnostics@.take(diagnostics@.len() as int) =~= diagnostics@);
    }
    out
}

/// Where byte `offset` of `src` falls (clamped to the end of `src`):
/// `(line_number, column_number, line_start_offset, line_text)`, both numbers
/// 1-based and the column counted in characters.
pub fn locate(src: &str, offset: usize) -> (r: (usize, usize, usize, String))
    requires
        offset >= src.spec_bytes().len() || on_boundary(src@, offset as int),
        src@.len() < usize::MAX,
        src.spec_bytes().len() <= usize::MAX,
    ensures
        ({
            let s = src@;
            let off = if offset >= byte_len(s) { byte_len(s) as int } else { offset as int };
            let ci = char_index_at(s, off);
            let ls = line_start_of(s, ci);
            &&& r.0 == newlines(s.take(ls)) + 1
            &&& r.1 == ci - ls + 1
            &&& r.2 == byte_offset(s, ls)
            &&& r.3@ == s.subrange(ls, line_end(s, ls))
        }),
{
    let cs = chars_of(src);
    proof {
        lemma_byte_len_encoding(src@);
    }
    let total = offset_of(&cs, cs.len());
    let off = if offset >= total { total } else { offset };
    proof {
        if offset >= total {
            lemma_index_from(src@, 0, total as int);
            lemma_end_boundary(src@);
        }
    }
    let (line_no, col_no, ls, le) = locate_in(&cs, off);
    let start = offset_of(&cs, ls);
    let mut text = String::new();
    push_chars(&mut text, &cs, ls, le);
    proof {
        assert(Seq::<char>::empty() + cs@.subrange(ls as int, le as int) =~= cs@.subrange(ls as int, le as int));
    }
    (line_no, col_no, start, text)
}

proof fn lemma_end_boundary(s: Seq<char>)
    ensures
        on_boundary(s, byte_len(s) as int),
{
    lemma_index_from(s, 0, byte_len(s) as int);
    let ci = char_index_at(s, byte_len(s) as int);
    if ci < s.len() {
        lemma_byte_offset_mono(s, ci, s.len() as int);
        lemma_byte_offset_mono(s, ci, s.len() as int);
    }
}

/// Appends the rendering of one diagnostic.
#[verifier::spinoff_prover]
fn render_one_into(out: &mut String, path: &str, cs: &Vec<char>, d: &Diagnostic)
    requires
        on_boundary(cs@, d.span.start as int),
        byte_len(cs@) <= usize::MAX,
        cs@.len() < usize::MAX,
    ensures
        final(out)@ == old(out)@ + render_one(path@, cs@, d),
{
    let ghost s = cs@;
    let (line_no, col_no, ls, le) = locate_in(cs, d.span.start as usize);
    let le_pos = offset_of(cs, le);
    let start = d.span.start as usize;
    let end = d.span.end as usize;
    let end_on_line = if end <= le_pos { end } else { le_pos };
    let width = if end_on_line > start { end_on_line - start } else { 1 };
    let mut no = String::new();
    push_decimal(&mut no, line_no as u64);
    proof {
        assert(Seq::<char>::empty() + decimal(line_no as nat) =~= decimal(line_no as nat));
    }
    let gutter = no.as_str().unicode_len();

    let mut header = String::from_str("error: ");
    push_str(&mut header, d.message.as_str());
    push_str(&mut header, "\n");
    push_str(&mut header, "  --> ");
    push_str(&mut header, path);
    push_str(&mut header, ":");
    push_str(&mut header, no.as_str());
    push_str(&mut header, ":");
    push_decimal(&mut header, col_no as u64);
    push_str(&mut header, "\n");

    let mut rule = String::new();
    push_repeat(&mut rule, ' ', gutter);
    push_str(&mut rule, " |\n");

    let mut line = no.clone();
    push_str(&mut line, " | ");
    push_chars(&mut line, cs, ls, le);
    push_str(&mut line, "\n");

    let mut carets = String::new();
    push_repeat(&mut carets, ' ', gutter);
    push_str(&mut carets, " | ");
    push_repeat(&mut carets, ' ', col_no - 1);
    push_repeat(&mut carets, '^', width);
    push_str(&mut carets, "\n");

    let mut help = String::new();
    match &d.help {
        Some(h) => {
            push_repeat(&mut help, ' ', gutter);
            push_str(&mut help, " = help: ");
            push_str(&mut help, h.as_str());
            push_str(&mut help, "\n");
        },
        None => {},
    }

    push_str(out, header.as_str());
    push_str(out, rule.as_str());
    push_str(out, line.as_str());
    push_str(out, carets.as_str());
    push_str(out, help.as_str());
    push_str(out, "\n");
    proof {
        let e = Seq::<char>::empty();
        assert(rule@ == rule_text(gutter as nat)) by {
            assert(e + repeat(' ', gutter as nat) =~= repeat(' ', gutter as nat));
        }
        assert(carets@ == caret_text(gutter as nat, (col_no - 1) as nat, width as nat)) by {
            assert(e + repeat(' ', gutter as nat) =~= repeat(' ', gutter as nat));
        }
        assert(help@ == help_line(gutter as nat, help_of(d))) by {
            assert(e + repeat(' ', gutter as nat) =~= repeat(' ', gutter as nat));
        }
        assert(width == caret_width(d.span.start as int, d.span.end as int, byte_offset(s, le as int) as int));
        let r = render_one(path@, s, d);
        assert(r == header@ + rule@ + line@ + carets@ + help@ + "\n"@);
        assert(out@ =~= old(out)@ + r);
    }
}

/// The byte offset of the character at index `k`.
fn offset_of(cs: &Vec<char>, k: usize) -> (r: usize)
    requires
        k <= cs.len(),
        byte_len(cs@) <= usize::MAX,
    ensures
        r == byte_offset(cs@, k as int),
{
    let mut pos: usize = 0;
    let mut j: usize = 0;
    while j < k
        invariant
            j <= k <= cs.len(),
            byte_len(cs@) <= usize::MAX,
            pos == byte_offset(cs@, j as int),
        decreases k - j,
    {
        proof {
            lemma_byte_offset_mono(cs@, j + 1, cs@.len() as int);
        }
        pos = pos + utf8_width(cs[j]);
        j = j + 1;
    }
    pos
}

/// Appends the characters `cs[from..to]`.
fn push_chars(out: &mut String, cs: &Vec<char>, from: usize, to: usize)
    requires
        from <= to <= cs.len(),
    ensures
        final(out)@ == old(out)@ + cs@.subrange(from as int, to as int),
{
    let mut j = from;
    while j < to
        invariant
            from <= j <= to <= cs.len(),
            out@ == old(out)@ + cs@.subrange(from as int, j as int),
        decreases to - j,
    {
        push_char(out, cs[j]);
        proof {
            assert(cs@.subrange(from as int, j + 1) =~= cs@.subrange(from as int, j as int).push(cs@[j as int]));
            assert(old(out)@ + cs@.subrange(from as int, j + 1) =~= (old(out)@ + cs@.subrange(from as int, j as int)).push(cs@[j as int]));
        }
        j = j + 1;
    }
}

/// The number of line feeds in `t`, and nothing else, is what `newlines`
/// counts: a carriage return does not end a line.
pub proof fn newlines_counts_line_feeds(t: Seq<char>)
    ensures
        newlines(t) == t.filter(|c: char| c == '\n').len(),
    decreases t.len(),
{
    reveal_with_fuel(Seq::filter, 1);
    if t.len() > 0 {
        newlines_counts_line_feeds(t.drop_last());
    }
}

/// A line starts at the beginning of the text or right after a line feed, and
/// holds no line feed up to the character it was asked for.
pub proof fn lines_start_after_line_feeds(s: Seq<char>, i: int)
    requires
        0 <= i <= s.len(),
    ensures
        0 <= line_start_of(s, i) <= i,
        line_start_of(s, i) == 0 || s[line_start_of(s, i) - 1] == '\n',
        forall|k: int| line_start_of(s, i) <= k < i ==> s[k] != '\n',
    decreases i,
{
    lemma_line_start(s, i);
    if i > 0 && s[i - 1] != '\n' {
        lines_start_after_line_feeds(s, i - 1);
    }
}

/// The rendering of a diagnostic names the line that holds the start of its
/// span (one plus the number of line feeds before that line) and the column of
/// that start counted in characters from the line start, and puts its caret
/// line's carets exactly that many characters, less one, to the right of the
/// gutter: the caret sits under the reported character, however many bytes the
/// characters before it take.
pub proof fn caret_sits_under_the_reported_column(path: Seq<char>, s: Seq<char>, d: &Diagnostic)
    requires
        on_boundary(s, d.span.start as int),
    ensures
        exists|ls: int, k: nat, no: Seq<char>, w: nat|
            #![trigger source_text(no, s.subrange(ls, line_end(s, ls))), caret_text(no.len(), k, w)]
            {
                &&& 0 <= ls && ls + k <= s.len()
                &&& (ls == 0 || s[ls - 1] == '\n')
                &&& (forall|j: int| ls <= j < ls + k ==> s[j] != '\n')
                &&& byte_offset(s, ls + k) == d.span.start
                &&& no == decimal(s.take(ls).filter(|c: char| c == '\n').len() + 1)
                &&& w >= 1
                &&& render_one(path, s, d) == header_text(path, d.message@, no, (k + 1) as nat) + rule_text(
                    no.len(),
                ) + source_text(no, s.subrange(ls, line_end(s, ls))) + caret_text(no.len(), k, w)
                    + help_line(no.len(), help_of(d)) + "\n"@
            },
{
    let ci = char_index_at(s, d.span.start as int);
    lemma_index_from(s, 0, d.span.start as int);
    let ls = line_start_of(s, ci);
    lines_start_after_line_feeds(s, ci);
    newlines_counts_line_feeds(s.take(ls));
    let le = line_end(s, ls);
    let no = decimal(newlines(s.take(ls)) + 1);
    let w = caret_width(d.span.start as int, d.span.end as int, byte_offset(s, le) as int);
    let k = (ci - ls) as nat;
    assert(ls + k == ci);
    assert(source_text(no, s.subrange(ls, line_end(s, ls))) == source_text(no, s.subrange(ls, le)));
    assert(caret_text(no.len(), k, w) == caret_text(no.len(), k, w));
}

} // verus!
