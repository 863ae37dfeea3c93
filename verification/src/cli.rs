//! The decisions behind the `nex` command line tool.

use vstd::prelude::*;
use crate::diag::{render, render_all, Diagnostic};
use crate::dump::{floats_shown, render_dump, show_floats, token_lines};
use crate::laws::error_spans_on_boundaries;
use crate::lexspec::lex;
use crate::text::lemma_byte_len_encoding;
use vstd::string::StringSliceAdditionalSpecFns;
use crate::error::{LexError, help_text, message_text};
use crate::fmt::{decimal, push_decimal};
use crate::text::push_str;

verus! {

/// A subcommand of `nex`, with its arguments.
pub enum Command {
    /// Compile a program to a native executable.
    Build { file: String, out: Option<String> },
    /// Type-check and run a program.
    Run { file: String },
    /// Type-check a program without running it.
    Check { file: String },
    /// Reformat source files in place.
    Fmt { files: Vec<String>, check: bool },
    /// Run the tests in a program.
    Test { filter: Option<String> },
    /// Print the token stream for a source file.
    Lex { file: String },
}

/// The message for a subcommand that is not implemented yet.
pub open spec fn not_implemented_text(name: Seq<char>, phase: Seq<char>) -> Seq<char> {
    "`"@ + name + "` is not implemented yet; it arrives in "@ + phase
}

pub fn unimplemented(name: &str, phase: &str) -> (r: String)
    ensures
        r@ == not_implemented_text(name@, phase@),
{
    let mut out = String::from_str("`");
    push_str(&mut out, name);
    push_str(&mut out, "` is not implemented yet; it arrives in ");
    push_str(&mut out, phase);
    out
}

/// What a subcommand does: the one working subcommand, `lex`, yields the file
/// whose tokens are to be printed; every other one fails with a message naming
/// the roadmap phase that will deliver it.
pub open spec fn outcome(command: &Command) -> Result<Seq<char>, Seq<char>> {
    match command {
        Command::Lex { file } => Ok(file@),
        Command::Build { .. } => Err(not_implemented_text("build"@, "Phase 8 (LLVM backend)"@)),
        Command::Run { .. } => Err(not_implemented_text("run"@, "Phase 5 (interpreter)"@)),
        Command::Check { .. } => Err(not_implemented_text("check"@, "Phase 6 (type checker)"@)),
        Command::Fmt { .. } => Err(not_implemented_text("fmt"@, "Phase 15 (formatter)"@)),
        Command::Test { .. } => Err(not_implemented_text("test"@, "Phase 10 (stdlib + test runner)"@)),
    }
}

/// Decides what a subcommand does (see `outcome`).
pub fn run(command: Command) -> (r: Result<String, String>)
    ensures
        match (r, outcome(&command)) {
            (Ok(a), Ok(b)) => a@ == b,
            (Err(a), Err(b)) => a@ == b,
            _ => false,
        },
{
    match command {
        Command::Lex { file } => Ok(file),
        Command::Build { .. } => Err(unimplemented("build", "Phase 8 (LLVM backend)")),
        Command::Run { .. } => Err(unimplemented("run", "Phase 5 (interpreter)")),
        Command::Check { .. } => Err(unimplemented("check", "Phase 6 (type checker)")),
        Command::Fmt { .. } => Err(unimplemented("fmt", "Phase 15 (formatter)")),
        Command::Test { .. } => Err(unimplemented("test", "Phase 10 (stdlib + test runner)")),
    }
}

/// The diagnostic shown for a lexing error: its message, its span and its hint.
pub open spec fn diagnostic_for(e: LexError, d: &Diagnostic) -> bool {
    &&& d.message@ == message_text(e.kind)
    &&& d.span == e.span
    &&& (match (d.help, help_text(e.kind)) {
        (Some(h), Some(t)) => h@ == t,
        (None, None) => true,
        _ => false,
    })
}

/// One diagnostic per lexing error, in order.
pub fn lex_diagnostics(errors: &Vec<LexError>) -> (r: Vec<Diagnostic>)
    ensures
        r@.len() == errors@.len(),
        forall|k: int| 0 <= k < errors@.len() ==> diagnostic_for(errors@[k], &#[trigger] r@[k]),
{
    let mut out: Vec<Diagnostic> = Vec::new();
    let mut i: usize = 0;
    while i < errors.len()
        invariant
            i <= errors.len(),
            out@.len() == i,
            forall|k: int| 0 <= k < i ==> diagnostic_for(errors@[k], &#[trigger] out@[k]),
        decreases errors.len() - i,
    {
        let e = &errors[i];
        let help = match e.help() {
            Some(h) => Some(String::from_str(h)),
            None => None,
        };
        out.push(Diagnostic { message: e.kind.message(), span: e.span, help });
        i = i + 1;
    }
    out
}

/// `n lexical error(s) in path`.
pub open spec fn failure_text(count: nat, path: Seq<char>) -> Seq<char> {
    decimal(count) + " lexical error(s) in "@ + path
}

/// The message `nex lex` fails with when the file has lexical errors.
pub fn lex_failure(count: usize, path: &str) -> (r: String)
    ensures
        r@ == failure_text(count as nat, path@),
{
    let mut out = String::new();
    push_decimal(&mut out, count as u64);
    push_str(&mut out, " lexical error(s) in ");
    push_str(&mut out, path);
    proof {
        assert(Seq::<char>::empty() + decimal(count as nat) =~= decimal(count as nat));
    }
    out
}

/// What `nex lex` does with the text `src` of the file shown as `path`: the
/// listing of its tokens for standard output, one `Kind@start..end` line each
/// (a float literal's value shown as `show_float` gives it for its text), and,
/// when scanning reported errors, the rendered diagnostics for standard error
/// and the message the command fails with.
pub fn lex_report<F: Fn(&str) -> String>(path: &str, src: &str, show_float: F) -> (r: (
    String,
    Option<(String, String)>,
))
    requires
        src.spec_bytes().len() <= u32::MAX,
        src@.len() < usize::MAX,
        forall|t: &str| #[trigger] show_float.requires((t,)),
    ensures
        exists|floats: Seq<Seq<char>>|
            {
                &&& floats_shown(show_float, lex(src@).0, floats)
                &&& r.0@ == token_lines(lex(src@).0, floats)
            },
        r.1 is None <==> lex(src@).1.len() == 0,
        r.1 matches Some(failure) ==> failure.1@ == failure_text(lex(src@).1.len(), path@),
        r.1 matches Some(failure) ==> exists|ds: Seq<Diagnostic>|
            {
                &&& ds.len() == lex(src@).1.len()
                &&& forall|k: int| 0 <= k < ds.len() ==> diagnostic_for(lex(src@).1[k], &#[trigger] ds[k])
                &&& failure.0@ == render_all(path@, src@, ds)
            },
{
    let (tokens, errors) = crate::tokenize(src);
    let floats = show_floats(&tokens, &show_float);
    let no_errors: Vec<LexError> = Vec::new();
    let listing = render_dump(&tokens, &no_errors, &floats);
    if errors.len() == 0 {
        return (listing, None);
    }
    let diagnostics = lex_diagnostics(&errors);
    proof {
        lemma_byte_len_encoding(src@);
        error_spans_on_boundaries(src@);
        assert forall|k: int| 0 <= k < diagnostics@.len() implies crate::diag::on_boundary(
            src@,
            (#[trigger] diagnostics@[k]).span.start as int,
        ) by {
            assert(diagnostic_for(errors@[k], &diagnostics@[k]));
        }
    }
    let ds = diagnostics.as_slice();
    let report = render(path, src, ds);
    let message = lex_failure(errors.len(), path);
    assert(ds@ == diagnostics@);
    (listing, Some((report, message)))
}

} // verus!
