use vstd::prelude::*;

use crate::engine::ParseError;
use crate::value::{Kind, failure_message, kind_label};

verus! {

/// The conventional error line: `<prog>: error: <message>`.
pub open spec fn error_line(prog: Seq<char>, message: Seq<char>) -> Seq<char> {
    prog + ": error: "@ + message
}

/// The line reporting a problem of the parse.
pub open spec fn report_line(prog: Seq<char>, e: ParseError) -> Seq<char> {
    match e {
        ParseError::ArgumentRequired(f) => error_line(prog, f@ + " option requires an argument"@),
        ParseError::NoSuchOption(f) => error_line(prog, "no such option: "@ + f@),
        ParseError::ConversionFailed(_, raw, k) => error_line(
            prog,
            failure_message(raw@, kind_label(k)),
        ),
        ParseError::RequiredMissing(f) => error_line(prog, "required: "@ + f@),
    }
}

/// The line for a flag that came last without its value.
pub fn default_arg_required(prog: &str, arg: &str) -> (r: String)
    ensures
        r@ == error_line(prog@, arg@ + " option requires an argument"@),
{
    let r = String::from_str(prog).concat(": error: ").concat(arg).concat(
        " option requires an argument",
    );
    assert(r@ =~= error_line(prog@, arg@ + " option requires an argument"@));
    r
}

/// The line for a flag that names no option.
pub fn default_no_such_option(prog: &str, arg: &str) -> (r: String)
    ensures
        r@ == error_line(prog@, "no such option: "@ + arg@),
{
    let r = String::from_str(prog).concat(": error: ").concat("no such option: ").concat(arg);
    assert(r@ =~= error_line(prog@, "no such option: "@ + arg@));
    r
}

/// The line for a required option that was never given.
pub fn default_required(prog: &str, arg: &str) -> (r: String)
    ensures
        r@ == error_line(prog@, "required: "@ + arg@),
{
    let r = String::from_str(prog).concat(": error: ").concat("required: ").concat(arg);
    assert(r@ =~= error_line(prog@, "required: "@ + arg@));
    r
}

fn kind_text(k: Kind) -> (r: &'static str)
    ensures
        r@ == kind_label(k),
{
    match k {
        Kind::Bool => "a bool",
        Kind::I64 => "an i64",
        Kind::U64 => "a u64",
        Kind::Int => "an int",
        Kind::Uint => "a uint",
        Kind::Str => "a str",
    }
}

impl ParseError {
    /// The conventional line that reports this problem for program `prog`.
    pub fn report(&self, prog: &str) -> (r: String)
        ensures
            r@ == report_line(prog@, *self),
    {
        match self {
            ParseError::ArgumentRequired(f) => default_arg_required(prog, f.as_str()),
            ParseError::NoSuchOption(f) => default_no_such_option(prog, f.as_str()),
            ParseError::ConversionFailed(_, raw, k) => {
                let r = String::from_str(prog).concat(": error: ").concat(
                    "strconv: unable to convert ",
                ).concat(raw.as_str()).concat(" to ").concat(kind_text(*k));
                assert(r@ =~= report_line(prog@, *self));
                r
            },
            ParseError::RequiredMissing(f) => default_required(prog, f.as_str()),
        }
    }
}

} // verus!
