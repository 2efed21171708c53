use vstd::prelude::*;

use crate::help::help_text;
use crate::parser::{OptModel, OptValue, OptionParser, ParserModel, equal_text, find};
use crate::value::{Kind, Slot, Value, kind_of, slot_after_set};

verus! {

/// A problem found in the argument list.
#[derive(Debug, PartialEq, Clone)]
pub enum ParseError {
    /// A flag that takes a value came last, with no value after it.
    ArgumentRequired(String),
    /// A token shaped like a flag names no declared option.
    NoSuchOption(String),
    /// The value after a flag does not convert: the flag, the value, the kind.
    ConversionFailed(String, String, Kind),
    /// A required option was never given; it is named by its primary alias.
    RequiredMissing(String),
}

/// What a [`ParseError`] reports, with strings as character sequences.
pub enum Fault {
    ArgumentRequired(Seq<char>),
    NoSuchOption(Seq<char>),
    ConversionFailed(Seq<char>, Seq<char>, Kind),
    RequiredMissing(Seq<char>),
}

impl View for ParseError {
    type V = Fault;

    open spec fn view(&self) -> Fault {
        match self {
            ParseError::ArgumentRequired(f) => Fault::ArgumentRequired(f@),
            ParseError::NoSuchOption(f) => Fault::NoSuchOption(f@),
            ParseError::ConversionFailed(f, v, k) => Fault::ConversionFailed(f@, v@, *k),
            ParseError::RequiredMissing(f) => Fault::RequiredMissing(f@),
        }
    }
}

/// Whether the scan goes on, or stopped at `--help` or `--version`.
#[derive(PartialEq, Eq, Structural, Clone, Copy, Debug)]
pub enum Stop {
    Run,
    Help,
    Version,
}

/// What parsing hands back: the leftover arguments, or the help or version
/// text where one of those was asked for.
#[derive(Debug, PartialEq, Clone)]
pub enum Parsed {
    Args(Vec<String>),
    Help(String),
    Version(String),
}

/// What a [`Parsed`] holds, with strings as character sequences.
pub enum ParsedView {
    Args(Seq<Seq<char>>),
    Help(Seq<char>),
    Version(Seq<char>),
}

impl View for Parsed {
    type V = ParsedView;

    open spec fn view(&self) -> ParsedView {
        match self {
            Parsed::Args(a) => ParsedView::Args(strings_view(a@)),
            Parsed::Help(t) => ParsedView::Help(t@),
            Parsed::Version(t) => ParsedView::Version(t@),
        }
    }
}

/// The outcome of a parse, with every problem found, in the order found.
#[derive(Debug, PartialEq, Clone)]
pub struct ParseResult {
    pub parsed: Parsed,
    pub errors: Vec<ParseError>,
}

/// What a [`ParseResult`] holds, with strings as character sequences.
pub struct ResultView {
    pub parsed: ParsedView,
    pub errors: Seq<Fault>,
}

impl View for ParseResult {
    type V = ResultView;

    open spec fn view(&self) -> ResultView {
        ResultView { parsed: self.parsed@, errors: faults_view(self.errors@) }
    }
}

pub open spec fn strings_view(v: Seq<String>) -> Seq<Seq<char>> {
    v.map_values(|s: String| s@)
}

pub open spec fn faults_view(v: Seq<ParseError>) -> Seq<Fault> {
    v.map_values(|e: ParseError| e@)
}

/// The state of the single pass over the arguments.
pub struct Scan {
    pub opts: Seq<OptModel>,
    pub leftovers: Seq<Seq<char>>,
    pub errors: Seq<Fault>,
    pub escaped: bool,
    pub stop: Stop,
}

pub open spec fn start(opts: Seq<OptModel>) -> Scan {
    Scan { opts, leftovers: seq![], errors: seq![], escaped: false, stop: Stop::Run }
}

/// Option `j`, named by `flag`, takes the token `raw`: it is now defined, and
/// holds the converted value (appended too, when multi), or keeps its value
/// and a conversion failure is reported.
pub open spec fn take_value(st: Scan, j: int, flag: Seq<char>, raw: Seq<char>) -> Scan {
    let o = st.opts[j];
    match slot_after_set(o.value, raw) {
        Some(v) => Scan {
            opts: st.opts.update(
                j,
                OptModel {
                    value: v,
                    defined: true,
                    values: if o.multi {
                        o.values.push(v)
                    } else {
                        o.values
                    },
                    ..o
                },
            ),
            ..st
        },
        None => Scan {
            opts: st.opts.update(j, OptModel { defined: true, ..o }),
            errors: st.errors.push(Fault::ConversionFailed(flag, raw, kind_of(o.value))),
            ..st
        },
    }
}

/// Whether token `i` is a flag that takes the token after it as its value.
pub open spec fn consumes_next(st: Scan, args: Seq<Seq<char>>, i: int) -> bool {
    let a = args[i];
    let j = find(st.opts, a);
    !st.escaped && a != "--"@ && j >= 0 && !st.opts[j].implicit && i + 1 < args.len()
}

/// How many tokens the scan moves past at token `i`.
pub open spec fn advance(st: Scan, args: Seq<Seq<char>>, i: int) -> int {
    if consumes_next(st, args, i) {
        2
    } else {
        1
    }
}

/// The state after the scan reads token `i`.
pub open spec fn step(st: Scan, args: Seq<Seq<char>>, i: int, add_help: bool, add_version: bool) -> Scan {
    let a = args[i];
    if st.escaped {
        Scan { leftovers: st.leftovers.push(a), ..st }
    } else if a == "--"@ {
        Scan { escaped: true, ..st }
    } else {
        let j = find(st.opts, a);
        if j >= 0 {
            if st.opts[j].implicit {
                take_value(st, j, a, a)
            } else if i + 1 < args.len() {
                take_value(st, j, a, args[i + 1])
            } else {
                Scan { errors: st.errors.push(Fault::ArgumentRequired(a)), ..st }
            }
        } else if add_help && (a == "-h"@ || a == "--help"@) {
            Scan { stop: Stop::Help, ..st }
        } else if add_version && (a == "-v"@ || a == "--version"@) {
            Scan { stop: Stop::Version, ..st }
        } else if a.len() > 0 && a[0] == '-' {
            Scan { errors: st.errors.push(Fault::NoSuchOption(a)), ..st }
        } else {
            Scan { leftovers: st.leftovers.push(a), ..st }
        }
    }
}

/// The scan from token `i` to the end, or until help or version is asked for.
pub open spec fn scan(st: Scan, args: Seq<Seq<char>>, i: int, add_help: bool, add_version: bool) -> Scan
    decreases args.len() - i,
{
    if i < 0 || i >= args.len() || st.stop != Stop::Run {
        st
    } else {
        scan(step(st, args, i, add_help, add_version), args, i + advance(st, args, i), add_help, add_version)
    }
}

/// The name by which a missing option is reported: its long alias, else its
/// short one, else its configuration binding.
pub open spec fn primary(o: OptModel) -> Seq<char> {
    if o.flag_long.len() > 0 {
        o.flag_long
    } else if o.flag_short.len() > 0 {
        o.flag_short
    } else {
        o.conf
    }
}

/// A report for each required option that was never matched, in order.
pub open spec fn missing(opts: Seq<OptModel>) -> Seq<Fault>
    decreases opts.len(),
{
    if opts.len() == 0 {
        seq![]
    } else {
        let o = opts.last();
        missing(opts.drop_last()) + if o.required_flag && !o.defined {
            seq![Fault::RequiredMissing(primary(o))]
        } else {
            seq![]
        }
    }
}

/// The registry after parsing `args`.
pub open spec fn parsed_registry(p: ParserModel, args: Seq<Seq<char>>) -> ParserModel {
    ParserModel { opts: scan(start(p.opts), args, 0, p.add_help, p.add_version).opts, ..p }
}

/// The result of parsing `args`: help and version stop the pass and skip the
/// check of required options.
pub open spec fn parse_result(p: ParserModel, args: Seq<Seq<char>>) -> ResultView {
    let st = scan(start(p.opts), args, 0, p.add_help, p.add_version);
    match st.stop {
        Stop::Run => ResultView {
            parsed: ParsedView::Args(st.leftovers),
            errors: st.errors + missing(st.opts),
        },
        Stop::Help => ResultView {
            parsed: ParsedView::Help(help_text(parsed_registry(p, args))),
            errors: st.errors,
        },
        Stop::Version => ResultView { parsed: ParsedView::Version(p.version), errors: st.errors },
    }
}

fn primary_name(o: &OptValue) -> (r: String)
    ensures
        r@ == primary(o@),
{
    if o.flag_long.as_str().unicode_len() > 0 {
        o.flag_long.clone()
    } else if o.flag_short.as_str().unicode_len() > 0 {
        o.flag_short.clone()
    } else {
        o.conf.clone()
    }
}

impl OptionParser {
    fn take_value(&mut self, j: usize, flag: &str, raw: &str, errors: &mut Vec<ParseError>)
        requires
            j < old(self)@.opts.len(),
        ensures
            ({
                let st = take_value(
                    Scan {
                        opts: old(self)@.opts,
                        leftovers: seq![],
                        errors: faults_view(old(errors)@),
                        escaped: false,
                        stop: Stop::Run,
                    },
                    j as int,
                    flag@,
                    raw@,
                );
                final(self)@ == (ParserModel { opts: st.opts, ..old(self)@ }) && faults_view(
                    final(errors)@,
                ) == st.errors
            }),
    {
        let ghost opts0 = self@.opts;
        let ghost errs0 = errors@;
        let mut o = self.opts.remove(j);
        assert(opts0[j as int] == o@);
        let ghost o0 = o@;
        let msg = o.value.set(raw);
        o.defined = true;
        match msg {
            None => {
                if o.multi {
                    let c = o.value.duplicate();
                    let ghost vs = o.values@;
                    o.values.push(c);
                    assert(o.values@.map_values(|v: Slot| v@) =~= vs.map_values(|v: Slot| v@).push(
                        c@,
                    ));
                }
            },
            Some(_) => {
                let k = o.value.kind();
                errors.push(
                    ParseError::ConversionFailed(String::from_str(flag), String::from_str(raw), k),
                );
                assert(faults_view(errors@) =~= faults_view(errs0).push(
                    Fault::ConversionFailed(flag@, raw@, kind_of(o0.value)),
                ));
            },
        }
        self.opts.insert(j, o);
        assert(self@.opts =~= opts0.update(j as int, o@));
    }

    /// Matches `args` against the declared options in one pass, fills their
    /// values, and returns the leftover arguments with every problem found.
    pub fn parse(&mut self, args: &Vec<String>) -> (r: ParseResult)
        ensures
            final(self)@ == parsed_registry(old(self)@, strings_view(args@)),
            r@ == parse_result(old(self)@, strings_view(args@)),
    {
        let ghost av = strings_view(args@);
        let ghost p0 = self@;
        let add_help = self.add_help;
        let add_version = self.add_version;
        let n = args.len();
        let mut leftovers: Vec<String> = Vec::new();
        let mut errors: Vec<ParseError> = Vec::new();
        let mut escaped = false;
        let mut stop = Stop::Run;
        let mut i: usize = 0;
        assert(strings_view(leftovers@) =~= Seq::<Seq<char>>::empty());
        assert(faults_view(errors@) =~= Seq::<Fault>::empty());
        while i < n && stop == Stop::Run
            invariant
                i <= n,
                n == args@.len(),
                av == strings_view(args@),
                add_help == p0.add_help,
                add_version == p0.add_version,
                self@ == (ParserModel { opts: self@.opts, ..p0 }),
                scan(
                    Scan {
                        opts: self@.opts,
                        leftovers: strings_view(leftovers@),
                        errors: faults_view(errors@),
                        escaped,
                        stop,
                    },
                    av,
                    i as int,
                    add_help,
                    add_version,
                ) == scan(start(p0.opts), av, 0, add_help, add_version),
            decreases n - i,
        {
            let ghost cur = Scan {
                opts: self@.opts,
                leftovers: strings_view(leftovers@),
                errors: faults_view(errors@),
                escaped,
                stop,
            };
            let arg = &args[i];
            let a = arg.as_str();
            assert(av[i as int] == a@);
            if escaped {
                leftovers.push(arg.clone());
                assert(strings_view(leftovers@) =~= cur.leftovers.push(a@));
                i = i + 1;
            } else if equal_text(a, "--") {
                escaped = true;
                i = i + 1;
            } else {
                match self.find_option(a) {
                    Some(j) => {
                        assert(self@.opts[j as int] == self.opts@[j as int]@);
                        if self.opts[j].implicit {
                            self.take_value(j, a, a, &mut errors);
                            i = i + 1;
                        } else if i + 1 < n {
                            assert(av[i + 1] == args@[i + 1]@);
                            self.take_value(j, a, args[i + 1].as_str(), &mut errors);
                            i = i + 2;
                        } else {
                            errors.push(ParseError::ArgumentRequired(arg.clone()));
                            assert(faults_view(errors@) =~= cur.errors.push(
                                Fault::ArgumentRequired(a@),
                            ));
                            i = i + 1;
                        }
                    },
                    None => {
                        if add_help && (equal_text(a, "-h") || equal_text(a, "--help")) {
                            stop = Stop::Help;
                        } else if add_version && (equal_text(a, "-v") || equal_text(
                            a,
                            "--version",
                        )) {
                            stop = Stop::Version;
                        } else if a.unicode_len() > 0 && a.get_char(0) == '-' {
                            errors.push(ParseError::NoSuchOption(arg.clone()));
                            assert(faults_view(errors@) =~= cur.errors.push(
                                Fault::NoSuchOption(a@),
                            ));
                        } else {
                            leftovers.push(arg.clone());
                            assert(strings_view(leftovers@) =~= cur.leftovers.push(a@));
                        }
                        i = i + 1;
                    },
                }
            }
        }
        let ghost st = scan(start(p0.opts), av, 0, add_help, add_version);
        if stop == Stop::Help {
            return ParseResult { parsed: Parsed::Help(self.render_help()), errors };
        }
        if stop == Stop::Version {
            return ParseResult { parsed: Parsed::Version(self.render_version()), errors };
        }
        let ghost base = faults_view(errors@);
        let m = self.opts.len();
        let mut j: usize = 0;
        while j < m
            invariant
                j <= m,
                m == self@.opts.len(),
                self@.opts == st.opts,
                faults_view(errors@) == base + missing(st.opts.take(j as int)),
            decreases m - j,
        {
            let o = &self.opts[j];
            assert(st.opts[j as int] == o@);
            assert(st.opts.take(j + 1).drop_last() =~= st.opts.take(j as int));
            let ghost before = faults_view(errors@);
            if o.required_flag && !o.defined {
                errors.push(ParseError::RequiredMissing(primary_name(o)));
                assert(faults_view(errors@) =~= before.push(Fault::RequiredMissing(primary(o@))));
            }
            assert(faults_view(errors@) =~= base + missing(st.opts.take(j + 1)));
            j = j + 1;
        }
        assert(st.opts.take(m as int) =~= st.opts);
        ParseResult { parsed: Parsed::Args(leftovers), errors }
    }
}

} // verus!
