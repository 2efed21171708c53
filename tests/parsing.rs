use optparse::engine::{ParseError, Parsed};
use optparse::parser::{new, DeclareError, OptionParser};
use optparse::report::{default_arg_required, default_no_such_option, default_required};
use optparse::value::{parse_i64, parse_isize, parse_u64, parse_usize, render_i64, render_u64, Kind, Slot, Value};

fn strings(items: &[&str]) -> Vec<String> {
    items.iter().map(|s| s.to_string()).collect()
}

fn leftovers(p: &Parsed) -> Vec<String> {
    match p {
        Parsed::Args(a) => a.clone(),
        other => panic!("expected leftovers, got {:?}", other),
    }
}

fn parser() -> OptionParser {
    new("Usage: prog [options] <files>", "prog 0.1")
}

#[test]
fn switch_named_becomes_true() {
    let mut p = parser();
    let v = p.bool(&["-p", "--pretty"], "pretty-print").unwrap();
    let r = p.parse(&strings(&["--pretty"]));
    assert!(r.errors.is_empty());
    assert_eq!(p.get(v), &Slot::Bool(true));
    let mut q = parser();
    let w = q.bool(&["-p", "--pretty"], "pretty-print").unwrap();
    q.parse(&strings(&["-p"]));
    assert_eq!(q.get(w), &Slot::Bool(true));
}

#[test]
fn switch_omitted_keeps_default() {
    let mut p = parser();
    let v = p.bool(&["-p", "--pretty"], "pretty-print").unwrap();
    let r = p.parse(&strings(&["file.txt"]));
    assert!(r.errors.is_empty());
    assert_eq!(p.get(v), &Slot::Bool(false));
    assert_eq!(leftovers(&r.parsed), strings(&["file.txt"]));
}

#[test]
fn integer_values_parsed() {
    let mut p = parser();
    let a = p.i64(&["-a"], "signed", 0).unwrap();
    let b = p.u64(&["-b"], "unsigned", 0).unwrap();
    let c = p.isize(&["-c"], "machine signed", 0).unwrap();
    let d = p.usize(&["-d"], "machine unsigned", 0).unwrap();
    let r = p.parse(&strings(&["-a", "-9223372036854775808", "-b", "18446744073709551615", "-c", "+17", "-d", "0042"]));
    assert!(r.errors.is_empty());
    assert_eq!(p.get(a), &Slot::I64(i64::MIN));
    assert_eq!(p.get(b), &Slot::U64(u64::MAX));
    assert_eq!(p.get(c), &Slot::Int(17));
    assert_eq!(p.get(d), &Slot::Uint(42));
}

#[test]
fn integer_conversion_failure_keeps_value() {
    let mut p = parser();
    let n = p.i64(&["-n", "--num"], "a number", 5).unwrap();
    let r = p.parse(&strings(&["--num", "4x2"]));
    assert_eq!(p.get(n), &Slot::I64(5));
    assert_eq!(r.errors, vec![ParseError::ConversionFailed("--num".to_string(), "4x2".to_string(), Kind::I64)]);
    let mut q = parser();
    let m = q.u64(&["-m"], "unsigned", 3).unwrap();
    let r = q.parse(&strings(&["-m", "-1"]));
    assert_eq!(q.get(m), &Slot::U64(3));
    assert_eq!(r.errors, vec![ParseError::ConversionFailed("-m".to_string(), "-1".to_string(), Kind::U64)]);
}

#[test]
fn round_trip_num_and_file() {
    let mut p = parser();
    let n = p.i64(&["-n", "--num"], "a number", 0).unwrap();
    let r = p.parse(&strings(&["--num", "42", "file.txt"]));
    assert!(r.errors.is_empty());
    assert_eq!(p.get(n), &Slot::I64(42));
    assert_eq!(leftovers(&r.parsed), strings(&["file.txt"]));
}

#[test]
fn separator_stops_flag_matching() {
    let mut p = parser();
    let n = p.i64(&["-n", "--num"], "a number", 0).unwrap();
    let r = p.parse(&strings(&["a", "--", "--num", "42"]));
    assert!(r.errors.is_empty());
    assert_eq!(p.get(n), &Slot::I64(0));
    assert_eq!(leftovers(&r.parsed), strings(&["a", "--num", "42"]));
}

#[test]
fn required_missing_reported_once() {
    let mut p = parser();
    p.required().str(&["-o", "--output"], "output path", "").unwrap();
    p.bool(&["-q"], "quiet").unwrap();
    let r = p.parse(&strings(&["-q", "x"]));
    assert_eq!(r.errors, vec![ParseError::RequiredMissing("--output".to_string())]);
    assert_eq!(leftovers(&r.parsed), strings(&["x"]));
}

#[test]
fn required_given_is_not_reported() {
    let mut p = parser();
    let o = p.required().str(&["-o", "--output"], "output path", "").unwrap();
    let r = p.parse(&strings(&["-o", "out.json"]));
    assert!(r.errors.is_empty());
    assert_eq!(p.get(o), &Slot::Str("out.json".to_string()));
}

#[test]
fn required_applies_to_next_declaration_only() {
    let mut p = parser();
    p.required().str(&["-o"], "output", "").unwrap();
    p.str(&["-i"], "input", "").unwrap();
    assert!(p.opts[0].required_flag);
    assert!(!p.opts[1].required_flag);
    assert!(!p.next_required);
}

#[test]
fn required_with_binding_is_not_a_flag_requirement() {
    let mut p = parser();
    p.required().str(&["-o", "output:"], "output", "").unwrap();
    assert!(!p.opts[0].required_flag);
    assert!(p.opts[0].required_conf);
    assert_eq!(p.opts[0].conf, "output:");
    let r = p.parse(&strings(&[]));
    assert!(r.errors.is_empty());
}

#[test]
fn multi_values_aggregate() {
    let mut p = parser();
    let s = p.multi().str(&["-s", "--server"], "upstream server", "").unwrap();
    let r = p.parse(&strings(&["--server", "a", "--server", "b"]));
    assert!(r.errors.is_empty());
    assert_eq!(p.values(s), &vec![Slot::Str("a".to_string()), Slot::Str("b".to_string())]);
    assert_eq!(p.get(s), &Slot::Str("b".to_string()));
    let t = p.str(&["-t"], "single", "").unwrap();
    assert!(!p.opts[t.index].multi);
}

#[test]
fn single_value_last_write_wins() {
    let mut p = parser();
    let s = p.str(&["-s"], "server", "").unwrap();
    p.parse(&strings(&["-s", "a", "-s", "b"]));
    assert_eq!(p.get(s), &Slot::Str("b".to_string()));
    assert!(p.values(s).is_empty());
}

#[test]
fn help_short_circuits_required() {
    let mut p = parser();
    p.required().str(&["-o", "--output"], "output path", "").unwrap();
    let expected = p.render_help();
    let r = p.parse(&strings(&["--help"]));
    assert_eq!(r.parsed, Parsed::Help(expected));
    assert!(r.errors.is_empty());
}

#[test]
fn help_text_is_aligned() {
    let mut p = new("Usage: prog", "prog 1.0");
    p.i64(&["-i", "--indent"], "indentation", 4).unwrap();
    p.str(&["only:"], "binding only", "").unwrap();
    let expected = "Usage: prog\n\n  -i, --indent   indentation\n  -h, --help     show this help message and exit\n  -v, --version  show program's version number and exit\n";
    assert_eq!(p.render_help(), expected);
}

#[test]
fn help_disabled_makes_flag_unknown() {
    let mut p = parser();
    p.add_help = false;
    let r = p.parse(&strings(&["--help"]));
    assert_eq!(r.errors, vec![ParseError::NoSuchOption("--help".to_string())]);
}

#[test]
fn version_flag_gives_version() {
    let mut p = parser();
    let r = p.parse(&strings(&["-v", "--bogus"]));
    assert_eq!(r.parsed, Parsed::Version("prog 0.1".to_string()));
    assert!(r.errors.is_empty());
    assert_eq!(p.render_version(), "prog 0.1");
}

#[test]
fn empty_version_disables_version_flag() {
    let mut p = new("Usage: prog", "");
    assert!(p.add_help);
    assert!(!p.add_version);
    let r = p.parse(&strings(&["--version"]));
    assert_eq!(r.errors, vec![ParseError::NoSuchOption("--version".to_string())]);
}

#[test]
fn flag_without_value_is_reported() {
    let mut p = parser();
    let n = p.i64(&["-n"], "a number", 7).unwrap();
    let r = p.parse(&strings(&["x", "-n"]));
    assert_eq!(r.errors, vec![ParseError::ArgumentRequired("-n".to_string())]);
    assert_eq!(p.get(n), &Slot::I64(7));
    assert_eq!(leftovers(&r.parsed), strings(&["x"]));
}

#[test]
fn unknown_flag_is_reported() {
    let mut p = parser();
    let r = p.parse(&strings(&["-x", "y", "-"]));
    assert_eq!(
        r.errors,
        vec![ParseError::NoSuchOption("-x".to_string()), ParseError::NoSuchOption("-".to_string())]
    );
    assert_eq!(leftovers(&r.parsed), strings(&["y"]));
}

#[test]
fn declaration_errors() {
    let mut p = parser();
    p.bool(&["-q", "--quiet"], "quiet").unwrap();
    assert_eq!(p.bool(&[], "none"), Err(DeclareError::EmptyFlags));
    assert_eq!(p.bool(&["quiet"], "bad"), Err(DeclareError::InvalidFlag("quiet".to_string())));
    assert_eq!(p.bool(&["--"], "bad"), Err(DeclareError::InvalidFlag("--".to_string())));
    assert_eq!(p.bool(&["-z", "--quiet"], "dup"), Err(DeclareError::DuplicateFlag("--quiet".to_string())));
    assert_eq!(p.bool(&["-q"], "dup"), Err(DeclareError::DuplicateFlag("-q".to_string())));
    assert_eq!(p.option_count(), 1);
}

#[test]
fn failed_declaration_clears_modifiers() {
    let mut p = parser();
    let _ = p.required().multi().bool(&["bad"], "bad");
    assert!(!p.next_required);
    assert!(!p.next_multi);
}

#[test]
fn dest_tags_next_declaration() {
    let mut p = parser();
    let h = p.dest("grp").bool(&["-g"], "grouped").unwrap();
    let k = p.bool(&["-k"], "plain").unwrap();
    assert_eq!(p.opts[h.index].dest, "grp");
    assert_eq!(p.opts[k.index].dest, "");
    assert_eq!(k.index, 1);
}

#[test]
fn number_parsing_edges() {
    assert_eq!(parse_i64("-9223372036854775808"), Some(i64::MIN));
    assert_eq!(parse_i64("9223372036854775808"), None);
    assert_eq!(parse_i64("+5"), Some(5));
    assert_eq!(parse_i64(""), None);
    assert_eq!(parse_i64("-"), None);
    assert_eq!(parse_u64("-1"), None);
    assert_eq!(parse_u64("18446744073709551616"), None);
    assert_eq!(parse_u64("000000000000000000000000001"), Some(1));
    assert_eq!(parse_usize("12"), Some(12));
    assert_eq!(parse_isize("-12"), Some(-12));
}

#[test]
fn values_render() {
    assert_eq!(render_u64(0), "0");
    assert_eq!(render_u64(u64::MAX), "18446744073709551615");
    assert_eq!(render_i64(i64::MIN), "-9223372036854775808");
    assert_eq!(Slot::I64(-42).string(), "-42");
    assert_eq!(Slot::Bool(true).string(), "true");
    assert_eq!(Slot::Str("x y".to_string()).string(), "\"x y\"");
    assert_eq!(Slot::Uint(7).string(), "7");
}

#[test]
fn set_reports_failure_message() {
    let mut v: i64 = 3;
    let m = v.set("abc");
    assert_eq!(m, Some("strconv: unable to convert abc to an i64".to_string()));
    assert_eq!(v, 3);
    let mut b = false;
    assert_eq!(b.set(""), None);
    assert!(!b);
    assert_eq!(b.set("anything"), None);
    assert!(b);
}

#[test]
fn error_lines() {
    assert_eq!(default_arg_required("prog", "-n"), "prog: error: -n option requires an argument");
    assert_eq!(default_no_such_option("prog", "-x"), "prog: error: no such option: -x");
    assert_eq!(default_required("prog", "--output"), "prog: error: required: --output");
    let e = ParseError::ConversionFailed("-n".to_string(), "4x".to_string(), Kind::U64);
    assert_eq!(e.report("prog"), "prog: error: strconv: unable to convert 4x to a u64");
    assert_eq!(
        ParseError::RequiredMissing("-o".to_string()).report("p"),
        "p: error: required: -o"
    );
}

#[test]
fn set_failure_messages_name_token_and_kind() {
    let mut a: i64 = 1;
    assert_eq!(a.set(""), Some("strconv: unable to convert  to an i64".to_string()));
    assert_eq!(a.set("9223372036854775808"), Some("strconv: unable to convert 9223372036854775808 to an i64".to_string()));
    assert_eq!(a, 1);
    let mut b: u64 = 2;
    assert_eq!(b.set("-1"), Some("strconv: unable to convert -1 to a u64".to_string()));
    assert_eq!(b, 2);
    let mut c: isize = 3;
    assert_eq!(c.set("x1"), Some("strconv: unable to convert x1 to an int".to_string()));
    assert_eq!(c, 3);
    assert_eq!(c.set("-8"), None);
    assert_eq!(c, -8);
    let mut d: usize = 4;
    assert_eq!(d.set("-5"), Some("strconv: unable to convert -5 to a uint".to_string()));
    assert_eq!(d, 4);
    let mut s = Slot::Uint(9);
    assert_eq!(s.set("-5"), Some("strconv: unable to convert -5 to a uint".to_string()));
    assert_eq!(s, Slot::Uint(9));
}

#[test]
fn single_alias_declarations() {
    let mut p = parser();
    let q = p.bool_flag("-q", "quiet").unwrap();
    let n = p.i64_flag("--num", "a number").unwrap();
    let u = p.u64_flag("-u", "unsigned").unwrap();
    let i = p.isize_flag("-i", "machine signed").unwrap();
    let w = p.usize_flag("-w", "machine unsigned").unwrap();
    let s = p.str_flag("--name", "a name").unwrap();
    assert_eq!(p.get(n), &Slot::I64(0));
    assert_eq!(p.get(s), &Slot::Str(String::new()));
    let r = p.parse(&strings(&["-q", "--num", "-3", "-u", "8", "-i", "-2", "-w", "5", "--name", "x", "rest"]));
    assert!(r.errors.is_empty());
    assert_eq!(p.get(q), &Slot::Bool(true));
    assert_eq!(p.get(n), &Slot::I64(-3));
    assert_eq!(p.get(u), &Slot::U64(8));
    assert_eq!(p.get(i), &Slot::Int(-2));
    assert_eq!(p.get(w), &Slot::Uint(5));
    assert_eq!(p.get(s), &Slot::Str("x".to_string()));
    assert_eq!(leftovers(&r.parsed), strings(&["rest"]));
    assert_eq!(p.bool_flag("verbose", "bad"), Err(DeclareError::InvalidFlag("verbose".to_string())));
    assert_eq!(p.bool_flag("-q", "dup"), Err(DeclareError::DuplicateFlag("-q".to_string())));
}
