use vstd::prelude::*;

use crate::engine::{
    Fault, ParsedView, ResultView, Scan, Stop, missing, parse_result, parsed_registry, primary,
    scan, start, step, advance,
};
use crate::help::help_text;
use crate::parser::{
    OptModel, ParserModel, alias_matches, declare_fault, declared, find, lemma_declared_wf, lemma_find_from,
    split_aliases, wf, wf_option,
};
use crate::value::{SlotView, slot_after_set};

verus! {

/// Whether a token asks for help or for the version, where those are on.
pub open spec fn is_stop_token(a: Seq<char>, add_help: bool, add_version: bool) -> bool {
    (add_help && (a == "-h"@ || a == "--help"@)) || (add_version && (a == "-v"@ || a == "--version"@))
}

/// Whether two options have the same aliases and modifiers.
pub open spec fn same_identity(x: OptModel, y: OptModel) -> bool {
    &&& x.flag_long == y.flag_long
    &&& x.flag_short == y.flag_short
    &&& x.conf == y.conf
    &&& x.implicit == y.implicit
    &&& x.required_flag == y.required_flag
}

/// The pass keeps the options' aliases and modifiers and the problems already
/// found, adds no report of a missing option, and stops only at a help or
/// version token.
proof fn lemma_scan_shape(st: Scan, args: Seq<Seq<char>>, i: int, h: bool, v: bool)
    requires
        0 <= i,
    ensures
        ({
            let r = scan(st, args, i, h, v);
            &&& r.opts.len() == st.opts.len()
            &&& forall|k: int| 0 <= k < st.opts.len() ==> same_identity(#[trigger] r.opts[k], st.opts[k])
            &&& r.errors.len() >= st.errors.len()
            &&& forall|e: int| 0 <= e < st.errors.len() ==> #[trigger] r.errors[e] == st.errors[e]
            &&& forall|e: int|
                st.errors.len() <= e < r.errors.len() ==> !(#[trigger] r.errors[e] is RequiredMissing)
            &&& (st.stop == Stop::Run && (forall|k: int| i <= k < args.len() ==> !is_stop_token(
                #[trigger] args[k],
                h,
                v,
            ))) ==> r.stop == Stop::Run
        }),
    decreases args.len() - i,
{
    if !(i >= args.len() || st.stop != Stop::Run) {
        let s2 = step(st, args, i, h, v);
        let a = args[i];
        lemma_find_from(st.opts, a, 0);
        assert(s2.opts.len() == st.opts.len());
        assert(forall|k: int| 0 <= k < st.opts.len() ==> same_identity(#[trigger] s2.opts[k], st.opts[k]));
        assert(s2.errors.len() >= st.errors.len());
        assert(forall|e: int| 0 <= e < st.errors.len() ==> #[trigger] s2.errors[e] == st.errors[e]);
        assert(forall|e: int|
            st.errors.len() <= e < s2.errors.len() ==> !(#[trigger] s2.errors[e] is RequiredMissing));
        lemma_scan_shape(s2, args, i + advance(st, args, i), h, v);
    }
}

/// The pass leaves alone an option that no token from `i` on names.
proof fn lemma_scan_untouched(st: Scan, args: Seq<Seq<char>>, i: int, h: bool, v: bool, j: int)
    requires
        0 <= i,
        0 <= j < st.opts.len(),
        forall|k: int| i <= k < args.len() ==> !alias_matches(st.opts[j], #[trigger] args[k]),
    ensures
        scan(st, args, i, h, v).opts.len() == st.opts.len(),
        scan(st, args, i, h, v).opts[j] == st.opts[j],
    decreases args.len() - i,
{
    if !(i >= args.len() || st.stop != Stop::Run) {
        let s2 = step(st, args, i, h, v);
        let a = args[i];
        lemma_find_from(st.opts, a, 0);
        assert(!alias_matches(st.opts[j], a));
        assert(s2.opts.len() == st.opts.len());
        assert(s2.opts[j] == st.opts[j]);
        lemma_scan_untouched(s2, args, i + advance(st, args, i), h, v, j);
    }
}

/// In a well-formed registry, an alias of option `j` names `j` first.
proof fn lemma_find_alias(p: ParserModel, j: int, a: Seq<char>)
    requires
        wf(p),
        0 <= j < p.opts.len(),
        alias_matches(p.opts[j], a),
    ensures
        find(p.opts, a) == j,
        a != "--"@,
{
    lemma_find_from(p.opts, a, 0);
    let r = find(p.opts, a);
    if r != j {
        assert(r >= 0);
        assert(alias_matches(p.opts[r], a));
        if r < j {
            if p.opts[j].flag_long.len() > 0 && p.opts[j].flag_long == a {
                assert(!alias_matches(p.opts[r], p.opts[j].flag_long));
            } else {
                assert(!alias_matches(p.opts[r], p.opts[j].flag_short));
            }
        }
    }
    assert(wf_option(p.opts[j]));
    reveal_strlit("--");
    if a == "--"@ {
        assert(a.len() == 2);
        assert(a[1] == '-');
    }
}

/// A boolean switch that the argument list names on its own becomes `true`;
/// nothing is left over and only missing required options are reported.
pub proof fn law_switch_named(p: ParserModel, j: int, a: Seq<char>)
    requires
        wf(p),
        0 <= j < p.opts.len(),
        p.opts[j].implicit,
        p.opts[j].value is Bool,
        alias_matches(p.opts[j], a),
    ensures
        parsed_registry(p, seq![a]).opts[j].value == SlotView::Bool(true),
        parsed_registry(p, seq![a]).opts[j].defined,
        parse_result(p, seq![a]) == (ResultView {
            parsed: ParsedView::Args(seq![]),
            errors: missing(parsed_registry(p, seq![a]).opts),
        }),
{
    let args = seq![a];
    lemma_find_alias(p, j, a);
    let s2 = step(start(p.opts), args, 0, p.add_help, p.add_version);
    assert(advance(start(p.opts), args, 0) == 1);
    assert(scan(s2, args, 1, p.add_help, p.add_version) == s2);
    assert(a.len() > 0);
    assert(s2.errors =~= Seq::<Fault>::empty());
    assert(s2.errors + missing(s2.opts) =~= missing(s2.opts));
}

/// An option that no token of the argument list names keeps its value.
pub proof fn law_unnamed_option_kept(p: ParserModel, args: Seq<Seq<char>>, j: int)
    requires
        0 <= j < p.opts.len(),
        forall|k: int| 0 <= k < args.len() ==> !alias_matches(p.opts[j], #[trigger] args[k]),
    ensures
        parsed_registry(p, args).opts[j] == p.opts[j],
{
    lemma_scan_untouched(start(p.opts), args, 0, p.add_help, p.add_version, j);
}

/// An option that takes a value, named and followed by a token, holds the
/// token's conversion and nothing is left over; where the token does not
/// convert, the option keeps its value and a conversion failure comes first.
/// Besides that failure, only missing required options are reported.
pub proof fn law_value_taken(p: ParserModel, j: int, a: Seq<char>, tok: Seq<char>)
    requires
        wf(p),
        0 <= j < p.opts.len(),
        !p.opts[j].implicit,
        alias_matches(p.opts[j], a),
    ensures
        ({
            let q = parsed_registry(p, seq![a, tok]);
            let r = parse_result(p, seq![a, tok]);
            &&& q.opts[j].defined
            &&& r.parsed == ParsedView::Args(seq![])
            &&& match slot_after_set(p.opts[j].value, tok) {
                Some(x) => q.opts[j].value == x && r.errors == missing(q.opts),
                None => q.opts[j].value == p.opts[j].value && r.errors == seq![
                    Fault::ConversionFailed(a, tok, crate::value::kind_of(p.opts[j].value)),
                ] + missing(q.opts),
            }
        }),
{
    let args = seq![a, tok];
    lemma_find_alias(p, j, a);
    let s2 = step(start(p.opts), args, 0, p.add_help, p.add_version);
    assert(advance(start(p.opts), args, 0) == 2);
    assert(scan(s2, args, 2, p.add_help, p.add_version) == s2);
    if slot_after_set(p.opts[j].value, tok) is Some {
        assert(s2.errors + missing(s2.opts) =~= missing(s2.opts));
    } else {
        assert(s2.errors =~= seq![
            Fault::ConversionFailed(a, tok, crate::value::kind_of(p.opts[j].value)),
        ]);
    }
}

/// Declaring a switch and then parsing one of its kept aliases alone (the last
/// long or the last short alias given) makes it `true`.
pub proof fn law_declared_switch_named(p: ParserModel, flags: Seq<Seq<char>>, info: Seq<char>, a: Seq<char>)
    requires
        wf(p),
        declare_fault(p, flags) is None,
        a.len() > 0,
        a == split_aliases(flags)->Ok_0.long || a == split_aliases(flags)->Ok_0.short,
    ensures
        ({
            let q = declared(p, flags, info, true, SlotView::Bool(false));
            &&& parsed_registry(q, seq![a]).opts[p.opts.len() as int].value == SlotView::Bool(true)
            &&& parse_result(q, seq![a]).parsed == ParsedView::Args(seq![])
        }),
{
    let q = declared(p, flags, info, true, SlotView::Bool(false));
    lemma_declared_wf(p, flags, info, true, SlotView::Bool(false));
    law_switch_named(q, p.opts.len() as int, a);
}

/// Declaring an option that takes a value and then parsing one of its kept
/// aliases followed by a token gives the token's conversion, or keeps the
/// starting value and reports the failure.
pub proof fn law_declared_value_taken(
    p: ParserModel,
    flags: Seq<Seq<char>>,
    info: Seq<char>,
    value: SlotView,
    a: Seq<char>,
    tok: Seq<char>,
)
    requires
        wf(p),
        declare_fault(p, flags) is None,
        a.len() > 0,
        a == split_aliases(flags)->Ok_0.long || a == split_aliases(flags)->Ok_0.short,
    ensures
        ({
            let q = declared(p, flags, info, false, value);
            let after = parsed_registry(q, seq![a, tok]).opts[p.opts.len() as int];
            let r = parse_result(q, seq![a, tok]);
            &&& r.parsed == ParsedView::Args(seq![])
            &&& match slot_after_set(value, tok) {
                Some(x) => after.value == x,
                None => after.value == value && r.errors.len() > 0 && r.errors[0]
                    == Fault::ConversionFailed(a, tok, crate::value::kind_of(value)),
            }
        }),
{
    let q = declared(p, flags, info, false, value);
    lemma_declared_wf(p, flags, info, false, value);
    law_value_taken(q, p.opts.len() as int, a, tok);
}

/// No report of a missing option names `name` where no required, unmatched
/// option has it as its primary alias.
proof fn lemma_missing_absent(opts: Seq<OptModel>, name: Seq<char>)
    requires
        forall|k: int|
            0 <= k < opts.len() && (#[trigger] opts[k]).required_flag && !opts[k].defined
                ==> primary(opts[k]) != name,
    ensures
        forall|e: int|
            0 <= e < missing(opts).len() ==> #[trigger] missing(opts)[e] != Fault::RequiredMissing(
                name,
            ),
    decreases opts.len(),
{
    if opts.len() > 0 {
        let d = opts.drop_last();
        assert forall|k: int|
            0 <= k < d.len() && (#[trigger] d[k]).required_flag && !d[k].defined implies primary(d[k])
            != name by {
            assert(d[k] == opts[k]);
        }
        lemma_missing_absent(d, name);
        assert(opts[opts.len() - 1] == opts.last());
    }
}

/// Exactly one report names option `j` where no other required, unmatched
/// option shares its primary alias.
proof fn lemma_missing_once(opts: Seq<OptModel>, j: int)
    requires
        0 <= j < opts.len(),
        opts[j].required_flag,
        !opts[j].defined,
        forall|k: int|
            0 <= k < opts.len() && k != j && (#[trigger] opts[k]).required_flag && !opts[k].defined
                ==> primary(opts[k]) != primary(opts[j]),
    ensures
        exists|e: int|
            0 <= e < missing(opts).len() && missing(opts)[e] == Fault::RequiredMissing(primary(opts[j]))
                && forall|e2: int|
                0 <= e2 < missing(opts).len() && #[trigger] missing(opts)[e2] == Fault::RequiredMissing(
                    primary(opts[j]),
                ) ==> e2 == e,
    decreases opts.len(),
{
    let d = opts.drop_last();
    let name = primary(opts[j]);
    let m = missing(opts);
    if j == opts.len() - 1 {
        assert forall|k: int|
            0 <= k < d.len() && (#[trigger] d[k]).required_flag && !d[k].defined implies primary(d[k])
            != name by {
            assert(d[k] == opts[k]);
        }
        lemma_missing_absent(d, name);
        let e = missing(d).len() as int;
        assert(m[e] == Fault::RequiredMissing(name));
        assert forall|e2: int| 0 <= e2 < m.len() && #[trigger] m[e2] == Fault::RequiredMissing(name) implies e2
            == e by {
            if e2 < e {
                assert(m[e2] == missing(d)[e2]);
            }
        }
    } else {
        assert(d[j] == opts[j]);
        assert forall|k: int|
            0 <= k < d.len() && k != j && (#[trigger] d[k]).required_flag && !d[k].defined implies primary(
            d[k],
        ) != primary(d[j]) by {
            assert(d[k] == opts[k]);
        }
        lemma_missing_once(d, j);
        let md = missing(d);
        let e = choose|e: int|
            0 <= e < md.len() && md[e] == Fault::RequiredMissing(name) && forall|e2: int|
                0 <= e2 < md.len() && #[trigger] md[e2] == Fault::RequiredMissing(name) ==> e2 == e;
        assert(m[e] == md[e]);
        let last = opts.last();
        assert(opts[opts.len() - 1] == last);
        assert forall|e2: int| 0 <= e2 < m.len() && #[trigger] m[e2] == Fault::RequiredMissing(name) implies e2
            == e by {
            if e2 < md.len() {
                assert(m[e2] == md[e2]);
            }
        }
    }
}

/// A required option that the argument list never names is reported missing
/// exactly once, by its primary alias, where no token asks for help or the
/// version while those are on.
pub proof fn law_required_reported(p: ParserModel, args: Seq<Seq<char>>, j: int)
    requires
        wf(p),
        0 <= j < p.opts.len(),
        p.opts[j].required_flag,
        !p.opts[j].defined,
        forall|k: int|
            0 <= k < args.len() ==> !alias_matches(p.opts[j], #[trigger] args[k]) && !is_stop_token(
                args[k],
                p.add_help,
                p.add_version,
            ),
    ensures
        ({
            let r = parse_result(p, args);
            let name = primary(p.opts[j]);
            &&& r.parsed is Args
            &&& exists|e: int|
                0 <= e < r.errors.len() && r.errors[e] == Fault::RequiredMissing(name) && forall|e2: int|
                    0 <= e2 < r.errors.len() && #[trigger] r.errors[e2] == Fault::RequiredMissing(name)
                        ==> e2 == e
        }),
{
    let st0 = start(p.opts);
    let st = scan(st0, args, 0, p.add_help, p.add_version);
    lemma_scan_shape(st0, args, 0, p.add_help, p.add_version);
    lemma_scan_untouched(st0, args, 0, p.add_help, p.add_version, j);
    let name = primary(p.opts[j]);
    assert(st.opts[j] == p.opts[j]);
    assert(wf_option(p.opts[j]));
    assert forall|k: int|
        0 <= k < st.opts.len() && k != j && (#[trigger] st.opts[k]).required_flag && !st.opts[k].defined
            implies primary(st.opts[k]) != primary(st.opts[j]) by {
        assert(same_identity(st.opts[k], p.opts[k]));
        assert(wf_option(p.opts[k]));
        if p.opts[j].flag_long.len() > 0 {
            assert(!alias_matches(p.opts[k], p.opts[j].flag_long));
        } else {
            assert(!alias_matches(p.opts[k], p.opts[j].flag_short));
        }
    }
    lemma_missing_once(st.opts, j);
    let m = missing(st.opts);
    let e = choose|e: int|
        0 <= e < m.len() && m[e] == Fault::RequiredMissing(name) && forall|e2: int|
            0 <= e2 < m.len() && #[trigger] m[e2] == Fault::RequiredMissing(name) ==> e2 == e;
    assert forall|k: int| 0 <= k < args.len() implies !is_stop_token(
        #[trigger] args[k],
        p.add_help,
        p.add_version,
    ) by {}
    assert(st.stop == Stop::Run);
    let all = st.errors + m;
    assert(parse_result(p, args).errors == all);
    let n0 = st.errors.len() as int;
    assert(all[n0 + e] == m[e]);
    assert(0 <= n0 + e < all.len());
    assert forall|e2: int| 0 <= e2 < all.len() && #[trigger] all[e2] == Fault::RequiredMissing(name) implies e2
        == n0 + e by {
        if e2 < n0 {
            assert(!(st.errors[e2] is RequiredMissing));
        } else {
            assert(all[e2] == m[e2 - n0]);
        }
    }
}

/// `required()` marks only the next declaration: it is required unless it has
/// a configuration binding, and the one after it is not.
pub proof fn law_required_once(
    p: ParserModel,
    f1: Seq<Seq<char>>,
    i1: Seq<char>,
    imp1: bool,
    v1: SlotView,
    f2: Seq<Seq<char>>,
    i2: Seq<char>,
    imp2: bool,
    v2: SlotView,
)
    requires
        declare_fault(ParserModel { next_required: true, ..p }, f1) is None,
        declare_fault(declared(ParserModel { next_required: true, ..p }, f1, i1, imp1, v1), f2) is None,
    ensures
        ({
            let q1 = declared(ParserModel { next_required: true, ..p }, f1, i1, imp1, v1);
            let q2 = declared(q1, f2, i2, imp2, v2);
            let n = p.opts.len() as int;
            &&& q2.opts[n].required_flag == (split_aliases(f1)->Ok_0.conf.len() == 0)
            &&& q2.opts[n].required_conf
            &&& !q2.opts[n + 1].required_flag
            &&& !q2.opts[n + 1].required_conf
            &&& !q2.next_required
        }),
{
}

/// With help on and `--help` not taken by an option, parsing `--help` alone
/// gives the help text, changes no option and reports nothing.
pub proof fn law_help_short_circuit(p: ParserModel)
    requires
        p.add_help,
        find(p.opts, "--help"@) == -1,
    ensures
        parsed_registry(p, seq!["--help"@]) == p,
        parse_result(p, seq!["--help"@]) == (ResultView {
            parsed: ParsedView::Help(help_text(p)),
            errors: seq![],
        }),
{
    let args = seq!["--help"@];
    reveal_strlit("--");
    reveal_strlit("--help");
    assert("--help"@ != "--"@) by {
        assert("--help"@.len() != "--"@.len());
    }
    let s2 = step(start(p.opts), args, 0, p.add_help, p.add_version);
    assert(s2.stop == Stop::Help);
    assert(scan(s2, args, 1, p.add_help, p.add_version) == s2);
}

} // verus!
