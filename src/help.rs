use vstd::prelude::*;

use crate::parser::{OptModel, OptValue, OptionParser, ParserModel};

verus! {

/// One line of the help text: the aliases column and the description.
pub struct Row {
    pub flags: Seq<char>,
    pub info: Seq<char>,
}

/// One line of the help text as it is built.
pub struct HelpRow {
    pub flags: String,
    pub info: String,
}

impl View for HelpRow {
    type V = Row;

    open spec fn view(&self) -> Row {
        Row { flags: self.flags@, info: self.info@ }
    }
}

/// Whether an option has a command-line alias, and so a line in the help.
pub open spec fn shown(o: OptModel) -> bool {
    o.flag_long.len() > 0 || o.flag_short.len() > 0
}

/// The aliases column of an option: the short alias, then the long one.
pub open spec fn flags_column(o: OptModel) -> Seq<char> {
    if o.flag_short.len() > 0 && o.flag_long.len() > 0 {
        o.flag_short + ", "@ + o.flag_long
    } else if o.flag_short.len() > 0 {
        o.flag_short
    } else {
        o.flag_long
    }
}

/// The help lines of the declared options, in order of declaration.
pub open spec fn option_rows(opts: Seq<OptModel>) -> Seq<Row>
    decreases opts.len(),
{
    if opts.len() == 0 {
        seq![]
    } else {
        let o = opts.last();
        option_rows(opts.drop_last()) + if shown(o) {
            seq![Row { flags: flags_column(o), info: o.info }]
        } else {
            seq![]
        }
    }
}

pub open spec fn help_row() -> Row {
    Row { flags: "-h, --help"@, info: "show this help message and exit"@ }
}

pub open spec fn version_row() -> Row {
    Row { flags: "-v, --version"@, info: "show program's version number and exit"@ }
}

/// All help lines: the declared options, then the built-in ones that are on.
pub open spec fn help_rows(p: ParserModel) -> Seq<Row> {
    option_rows(p.opts) + (if p.add_help {
        seq![help_row()]
    } else {
        seq![]
    }) + (if p.add_version {
        seq![version_row()]
    } else {
        seq![]
    })
}

/// The width of the widest aliases column.
pub open spec fn column_width(rows: Seq<Row>) -> nat
    decreases rows.len(),
{
    if rows.len() == 0 {
        0
    } else {
        let w = column_width(rows.drop_last());
        let l = rows.last().flags.len();
        if l > w {
            l
        } else {
            w
        }
    }
}

pub open spec fn spaces(n: nat) -> Seq<char> {
    Seq::new(n, |i: int| ' ')
}

/// The help lines, the descriptions starting in one column.
pub open spec fn lines(rows: Seq<Row>, width: nat) -> Seq<char>
    decreases rows.len(),
{
    if rows.len() == 0 {
        seq![]
    } else {
        let r = rows.last();
        lines(rows.drop_last(), width) + "  "@ + r.flags + spaces((width - r.flags.len()) as nat)
            + "  "@ + r.info + "\n"@
    }
}

/// The help text: the usage line, a blank line, then one line per option.
pub open spec fn help_text(p: ParserModel) -> Seq<char> {
    p.usage + "\n\n"@ + lines(help_rows(p), column_width(help_rows(p)))
}

fn flags_column_exec(o: &OptValue) -> (r: String)
    ensures
        r@ == flags_column(o@),
{
    let s = o.flag_short.as_str();
    let l = o.flag_long.as_str();
    if s.unicode_len() > 0 && l.unicode_len() > 0 {
        String::from_str(s).concat(", ").concat(l)
    } else if s.unicode_len() > 0 {
        String::from_str(s)
    } else {
        String::from_str(l)
    }
}

impl OptionParser {
    fn rows(&self) -> (r: Vec<HelpRow>)
        ensures
            r@.map_values(|h: HelpRow| h@) == help_rows(self@),
    {
        let mut rows: Vec<HelpRow> = Vec::new();
        let n = self.opts.len();
        let ghost opts = self@.opts;
        let mut j: usize = 0;
        while j < n
            invariant
                j <= n,
                n == opts.len(),
                opts == self@.opts,
                rows@.map_values(|h: HelpRow| h@) == option_rows(opts.take(j as int)),
            decreases n - j,
        {
            let o = &self.opts[j];
            assert(opts[j as int] == o@);
            assert(opts.take(j + 1).drop_last() =~= opts.take(j as int));
            let ghost before = rows@;
            if o.flag_long.as_str().unicode_len() > 0 || o.flag_short.as_str().unicode_len() > 0 {
                let row = HelpRow { flags: flags_column_exec(o), info: o.info.clone() };
                rows.push(row);
                assert(rows@.map_values(|h: HelpRow| h@) =~= before.map_values(|h: HelpRow| h@)
                    + seq![row@]);
            } else {
                assert(option_rows(opts.take(j + 1)) =~= option_rows(opts.take(j as int)));
            }
            j = j + 1;
        }
        assert(opts.take(n as int) =~= opts);
        let ghost before = rows@;
        if self.add_help {
            let row = HelpRow {
                flags: String::from_str("-h, --help"),
                info: String::from_str("show this help message and exit"),
            };
            rows.push(row);
            assert(rows@.map_values(|h: HelpRow| h@) =~= before.map_values(|h: HelpRow| h@) + seq![
                help_row(),
            ]);
        }
        let ghost middle = rows@;
        if self.add_version {
            let row = HelpRow {
                flags: String::from_str("-v, --version"),
                info: String::from_str("show program's version number and exit"),
            };
            rows.push(row);
            assert(rows@.map_values(|h: HelpRow| h@) =~= middle.map_values(|h: HelpRow| h@) + seq![
                version_row(),
            ]);
        }
        assert(rows@.map_values(|h: HelpRow| h@) =~= help_rows(self@));
        rows
    }

    /// The help text built from the usage line and the declared options.
    pub fn render_help(&self) -> (r: String)
        ensures
            r@ == help_text(self@),
    {
        let rows = self.rows();
        let ghost rv = rows@.map_values(|h: HelpRow| h@);
        let n = rows.len();
        let mut width: usize = 0;
        let mut j: usize = 0;
        while j < n
            invariant
                j <= n,
                n == rv.len(),
                rv == rows@.map_values(|h: HelpRow| h@),
                width as nat == column_width(rv.take(j as int)),
            decreases n - j,
        {
            assert(rv.take(j + 1).drop_last() =~= rv.take(j as int));
            assert(rv[j as int] == rows@[j as int]@);
            let l = rows[j].flags.as_str().unicode_len();
            if l > width {
                width = l;
            }
            j = j + 1;
        }
        assert(rv.take(n as int) =~= rv);
        proof {
            lemma_column_width_bounds(rv);
        }
        let mut out = self.usage.clone().concat("\n\n");
        let mut k: usize = 0;
        while k < n
            invariant
                k <= n,
                n == rv.len(),
                rv == rows@.map_values(|h: HelpRow| h@),
                width as nat == column_width(rv),
                forall|m: int| 0 <= m < rv.len() ==> rv[m].flags.len() <= column_width(rv),
                out@ == self@.usage + "\n\n"@ + lines(rv.take(k as int), width as nat),
            decreases n - k,
        {
            assert(rv.take(k + 1).drop_last() =~= rv.take(k as int));
            assert(rv[k as int] == rows@[k as int]@);
            let row = &rows[k];
            let l = row.flags.as_str().unicode_len();
            assert(l <= width) by {
                assert(rv[k as int].flags.len() <= column_width(rv));
            }
            let ghost base = out@;
            out = out.concat("  ").concat(row.flags.as_str());
            let ghost padded = out@;
            assert(padded + spaces(0) =~= padded);
            let mut c: usize = l;
            while c < width
                invariant
                    l <= c <= width,
                    out@ == padded + spaces((c - l) as nat),
                decreases width - c,
            {
                proof {
                    reveal_strlit(" ");
                }
                out = out.concat(" ");
                assert(spaces((c + 1 - l) as nat) =~= spaces((c - l) as nat) + seq![' ']);
                c = c + 1;
            }
            out = out.concat("  ").concat(row.info.as_str()).concat("\n");
            k = k + 1;
        }
        assert(rv.take(n as int) =~= rv);
        out
    }

    /// The version text, as given to `new`.
    pub fn render_version(&self) -> (r: String)
        ensures
            r@ == self@.version,
    {
        self.version.clone()
    }
}

/// Every line's aliases column fits in the column width.
proof fn lemma_column_width_bounds(rows: Seq<Row>)
    ensures
        forall|m: int| 0 <= m < rows.len() ==> rows[m].flags.len() <= column_width(rows),
    decreases rows.len(),
{
    if rows.len() > 0 {
        lemma_column_width_bounds(rows.drop_last());
        assert forall|m: int| 0 <= m < rows.len() implies rows[m].flags.len() <= column_width(
            rows,
        ) by {
            if m < rows.len() - 1 {
                assert(rows.drop_last()[m] == rows[m]);
            }
        }
    }
}

} // verus!
