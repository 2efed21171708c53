use vstd::prelude::*;

use crate::value::{Slot, SlotView};

verus! {

/// One declared option: its aliases, its modifiers and the value it holds.
pub struct OptValue {
    pub conf: String,
    pub defined: bool,
    pub dest: String,
    pub flag_long: String,
    pub flag_short: String,
    pub implicit: bool,
    pub info: String,
    pub multi: bool,
    pub required_conf: bool,
    pub required_flag: bool,
    pub value: Slot,
    /// Every value taken, in order, for an option marked `multi`.
    pub values: Vec<Slot>,
}

/// What an [`OptValue`] holds, with strings as character sequences.
pub struct OptModel {
    pub conf: Seq<char>,
    pub defined: bool,
    pub dest: Seq<char>,
    pub flag_long: Seq<char>,
    pub flag_short: Seq<char>,
    pub implicit: bool,
    pub info: Seq<char>,
    pub multi: bool,
    pub required_conf: bool,
    pub required_flag: bool,
    pub value: SlotView,
    pub values: Seq<SlotView>,
}

impl View for OptValue {
    type V = OptModel;

    open spec fn view(&self) -> OptModel {
        OptModel {
            conf: self.conf@,
            defined: self.defined,
            dest: self.dest@,
            flag_long: self.flag_long@,
            flag_short: self.flag_short@,
            implicit: self.implicit,
            info: self.info@,
            multi: self.multi,
            required_conf: self.required_conf,
            required_flag: self.required_flag,
            value: self.value@,
            values: self.values@.map_values(|v: Slot| v@),
        }
    }
}

/// The option registry: declared options in order of declaration, the
/// modifiers pending for the next declaration, and the help and version text.
pub struct OptionParser {
    pub add_help: bool,
    pub add_version: bool,
    pub next_dest: String,
    pub next_multi: bool,
    pub next_required: bool,
    pub opts: Vec<OptValue>,
    pub usage: String,
    pub version: String,
}

/// What an [`OptionParser`] holds, with strings as character sequences.
pub struct ParserModel {
    pub add_help: bool,
    pub add_version: bool,
    pub next_dest: Seq<char>,
    pub next_multi: bool,
    pub next_required: bool,
    pub opts: Seq<OptModel>,
    pub usage: Seq<char>,
    pub version: Seq<char>,
}

impl View for OptionParser {
    type V = ParserModel;

    open spec fn view(&self) -> ParserModel {
        ParserModel {
            add_help: self.add_help,
            add_version: self.add_version,
            next_dest: self.next_dest@,
            next_multi: self.next_multi,
            next_required: self.next_required,
            opts: self.opts@.map_values(|o: OptValue| o@),
            usage: self.usage@,
            version: self.version@,
        }
    }
}

/// Refers to a declared option by its place in the registry.
#[derive(PartialEq, Eq, Structural, Clone, Copy, Debug)]
pub struct Handle {
    pub index: usize,
}

/// Why a declaration was refused.
#[derive(Debug, PartialEq, Clone)]
pub enum DeclareError {
    /// No alias was given.
    EmptyFlags,
    /// An alias is neither `-x`, `--xxx` nor a `name:` binding.
    InvalidFlag(String),
    /// An alias is already taken by an earlier option.
    DuplicateFlag(String),
}

/// What a [`DeclareError`] reports, with strings as character sequences.
pub enum DeclareFault {
    EmptyFlags,
    InvalidFlag(Seq<char>),
    DuplicateFlag(Seq<char>),
}

impl View for DeclareError {
    type V = DeclareFault;

    open spec fn view(&self) -> DeclareFault {
        match self {
            DeclareError::EmptyFlags => DeclareFault::EmptyFlags,
            DeclareError::InvalidFlag(f) => DeclareFault::InvalidFlag(f@),
            DeclareError::DuplicateFlag(f) => DeclareFault::DuplicateFlag(f@),
        }
    }
}

/// A long alias: `--` and at least one more character.
pub open spec fn is_long(f: Seq<char>) -> bool {
    f.len() >= 3 && f[0] == '-' && f[1] == '-'
}

/// A short alias: `-` and then something that does not start with `-`.
pub open spec fn is_short(f: Seq<char>) -> bool {
    f.len() >= 2 && f[0] == '-' && f[1] != '-'
}

/// A configuration binding: ends in `:` and does not start with `-`.

pub open spec fn is_conf(f: Seq<char>) -> bool {
    !(f.len() >= 1 && f[0] == '-') && f.len() >= 1 && f.last() == ':'
}

/// The long, short and configuration aliases of one declaration.
pub struct Aliases {
    pub long: Seq<char>,
    pub short: Seq<char>,
    pub conf: Seq<char>,
}

/// Sorts the aliases by form, a later alias of a form replacing an earlier one;
/// `Err` holds the first alias of no known form.
pub open spec fn split_aliases(flags: Seq<Seq<char>>) -> Result<Aliases, Seq<char>>
    decreases flags.len(),
{
    if flags.len() == 0 {
        Ok(Aliases { long: seq![], short: seq![], conf: seq![] })
    } else {
        match split_aliases(flags.drop_last()) {
            Err(f) => Err(f),
            Ok(a) => {
                let f = flags.last();
                if is_long(f) {
                    Ok(Aliases { long: f, ..a })
                } else if is_short(f) {
                    Ok(Aliases { short: f, ..a })
                } else if is_conf(f) {
                    Ok(Aliases { conf: f, ..a })
                } else {
                    Err(f)
                }
            },
        }
    }
}

/// Whether `a` is one of the command-line aliases of `o`.
pub open spec fn alias_matches(o: OptModel, a: Seq<char>) -> bool {
    (o.flag_long.len() > 0 && o.flag_long == a) || (o.flag_short.len() > 0 && o.flag_short == a)
}

/// The first option at or after `j` that `a` names, or -1.
pub open spec fn find_from(opts: Seq<OptModel>, a: Seq<char>, j: int) -> int
    decreases opts.len() - j,
{
    if j < 0 || j >= opts.len() {
        -1
    } else if alias_matches(opts[j], a) {
        j
    } else {
        find_from(opts, a, j + 1)
    }
}

/// The first option that `a` names, or -1.
pub open spec fn find(opts: Seq<OptModel>, a: Seq<char>) -> int {
    find_from(opts, a, 0)
}

pub open spec fn flags_view(flags: Seq<&str>) -> Seq<Seq<char>> {
    flags.map_values(|f: &str| f@)
}

/// Why a declaration with these aliases is refused, if it is.
pub open spec fn declare_fault(p: ParserModel, flags: Seq<Seq<char>>) -> Option<DeclareFault> {
    if flags.len() == 0 {
        Some(DeclareFault::EmptyFlags)
    } else {
        match split_aliases(flags) {
            Err(f) => Some(DeclareFault::InvalidFlag(f)),
            Ok(a) => if a.long.len() > 0 && find(p.opts, a.long) >= 0 {
                Some(DeclareFault::DuplicateFlag(a.long))
            } else if a.short.len() > 0 && find(p.opts, a.short) >= 0 {
                Some(DeclareFault::DuplicateFlag(a.short))
            } else {
                None
            },
        }
    }
}

/// The registry with the pending modifiers back at their defaults.
pub open spec fn cleared(p: ParserModel) -> ParserModel {
    ParserModel { next_dest: seq![], next_multi: false, next_required: false, ..p }
}

/// The option that a declaration adds, taking the pending modifiers.
pub open spec fn new_option(
    p: ParserModel,
    a: Aliases,
    info: Seq<char>,
    implicit: bool,
    value: SlotView,
) -> OptModel {
    OptModel {
        conf: a.conf,
        defined: false,
        dest: p.next_dest,
        flag_long: a.long,
        flag_short: a.short,
        implicit,
        info,
        multi: p.next_multi,
        required_conf: p.next_required,
        required_flag: p.next_required && a.conf.len() == 0,
        value,
        values: seq![],
    }
}

/// The registry after an accepted declaration.
pub open spec fn declared(
    p: ParserModel,
    flags: Seq<Seq<char>>,
    info: Seq<char>,
    implicit: bool,
    value: SlotView,
) -> ParserModel {
    ParserModel {
        opts: p.opts.push(new_option(p, split_aliases(flags)->Ok_0, info, implicit, value)),
        ..cleared(p)
    }
}

/// Each alias has its form, the option has some alias, and a required option
/// is required on the command line only where it has no binding.
pub open spec fn wf_option(o: OptModel) -> bool {
    &&& (o.flag_long.len() == 0 || is_long(o.flag_long))
    &&& (o.flag_short.len() == 0 || is_short(o.flag_short))
    &&& (o.conf.len() == 0 || is_conf(o.conf))
    &&& (o.flag_long.len() > 0 || o.flag_short.len() > 0 || o.conf.len() > 0)
    &&& (o.required_flag ==> o.conf.len() == 0)
}

/// A well-formed registry: every option is well formed, and no command-line
/// alias names two options.
pub open spec fn wf(p: ParserModel) -> bool {
    &&& forall|j: int| 0 <= j < p.opts.len() ==> wf_option(#[trigger] p.opts[j])
    &&& forall|j: int, k: int|
        0 <= j < p.opts.len() && 0 <= k < p.opts.len() && j != k && p.opts[j].flag_long.len() > 0
            ==> !alias_matches(#[trigger] p.opts[k], #[trigger] p.opts[j].flag_long)
    &&& forall|j: int, k: int|
        0 <= j < p.opts.len() && 0 <= k < p.opts.len() && j != k && p.opts[j].flag_short.len() > 0
            ==> !alias_matches(#[trigger] p.opts[k], #[trigger] p.opts[j].flag_short)
}

/// `find_from` gives the first option at or after `j` that `a` names.
pub proof fn lemma_find_from(opts: Seq<OptModel>, a: Seq<char>, j: int)
    requires
        0 <= j,
    ensures
        find_from(opts, a, j) >= -1,
        find_from(opts, a, j) == -1 ==> forall|k: int|
            j <= k < opts.len() ==> !alias_matches(#[trigger] opts[k], a),
        find_from(opts, a, j) >= 0 ==> {
            let r = find_from(opts, a, j);
            &&& j <= r < opts.len()
            &&& alias_matches(opts[r], a)
            &&& forall|k: int| j <= k < r ==> !alias_matches(#[trigger] opts[k], a)
        },
    decreases opts.len() - j,
{
    if j < opts.len() && !alias_matches(opts[j], a) {
        lemma_find_from(opts, a, j + 1);
    }
}

proof fn lemma_split_forms(flags: Seq<Seq<char>>)
    requires
        split_aliases(flags) is Ok,
    ensures
        ({
            let a = split_aliases(flags)->Ok_0;
            &&& (a.long.len() == 0 || is_long(a.long))
            &&& (a.short.len() == 0 || is_short(a.short))
            &&& (a.conf.len() == 0 || is_conf(a.conf))
            &&& (flags.len() > 0 ==> a.long.len() > 0 || a.short.len() > 0 || a.conf.len() > 0)
        }),
    decreases flags.len(),
{
    if flags.len() > 0 {
        lemma_split_forms(flags.drop_last());
    }
}

/// An accepted declaration keeps the registry well formed.
pub proof fn lemma_declared_wf(
    p: ParserModel,
    flags: Seq<Seq<char>>,
    info: Seq<char>,
    implicit: bool,
    value: SlotView,
)
    requires
        wf(p),
        declare_fault(p, flags) is None,
    ensures
        wf(declared(p, flags, info, implicit, value)),
{
    let q = declared(p, flags, info, implicit, value);
    let a = split_aliases(flags)->Ok_0;
    let n = p.opts.len() as int;
    lemma_split_forms(flags);
    lemma_find_from(p.opts, a.long, 0);
    lemma_find_from(p.opts, a.short, 0);
    assert(forall|k: int| 0 <= k < n ==> q.opts[k] == p.opts[k]);
    assert forall|j: int, k: int|
        0 <= j < q.opts.len() && 0 <= k < q.opts.len() && j != k && q.opts[j].flag_long.len() > 0
            implies !alias_matches(#[trigger] q.opts[k], #[trigger] q.opts[j].flag_long) by {
        if j == n {
            assert(!alias_matches(p.opts[k], a.long));
        } else if k == n {
            assert(wf_option(p.opts[j]));
            assert(!alias_matches(p.opts[j], a.long));
        }
    }
    assert forall|j: int, k: int|
        0 <= j < q.opts.len() && 0 <= k < q.opts.len() && j != k && q.opts[j].flag_short.len() > 0
            implies !alias_matches(#[trigger] q.opts[k], #[trigger] q.opts[j].flag_short) by {
        if j == n {
            assert(!alias_matches(p.opts[k], a.short));
        } else if k == n {
            assert(wf_option(p.opts[j]));
            assert(!alias_matches(p.opts[j], a.short));
        }
    }
}

/// What a declaration guarantees: the option is added, or the declaration is
/// refused for the reason `declare_fault` gives; the pending modifiers are
/// cleared either way.
pub open spec fn declare_post(
    before: ParserModel,
    after: ParserModel,
    flags: Seq<Seq<char>>,
    info: Seq<char>,
    implicit: bool,
    value: SlotView,
    r: Result<Handle, DeclareError>,
) -> bool {
    &&& (wf(before) ==> wf(after))
    &&& match declare_fault(before, flags) {
        None => r == Ok::<Handle, DeclareError>(Handle { index: before.opts.len() as usize })
            && after == declared(before, flags, info, implicit, value),
        Some(f) => r is Err && r->Err_0@ == f && after == cleared(before),
    }
}

/// The registry that `new` builds.
pub open spec fn fresh(usage: Seq<char>, version: Seq<char>) -> ParserModel {
    ParserModel {
        add_help: true,
        add_version: version.len() != 0,
        next_dest: seq![],
        next_multi: false,
        next_required: false,
        opts: seq![],
        usage,
        version,
    }
}

/// Builds an empty registry; `--version` is offered only for a non-empty
/// version string.
pub fn new(usage: &str, version: &str) -> (r: OptionParser)
    ensures
        r@ == fresh(usage@, version@),
        wf(r@),
{
    let add_version = version.unicode_len() != 0;
    let r = OptionParser {
        add_help: true,
        add_version,
        next_dest: String::new(),
        next_multi: false,
        next_required: false,
        opts: Vec::new(),
        usage: String::from_str(usage),
        version: String::from_str(version),
    };
    assert(r@.opts =~= Seq::<OptModel>::empty());
    assert(r@.next_dest =~= Seq::<char>::empty());
    r
}

fn is_long_exec(f: &str) -> (r: bool)
    ensures
        r == is_long(f@),
{
    let n = f.unicode_len();
    n >= 3 && f.get_char(0) == '-' && f.get_char(1) == '-'
}

fn is_short_exec(f: &str) -> (r: bool)
    ensures
        r == is_short(f@),
{
    let n = f.unicode_len();
    n >= 2 && f.get_char(0) == '-' && f.get_char(1) != '-'
}

fn is_conf_exec(f: &str) -> (r: bool)
    ensures
        r == is_conf(f@),
{
    let n = f.unicode_len();
    !(n >= 1 && f.get_char(0) == '-') && n >= 1 && f.get_char(n - 1) == ':'
}

impl OptionParser {
    /// The index of the first option that `a` names, if any.
    pub fn find_option(&self, a: &str) -> (r: Option<usize>)
        ensures
            match r {
                Some(j) => j < self@.opts.len() && find(self@.opts, a@) == j as int,
                None => find(self@.opts, a@) == -1,
            },
    {
        let n = self.opts.len();
        let mut j: usize = 0;
        while j < n
            invariant
                j <= n,
                n == self@.opts.len(),
                find(self@.opts, a@) == find_from(self@.opts, a@, j as int),
            decreases n - j,
        {
            let o = &self.opts[j];
            assert(self@.opts[j as int] == o@);
            let long = o.flag_long.as_str();
            let short = o.flag_short.as_str();
            let hit = (long.unicode_len() > 0 && equal_text(long, a))
                || (short.unicode_len() > 0 && equal_text(short, a));
            if hit {
                return Some(j);
            }
            j = j + 1;
        }
        None
    }

    /// The number of declared options.
    pub fn option_count(&self) -> (r: usize)
        ensures
            r == self@.opts.len(),
    {
        self.opts.len()
    }

    /// The value that the option of `h` holds.
    pub fn get(&self, h: Handle) -> (r: &Slot)
        requires
            h.index < self@.opts.len(),
        ensures
            r@ == self@.opts[h.index as int].value,
    {
        assert(self@.opts[h.index as int] == self.opts@[h.index as int]@);
        &self.opts[h.index].value
    }

    /// Every value that the option of `h` took, in order, when it is multi.
    pub fn values(&self, h: Handle) -> (r: &Vec<Slot>)
        requires
            h.index < self@.opts.len(),
        ensures
            r@.map_values(|v: Slot| v@) == self@.opts[h.index as int].values,
    {
        assert(self@.opts[h.index as int] == self.opts@[h.index as int]@);
        &self.opts[h.index].values
    }

    /// Tags the next declaration with a destination name.
    pub fn dest(&mut self, name: &str) -> (r: &mut OptionParser)
        ensures
            r@ == (ParserModel { next_dest: name@, ..old(self)@ }),
            *final(self) == *final(r),
    {
        self.next_dest = String::from_str(name);
        self
    }

    /// Marks the next declaration as taking repeated occurrences.
    pub fn multi(&mut self) -> (r: &mut OptionParser)
        ensures
            r@ == (ParserModel { next_multi: true, ..old(self)@ }),
            *final(self) == *final(r),
    {
        self.next_multi = true;
        self
    }

    /// Marks the next declaration as required.
    pub fn required(&mut self) -> (r: &mut OptionParser)
        ensures
            r@ == (ParserModel { next_required: true, ..old(self)@ }),
            *final(self) == *final(r),
    {
        self.next_required = true;
        self
    }

    fn clear_pending(&mut self)
        ensures
            final(self)@ == cleared(old(self)@),
    {
        self.next_dest = String::new();
        self.next_multi = false;
        self.next_required = false;
        assert(final(self)@.next_dest =~= Seq::<char>::empty());
    }

    /// Declares an option with the given aliases, description, kind of
    /// matching and starting value, taking the pending modifiers.
    ///
    /// An alias of no known form or one already taken is a mistake of the
    /// calling program: the declaration stops there with an error, adds
    /// nothing, and the registry's aliases stay unique.
    pub fn option(&mut self, flags: &[&str], info: &str, implicit: bool, value: Slot) -> (r: Result<
        Handle,
        DeclareError,
    >)
        ensures
            declare_post(old(self)@, final(self)@, flags_view(flags@), info@, implicit, value@, r),
    {
        let ghost fv = flags_view(flags@);
        let n = flags.len();
        if n == 0 {
            self.clear_pending();
            return Err(DeclareError::EmptyFlags);
        }
        let mut long = String::new();
        let mut short = String::new();
        let mut conf = String::new();
        let mut i: usize = 0;
        while i < n
            invariant
                i <= n,
                n == flags@.len(),
                fv == flags_view(flags@),
                self@ == old(self)@,
                split_aliases(fv.take(i as int)) == Ok::<Aliases, Seq<char>>(
                    Aliases { long: long@, short: short@, conf: conf@ },
                ),
            decreases n - i,
        {
            let f = flags[i];
            assert(fv.take(i + 1).drop_last() =~= fv.take(i as int));
            assert(fv.take(i + 1).last() == f@);
            if is_long_exec(f) {
                long = String::from_str(f);
            } else if is_short_exec(f) {
                short = String::from_str(f);
            } else if is_conf_exec(f) {
                conf = String::from_str(f);
            } else {
                proof {
                    lemma_split_error_kept(fv, i as int + 1);
                }
                self.clear_pending();
                return Err(DeclareError::InvalidFlag(String::from_str(f)));
            }
            i = i + 1;
        }
        assert(fv.take(n as int) =~= fv);
        if long.as_str().unicode_len() > 0 {
            if let Some(_) = self.find_option(long.as_str()) {
                self.clear_pending();
                return Err(DeclareError::DuplicateFlag(long));
            }
        }
        if short.as_str().unicode_len() > 0 {
            if let Some(_) = self.find_option(short.as_str()) {
                self.clear_pending();
                return Err(DeclareError::DuplicateFlag(short));
            }
        }
        let index = self.opts.len();
        let ghost before = self@;
        let required_flag = self.next_required && conf.as_str().unicode_len() == 0;
        let o = OptValue {
            conf,
            defined: false,
            dest: self.next_dest.clone(),
            flag_long: long,
            flag_short: short,
            implicit,
            info: String::from_str(info),
            multi: self.next_multi,
            required_conf: self.next_required,
            required_flag,
            value,
            values: Vec::new(),
        };
        assert(o@.values =~= Seq::<SlotView>::empty());
        assert(o@ == new_option(before, split_aliases(fv)->Ok_0, info@, implicit, value@));
        self.opts.push(o);
        self.clear_pending();
        assert(self@.opts =~= before.opts.push(o@));
        proof {
            if wf(before) {
                lemma_declared_wf(before, fv, info@, implicit, value@);
            }
        }
        Ok(Handle { index })
    }

    /// Declares a boolean switch, `false` until its flag is seen.
    pub fn bool(&mut self, flags: &[&str], info: &str) -> (r: Result<Handle, DeclareError>)
        ensures
            declare_post(old(self)@, final(self)@, flags_view(flags@), info@, true, SlotView::Bool(false), r),
    {
        self.option(flags, info, true, Slot::Bool(false))
    }

    /// Declares an `i64` option with the given default.
    pub fn i64(&mut self, flags: &[&str], info: &str, default: i64) -> (r: Result<Handle, DeclareError>)
        ensures
            declare_post(old(self)@, final(self)@, flags_view(flags@), info@, false, SlotView::I64(default), r),
    {
        self.option(flags, info, false, Slot::I64(default))
    }

    /// Declares a `u64` option with the given default.
    pub fn u64(&mut self, flags: &[&str], info: &str, default: u64) -> (r: Result<Handle, DeclareError>)
        ensures
            declare_post(old(self)@, final(self)@, flags_view(flags@), info@, false, SlotView::U64(default), r),
    {
        self.option(flags, info, false, Slot::U64(default))
    }

    /// Declares a machine-width signed option with the given default.
    pub fn isize(&mut self, flags: &[&str], info: &str, default: isize) -> (r: Result<Handle, DeclareError>)
        ensures
            declare_post(old(self)@, final(self)@, flags_view(flags@), info@, false, SlotView::Int(default), r),
    {
        self.option(flags, info, false, Slot::Int(default))
    }

    /// Declares a machine-width unsigned option with the given default.
    pub fn usize(&mut self, flags: &[&str], info: &str, default: usize) -> (r: Result<Handle, DeclareError>)
        ensures
            declare_post(old(self)@, final(self)@, flags_view(flags@), info@, false, SlotView::Uint(default), r),
    {
        self.option(flags, info, false, Slot::Uint(default))
    }

    /// Declares a string option with the given default.
    pub fn str(&mut self, flags: &[&str], info: &str, default: &str) -> (r: Result<Handle, DeclareError>)
        ensures
            declare_post(old(self)@, final(self)@, flags_view(flags@), info@, false, SlotView::Str(default@), r),
    {
        self.option(flags, info, false, Slot::Str(String::from_str(default)))
    }

    /// Declares an option with a single alias.
    fn single(&mut self, flag: &str, info: &str, implicit: bool, value: Slot) -> (r: Result<
        Handle,
        DeclareError,
    >)
        ensures
            declare_post(old(self)@, final(self)@, seq![flag@], info@, implicit, value@, r),
    {
        let flags: [&str; 1] = [flag];
        let slice = flags.as_slice();
        assert(flags_view(slice@) =~= seq![flag@]);
        self.option(slice, info, implicit, value)
    }

    /// Declares a boolean switch with a single alias.
    pub fn bool_flag(&mut self, flag: &str, info: &str) -> (r: Result<Handle, DeclareError>)
        ensures
            declare_post(old(self)@, final(self)@, seq![flag@], info@, true, SlotView::Bool(false), r),
    {
        let value = Slot::Bool(false);
        assert(value@ == SlotView::Bool(false));
        self.single(flag, info, true, value)
    }

    /// Declares an `i64` option starting at zero with a single alias.
    pub fn i64_flag(&mut self, flag: &str, info: &str) -> (r: Result<Handle, DeclareError>)
        ensures
            declare_post(old(self)@, final(self)@, seq![flag@], info@, false, SlotView::I64(0), r),
    {
        let value = Slot::I64(0);
        assert(value@ == SlotView::I64(0));
        self.single(flag, info, false, value)
    }

    /// Declares a `u64` option starting at zero with a single alias.
    pub fn u64_flag(&mut self, flag: &str, info: &str) -> (r: Result<Handle, DeclareError>)
        ensures
            declare_post(old(self)@, final(self)@, seq![flag@], info@, false, SlotView::U64(0), r),
    {
        let value = Slot::U64(0);
        assert(value@ == SlotView::U64(0));
        self.single(flag, info, false, value)
    }

    /// Declares a machine-width signed option starting at zero with a single alias.
    pub fn isize_flag(&mut self, flag: &str, info: &str) -> (r: Result<Handle, DeclareError>)
        ensures
            declare_post(old(self)@, final(self)@, seq![flag@], info@, false, SlotView::Int(0), r),
    {
        let value = Slot::Int(0);
        assert(value@ == SlotView::Int(0));
        self.single(flag, info, false, value)
    }

    /// Declares a machine-width unsigned option starting at zero with a single alias.
    pub fn usize_flag(&mut self, flag: &str, info: &str) -> (r: Result<Handle, DeclareError>)
        ensures
            declare_post(old(self)@, final(self)@, seq![flag@], info@, false, SlotView::Uint(0), r),
    {
        let value = Slot::Uint(0);
        assert(value@ == SlotView::Uint(0));
        self.single(flag, info, false, value)
    }

    /// Declares a string option starting empty with a single alias.
    pub fn str_flag(&mut self, flag: &str, info: &str) -> (r: Result<Handle, DeclareError>)
        ensures
            declare_post(old(self)@, final(self)@, seq![flag@], info@, false, SlotView::Str(seq![]), r),
    {
        let value = Slot::Str(String::new());
        assert(value@ == SlotView::Str(seq![]));
        self.single(flag, info, false, value)
    }
}

/// Once a prefix of the aliases holds one of no known form, so does the whole.
proof fn lemma_split_error_kept(flags: Seq<Seq<char>>, k: int)
    requires
        0 <= k <= flags.len(),
        split_aliases(flags.take(k)) is Err,
    ensures
        split_aliases(flags) == split_aliases(flags.take(k)),
    decreases flags.len() - k,
{
    if k < flags.len() {
        assert(flags.take(k + 1).drop_last() =~= flags.take(k));
        lemma_split_error_kept(flags, k + 1);
    } else {
        assert(flags.take(k) =~= flags);
    }
}

/// Whether two strings hold the same characters.
pub fn equal_text(a: &str, b: &str) -> (r: bool)
    ensures
        r == (a@ == b@),
{
    let n = a.unicode_len();
    if n != b.unicode_len() {
        return false;
    }
    let mut i: usize = 0;
    while i < n
        invariant
            i <= n,
            n == a@.len(),
            n == b@.len(),
            a@.take(i as int) == b@.take(i as int),
        decreases n - i,
    {
        if a.get_char(i) != b.get_char(i) {
            return false;
        }
        assert(a@.take(i + 1) =~= a@.take(i as int).push(a@[i as int]));
        assert(b@.take(i + 1) =~= b@.take(i as int).push(b@[i as int]));
        i = i + 1;
    }
    assert(a@.take(n as int) =~= a@);
    assert(b@.take(n as int) =~= b@);
    true
}

} // verus!
