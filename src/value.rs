use vstd::prelude::*;

verus! {

/// The scalar kinds an option can hold.
#[derive(PartialEq, Eq, Structural, Clone, Copy, Debug)]
pub enum Kind {
    Bool,
    I64,
    U64,
    Int,
    Uint,
    Str,
}

/// A decimal digit.
pub open spec fn is_digit(c: char) -> bool {
    '0' <= c && c <= '9'
}

pub open spec fn digit_value(c: char) -> int {
    c as int - '0' as int
}

pub open spec fn all_digits(s: Seq<char>) -> bool {
    forall|i: int| 0 <= i < s.len() ==> is_digit(#[trigger] s[i])
}

/// The number written by a sequence of decimal digits.
pub open spec fn digits_value(s: Seq<char>) -> nat
    decreases s.len(),
{
    if s.len() == 0 {
        0
    } else {
        (digits_value(s.drop_last()) * 10 + digit_value(s.last())) as nat
    }
}

/// The integer that `s` writes in base ten: an optional sign (`+`, or `-` when
/// `signed`), then at least one digit.
pub open spec fn decimal(s: Seq<char>, signed: bool) -> Option<int> {
    let has_sign = s.len() > 0 && (s[0] == '+' || (signed && s[0] == '-'));
    let body = if has_sign { s.drop_first() } else { s };
    if body.len() > 0 && all_digits(body) {
        if has_sign && s[0] == '-' {
            Some(-digits_value(body))
        } else {
            Some(digits_value(body) as int)
        }
    } else {
        None
    }
}

/// The decimal text of a natural number, without leading zeros.
pub open spec fn digits_of(n: nat) -> Seq<char>
    decreases n,
{
    if n < 10 {
        seq![(('0' as nat) + n) as char]
    } else {
        digits_of(n / 10) + seq![(('0' as nat) + n % 10) as char]
    }
}

/// The decimal text of an integer, with `-` before a negative one.
pub open spec fn int_text(n: int) -> Seq<char> {
    if n < 0 {
        seq!['-'] + digits_of((-n) as nat)
    } else {
        digits_of(n as nat)
    }
}

proof fn lemma_digits_value_monotone(s: Seq<char>, k: int)
    requires
        0 <= k <= s.len(),
        all_digits(s),
    ensures
        digits_value(s.take(k)) <= digits_value(s),
    decreases s.len(),
{
    if k < s.len() {
        let t = s.drop_last();
        assert(all_digits(t)) by {
            assert forall|i: int| 0 <= i < t.len() implies is_digit(#[trigger] t[i]) by {
                assert(t[i] == s[i]);
            }
        }
        lemma_digits_value_monotone(t, k);
        assert(t.take(k) =~= s.take(k));
        assert(is_digit(s[s.len() - 1]));
    } else {
        assert(s.take(k) =~= s);
    }
}

/// Reads the digits of `s` from position `start` to its end as a number that
/// fits in `u64`.
fn parse_magnitude(s: &str, start: usize) -> (r: Option<u64>)
    requires
        start <= s@.len(),
    ensures
        r == (if start < s@.len() && all_digits(s@.subrange(start as int, s@.len() as int))
            && digits_value(s@.subrange(start as int, s@.len() as int)) <= u64::MAX {
            Some(digits_value(s@.subrange(start as int, s@.len() as int)) as u64)
        } else {
            None::<u64>
        }),
{
    let n = s.unicode_len();
    if start >= n {
        return None;
    }
    let ghost body = s@.subrange(start as int, s@.len() as int);
    let mut acc: u64 = 0;
    let mut i: usize = start;
    while i < n
        invariant
            start <= i <= n,
            n == s@.len(),
            body == s@.subrange(start as int, s@.len() as int),
            all_digits(body.take(i - start)),
            acc as nat == digits_value(body.take(i - start)),
        decreases n - i,
    {
        let c = s.get_char(i);
        let ghost k = i - start;
        assert(body[k] == c);
        if c < '0' || c > '9' {
            assert(!all_digits(body)) by {
                assert(!is_digit(body[k]));
            }
            return None;
        }
        let d: u64 = (c as u32 - '0' as u32) as u64;
        assert(body.take(k + 1).drop_last() =~= body.take(k));
        assert(body.take(k + 1).last() == c);
        if acc > (u64::MAX - d) / 10 {
            proof {
                assert(acc * 10 + d > u64::MAX) by (nonlinear_arith)
                    requires
                        acc > (u64::MAX - d) / 10,
                        d <= 9,
                ;
                if all_digits(body) {
                    lemma_digits_value_monotone(body, k + 1);
                }
            }
            return None;
        }
        assert(acc * 10 + d <= u64::MAX) by (nonlinear_arith)
            requires
                acc <= (u64::MAX - d) / 10,
                d <= 9,
        ;
        assert(all_digits(body.take(k + 1))) by {
            assert forall|j: int| 0 <= j < k + 1 implies is_digit(#[trigger] body.take(k + 1)[j]) by {
                if j < k {
                    assert(body.take(k + 1)[j] == body.take(k)[j]);
                }
            }
        }
        acc = acc * 10 + d;
        i = i + 1;
    }
    assert(body.take(i - start) =~= body);
    Some(acc)
}

/// Parses a base-ten `u64`.
pub fn parse_u64(s: &str) -> (r: Option<u64>)
    ensures
        r == (match decimal(s@, false) {
            Some(v) => if 0 <= v <= u64::MAX { Some(v as u64) } else { None::<u64> },
            None => None::<u64>,
        }),
{
    let n = s.unicode_len();
    let start: usize = if n > 0 && s.get_char(0) == '+' { 1 } else { 0 };
    proof {
        if start == 1 {
            assert(s@.drop_first() =~= s@.subrange(1, s@.len() as int));
        } else {
            assert(s@ =~= s@.subrange(0, s@.len() as int));
        }
    }
    parse_magnitude(s, start)
}

/// Parses a base-ten `i64`.
pub fn parse_i64(s: &str) -> (r: Option<i64>)
    ensures
        r == (match decimal(s@, true) {
            Some(v) => if i64::MIN <= v <= i64::MAX { Some(v as i64) } else { None::<i64> },
            None => None::<i64>,
        }),
{
    let n = s.unicode_len();
    let first = if n > 0 { s.get_char(0) } else { ' ' };
    let start: usize = if n > 0 && (first == '+' || first == '-') { 1 } else { 0 };
    proof {
        if start == 1 {
            assert(s@.drop_first() =~= s@.subrange(1, s@.len() as int));
        } else {
            assert(s@ =~= s@.subrange(0, s@.len() as int));
        }
    }
    match parse_magnitude(s, start) {
        None => None,
        Some(m) => {
            if start == 1 && first == '-' {
                if m <= 9223372036854775807 {
                    Some(-(m as i64))
                } else if m == 9223372036854775808 {
                    Some(i64::MIN)
                } else {
                    None
                }
            } else if m <= 9223372036854775807 {
                Some(m as i64)
            } else {
                None
            }
        },
    }
}

/// Parses a base-ten `usize`.
pub fn parse_usize(s: &str) -> (r: Option<usize>)
    ensures
        r == (match decimal(s@, false) {
            Some(v) => if 0 <= v <= usize::MAX { Some(v as usize) } else { None::<usize> },
            None => None::<usize>,
        }),
{
    match parse_u64(s) {
        None => None,
        Some(m) => {
            if m <= usize::MAX as u64 {
                Some(m as usize)
            } else {
                None
            }
        },
    }
}

/// Parses a base-ten `isize`.
pub fn parse_isize(s: &str) -> (r: Option<isize>)
    ensures
        r == (match decimal(s@, true) {
            Some(v) => if isize::MIN <= v <= isize::MAX { Some(v as isize) } else { None::<isize> },
            None => None::<isize>,
        }),
{
    match parse_i64(s) {
        None => None,
        Some(m) => {
            if isize::MIN as i64 <= m && m <= isize::MAX as i64 {
                Some(m as isize)
            } else {
                None
            }
        },
    }
}


fn digit_text(d: u64) -> (r: &'static str)
    requires
        d < 10,
    ensures
        r@ == seq![(('0' as nat) + d) as char],
{
    proof {
        reveal_strlit("0");
        reveal_strlit("1");
        reveal_strlit("2");
        reveal_strlit("3");
        reveal_strlit("4");
        reveal_strlit("5");
        reveal_strlit("6");
        reveal_strlit("7");
        reveal_strlit("8");
        reveal_strlit("9");
    }
    if d == 0 {
        "0"
    } else if d == 1 {
        "1"
    } else if d == 2 {
        "2"
    } else if d == 3 {
        "3"
    } else if d == 4 {
        "4"
    } else if d == 5 {
        "5"
    } else if d == 6 {
        "6"
    } else if d == 7 {
        "7"
    } else if d == 8 {
        "8"
    } else {
        "9"
    }
}

/// Writes a natural number in base ten.
pub fn render_u64(n: u64) -> (r: String)
    ensures
        r@ == digits_of(n as nat),
    decreases n,
{
    if n < 10 {
        String::from_str(digit_text(n))
    } else {
        let mut s = render_u64(n / 10);
        s.append(digit_text(n % 10));
        s
    }
}

/// Writes an integer in base ten.
pub fn render_i64(n: i64) -> (r: String)
    ensures
        r@ == int_text(n as int),
{
    if n < 0 {
        let m: u64 = if n == i64::MIN {
            9223372036854775808
        } else {
            (-n) as u64
        };
        let s = String::from_str("-");
        proof {
            reveal_strlit("-");
        }
        s.concat(render_u64(m).as_str())
    } else {
        render_u64(n as u64)
    }
}

/// A value that an option holds, and the way a raw token changes it.
pub trait Value: View + Sized {
    /// The value after taking `raw`, or `None` where `raw` does not convert.
    spec fn after_set(&self, raw: Seq<char>) -> Option<Self::V>;

    /// The display text of the value.
    spec fn text(&self) -> Seq<char>;

    /// How the kind of the value is named in a failure message.
    spec fn kind_name(&self) -> Seq<char>;

    /// Takes a raw token. On failure the value stays and the message names the
    /// token and the kind.
    fn set(&mut self, raw: &str) -> (r: Option<String>)
        ensures
            match old(self).after_set(raw@) {
                Some(v) => r is None && final(self)@ == v,
                None => r is Some && r->Some_0@ == failure_message(raw@, old(self).kind_name())
                    && final(self)@ == old(self)@,
            },
    ;

    /// The display text of the value.
    fn string(&self) -> (r: String)
        ensures
            r@ == self.text(),
    ;
}

/// How each kind is named in a failure message.
pub open spec fn kind_label(k: Kind) -> Seq<char> {
    match k {
        Kind::Bool => "a bool"@,
        Kind::I64 => "an i64"@,
        Kind::U64 => "a u64"@,
        Kind::Int => "an int"@,
        Kind::Uint => "a uint"@,
        Kind::Str => "a str"@,
    }
}

/// The message for a token that does not convert: it names the token and the
/// kind.
pub open spec fn failure_message(raw: Seq<char>, kind: Seq<char>) -> Seq<char> {
    "strconv: unable to convert "@ + raw + " to "@ + kind
}

/// The message for a token that does not convert to `target`.
fn failure(raw: &str, target: &str) -> (r: String)
    ensures
        r@ == failure_message(raw@, target@),
{
    let s = String::from_str("strconv: unable to convert ");
    let s = s.concat(raw);
    let s = s.concat(" to ");
    s.concat(target)
}

impl Value for bool {
    open spec fn after_set(&self, raw: Seq<char>) -> Option<bool> {
        if raw.len() != 0 {
            Some(true)
        } else {
            Some(*self)
        }
    }

    open spec fn kind_name(&self) -> Seq<char> {
        kind_label(Kind::Bool)
    }

    open spec fn text(&self) -> Seq<char> {
        if *self {
            seq!['t', 'r', 'u', 'e']
        } else {
            seq!['f', 'a', 'l', 's', 'e']
        }
    }

    fn set(&mut self, raw: &str) -> (r: Option<String>) {
        if raw.unicode_len() != 0 {
            *self = true;
        }
        None
    }

    fn string(&self) -> (r: String) {
        proof {
            reveal_strlit("true");
            reveal_strlit("false");
        }
        if *self {
            String::from_str("true")
        } else {
            String::from_str("false")
        }
    }
}

impl Value for i64 {
    open spec fn after_set(&self, raw: Seq<char>) -> Option<i64> {
        match decimal(raw, true) {
            Some(v) => if i64::MIN <= v <= i64::MAX { Some(v as i64) } else { None },
            None => None,
        }
    }

    open spec fn kind_name(&self) -> Seq<char> {
        kind_label(Kind::I64)
    }

    open spec fn text(&self) -> Seq<char> {
        int_text(*self as int)
    }

    fn set(&mut self, raw: &str) -> (r: Option<String>) {
        match parse_i64(raw) {
            Some(x) => {
                *self = x;
                None
            },
            None => Some(failure(raw, "an i64")),
        }
    }

    fn string(&self) -> (r: String) {
        render_i64(*self)
    }
}

impl Value for u64 {
    open spec fn after_set(&self, raw: Seq<char>) -> Option<u64> {
        match decimal(raw, false) {
            Some(v) => if 0 <= v <= u64::MAX { Some(v as u64) } else { None },
            None => None,
        }
    }

    open spec fn kind_name(&self) -> Seq<char> {
        kind_label(Kind::U64)
    }

    open spec fn text(&self) -> Seq<char> {
        digits_of(*self as nat)
    }

    fn set(&mut self, raw: &str) -> (r: Option<String>) {
        match parse_u64(raw) {
            Some(x) => {
                *self = x;
                None
            },
            None => Some(failure(raw, "a u64")),
        }
    }

    fn string(&self) -> (r: String) {
        render_u64(*self)
    }
}

impl Value for isize {
    open spec fn after_set(&self, raw: Seq<char>) -> Option<isize> {
        match decimal(raw, true) {
            Some(v) => if isize::MIN <= v <= isize::MAX { Some(v as isize) } else { None },
            None => None,
        }
    }

    open spec fn kind_name(&self) -> Seq<char> {
        kind_label(Kind::Int)
    }

    open spec fn text(&self) -> Seq<char> {
        int_text(*self as int)
    }

    fn set(&mut self, raw: &str) -> (r: Option<String>) {
        match parse_isize(raw) {
            Some(x) => {
                *self = x;
                None
            },
            None => Some(failure(raw, "an int")),
        }
    }

    fn string(&self) -> (r: String) {
        render_i64(*self as i64)
    }
}

impl Value for usize {
    open spec fn after_set(&self, raw: Seq<char>) -> Option<usize> {
        match decimal(raw, false) {
            Some(v) => if 0 <= v <= usize::MAX { Some(v as usize) } else { None },
            None => None,
        }
    }

    open spec fn kind_name(&self) -> Seq<char> {
        kind_label(Kind::Uint)
    }

    open spec fn text(&self) -> Seq<char> {
        digits_of(*self as nat)
    }

    fn set(&mut self, raw: &str) -> (r: Option<String>) {
        match parse_usize(raw) {
            Some(x) => {
                *self = x;
                None
            },
            None => Some(failure(raw, "a uint")),
        }
    }

    fn string(&self) -> (r: String) {
        render_u64(*self as u64)
    }
}

impl Value for String {
    open spec fn after_set(&self, raw: Seq<char>) -> Option<Seq<char>> {
        Some(raw)
    }

    open spec fn kind_name(&self) -> Seq<char> {
        kind_label(Kind::Str)
    }

    open spec fn text(&self) -> Seq<char> {
        seq!['"'] + self@ + seq!['"']
    }

    fn set(&mut self, raw: &str) -> (r: Option<String>) {
        *self = String::from_str(raw);
        None
    }

    fn string(&self) -> (r: String) {
        proof {
            reveal_strlit("\"");
        }
        let s = String::from_str("\"");
        let s = s.concat(self.as_str());
        s.concat("\"")
    }
}


/// A value of one of the supported kinds, as an option holds it.
#[derive(Debug, PartialEq, Clone)]
pub enum Slot {
    Bool(bool),
    I64(i64),
    U64(u64),
    Int(isize),
    Uint(usize),
    Str(String),
}

/// What a [`Slot`] holds, with strings as character sequences.
pub enum SlotView {
    Bool(bool),
    I64(i64),
    U64(u64),
    Int(isize),
    Uint(usize),
    Str(Seq<char>),
}

impl View for Slot {
    type V = SlotView;

    open spec fn view(&self) -> SlotView {
        match self {
            Slot::Bool(b) => SlotView::Bool(*b),
            Slot::I64(x) => SlotView::I64(*x),
            Slot::U64(x) => SlotView::U64(*x),
            Slot::Int(x) => SlotView::Int(*x),
            Slot::Uint(x) => SlotView::Uint(*x),
            Slot::Str(s) => SlotView::Str(s@),
        }
    }
}

pub open spec fn kind_of(v: SlotView) -> Kind {
    match v {
        SlotView::Bool(_) => Kind::Bool,
        SlotView::I64(_) => Kind::I64,
        SlotView::U64(_) => Kind::U64,
        SlotView::Int(_) => Kind::Int,
        SlotView::Uint(_) => Kind::Uint,
        SlotView::Str(_) => Kind::Str,
    }
}

/// The value after taking `raw`, keeping the kind; `None` where `raw` does not
/// convert to it.
pub open spec fn slot_after_set(v: SlotView, raw: Seq<char>) -> Option<SlotView> {
    match v {
        SlotView::Bool(b) => match b.after_set(raw) {
            Some(x) => Some(SlotView::Bool(x)),
            None => None,
        },
        SlotView::I64(n) => match n.after_set(raw) {
            Some(x) => Some(SlotView::I64(x)),
            None => None,
        },
        SlotView::U64(n) => match n.after_set(raw) {
            Some(x) => Some(SlotView::U64(x)),
            None => None,
        },
        SlotView::Int(n) => match n.after_set(raw) {
            Some(x) => Some(SlotView::Int(x)),
            None => None,
        },
        SlotView::Uint(n) => match n.after_set(raw) {
            Some(x) => Some(SlotView::Uint(x)),
            None => None,
        },
        SlotView::Str(_) => Some(SlotView::Str(raw)),
    }
}

pub open spec fn slot_text(v: SlotView) -> Seq<char> {
    match v {
        SlotView::Bool(b) => b.text(),
        SlotView::I64(n) => n.text(),
        SlotView::U64(n) => n.text(),
        SlotView::Int(n) => n.text(),
        SlotView::Uint(n) => n.text(),
        SlotView::Str(s) => seq!['"'] + s + seq!['"'],
    }
}

impl Slot {
    /// The kind of the value.
    pub fn kind(&self) -> (r: Kind)
        ensures
            r == kind_of(self@),
    {
        match self {
            Slot::Bool(_) => Kind::Bool,
            Slot::I64(_) => Kind::I64,
            Slot::U64(_) => Kind::U64,
            Slot::Int(_) => Kind::Int,
            Slot::Uint(_) => Kind::Uint,
            Slot::Str(_) => Kind::Str,
        }
    }

    /// A copy of the value.
    pub fn duplicate(&self) -> (r: Slot)
        ensures
            r@ == self@,
    {
        match self {
            Slot::Bool(b) => Slot::Bool(*b),
            Slot::I64(x) => Slot::I64(*x),
            Slot::U64(x) => Slot::U64(*x),
            Slot::Int(x) => Slot::Int(*x),
            Slot::Uint(x) => Slot::Uint(*x),
            Slot::Str(s) => Slot::Str(s.clone()),
        }
    }
}

impl Value for Slot {
    open spec fn after_set(&self, raw: Seq<char>) -> Option<SlotView> {
        slot_after_set(self@, raw)
    }

    open spec fn kind_name(&self) -> Seq<char> {
        kind_label(kind_of(self@))
    }

    open spec fn text(&self) -> Seq<char> {
        slot_text(self@)
    }

    fn set(&mut self, raw: &str) -> (r: Option<String>) {
        match self {
            Slot::Bool(b) => b.set(raw),
            Slot::I64(x) => x.set(raw),
            Slot::U64(x) => x.set(raw),
            Slot::Int(x) => x.set(raw),
            Slot::Uint(x) => x.set(raw),
            Slot::Str(s) => s.set(raw),
        }
    }

    fn string(&self) -> (r: String) {
        match self {
            Slot::Bool(b) => b.string(),
            Slot::I64(x) => x.string(),
            Slot::U64(x) => x.string(),
            Slot::Int(x) => x.string(),
            Slot::Uint(x) => x.string(),
            Slot::Str(s) => s.string(),
        }
    }
}

} // verus!
