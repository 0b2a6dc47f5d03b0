use vstd::prelude::*;
use vstd::string::StrSliceExecFns;
use vstd::string::StringExecFns;

verus! {

/// The characters of `s`, one by one.
pub fn str_chars(s: &str) -> (v: Vec<char>)
    ensures
        v@ == s@,
{
    broadcast use vstd::string::axiom_spec_iter;

    let mut v: Vec<char> = Vec::new();
    for c in it: s.chars()
        invariant
            v@ == it.seq().take(it.index() as int),
            it.seq() == s@,
    {
        v.push(c);
    }
    v
}

// ---------------------------------------------------------------------------
// Decimal numbers
// ---------------------------------------------------------------------------

pub open spec fn is_digit(c: char) -> bool {
    '0' <= c <= '9'
}

pub open spec fn digit_value(c: char) -> int {
    c as int - '0' as int
}

pub open spec fn all_digits(s: Seq<char>) -> bool {
    forall|i: int| 0 <= i < s.len() ==> is_digit(#[trigger] s[i])
}

/// The value of a string of decimal digits.
pub open spec fn digits_value(s: Seq<char>) -> int
    decreases s.len(),
{
    if s.len() == 0 {
        0
    } else {
        digits_value(s.drop_last()) * 10 + digit_value(s.last())
    }
}

/// The integer that `s` spells, as the standard library parses it: an
/// optional sign (a minus only where `signed`), then one or more decimal
/// digits and nothing else.
pub open spec fn spec_parse_int(s: Seq<char>, signed: bool) -> Option<int> {
    if s.len() == 0 {
        None
    } else if s[0] == '-' && signed {
        let r = s.drop_first();
        if r.len() > 0 && all_digits(r) {
            Some(-digits_value(r))
        } else {
            None
        }
    } else if s[0] == '+' {
        let r = s.drop_first();
        if r.len() > 0 && all_digits(r) {
            Some(digits_value(r))
        } else {
            None
        }
    } else if all_digits(s) {
        Some(digits_value(s))
    } else {
        None
    }
}

/// What `s.parse::<i32>()` gives: the integer `s` spells if it fits.
pub open spec fn spec_parse_i32(s: Seq<char>) -> Option<i32> {
    match spec_parse_int(s, true) {
        Some(v) => if i32::MIN <= v <= i32::MAX {
            Some(v as i32)
        } else {
            None
        },
        None => None,
    }
}

/// What `s.parse::<usize>()` gives: the natural number `s` spells if it fits.
pub open spec fn spec_parse_usize(s: Seq<char>) -> Option<usize> {
    match spec_parse_int(s, false) {
        Some(v) => if 0 <= v <= usize::MAX {
            Some(v as usize)
        } else {
            None
        },
        None => None,
    }
}

proof fn lemma_digits_value_nonneg(s: Seq<char>)
    requires
        all_digits(s),
    ensures
        digits_value(s) >= 0,
    decreases s.len(),
{
    if s.len() > 0 {
        assert(is_digit(s[s.len() - 1]));
        lemma_digits_value_nonneg(s.drop_last());
    }
}

/// A string of digits spells at least as much as any of its prefixes.
proof fn lemma_digits_value_prefix(s: Seq<char>, k: int)
    requires
        all_digits(s),
        0 <= k <= s.len(),
    ensures
        digits_value(s.take(k)) <= digits_value(s),
    decreases s.len(),
{
    if k < s.len() {
        let d = s.drop_last();
        assert(d.take(k) == s.take(k));
        assert(is_digit(s[s.len() - 1]));
        lemma_digits_value_nonneg(d);
        lemma_digits_value_prefix(d, k);
    } else {
        assert(s.take(k) == s);
    }
}

/// Reads the digits `s[from..to]` as a number no greater than `limit`:
/// `None` when one of them is not a digit or the number is greater.
fn parse_digits(s: &[char], from: usize, to: usize, limit: u64) -> (r: Option<u64>)
    requires
        from <= to <= s@.len(),
    ensures
        match r {
            Some(v) => all_digits(s@.subrange(from as int, to as int)) && v == digits_value(
                s@.subrange(from as int, to as int),
            ) && v <= limit,
            None => !(all_digits(s@.subrange(from as int, to as int)) && digits_value(
                s@.subrange(from as int, to as int),
            ) <= limit),
        },
{
    let ghost sub = s@.subrange(from as int, to as int);
    let mut value: u64 = 0;
    let mut i: usize = from;
    while i < to
        invariant
            from <= i <= to <= s@.len(),
            sub == s@.subrange(from as int, to as int),
            all_digits(sub.take(i - from)),
            value == digits_value(sub.take(i - from)),
            value <= limit,
        decreases to - i,
    {
        let c = s[i];
        proof {
            assert(sub.take(i - from + 1).drop_last() == sub.take(i - from));
            assert(sub[i - from] == c);
        }
        if !('0' <= c && c <= '9') {
            proof {
                assert(!is_digit(sub[i - from]));
            }
            return None;
        }
        let d = (c as u32 - '0' as u32) as u64;
        proof {
            assert(digits_value(sub.take(i - from + 1)) == value * 10 + d);
            assert(all_digits(sub.take(i - from + 1)));
        }
        if d > limit || value > (limit - d) / 10 {
            proof {
                if d <= limit {
                    let (v, l) = (value as int, (limit - d) as int);
                    assert(v * 10 > l) by (nonlinear_arith)
                        requires
                            v > l / 10,
                            l >= 0,
                    ;
                }
                if all_digits(sub) {
                    lemma_digits_value_prefix(sub, i - from + 1);
                }
            }
            return None;
        }
        proof {
            let (v, l) = (value as int, (limit - d) as int);
            assert(v * 10 <= l) by (nonlinear_arith)
                requires
                    v <= l / 10,
                    l >= 0,
            ;
        }
        value = value * 10 + d;
        i = i + 1;
    }
    proof {
        assert(sub.take(to - from) == sub);
    }
    Some(value)
}

/// Parses `s[from..to]` as an `i32`, as `str::parse::<i32>` does.
pub fn parse_i32(s: &[char], from: usize, to: usize) -> (r: Option<i32>)
    requires
        from <= to <= s@.len(),
    ensures
        r == spec_parse_i32(s@.subrange(from as int, to as int)),
{
    let ghost sub = s@.subrange(from as int, to as int);
    if from == to {
        return None;
    }
    let c = s[from];
    let negative = c == '-';
    let start = if c == '-' || c == '+' {
        from + 1
    } else {
        from
    };
    proof {
        assert(sub[0] == c);
        if start == from + 1 {
            assert(sub.drop_first() == s@.subrange(start as int, to as int));
        } else {
            assert(sub == s@.subrange(start as int, to as int));
        }
    }
    if start == to {
        return None;
    }
    let limit: u64 = if negative {
        2147483648
    } else {
        2147483647
    };
    match parse_digits(s, start, to, limit) {
        Some(v) => {
            if negative {
                Some((0i64 - v as i64) as i32)
            } else {
                Some(v as i32)
            }
        },
        None => {
            proof {
                let r = s@.subrange(start as int, to as int);
                if all_digits(r) {
                    lemma_digits_value_nonneg(r);
                }
            }
            None
        },
    }
}

/// Parses `s[from..to]` as a `usize`, as `str::parse::<usize>` does.
pub fn parse_usize(s: &[char], from: usize, to: usize) -> (r: Option<usize>)
    requires
        from <= to <= s@.len(),
    ensures
        r == spec_parse_usize(s@.subrange(from as int, to as int)),
{
    let ghost sub = s@.subrange(from as int, to as int);
    if from == to {
        return None;
    }
    let c = s[from];
    let start = if c == '+' {
        from + 1
    } else {
        from
    };
    proof {
        assert(sub[0] == c);
        if start == from + 1 {
            assert(sub.drop_first() == s@.subrange(start as int, to as int));
        } else {
            assert(sub == s@.subrange(start as int, to as int));
        }
    }
    if start == to {
        return None;
    }
    match parse_digits(s, start, to, usize::MAX as u64) {
        Some(v) => Some(v as usize),
        None => {
            proof {
                let r = s@.subrange(start as int, to as int);
                if all_digits(r) {
                    lemma_digits_value_nonneg(r);
                }
            }
            None
        },
    }
}

// ---------------------------------------------------------------------------
// Splitting
// ---------------------------------------------------------------------------

/// The index of the first `c` in `s`, or the length of `s` when there is none.
pub open spec fn first_at(s: Seq<char>, c: char) -> int
    decreases s.len(),
{
    if s.len() == 0 {
        0
    } else if s[0] == c {
        0
    } else {
        1 + first_at(s.drop_first(), c)
    }
}

/// The part of `s` before its first `c` (all of `s` when there is none).
pub open spec fn before_first(s: Seq<char>, c: char) -> Seq<char> {
    s.take(first_at(s, c))
}

/// The part of `s` after its first `c` (nothing when there is none).
pub open spec fn after_first(s: Seq<char>, c: char) -> Seq<char> {
    if first_at(s, c) < s.len() {
        s.skip(first_at(s, c) + 1)
    } else {
        Seq::empty()
    }
}

/// `first_at` is the first place of `c`.
pub proof fn lemma_first_at(s: Seq<char>, c: char)
    ensures
        0 <= first_at(s, c) <= s.len(),
        first_at(s, c) < s.len() ==> s[first_at(s, c)] == c,
        forall|j: int| 0 <= j < first_at(s, c) ==> s[j] != c,
    decreases s.len(),
{
    if s.len() > 0 && s[0] != c {
        lemma_first_at(s.drop_first(), c);
        assert forall|j: int| 0 <= j < first_at(s, c) implies s[j] != c by {
            if j > 0 {
                assert(s[j] == s.drop_first()[j - 1]);
            }
        }
    }
}

/// The first place of `c` is unique.
proof fn lemma_first_at_unique(s: Seq<char>, c: char, k: int)
    requires
        0 <= k <= s.len(),
        k < s.len() ==> s[k] == c,
        forall|j: int| 0 <= j < k ==> s[j] != c,
    ensures
        first_at(s, c) == k,
    decreases s.len(),
{
    if s.len() > 0 && k > 0 {
        assert(s[0] != c);
        assert forall|j: int| 0 <= j < k - 1 implies s.drop_first()[j] != c by {
            assert(s.drop_first()[j] == s[j + 1]);
        }
        lemma_first_at_unique(s.drop_first(), c, k - 1);
    }
}

/// The index of the first `c` in `s[from..to]`, or `to` when there is none.
fn find_char(s: &[char], from: usize, to: usize, c: char) -> (k: usize)
    requires
        from <= to <= s@.len(),
    ensures
        from <= k <= to,
        k - from == first_at(s@.subrange(from as int, to as int), c),
{
    let ghost sub = s@.subrange(from as int, to as int);
    let mut i = from;
    while i < to
        invariant
            from <= i <= to <= s@.len(),
            sub == s@.subrange(from as int, to as int),
            forall|j: int| 0 <= j < i - from ==> sub[j] != c,
        decreases to - i,
    {
        if s[i] == c {
            proof {
                assert(sub[i - from] == c);
                lemma_first_at_unique(sub, c, i - from);
            }
            return i;
        }
        proof {
            assert(sub[i - from] != c);
        }
        i = i + 1;
    }
    proof {
        lemma_first_at_unique(sub, c, to - from);
    }
    to
}

/// Whether `s[from..to]` is the single char `c`.
fn range_is1(s: &[char], from: usize, to: usize, c: char) -> (b: bool)
    requires
        from <= to <= s@.len(),
    ensures
        b == (s@.subrange(from as int, to as int) == seq![c]),
{
    let b = to - from == 1 && s[from] == c;
    proof {
        if to - from == 1 && s@[from as int] == c {
            assert(s@.subrange(from as int, to as int) =~= seq![c]);
        } else if to - from == 1 {
            assert(s@.subrange(from as int, to as int)[0] != seq![c][0]);
        } else {
            assert(s@.subrange(from as int, to as int).len() != seq![c].len());
        }
    }
    b
}

/// Whether `s[from..to]` is the three chars `c0 c1 c2`.
fn range_is3(s: &[char], from: usize, to: usize, c0: char, c1: char, c2: char) -> (b: bool)
    requires
        from <= to <= s@.len(),
    ensures
        b == (s@.subrange(from as int, to as int) == seq![c0, c1, c2]),
{
    let b = to - from == 3 && s[from] == c0 && s[from + 1] == c1 && s[from + 2] == c2;
    proof {
        let sub = s@.subrange(from as int, to as int);
        if b {
            assert(sub =~= seq![c0, c1, c2]);
        } else if to - from == 3 {
            if s@[from as int] != c0 {
                assert(sub[0] != seq![c0, c1, c2][0]);
            } else if s@[from + 1] != c1 {
                assert(sub[1] != seq![c0, c1, c2][1]);
            } else {
                assert(sub[2] != seq![c0, c1, c2][2]);
            }
        } else {
            assert(sub.len() != seq![c0, c1, c2].len());
        }
    }
    b
}

// ---------------------------------------------------------------------------
// Window commands
// ---------------------------------------------------------------------------

/// A request a client writes to its window.
pub enum WindowCommand {
    /// `A,0` or `A,1`: be asynchronous or not.
    Async(bool),
    /// `D,`: start dragging the window.
    Drag,
    /// `F,<flags>,0` or `F,<flags>,1`: clear or set each of the flags.
    SetFlags(Vec<char>, bool),
    /// `M,C,0` or `M,C,1`: hide or show the pointer over the window.
    MouseCursor(bool),
    /// `M,G,0` or `M,G,1`: release or grab the pointer.
    MouseGrab(bool),
    /// `M,R,0` or `M,R,1`: absolute or relative pointer motion.
    MouseRelative(bool),
    /// `P,<x>,<y>`: move the window; a part that is not a number is ignored.
    Position(Option<i32>, Option<i32>),
    /// `S,<w>,<h>`: resize the window; a part that is not a number is ignored.
    Resize(Option<i32>, Option<i32>),
    /// `T,<title>`: set the title.
    Title(String),
}

/// The content of a [`WindowCommand`].
pub enum CommandView {
    Async(bool),
    Drag,
    SetFlags(Seq<char>, bool),
    MouseCursor(bool),
    MouseGrab(bool),
    MouseRelative(bool),
    Position(Option<i32>, Option<i32>),
    Resize(Option<i32>, Option<i32>),
    Title(Seq<char>),
}

impl View for WindowCommand {
    type V = CommandView;

    open spec fn view(&self) -> CommandView {
        match self {
            WindowCommand::Async(b) => CommandView::Async(*b),
            WindowCommand::Drag => CommandView::Drag,
            WindowCommand::SetFlags(f, v) => CommandView::SetFlags(f@, *v),
            WindowCommand::MouseCursor(b) => CommandView::MouseCursor(*b),
            WindowCommand::MouseGrab(b) => CommandView::MouseGrab(*b),
            WindowCommand::MouseRelative(b) => CommandView::MouseRelative(*b),
            WindowCommand::Position(x, y) => CommandView::Position(*x, *y),
            WindowCommand::Resize(w, h) => CommandView::Resize(*w, *h),
            WindowCommand::Title(t) => CommandView::Title(t@),
        }
    }
}

/// `"0"` is false and `"1"` is true; anything else is no flag value.
pub open spec fn spec_flag_value(s: Seq<char>) -> Option<bool> {
    if s == seq!['0'] {
        Some(false)
    } else if s == seq!['1'] {
        Some(true)
    } else {
        None
    }
}

/// The command a client message spells: the kind is the part before the
/// first comma, the data the part after it; `None` for a message that is no
/// command.
pub open spec fn spec_parse_command(msg: Seq<char>) -> Option<CommandView> {
    let kind = before_first(msg, ',');
    let data = after_first(msg, ',');
    let first = before_first(data, ',');
    let second = before_first(after_first(data, ','), ',');
    if kind == seq!['A'] {
        match spec_flag_value(data) {
            Some(b) => Some(CommandView::Async(b)),
            None => None,
        }
    } else if kind == seq!['D'] {
        if data.len() == 0 {
            Some(CommandView::Drag)
        } else {
            None
        }
    } else if kind == seq!['F'] {
        match spec_flag_value(second) {
            Some(b) => Some(CommandView::SetFlags(first, b)),
            None => None,
        }
    } else if kind == seq!['M'] {
        if data == seq!['C', ',', '0'] {
            Some(CommandView::MouseCursor(false))
        } else if data == seq!['C', ',', '1'] {
            Some(CommandView::MouseCursor(true))
        } else if data == seq!['G', ',', '0'] {
            Some(CommandView::MouseGrab(false))
        } else if data == seq!['G', ',', '1'] {
            Some(CommandView::MouseGrab(true))
        } else if data == seq!['R', ',', '0'] {
            Some(CommandView::MouseRelative(false))
        } else if data == seq!['R', ',', '1'] {
            Some(CommandView::MouseRelative(true))
        } else {
            None
        }
    } else if kind == seq!['P'] {
        Some(CommandView::Position(spec_parse_i32(first), spec_parse_i32(second)))
    } else if kind == seq!['S'] {
        Some(CommandView::Resize(spec_parse_i32(first), spec_parse_i32(second)))
    } else if kind == seq!['T'] {
        Some(CommandView::Title(data))
    } else {
        None
    }
}

/// Reads `s[from..to]` as a flag value.
fn flag_value(s: &[char], from: usize, to: usize) -> (r: Option<bool>)
    requires
        from <= to <= s@.len(),
    ensures
        r == spec_flag_value(s@.subrange(from as int, to as int)),
{
    if range_is1(s, from, to, '0') {
        Some(false)
    } else if range_is1(s, from, to, '1') {
        Some(true)
    } else {
        None
    }
}

/// The part of `msg` from char `from` to char `to`, as a string.
fn substring(msg: &str, from: usize, to: usize) -> (r: String)
    requires
        from <= to <= msg@.len(),
    ensures
        r@ == msg@.subrange(from as int, to as int),
{
    String::from_str(msg.substring_char(from, to))
}

/// The chars `s[from..to]`.
fn chars_of(s: &[char], from: usize, to: usize) -> (r: Vec<char>)
    requires
        from <= to <= s@.len(),
    ensures
        r@ == s@.subrange(from as int, to as int),
{
    let mut r: Vec<char> = Vec::new();
    let mut i = from;
    while i < to
        invariant
            from <= i <= to <= s@.len(),
            r@ == s@.subrange(from as int, i as int),
        decreases to - i,
    {
        r.push(s[i]);
        proof {
            assert(r@ =~= s@.subrange(from as int, i + 1));
        }
        i = i + 1;
    }
    r
}

/// Parses a message a client wrote to its window.
pub fn parse_command(msg: &str) -> (r: Option<WindowCommand>)
    ensures
        match r {
            Some(c) => spec_parse_command(msg@) == Some(c@),
            None => spec_parse_command(msg@).is_none(),
        },
{
    let s = str_chars(msg);
    let n = s.len();
    let ghost m = msg@;
    // kind = s[0..p], data = s[ds..n]
    let p = find_char(s.as_slice(), 0, n, ',');
    let ds = if p < n {
        p + 1
    } else {
        n
    };
    proof {
        assert(s@.subrange(0, n as int) == m);
        assert(before_first(m, ',') == s@.subrange(0, p as int));
        if p < n {
            assert(after_first(m, ',') == s@.subrange(ds as int, n as int));
        } else {
            assert(after_first(m, ',') =~= s@.subrange(ds as int, n as int));
        }
    }
    let ghost data = s@.subrange(ds as int, n as int);
    // first = s[ds..q], second = s[q2..r]
    let q = find_char(s.as_slice(), ds, n, ',');
    let q2 = if q < n {
        q + 1
    } else {
        n
    };
    let r2 = find_char(s.as_slice(), q2, n, ',');
    proof {
        assert(before_first(data, ',') == s@.subrange(ds as int, q as int));
        if q < n {
            assert(after_first(data, ',') == s@.subrange(q2 as int, n as int));
        } else {
            assert(after_first(data, ',') =~= s@.subrange(q2 as int, n as int));
        }
        assert(before_first(after_first(data, ','), ',') == s@.subrange(q2 as int, r2 as int));
    }
    let sl = s.as_slice();
    if range_is1(sl, 0, p, 'A') {
        match flag_value(sl, ds, n) {
            Some(b) => Some(WindowCommand::Async(b)),
            None => None,
        }
    } else if range_is1(sl, 0, p, 'D') {
        if ds == n {
            Some(WindowCommand::Drag)
        } else {
            None
        }
    } else if range_is1(sl, 0, p, 'F') {
        match flag_value(sl, q2, r2) {
            Some(b) => Some(WindowCommand::SetFlags(chars_of(sl, ds, q), b)),
            None => None,
        }
    } else if range_is1(sl, 0, p, 'M') {
        if range_is3(sl, ds, n, 'C', ',', '0') {
            Some(WindowCommand::MouseCursor(false))
        } else if range_is3(sl, ds, n, 'C', ',', '1') {
            Some(WindowCommand::MouseCursor(true))
        } else if range_is3(sl, ds, n, 'G', ',', '0') {
            Some(WindowCommand::MouseGrab(false))
        } else if range_is3(sl, ds, n, 'G', ',', '1') {
            Some(WindowCommand::MouseGrab(true))
        } else if range_is3(sl, ds, n, 'R', ',', '0') {
            Some(WindowCommand::MouseRelative(false))
        } else if range_is3(sl, ds, n, 'R', ',', '1') {
            Some(WindowCommand::MouseRelative(true))
        } else {
            None
        }
    } else if range_is1(sl, 0, p, 'P') {
        Some(WindowCommand::Position(parse_i32(sl, ds, q), parse_i32(sl, q2, r2)))
    } else if range_is1(sl, 0, p, 'S') {
        Some(WindowCommand::Resize(parse_i32(sl, ds, q), parse_i32(sl, q2, r2)))
    } else if range_is1(sl, 0, p, 'T') {
        Some(WindowCommand::Title(substring(msg, ds, n)))
    } else {
        None
    }
}

// ---------------------------------------------------------------------------
// Paths opened by clients
// ---------------------------------------------------------------------------

/// What a client asks for when it opens a path of the scheme.
pub enum OpenRequest {
    /// `99.<n>`: the size of display `n`; `None` when `n` is no number.
    DisplaySize(Option<usize>),
    /// `<flags>/<x>/<y>/<w>/<h>/<title>`: a new window; a missing or
    /// malformed number is 0, and the title is everything after the fifth
    /// part, slashes included.
    Window { flags: String, x: i32, y: i32, width: i32, height: i32, title: String },
}

/// The content of an [`OpenRequest`].
pub enum OpenView {
    DisplaySize(Option<usize>),
    Window { flags: Seq<char>, x: i32, y: i32, width: i32, height: i32, title: Seq<char> },
}

impl View for OpenRequest {
    type V = OpenView;

    open spec fn view(&self) -> OpenView {
        match self {
            OpenRequest::DisplaySize(d) => OpenView::DisplaySize(*d),
            OpenRequest::Window { flags, x, y, width, height, title } => OpenView::Window {
                flags: flags@,
                x: *x,
                y: *y,
                width: *width,
                height: *height,
                title: title@,
            },
        }
    }
}

/// `s` after its first `n` slash-separated parts.
pub open spec fn rest_after(s: Seq<char>, n: nat) -> Seq<char>
    decreases n,
{
    if n == 0 {
        s
    } else {
        after_first(rest_after(s, (n - 1) as nat), '/')
    }
}

/// Part `n` (from 0) of `s` split at slashes; empty past the last part.
pub open spec fn part(s: Seq<char>, n: nat) -> Seq<char> {
    before_first(rest_after(s, n), '/')
}

/// The number in a part of a window path, 0 where there is none.
pub open spec fn number_or_zero(s: Seq<char>) -> i32 {
    match spec_parse_i32(s) {
        Some(v) => v,
        None => 0,
    }
}

/// A path that starts with a digit or a minus has no flags part.
pub open spec fn starts_with_number(s: Seq<char>) -> bool {
    s.len() > 0 && (is_digit(s[0]) || s[0] == '-')
}

/// What a client asks for by opening `path`.
pub open spec fn spec_parse_open(path: Seq<char>) -> OpenView {
    if path.len() >= 3 && path[0] == '9' && path[1] == '9' && path[2] == '.' {
        OpenView::DisplaySize(spec_parse_usize(path.skip(3)))
    } else {
        let numbers = if starts_with_number(path) {
            path
        } else {
            after_first(path, '/')
        };
        let flags = if starts_with_number(path) {
            Seq::empty()
        } else {
            before_first(path, '/')
        };
        OpenView::Window {
            flags,
            x: number_or_zero(part(numbers, 0)),
            y: number_or_zero(part(numbers, 1)),
            width: number_or_zero(part(numbers, 2)),
            height: number_or_zero(part(numbers, 3)),
            title: rest_after(numbers, 4),
        }
    }
}

/// Splits `s[from..n]` at its first slash: returns the end of the first part
/// and the start of the rest.
fn next_part(s: &[char], from: usize) -> (r: (usize, usize))
    requires
        from <= s@.len(),
    ensures
        from <= r.0 <= r.1 <= s@.len(),
        s@.subrange(from as int, r.0 as int) == before_first(
            s@.subrange(from as int, s@.len() as int),
            '/',
        ),
        s@.subrange(r.1 as int, s@.len() as int) == after_first(
            s@.subrange(from as int, s@.len() as int),
            '/',
        ),
{
    let n = s.len();
    let k = find_char(s, from, n, '/');
    let next = if k < n {
        k + 1
    } else {
        n
    };
    proof {
        let sub = s@.subrange(from as int, n as int);
        assert(s@.subrange(from as int, k as int) == sub.take(k - from));
        if k < n {
            assert(s@.subrange(next as int, n as int) == sub.skip(k - from + 1));
        } else {
            assert(s@.subrange(next as int, n as int) =~= Seq::<char>::empty());
        }
    }
    (k, next)
}

/// The number in `s[from..to]`, 0 where there is none.
fn number_or_zero_at(s: &[char], from: usize, to: usize) -> (v: i32)
    requires
        from <= to <= s@.len(),
    ensures
        v == number_or_zero(s@.subrange(from as int, to as int)),
{
    match parse_i32(s, from, to) {
        Some(v) => v,
        None => 0,
    }
}

/// Parses a path a client opens.
pub fn parse_open(path: &str) -> (r: OpenRequest)
    ensures
        r@ == spec_parse_open(path@),
{
    let s = str_chars(path);
    let sl = s.as_slice();
    let n = s.len();
    proof {
        assert(s@.subrange(0, n as int) == path@);
    }
    if n >= 3 && s[0] == '9' && s[1] == '9' && s[2] == '.' {
        proof {
            assert(s@.subrange(3, n as int) == path@.skip(3));
        }
        return OpenRequest::DisplaySize(parse_usize(sl, 3, n));
    }
    let numeric = n > 0 && (('0' <= s[0] && s[0] <= '9') || s[0] == '-');
    let (flags_end, start) = if numeric {
        (0, 0)
    } else {
        next_part(sl, 0)
    };
    proof {
        assert(numeric == starts_with_number(path@));
        if numeric {
            assert(s@.subrange(0, 0) =~= Seq::<char>::empty());
        }
    }
    let ghost numbers = s@.subrange(start as int, n as int);
    let (e0, s1) = next_part(sl, start);
    let (e1, s2) = next_part(sl, s1);
    let (e2, s3) = next_part(sl, s2);
    let (e3, s4) = next_part(sl, s3);
    proof {
        reveal_with_fuel(rest_after, 5);
        assert(rest_after(numbers, 0) == s@.subrange(start as int, n as int));
        assert(rest_after(numbers, 1) == s@.subrange(s1 as int, n as int));
        assert(rest_after(numbers, 2) == s@.subrange(s2 as int, n as int));
        assert(rest_after(numbers, 3) == s@.subrange(s3 as int, n as int));
        assert(rest_after(numbers, 4) == s@.subrange(s4 as int, n as int));
    }
    OpenRequest::Window {
        flags: substring(path, 0, flags_end),
        x: number_or_zero_at(sl, start, e0),
        y: number_or_zero_at(sl, s1, e1),
        width: number_or_zero_at(sl, s2, e2),
        height: number_or_zero_at(sl, s3, e3),
        title: substring(path, s4, n),
    }
}

} // verus!
