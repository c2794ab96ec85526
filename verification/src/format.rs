//! Format strings: `#{...}` expansion and strftime codes.
//!
//! A format context maps variable names to values; names starting with `@`
//! fall back to user options. Expansion supports variables, conditionals,
//! comparisons, truncation and padding, literals, double expansion,
//! substitution, shell quoting, lengths and widths, logic, arithmetic and
//! pattern matching, short aliases such as `#S`, inline `#[style]` blocks and
//! `##` for a literal `#`.

use vstd::prelude::*;
use crate::assoc::{assoc_get, assoc_has, assoc_index, assoc_insert, keys_unique, lemma_assoc_insert};
use crate::text::{decimal, push_all, push_char, str_chars, str_eq, string_from_chars, to_owned_string, u64_to_string};

verus! {

// ---------------------------------------------------------------------------
// Contexts
// ---------------------------------------------------------------------------

/// Context for format string expansion.
pub struct FormatContext {
    vars: Vec<(String, String)>,
    options: Vec<(String, String)>,
}

/// A context as plain values: its variables and its user options, each a
/// list of (name, value) pairs with distinct names.
pub struct ContextView {
    pub vars: Seq<(Seq<char>, Seq<char>)>,
    pub options: Seq<(Seq<char>, Seq<char>)>,
}

/// The views of a list of string pairs.
pub open spec fn pairs_view(v: Seq<(String, String)>) -> Seq<(Seq<char>, Seq<char>)> {
    v.map_values(|p: (String, String)| (p.0@, p.1@))
}

impl View for FormatContext {
    type V = ContextView;

    closed spec fn view(&self) -> ContextView {
        ContextView { vars: pairs_view(self.vars@), options: pairs_view(self.options@) }
    }
}

/// What a name looks up to: the variable, else, for a name starting with
/// `@`, the user option.
pub open spec fn ctx_lookup(c: ContextView, key: Seq<char>) -> Option<Seq<char>> {
    match assoc_get(c.vars, key) {
        Some(v) => Some(v),
        None => if key.len() > 0 && key[0] == '@' {
            assoc_get(c.options, key)
        } else {
            None
        },
    }
}

/// The index of the pair named `key`, if any.
fn find_pair(v: &Vec<(String, String)>, key: &str) -> (r: Option<usize>)
    ensures
        match r {
            Some(i) => i < v@.len() && pairs_view(v@)[i as int].0 == key@,
            None => !assoc_has(pairs_view(v@), key@),
        },
{
    let ghost pv = pairs_view(v@);
    let mut i: usize = 0;
    while i < v.len()
        invariant
            pv == pairs_view(v@),
            i <= v@.len(),
            forall|j: int| 0 <= j < i ==> #[trigger] pv[j].0 != key@,
        decreases v@.len() - i,
    {
        assert(pv[i as int] == (v@[i as int].0@, v@[i as int].1@));
        if str_eq(v[i].0.as_str(), key) {
            return Some(i);
        }
        i = i + 1;
    }
    None
}

/// Sets `key` to `value` in a list of pairs with distinct names.
fn put_pair(v: &mut Vec<(String, String)>, key: &str, value: &str)
    requires
        keys_unique(pairs_view(old(v)@)),
    ensures
        pairs_view(final(v)@) == assoc_insert(pairs_view(old(v)@), key@, value@),
        keys_unique(pairs_view(final(v)@)),
{
    let ghost old_v = pairs_view(v@);
    proof {
        lemma_assoc_insert(old_v, key@, value@);
    }
    match find_pair(v, key) {
        Some(i) => {
            proof {
                let c = assoc_index(old_v, key@);
                assert(old_v[c].0 == key@);
                if c != i as int {
                    if c < i {
                        assert(old_v[c].0 != old_v[i as int].0);
                    } else {
                        assert(old_v[i as int].0 != old_v[c].0);
                    }
                }
            }
            v.set(i, (to_owned_string(key), to_owned_string(value)));
            assert(pairs_view(v@) =~= old_v.update(i as int, (key@, value@)));
        },
        None => {
            v.push((to_owned_string(key), to_owned_string(value)));
            assert(pairs_view(v@) =~= old_v.push((key@, value@)));
        },
    }
}

/// The value of `key` in a list of pairs.
fn get_pair<'a>(v: &'a Vec<(String, String)>, key: &str) -> (r: Option<&'a String>)
    requires
        keys_unique(pairs_view(v@)),
    ensures
        match assoc_get(pairs_view(v@), key@) {
            Some(x) => r matches Some(s) && s@ == x,
            None => r is None,
        },
{
    let ghost pv = pairs_view(v@);
    proof {
        crate::assoc::lemma_assoc_get(pv, key@);
    }
    match find_pair(v, key) {
        Some(i) => {
            proof {
                let c = assoc_index(pv, key@);
                if c != i as int {
                    if c < i {
                        assert(pv[c].0 != pv[i as int].0);
                    } else {
                        assert(pv[i as int].0 != pv[c].0);
                    }
                }
            }
            Some(&v[i].1)
        },
        None => None,
    }
}

impl FormatContext {
    #[verifier::type_invariant]
    closed spec fn names_distinct(self) -> bool {
        keys_unique(pairs_view(self.vars@)) && keys_unique(pairs_view(self.options@))
    }

    /// Create a new empty format context.
    pub fn new() -> (r: Self)
        ensures
            r@.vars == Seq::<(Seq<char>, Seq<char>)>::empty(),
            r@.options == Seq::<(Seq<char>, Seq<char>)>::empty(),
    {
        let r = FormatContext { vars: Vec::new(), options: Vec::new() };
        assert(pairs_view(r.vars@) =~= Seq::<(Seq<char>, Seq<char>)>::empty());
        assert(pairs_view(r.options@) =~= Seq::<(Seq<char>, Seq<char>)>::empty());
        r
    }

    /// Set a format variable.
    pub fn set(&mut self, key: &str, value: &str)
        ensures
            final(self)@.vars == assoc_insert(old(self)@.vars, key@, value@),
            final(self)@.options == old(self)@.options,
    {
        proof {
            use_type_invariant(&*self);
        }
        let mut vars = Vec::new();
        std::mem::swap(&mut vars, &mut self.vars);
        put_pair(&mut vars, key, value);
        self.vars = vars;
    }

    /// Set a user option, which `@`-prefixed names fall back to.
    pub fn set_user_option(&mut self, key: &str, value: &str)
        ensures
            final(self)@.options == assoc_insert(old(self)@.options, key@, value@),
            final(self)@.vars == old(self)@.vars,
    {
        proof {
            use_type_invariant(&*self);
        }
        let mut options = Vec::new();
        std::mem::swap(&mut options, &mut self.options);
        put_pair(&mut options, key, value);
        self.options = options;
    }

    /// Get a format variable value.
    pub fn get(&self, key: &str) -> (r: Option<&str>)
        ensures
            match assoc_get(self@.vars, key@) {
                Some(v) => r matches Some(s) && s@ == v,
                None => r is None,
            },
    {
        proof {
            use_type_invariant(self);
        }
        match get_pair(&self.vars, key) {
            Some(s) => Some(s.as_str()),
            None => None,
        }
    }

    /// Look up a variable, falling back to `@`-prefixed user options.
    pub fn lookup(&self, key: &str) -> (r: Option<String>)
        ensures
            match ctx_lookup(self@, key@) {
                Some(v) => r matches Some(s) && s@ == v,
                None => r is None,
            },
    {
        proof {
            use_type_invariant(self);
        }
        match get_pair(&self.vars, key) {
            Some(s) => Some(s.clone()),
            None => {
                let kc = str_chars(key);
                if kc.len() > 0 && kc[0] == '@' {
                    match get_pair(&self.options, key) {
                        Some(s) => Some(s.clone()),
                        None => None,
                    }
                } else {
                    None
                }
            },
        }
    }
}

impl Default for FormatContext {
    fn default() -> (r: Self)
        ensures
            r@.vars == Seq::<(Seq<char>, Seq<char>)>::empty(),
            r@.options == Seq::<(Seq<char>, Seq<char>)>::empty(),
    {
        Self::new()
    }
}

// ---------------------------------------------------------------------------
// Numbers
// ---------------------------------------------------------------------------

/// `n` written in decimal, with a `-` when negative.
pub open spec fn signed_decimal(n: int) -> Seq<char> {
    if n < 0 {
        seq!['-'] + decimal((-n) as nat)
    } else {
        decimal(n as nat)
    }
}

/// `c` repeated `n` times.
pub open spec fn repeat_char(c: char, n: int) -> Seq<char>
    decreases n,
{
    if n <= 0 {
        Seq::empty()
    } else {
        repeat_char(c, n - 1).push(c)
    }
}

/// `s` preceded by `c` up to width `w`.
pub open spec fn pad_left(s: Seq<char>, c: char, w: int) -> Seq<char> {
    repeat_char(c, w - s.len()) + s
}

/// `n` as `format!("{n:0w$}")` writes it: zeros after the sign up to width `w`.
pub open spec fn zero_padded(n: int, w: int) -> Seq<char> {
    if n < 0 {
        seq!['-'] + pad_left(decimal((-n) as nat), '0', w - 1)
    } else {
        pad_left(decimal(n as nat), '0', w)
    }
}

/// `n` as `format!("{n:>w$}")` writes it: spaces before it up to width `w`.
pub open spec fn space_padded(n: int, w: int) -> Seq<char> {
    pad_left(signed_decimal(n), ' ', w)
}

/// Appends `c` to `out` `n` times.
fn push_repeat(out: &mut String, c: char, n: usize)
    ensures
        final(out)@ == old(out)@ + repeat_char(c, n as int),
{
    let mut i: usize = 0;
    while i < n
        invariant
            i <= n,
            out@ == old(out)@ + repeat_char(c, i as int),
        decreases n - i,
    {
        push_char(out, c);
        i = i + 1;
        assert(repeat_char(c, i as int) == repeat_char(c, i - 1).push(c));
    }
}

/// Appends `n` in decimal with a sign when negative.
fn push_signed(out: &mut String, n: i64)
    ensures
        final(out)@ == old(out)@ + signed_decimal(n as int),
{
    if n < 0 {
        push_char(out, '-');
        let m: u64 = if n == i64::MIN { 9223372036854775808u64 } else { (-n) as u64 };
        let d = u64_to_string(m);
        push_all(out, d.as_str());
        assert(out@ =~= old(out)@ + (seq!['-'] + decimal((-n) as nat)));
    } else {
        let d = u64_to_string(n as u64);
        push_all(out, d.as_str());
    }
}

/// Appends `n` zero-padded to width `w`.
fn push_zero_padded(out: &mut String, n: i64, w: usize)
    ensures
        final(out)@ == old(out)@ + zero_padded(n as int, w as int),
{
    let ghost o0 = out@;
    if n < 0 {
        push_char(out, '-');
        let m: u64 = if n == i64::MIN { 9223372036854775808u64 } else { (-n) as u64 };
        let d = u64_to_string(m);
        let dl = d.as_str().unicode_len();
        if w >= 1 && dl < w - 1 {
            push_repeat(out, '0', w - 1 - dl);
        } else {
            assert(repeat_char('0', w - 1 - dl) =~= Seq::<char>::empty());
            assert(out@ =~= out@ + repeat_char('0', w - 1 - dl));
        }
        push_all(out, d.as_str());
        assert(out@ =~= o0 + zero_padded(n as int, w as int));
    } else {
        let d = u64_to_string(n as u64);
        let dl = d.as_str().unicode_len();
        if dl < w {
            push_repeat(out, '0', w - dl);
        } else {
            assert(repeat_char('0', w - dl) =~= Seq::<char>::empty());
            assert(out@ =~= out@ + repeat_char('0', w - dl));
        }
        push_all(out, d.as_str());
        assert(out@ =~= o0 + zero_padded(n as int, w as int));
    }
}

/// Appends `n` space-padded to width `w`.
fn push_space_padded(out: &mut String, n: i64, w: usize)
    ensures
        final(out)@ == old(out)@ + space_padded(n as int, w as int),
{
    let ghost o0 = out@;
    let mut d = String::new();
    push_signed(&mut d, n);
    assert(d@ =~= signed_decimal(n as int));
    let dl = d.as_str().unicode_len();
    if dl < w {
        push_repeat(out, ' ', w - dl);
    } else {
        assert(repeat_char(' ', w - dl) =~= Seq::<char>::empty());
        assert(out@ =~= out@ + repeat_char(' ', w - dl));
    }
    push_all(out, d.as_str());
    assert(out@ =~= o0 + space_padded(n as int, w as int));
}

// ---------------------------------------------------------------------------
// Time
// ---------------------------------------------------------------------------

/// The calendar fields of a local time, as `unix_to_local` returns them:
/// year, month (1-12), day (1-31), hour, minute, second, weekday (0 is
/// Sunday) and day of the year (from 1).
pub struct TimeFields {
    pub year: int,
    pub month: int,
    pub day: int,
    pub hour: int,
    pub minute: int,
    pub second: int,
    pub weekday: int,
    pub yday: int,
}

/// Whether `y` is a leap year.
pub open spec fn is_leap(y: int) -> bool {
    y % 4 == 0 && (y % 100 != 0 || y % 400 == 0)
}

/// The days of the months before month `m` (1-12) of a year.
pub open spec fn days_before_month(m: int, leap: bool) -> int {
    let feb = if leap { 29int } else { 28int };
    if m <= 1 {
        0
    } else if m == 2 {
        31
    } else if m == 3 {
        31 + feb
    } else if m == 4 {
        62 + feb
    } else if m == 5 {
        92 + feb
    } else if m == 6 {
        123 + feb
    } else if m == 7 {
        153 + feb
    } else if m == 8 {
        184 + feb
    } else if m == 9 {
        215 + feb
    } else if m == 10 {
        245 + feb
    } else if m == 11 {
        276 + feb
    } else {
        306 + feb
    }
}

/// The weekday of day `days` after 1970-01-01 as the code computes it:
/// `(days + 4) % 7` with Rust's remainder, read as a `u32` (so a day before
/// 1969-12-28 gives a value above 6).
pub open spec fn weekday_of(days: int) -> int {
    let a = days + 4;
    if a >= 0 {
        a % 7
    } else if (-a) % 7 == 0 {
        0
    } else {
        0x1_0000_0000 - (-a) % 7
    }
}

/// The civil-from-days computation (proleptic Gregorian calendar, March-based
/// eras of 400 years) on the local time `t` in seconds since the epoch, with
/// the fields read as the code's integer types (the year of the era count
/// truncated to 32 bits).
pub open spec fn local_fields(t: int) -> TimeFields {
    let days = t / 86400;
    let ds = t % 86400;
    let z = days + 719468;
    let era = z / 146097;
    let doe = z % 146097;
    let yoe = (doe - doe / 1460 + doe / 36524 - doe / 146096) / 365;
    let y = (yoe + era * 400) as i32;
    let doy = doe - (365 * yoe + yoe / 4 - yoe / 100);
    let mp = (5 * doy + 2) / 153;
    let d = doy - (153 * mp + 2) / 5 + 1;
    let m = if mp < 10 { mp + 3 } else { mp - 9 };
    let year = if m <= 2 { y + 1 } else { y as int };
    TimeFields {
        year,
        month: m as u32 as int,
        day: d as u32 as int,
        hour: ds / 3600,
        minute: (ds % 3600) / 60,
        second: ds % 60,
        weekday: weekday_of(days),
        yday: (d + days_before_month(m, is_leap(year))) as u32 as int,
    }
}

/// Whether the year before the adjustment for January and February is the
/// largest `i32`, where adding one overflows.
pub open spec fn year_overflows(t: int) -> bool {
    let days = t / 86400;
    let z = days + 719468;
    let era = z / 146097;
    let doe = z % 146097;
    let yoe = (doe - doe / 1460 + doe / 36524 - doe / 146096) / 365;
    let doy = doe - (365 * yoe + yoe / 4 - yoe / 100);
    let mp = (5 * doy + 2) / 153;
    let m = if mp < 10 { mp + 3 } else { mp - 9 };
    (yoe + era * 400) as i32 == i32::MAX && m <= 2
}

/// Floor division and remainder by a positive divisor.
fn floor_div_mod(a: i64, b: i64) -> (r: (i64, i64))
    requires
        b > 0,
    ensures
        r.0 == a / b,
        r.1 == a % b,
{
    if a >= 0 {
        (a / b, a % b)
    } else {
        let na: i64 = -(a + 1);
        let q = na / b;
        let m = na % b;
        assert(a / b == -q - 1 && a % b == b - 1 - m) by (nonlinear_arith)
            requires
                na == -(a + 1),
                b > 0,
                na >= 0,
                q == na / b,
                m == na % b,
        {
            assert(na == b * q + m);
            assert(0 <= m < b);
            assert(a == b * (-q - 1) + (b - 1 - m));
        }
        (-q - 1, b - 1 - m)
    }
}

/// The weekday of day `days` after the epoch, as `weekday_of` reads it.
fn weekday_from_days(days: i64) -> (r: u32)
    requires
        days <= i64::MAX - 4,
    ensures
        r == weekday_of(days as int),
{
    let a = days + 4;
    if a >= 0 {
        (a % 7) as u32
    } else {
        let na: i64 = -a;
        let r7 = na % 7;
        if r7 == 0 {
            0
        } else {
            (0x1_0000_0000i64 - r7) as u32
        }
    }
}

/// The days before month `m` of a year.
fn month_offset(m: i64, leap: bool) -> (r: i64)
    ensures
        r == days_before_month(m as int, leap),
{
    let feb: i64 = if leap { 29 } else { 28 };
    if m <= 1 {
        0
    } else if m == 2 {
        31
    } else if m == 3 {
        31 + feb
    } else if m == 4 {
        62 + feb
    } else if m == 5 {
        92 + feb
    } else if m == 6 {
        123 + feb
    } else if m == 7 {
        153 + feb
    } else if m == 8 {
        184 + feb
    } else if m == 9 {
        215 + feb
    } else if m == 10 {
        245 + feb
    } else if m == 11 {
        276 + feb
    } else {
        306 + feb
    }
}

/// The year of the era, month (March-based index), day of the year and day
/// of the month for day `doe` of a 400-year era.
fn era_date(doe: i64) -> (r: (i64, i64, i64, i64))
    requires
        0 <= doe < 146097,
    ensures
        r.0 == (doe - doe / 1460 + doe / 36524 - doe / 146096) / 365,
        r.1 == (5 * (doe - (365 * r.0 + r.0 / 4 - r.0 / 100)) + 2) / 153,
        r.2 == doe - (365 * r.0 + r.0 / 4 - r.0 / 100),
        r.3 == r.2 - (153 * r.1 + 2) / 5 + 1,
        0 <= r.0 <= 400,
{
    let yoe = (doe - doe / 1460 + doe / 36524 - doe / 146096) / 365;
    assert(0 <= yoe <= 400) by {
        assert(doe / 1460 <= doe);
        assert(doe / 146096 <= 1);
        assert(doe / 36524 <= 4);
    }
    let doy = doe - (365 * yoe + yoe / 4 - yoe / 100);
    let (mp, _) = floor_div_mod(5 * doy + 2, 153);
    let (q, _) = floor_div_mod(153 * mp + 2, 5);
    (yoe, mp, doy, doy - q + 1)
}

/// Convert a Unix timestamp to local time components, given the local
/// offset from UTC in seconds.
///
/// Returns (year, month, day, hour, minute, second, weekday, yday).
/// weekday: 0=Sunday, 1=Monday, ..., 6=Saturday.
/// yday: 1-based day of year.
#[verifier::spinoff_prover]
#[verifier::rlimit(40)]
pub fn unix_to_local(timestamp: i64, utc_offset: i32) -> (r: (i32, u32, u32, u32, u32, u32, u32, u32))
    requires
        i64::MIN <= timestamp + utc_offset <= i64::MAX,
        !year_overflows(timestamp + utc_offset),
    ensures
        ({
            let f = local_fields(timestamp + utc_offset);
            r.0 == f.year && r.1 == f.month && r.2 == f.day && r.3 == f.hour && r.4 == f.minute
                && r.5 == f.second && r.6 == f.weekday && r.7 == f.yday
        }),
        r.3 <= 23 && r.4 <= 59 && r.5 <= 59,
{
    let ghost t = timestamp + utc_offset;
    let local_ts: i64 = timestamp + utc_offset as i64;
    let (days, day_secs) = floor_div_mod(local_ts, 86400);
    assert(-106751991167301 <= days <= 106751991167300) by {
        assert(local_ts / 86400 <= 106751991167300);
        assert(local_ts / 86400 >= -106751991167301);
    }
    let hour = (day_secs / 3600) as u32;
    let minute = ((day_secs % 3600) / 60) as u32;
    let second = (day_secs % 60) as u32;
    let weekday = weekday_from_days(days);
    let z = days + 719468;
    let (era, doe) = floor_div_mod(z, 146097);
    assert(-800000000 <= era <= 800000000) by (nonlinear_arith)
        requires
            era == z / 146097,
            -106751991167301 + 719468 <= z <= 106751991167300 + 719468,
    ;
    let (yoe, mp, doy, d) = era_date(doe);
    let y = #[verifier::truncate] ((yoe + era * 400) as i32);
    let m = if mp < 10 { mp + 3 } else { mp - 9 };
    let year: i32 = if m <= 2 { y + 1 } else { y };
    let leap = year % 4 == 0 && (year % 100 != 0 || year % 400 == 0);
    let before = month_offset(m, leap);
    let yday = d + before;
    (year, m as u32, d as u32, hour, minute, second, weekday, yday as u32)
}

/// The name of month `m` (1-12) in three letters, `???` for any other value.
pub open spec fn month_abbrev_name(m: int) -> Seq<char> {
    if m == 1 { "Jan"@ } else if m == 2 { "Feb"@ } else if m == 3 { "Mar"@ } else if m == 4 { "Apr"@ }
    else if m == 5 { "May"@ } else if m == 6 { "Jun"@ } else if m == 7 { "Jul"@ } else if m == 8 { "Aug"@ }
    else if m == 9 { "Sep"@ } else if m == 10 { "Oct"@ } else if m == 11 { "Nov"@ } else if m == 12 { "Dec"@ }
    else { "???"@ }
}

/// The full name of month `m` (1-12), `???` for any other value.
pub open spec fn month_full_name(m: int) -> Seq<char> {
    if m == 1 { "January"@ } else if m == 2 { "February"@ } else if m == 3 { "March"@ }
    else if m == 4 { "April"@ } else if m == 5 { "May"@ } else if m == 6 { "June"@ }
    else if m == 7 { "July"@ } else if m == 8 { "August"@ } else if m == 9 { "September"@ }
    else if m == 10 { "October"@ } else if m == 11 { "November"@ } else if m == 12 { "December"@ }
    else { "???"@ }
}

/// The name of weekday `d` (0 is Sunday) in three letters, `???` for any other value.
pub open spec fn weekday_abbrev_name(d: int) -> Seq<char> {
    if d == 0 { "Sun"@ } else if d == 1 { "Mon"@ } else if d == 2 { "Tue"@ } else if d == 3 { "Wed"@ }
    else if d == 4 { "Thu"@ } else if d == 5 { "Fri"@ } else if d == 6 { "Sat"@ } else { "???"@ }
}

/// The full name of weekday `d` (0 is Sunday), `???` for any other value.
pub open spec fn weekday_full_name(d: int) -> Seq<char> {
    if d == 0 { "Sunday"@ } else if d == 1 { "Monday"@ } else if d == 2 { "Tuesday"@ }
    else if d == 3 { "Wednesday"@ } else if d == 4 { "Thursday"@ } else if d == 5 { "Friday"@ }
    else if d == 6 { "Saturday"@ } else { "???"@ }
}

/// Month name abbreviation.
pub fn month_abbrev(m: u32) -> (r: &'static str)
    ensures
        r@ == month_abbrev_name(m as int),
{
    match m {
        1 => "Jan",
        2 => "Feb",
        3 => "Mar",
        4 => "Apr",
        5 => "May",
        6 => "Jun",
        7 => "Jul",
        8 => "Aug",
        9 => "Sep",
        10 => "Oct",
        11 => "Nov",
        12 => "Dec",
        _ => "???",
    }
}

/// Full month name.
pub fn month_full(m: u32) -> (r: &'static str)
    ensures
        r@ == month_full_name(m as int),
{
    match m {
        1 => "January",
        2 => "February",
        3 => "March",
        4 => "April",
        5 => "May",
        6 => "June",
        7 => "July",
        8 => "August",
        9 => "September",
        10 => "October",
        11 => "November",
        12 => "December",
        _ => "???",
    }
}

/// Weekday name abbreviation.
pub fn weekday_abbrev(d: u32) -> (r: &'static str)
    ensures
        r@ == weekday_abbrev_name(d as int),
{
    match d {
        0 => "Sun",
        1 => "Mon",
        2 => "Tue",
        3 => "Wed",
        4 => "Thu",
        5 => "Fri",
        6 => "Sat",
        _ => "???",
    }
}

/// Full weekday name.
pub fn weekday_full(d: u32) -> (r: &'static str)
    ensures
        r@ == weekday_full_name(d as int),
{
    match d {
        0 => "Sunday",
        1 => "Monday",
        2 => "Tuesday",
        3 => "Wednesday",
        4 => "Thursday",
        5 => "Friday",
        6 => "Saturday",
        _ => "???",
    }
}

/// The hour on a 12-hour clock.
pub open spec fn hour12(h: int) -> int {
    if h == 0 {
        12
    } else if h > 12 {
        h - 12
    } else {
        h
    }
}

/// Rust's remainder, which takes the sign of the dividend.
pub open spec fn trunc_rem(a: int, b: int) -> int {
    if a >= 0 {
        a % b
    } else {
        -((-a) % b)
    }
}

/// What the strftime code `c` stands for at the time `f`, if it is a code.
pub open spec fn strftime_code(c: char, f: TimeFields) -> Option<Seq<char>> {
    let am = f.hour < 12;
    if c == 'H' {
        Some(zero_padded(f.hour, 2))
    } else if c == 'M' {
        Some(zero_padded(f.minute, 2))
    } else if c == 'S' {
        Some(zero_padded(f.second, 2))
    } else if c == 'd' {
        Some(zero_padded(f.day, 2))
    } else if c == 'e' {
        Some(space_padded(f.day, 2))
    } else if c == 'm' {
        Some(zero_padded(f.month, 2))
    } else if c == 'y' {
        Some(zero_padded(trunc_rem(f.year, 100), 2))
    } else if c == 'Y' {
        Some(signed_decimal(f.year))
    } else if c == 'b' || c == 'h' {
        Some(month_abbrev_name(f.month))
    } else if c == 'B' {
        Some(month_full_name(f.month))
    } else if c == 'a' {
        Some(weekday_abbrev_name(f.weekday))
    } else if c == 'A' {
        Some(weekday_full_name(f.weekday))
    } else if c == 'p' {
        Some(if am { "AM"@ } else { "PM"@ })
    } else if c == 'P' {
        Some(if am { "am"@ } else { "pm"@ })
    } else if c == 'k' {
        Some(space_padded(f.hour, 2))
    } else if c == 'l' {
        Some(space_padded(hour12(f.hour), 2))
    } else if c == 'I' {
        Some(zero_padded(hour12(f.hour), 2))
    } else if c == 'R' {
        Some(zero_padded(f.hour, 2) + seq![':'] + zero_padded(f.minute, 2))
    } else if c == 'T' {
        Some(zero_padded(f.hour, 2) + seq![':'] + zero_padded(f.minute, 2) + seq![':'] + zero_padded(f.second, 2))
    } else if c == 'r' {
        Some(zero_padded(hour12(f.hour), 2) + seq![':'] + zero_padded(f.minute, 2) + seq![':'] + zero_padded(
            f.second,
            2,
        ) + seq![' '] + (if am { "AM"@ } else { "PM"@ }))
    } else if c == 'D' {
        Some(zero_padded(f.month, 2) + seq!['/'] + zero_padded(f.day, 2) + seq!['/'] + zero_padded(
            trunc_rem(f.year, 100),
            2,
        ))
    } else if c == 'F' {
        Some(signed_decimal(f.year) + seq!['-'] + zero_padded(f.month, 2) + seq!['-'] + zero_padded(f.day, 2))
    } else if c == 'j' {
        Some(zero_padded(f.yday, 3))
    } else if c == 'n' {
        Some(seq!['\n'])
    } else if c == 't' {
        Some(seq!['\t'])
    } else if c == '%' {
        Some(seq!['%'])
    } else {
        None
    }
}

/// `s` from position `i` on with its strftime codes expanded at time `f`,
/// appended to `out`: `%` and a code become its value; a `%` before anything
/// else, or at the end, stays.
pub open spec fn strftime_from(s: Seq<char>, i: int, out: Seq<char>, f: TimeFields) -> Seq<char>
    decreases s.len() - i,
{
    if i >= s.len() {
        out
    } else if s[i] == '%' {
        if i + 1 >= s.len() {
            out.push('%')
        } else {
            match strftime_code(s[i + 1], f) {
                Some(rep) => strftime_from(s, i + 2, out + rep, f),
                None => strftime_from(s, i + 1, out.push('%'), f),
            }
        }
    } else {
        strftime_from(s, i + 1, out.push(s[i]), f)
    }
}

/// Appends what code `c` stands for; whether `c` is a code.
#[verifier::spinoff_prover]
#[verifier::rlimit(60)]
fn push_code(out: &mut String, c: char, year: i32, month: u32, day: u32, hour: u32, minute: u32, second: u32, weekday: u32, yday: u32) -> (r: bool)
    ensures
        ({
            let f = TimeFields {
                year: year as int,
                month: month as int,
                day: day as int,
                hour: hour as int,
                minute: minute as int,
                second: second as int,
                weekday: weekday as int,
                yday: yday as int,
            };
            match strftime_code(c, f) {
                Some(rep) => r && final(out)@ == old(out)@ + rep,
                None => !r && final(out)@ == old(out)@,
            }
        }),
{
    let ghost o0 = out@;
    let am = hour < 12;
    let h12: u32 = if hour == 0 {
        12
    } else if hour > 12 {
        hour - 12
    } else {
        hour
    };
    let yy: i64 = (year % 100) as i64;
    assert(yy == trunc_rem(year as int, 100));
    if c == 'H' {
        push_zero_padded(out, hour as i64, 2);
    } else if c == 'M' {
        push_zero_padded(out, minute as i64, 2);
    } else if c == 'S' {
        push_zero_padded(out, second as i64, 2);
    } else if c == 'd' {
        push_zero_padded(out, day as i64, 2);
    } else if c == 'e' {
        push_space_padded(out, day as i64, 2);
    } else if c == 'm' {
        push_zero_padded(out, month as i64, 2);
    } else if c == 'y' {
        push_zero_padded(out, yy, 2);
    } else if c == 'Y' {
        push_signed(out, year as i64);
    } else if c == 'b' || c == 'h' {
        push_all(out, month_abbrev(month));
    } else if c == 'B' {
        push_all(out, month_full(month));
    } else if c == 'a' {
        push_all(out, weekday_abbrev(weekday));
    } else if c == 'A' {
        push_all(out, weekday_full(weekday));
    } else if c == 'p' {
        push_all(out, if am { "AM" } else { "PM" });
    } else if c == 'P' {
        push_all(out, if am { "am" } else { "pm" });
    } else if c == 'k' {
        push_space_padded(out, hour as i64, 2);
    } else if c == 'l' {
        push_space_padded(out, h12 as i64, 2);
    } else if c == 'I' {
        push_zero_padded(out, h12 as i64, 2);
    } else if c == 'R' {
        push_zero_padded(out, hour as i64, 2);
        push_char(out, ':');
        push_zero_padded(out, minute as i64, 2);
    } else if c == 'T' {
        push_zero_padded(out, hour as i64, 2);
        push_char(out, ':');
        push_zero_padded(out, minute as i64, 2);
        push_char(out, ':');
        push_zero_padded(out, second as i64, 2);
    } else if c == 'r' {
        push_zero_padded(out, h12 as i64, 2);
        push_char(out, ':');
        push_zero_padded(out, minute as i64, 2);
        push_char(out, ':');
        push_zero_padded(out, second as i64, 2);
        push_char(out, ' ');
        push_all(out, if am { "AM" } else { "PM" });
    } else if c == 'D' {
        push_zero_padded(out, month as i64, 2);
        push_char(out, '/');
        push_zero_padded(out, day as i64, 2);
        push_char(out, '/');
        push_zero_padded(out, yy, 2);
    } else if c == 'F' {
        push_signed(out, year as i64);
        push_char(out, '-');
        push_zero_padded(out, month as i64, 2);
        push_char(out, '-');
        push_zero_padded(out, day as i64, 2);
    } else if c == 'j' {
        push_zero_padded(out, yday as i64, 3);
    } else if c == 'n' {
        push_char(out, '\n');
    } else if c == 't' {
        push_char(out, '\t');
    } else if c == '%' {
        push_char(out, '%');
    } else {
        return false;
    }
    proof {
        let f = TimeFields {
            year: year as int,
            month: month as int,
            day: day as int,
            hour: hour as int,
            minute: minute as int,
            second: second as int,
            weekday: weekday as int,
            yday: yday as int,
        };
        assert(out@ =~= o0 + strftime_code(c, f)->0);
    }
    true
}

/// Whether the year of local time `t` (seconds from the epoch) overflows.
#[verifier::spinoff_prover]
#[verifier::rlimit(40)]
fn year_overflows_at(t: i64) -> (r: bool)
    ensures
        r == year_overflows(t as int),
{
    let (days, _) = floor_div_mod(t, 86400);
    assert(-106751991167301 <= days <= 106751991167300) by {
        assert(t / 86400 <= 106751991167300);
        assert(t / 86400 >= -106751991167301);
    }
    let z = days + 719468;
    let (era, doe) = floor_div_mod(z, 146097);
    assert(-800000000 <= era <= 800000000) by (nonlinear_arith)
        requires
            era == z / 146097,
            -106751991167301 + 719468 <= z <= 106751991167300 + 719468,
    ;
    let (yoe, mp, _, _) = era_date(doe);
    let y = #[verifier::truncate] ((yoe + era * 400) as i32);
    let m = if mp < 10 { mp + 3 } else { mp - 9 };
    y == i32::MAX && m <= 2
}

/// Expand strftime `%`-codes in a string using the current time, `utc_offset`
/// seconds from UTC. The clock's seconds are read as an `i64` (wrapping past
/// its range); `None` when that time plus the offset leaves the `i64` range
/// or has a year past `i32`, where the conversion overflows.
pub fn strftime_expand(s: &str, utc_offset: i32) -> (r: Option<String>)
    ensures
        r matches Some(t) ==> exists|ts: int| #![trigger local_fields(ts)]
            i64::MIN <= ts <= i64::MAX && !year_overflows(ts) && t@ == strftime_from(
                s@,
                0,
                Seq::empty(),
                local_fields(ts),
            ),
        r is None ==> exists|ts: int|
            i64::MIN <= ts <= i64::MAX && (ts + utc_offset < i64::MIN || ts + utc_offset > i64::MAX
                || #[trigger] year_overflows(ts + utc_offset)),
{
    let now = crate::clock::epoch_seconds();
    let ts: i64 = #[verifier::truncate] (now as i64);
    let local: i64 = match ts.checked_add(utc_offset as i64) {
        Some(v) => v,
        None => {
            assert(year_overflows(ts + utc_offset) || ts + utc_offset > i64::MAX || ts + utc_offset < i64::MIN);
            return None;
        },
    };
    if year_overflows_at(local) {
        return None;
    }
    let t = strftime_expand_with_timestamp(s, ts, utc_offset);
    assert(local_fields(ts + utc_offset) == local_fields(ts + utc_offset));
    Some(t)
}

/// Expand strftime codes at a Unix timestamp, given the local offset from
/// UTC in seconds.
pub fn strftime_expand_with_timestamp(s: &str, timestamp: i64, utc_offset: i32) -> (r: String)
    requires
        i64::MIN <= timestamp + utc_offset <= i64::MAX,
        !year_overflows(timestamp + utc_offset),
    ensures
        r@ == strftime_from(s@, 0, Seq::empty(), local_fields(timestamp + utc_offset)),
{
    let (year, month, day, hour, minute, second, weekday, yday) = unix_to_local(timestamp, utc_offset);
    let ghost f = TimeFields {
        year: year as int,
        month: month as int,
        day: day as int,
        hour: hour as int,
        minute: minute as int,
        second: second as int,
        weekday: weekday as int,
        yday: yday as int,
    };
    assert(f == local_fields(timestamp + utc_offset));
    let cs = str_chars(s);
    let n = cs.len();
    let mut out = String::new();
    let mut i: usize = 0;
    while i < n
        invariant
            n == cs@.len(),
            cs@ == s@,
            i <= n,
            strftime_from(s@, 0, Seq::empty(), f) == strftime_from(s@, i as int, out@, f),
            f.year == year && f.month == month && f.day == day && f.hour == hour && f.minute == minute
                && f.second == second && f.weekday == weekday && f.yday == yday,
        decreases n - i,
    {
        if cs[i] == '%' {
            if i + 1 >= n {
                push_char(&mut out, '%');
                i = n;
            } else if push_code(&mut out, cs[i + 1], year, month, day, hour, minute, second, weekday, yday) {
                i = i + 2;
            } else {
                push_char(&mut out, '%');
                i = i + 1;
            }
        } else {
            push_char(&mut out, cs[i]);
            i = i + 1;
        }
    }
    out
}

// ---------------------------------------------------------------------------
// Scanning helpers
// ---------------------------------------------------------------------------

/// The position of the `}` that closes a brace opened before position `i`,
/// with `depth` braces open: `{` opens one more, `}` closes one.
pub open spec fn brace_close(s: Seq<char>, i: int, depth: int) -> Option<int>
    decreases s.len() - i,
{
    if i < 0 || i >= s.len() {
        None
    } else if s[i] == '{' {
        brace_close(s, i + 1, depth + 1)
    } else if s[i] == '}' {
        if depth - 1 == 0 {
            Some(i)
        } else {
            brace_close(s, i + 1, depth - 1)
        }
    } else {
        brace_close(s, i + 1, depth)
    }
}

/// Find the matching closing `}` for an opening `{`, handling nesting.
fn find_matching_brace(s: &[char], start: usize) -> (r: Option<usize>)
    ensures
        match brace_close(s@, start as int, 1) {
            Some(e) => r == Some(e as usize) && start <= e < s@.len(),
            None => r is None,
        },
{
    proof {
        lemma_brace_close_after(s@, start as int, 1);
    }
    let mut depth: u128 = 1;
    let mut i: usize = start;
    while i < s.len()
        invariant
            start <= i,
            1 <= depth <= i - start + 1,
            brace_close(s@, start as int, 1) == brace_close(s@, i as int, depth as int),
        decreases s@.len() - i,
    {
        if s[i] == '{' {
            depth = depth + 1;
        } else if s[i] == '}' {
            if depth == 1 {
                return Some(i);
            }
            depth = depth - 1;
        }
        i = i + 1;
    }
    None
}

/// The position of the `]` that ends a `#[...]` block, from position `i` on,
/// skipping `#{...}` references.
pub open spec fn style_close(s: Seq<char>, i: int) -> Option<int>
    decreases s.len() - i,
{
    if i < 0 || i >= s.len() {
        None
    } else if s[i] == ']' {
        Some(i)
    } else if s[i] == '#' && i + 1 < s.len() && s[i + 1] == '{' {
        match brace_close(s, i + 2, 1) {
            Some(e) => if i < e + 1 <= s.len() {
                style_close(s, e + 1)
            } else {
                None
            },
            None => style_close(s, i + 1),
        }
    } else {
        style_close(s, i + 1)
    }
}

proof fn lemma_brace_close_after(s: Seq<char>, i: int, depth: int)
    ensures
        brace_close(s, i, depth) matches Some(e) ==> i <= e < s.len(),
    decreases s.len() - i,
{
    if 0 <= i < s.len() {
        if s[i] == '{' {
            lemma_brace_close_after(s, i + 1, depth + 1);
        } else if s[i] == '}' {
            lemma_brace_close_after(s, i + 1, depth - 1);
        } else {
            lemma_brace_close_after(s, i + 1, depth);
        }
    }
}

/// Find the closing `]` for a `#[...]` style block, skipping over `#{...}`
/// variable references.
fn find_style_end(s: &[char], start: usize) -> (r: Option<usize>)
    ensures
        match style_close(s@, start as int) {
            Some(e) => r == Some(e as usize) && start <= e < s@.len(),
            None => r is None,
        },
{
    proof {
        lemma_style_close_after(s@, start as int);
    }
    let mut i: usize = start;
    while i < s.len()
        invariant
            start <= i,
            style_close(s@, start as int) == style_close(s@, i as int),
        decreases s@.len() - i,
    {
        if s[i] == ']' {
            return Some(i);
        }
        if s[i] == '#' && i + 1 < s.len() && s[i + 1] == '{' {
            proof {
                lemma_brace_close_after(s@, i + 2, 1);
            }
            match find_matching_brace(s, i + 2) {
                Some(e) => {
                    i = e + 1;
                },
                None => {
                    i = i + 1;
                },
            }
        } else {
            i = i + 1;
        }
    }
    None
}

proof fn lemma_style_close_after(s: Seq<char>, i: int)
    ensures
        style_close(s, i) matches Some(e) ==> i <= e < s.len(),
    decreases s.len() - i,
{
    if 0 <= i < s.len() && s[i] != ']' {
        if s[i] == '#' && i + 1 < s.len() && s[i + 1] == '{' {
            match brace_close(s, i + 2, 1) {
                Some(e) => if i < e + 1 <= s.len() {
                    lemma_style_close_after(s, e + 1);
                },
                None => lemma_style_close_after(s, i + 1),
            }
        } else {
            lemma_style_close_after(s, i + 1);
        }
    }
}

/// The position of the first comma outside braces in `s` from position `i`
/// on, with `depth` braces open (a `}` never takes the depth below zero).
pub open spec fn comma_at(s: Seq<char>, i: int, depth: int) -> Option<int>
    decreases s.len() - i,
{
    if i < 0 || i >= s.len() {
        None
    } else if s[i] == '{' {
        comma_at(s, i + 1, depth + 1)
    } else if s[i] == '}' {
        comma_at(s, i + 1, if depth > 0 { depth - 1 } else { 0 })
    } else if s[i] == ',' && depth == 0 {
        Some(i)
    } else {
        comma_at(s, i + 1, depth)
    }
}

/// `s` split at its first comma outside braces.
pub open spec fn comma_split(s: Seq<char>) -> Option<(Seq<char>, Seq<char>)> {
    match comma_at(s, 0, 0) {
        Some(i) => Some((s.subrange(0, i), s.subrange(i + 1, s.len() as int))),
        None => None,
    }
}

proof fn lemma_comma_at_range(s: Seq<char>, i: int, depth: int)
    requires
        0 <= i,
    ensures
        comma_at(s, i, depth) matches Some(e) ==> i <= e < s.len(),
    decreases s.len() - i,
{
    if i < s.len() {
        lemma_comma_at_range(s, i + 1, if s[i] == '{' { depth + 1 } else if s[i] == '}' { if depth > 0 { depth - 1 } else { 0 } } else { depth });
    }
}

/// Split a format string at a top-level comma, respecting nested `#{}`.
fn split_at_comma(s: &[char]) -> (r: Option<(Vec<char>, Vec<char>)>)
    ensures
        match comma_split(s@) {
            Some(p) => r matches Some(q) && q.0@ == p.0 && q.1@ == p.1,
            None => r is None,
        },
{
    let mut depth: u128 = 0;
    let mut i: usize = 0;
    while i < s.len()
        invariant
            depth <= i,
            comma_at(s@, 0, 0) == comma_at(s@, i as int, depth as int),
        decreases s@.len() - i,
    {
        if s[i] == '{' {
            depth = depth + 1;
        } else if s[i] == '}' {
            if depth > 0 {
                depth = depth - 1;
            }
        } else if s[i] == ',' && depth == 0 {
            let a = crate::text::chars_range(s, 0, i);
            let b = crate::text::chars_range(s, i + 1, s.len());
            return Some((a, b));
        }
        i = i + 1;
    }
    None
}

/// The variable a short alias `#c` stands for.
pub open spec fn short_alias_name(c: char) -> Option<Seq<char>> {
    if c == 'D' {
        Some("pane_id"@)
    } else if c == 'F' {
        Some("window_flags"@)
    } else if c == 'H' {
        Some("host"@)
    } else if c == 'h' {
        Some("host_short"@)
    } else if c == 'I' {
        Some("window_index"@)
    } else if c == 'P' {
        Some("pane_index"@)
    } else if c == 'S' {
        Some("session_name"@)
    } else if c == 'T' {
        Some("pane_title"@)
    } else if c == 'W' {
        Some("window_name"@)
    } else {
        None
    }
}

/// Map single-character short aliases to their variable names.
fn short_alias(c: char) -> (r: Option<&'static str>)
    ensures
        match short_alias_name(c) {
            Some(n) => r matches Some(s) && s@ == n,
            None => r is None,
        },
{
    match c {
        'D' => Some("pane_id"),
        'F' => Some("window_flags"),
        'H' => Some("host"),
        'h' => Some("host_short"),
        'I' => Some("window_index"),
        'P' => Some("pane_index"),
        'S' => Some("session_name"),
        'T' => Some("pane_title"),
        'W' => Some("window_name"),
        _ => None,
    }
}

// ---------------------------------------------------------------------------
// Text transformations
// ---------------------------------------------------------------------------

/// `s` in single quotes, each `'` in it written `'\''`.
pub open spec fn shell_quoted(s: Seq<char>) -> Seq<char>
    decreases s.len(),
{
    if s.len() == 0 {
        seq!['\'', '\'']
    } else {
        let q = shell_quoted(s.drop_last());
        let body = q.drop_last();
        let add = if s.last() == '\'' { seq!['\'', '\\', '\'', '\''] } else { seq![s.last()] };
        body + add + seq!['\'']
    }
}

/// Shell-quote a string (single-quote with escaping).
fn shell_quote(s: &[char]) -> (r: String)
    ensures
        r@ == shell_quoted(s@),
{
    let mut out = String::new();
    push_char(&mut out, '\'');
    let mut i: usize = 0;
    while i < s.len()
        invariant
            i <= s@.len(),
            out@.push('\'') == shell_quoted(s@.subrange(0, i as int)),
        decreases s@.len() - i,
    {
        let ghost o0 = out@;
        assert(s@.subrange(0, i + 1).drop_last() =~= s@.subrange(0, i as int));
        assert(o0.push('\'').drop_last() =~= o0);
        if s[i] == '\'' {
            push_char(&mut out, '\'');
            push_char(&mut out, '\\');
            push_char(&mut out, '\'');
            push_char(&mut out, '\'');
            assert(out@.push('\'') =~= o0 + seq!['\'', '\\', '\'', '\''] + seq!['\'']);
        } else {
            push_char(&mut out, s[i]);
            assert(out@.push('\'') =~= o0 + seq![s@[i as int]] + seq!['\'']);
        }
        i = i + 1;
    }
    push_char(&mut out, '\'');
    assert(s@.subrange(0, s@.len() as int) =~= s@);
    out
}

/// Whether `c` is a control character (`char::is_control`).
pub open spec fn is_control_char(c: char) -> bool {
    (c as u32) <= 0x1F || (0x7F <= (c as u32) && (c as u32) <= 0x9F)
}

/// Whether `c` is in the wide (CJK) ranges.
pub open spec fn is_wide(c: char) -> bool {
    let v = c as u32;
    (0x4E00 <= v <= 0x9FFF) || (0x3400 <= v <= 0x4DBF) || (0xF900 <= v <= 0xFAFF) || (0xFF01 <= v <= 0xFF60)
        || (0xFFE0 <= v <= 0xFFE6) || (0x2E80 <= v <= 0x2FDF) || (0x3000 <= v <= 0x303F) || (0x3040 <= v
        <= 0x309F) || (0x30A0 <= v <= 0x30FF) || (0xAC00 <= v <= 0xD7AF) || (0x20000 <= v <= 0x2FA1F)
}

/// The display width of a character: 0 for control characters, 2 for wide
/// ones, else 1.
pub open spec fn char_width(c: char) -> int {
    if is_control_char(c) {
        0
    } else if is_wide(c) {
        2
    } else {
        1
    }
}

/// The display width of a string.
pub open spec fn text_width(s: Seq<char>) -> int
    decreases s.len(),
{
    if s.len() == 0 {
        0
    } else {
        text_width(s.drop_last()) + char_width(s.last())
    }
}

/// Check if a character is a CJK wide character.
fn is_wide_char(ch: char) -> (r: bool)
    ensures
        r == is_wide(ch),
{
    let v = ch as u32;
    (0x4E00 <= v && v <= 0x9FFF) || (0x3400 <= v && v <= 0x4DBF) || (0xF900 <= v && v <= 0xFAFF)
        || (0xFF01 <= v && v <= 0xFF60) || (0xFFE0 <= v && v <= 0xFFE6) || (0x2E80 <= v && v <= 0x2FDF)
        || (0x3000 <= v && v <= 0x303F) || (0x3040 <= v && v <= 0x309F) || (0x30A0 <= v && v <= 0x30FF)
        || (0xAC00 <= v && v <= 0xD7AF) || (0x20000 <= v && v <= 0x2FA1F)
}

/// Compute display width of a string (ASCII = 1, wide CJK chars = 2, control = 0).
fn display_width(s: &[char]) -> (r: u128)
    ensures
        r == text_width(s@),
{
    let mut w: u128 = 0;
    let mut i: usize = 0;
    while i < s.len()
        invariant
            i <= s@.len(),
            w == text_width(s@.subrange(0, i as int)),
            w <= 2 * i,
        decreases s@.len() - i,
    {
        assert(s@.subrange(0, i + 1).drop_last() =~= s@.subrange(0, i as int));
        let v = s[i] as u32;
        let cw: u128 = if v <= 0x1F || (0x7F <= v && v <= 0x9F) {
            0
        } else if is_wide_char(s[i]) {
            2
        } else {
            1
        };
        assert(cw == char_width(s@[i as int]));
        w = w + cw;
        i = i + 1;
    }
    assert(s@.subrange(0, s@.len() as int) =~= s@);
    w
}

/// `s` from position `i` on with every occurrence of the non-empty `pat`
/// replaced by `rep`, left to right, appended to `out`.
pub open spec fn replace_from(s: Seq<char>, pat: Seq<char>, rep: Seq<char>, i: int, out: Seq<char>) -> Seq<char>
    decreases s.len() - i,
{
    if i >= s.len() || pat.len() == 0 {
        out
    } else if i + pat.len() <= s.len() && s.subrange(i, i + pat.len()) == pat {
        replace_from(s, pat, rep, i + pat.len(), out + rep)
    } else {
        replace_from(s, pat, rep, i + 1, out.push(s[i]))
    }
}

/// `s` with `rep` before, between and after its characters.
pub open spec fn interleave(s: Seq<char>, rep: Seq<char>) -> Seq<char>
    decreases s.len(),
{
    if s.len() == 0 {
        rep
    } else {
        interleave(s.drop_last(), rep) + seq![s.last()] + rep
    }
}

/// `s` with every occurrence of `pat` replaced by `rep`, as `str::replace`
/// does (an empty pattern matches before, between and after characters).
pub open spec fn replace_all(s: Seq<char>, pat: Seq<char>, rep: Seq<char>) -> Seq<char> {
    if pat.len() == 0 {
        interleave(s, rep)
    } else {
        replace_from(s, pat, rep, 0, Seq::empty())
    }
}

/// Replaces every occurrence of `pat` in `s` by `rep`.
fn replace_chars(s: &[char], pat: &[char], rep: &[char]) -> (r: String)
    ensures
        r@ == replace_all(s@, pat@, rep@),
{
    let reps = string_from_chars(rep);
    let mut out = String::new();
    if pat.len() == 0 {
        push_all(&mut out, reps.as_str());
        let mut i: usize = 0;
        while i < s.len()
            invariant
                i <= s@.len(),
                reps@ == rep@,
                out@ == interleave(s@.subrange(0, i as int), rep@),
            decreases s@.len() - i,
        {
            assert(s@.subrange(0, i + 1).drop_last() =~= s@.subrange(0, i as int));
            let ghost o0 = out@;
            push_char(&mut out, s[i]);
            push_all(&mut out, reps.as_str());
            assert(out@ =~= o0 + seq![s@[i as int]] + rep@);
            i = i + 1;
        }
        assert(s@.subrange(0, s@.len() as int) =~= s@);
        return out;
    }
    let mut i: usize = 0;
    while i < s.len()
        invariant
            i <= s@.len(),
            pat@.len() > 0,
            reps@ == rep@,
            replace_all(s@, pat@, rep@) == replace_from(s@, pat@, rep@, i as int, out@),
        decreases s@.len() - i,
    {
        let mut hit = false;
        if pat.len() <= s.len() - i {
            let mut k: usize = 0;
            hit = true;
            let n = s.len();
            while k < pat.len()
                invariant
                    n == s@.len(),
                    i < s@.len(),
                    pat@.len() > 0,
                    i + pat@.len() <= s@.len(),
                    k <= pat@.len(),
                    hit == (forall|m: int| 0 <= m < k ==> s@[i + m] == pat@[m]),
                decreases pat@.len() - k,
            {
                assert(i + k < s@.len());
                let idx: usize = i + k;
                if s[idx] != pat[k] {
                    hit = false;
                }
                k = k + 1;
            }
            if hit {
                assert(s@.subrange(i as int, i + pat@.len()) =~= pat@);
            } else {
                proof {
                    let m = choose|m: int| 0 <= m < pat@.len() && s@[i + m] != pat@[m];
                    assert(s@.subrange(i as int, i + pat@.len())[m] != pat@[m]);
                }
            }
        }
        if hit {
            push_all(&mut out, reps.as_str());
            i = i + pat.len();
        } else {
            push_char(&mut out, s[i]);
            i = i + 1;
        }
    }
    out
}

// ---------------------------------------------------------------------------
// Numbers in text
// ---------------------------------------------------------------------------

/// The value `s.parse::<T>()` yields for a signed type with range
/// `[min, max]`: an optional `+` or `-`, then one or more ASCII digits, with
/// a value in range.
pub open spec fn parse_signed(s: Seq<char>, min: int, max: int) -> Option<int> {
    if s.len() > 0 && s[0] == '-' {
        let d = s.subrange(1, s.len() as int);
        if d.len() > 0 && (forall|i: int| 0 <= i < d.len() ==> crate::text::is_digit(#[trigger] d[i]))
            && crate::text::digits_value(d) <= -min {
            Some(-crate::text::digits_value(d))
        } else {
            None
        }
    } else {
        crate::text::parse_unsigned(s, max)
    }
}

/// Parses a signed 64-bit decimal number as `str::parse` does.
fn parse_i64(s: &[char]) -> (r: Option<i64>)
    ensures
        match parse_signed(s@, i64::MIN as int, i64::MAX as int) {
            Some(v) => r matches Some(x) && x as int == v,
            None => r is None,
        },
{
    if s.len() > 0 && s[0] == '-' {
        let rest = crate::text::chars_range(s, 1, s.len());
        let ghost d = s@.subrange(1, s@.len() as int);
        if rest.len() > 0 && rest[0] == '+' {
            assert(!crate::text::is_digit(d[0]));
            return None;
        }
        assert(crate::text::unsigned_digits(rest@) == d);
        match crate::text::parse_unsigned_chars(rest.as_slice(), 9223372036854775808u64) {
            Some(v) => {
                if v == 9223372036854775808u64 {
                    Some(i64::MIN)
                } else {
                    Some(-(v as i64))
                }
            },
            None => None,
        }
    } else {
        match crate::text::parse_unsigned_chars(s, 9223372036854775807u64) {
            Some(v) => Some(v as i64),
            None => None,
        }
    }
}

/// Parses a signed 32-bit decimal number as `str::parse` does.
fn parse_i32(s: &[char]) -> (r: Option<i32>)
    ensures
        match parse_signed(s@, i32::MIN as int, i32::MAX as int) {
            Some(v) => r matches Some(x) && x as int == v,
            None => r is None,
        },
{
    if s.len() > 0 && s[0] == '-' {
        let rest = crate::text::chars_range(s, 1, s.len());
        let ghost d = s@.subrange(1, s@.len() as int);
        if rest.len() > 0 && rest[0] == '+' {
            assert(!crate::text::is_digit(d[0]));
            return None;
        }
        assert(crate::text::unsigned_digits(rest@) == d);
        match crate::text::parse_unsigned_chars(rest.as_slice(), 2147483648u64) {
            Some(v) => Some((-(v as i64)) as i32),
            None => None,
        }
    } else {
        match crate::text::parse_unsigned_chars(s, 2147483647u64) {
            Some(v) => Some(v as i32),
            None => None,
        }
    }
}

// ---------------------------------------------------------------------------
// Patterns
// ---------------------------------------------------------------------------

/// The first position at or after `i` that is not a `*`.
pub open spec fn skip_stars(p: Seq<char>, i: int) -> int
    decreases p.len() - i,
{
    if 0 <= i < p.len() && p[i] == '*' {
        skip_stars(p, i + 1)
    } else {
        i
    }
}

/// Skipping stars moves past at least the star at `i`.
pub proof fn lemma_skip_stars(p: Seq<char>, i: int)
    requires
        0 <= i <= p.len(),
    ensures
        i <= skip_stars(p, i) <= p.len(),
        0 <= i < p.len() && p[i] == '*' ==> skip_stars(p, i) > i,
    decreases p.len() - i,
{
    if 0 <= i < p.len() && p[i] == '*' {
        lemma_skip_stars(p, i + 1);
    }
}

/// Whether the glob `p` from position `pi` matches `s` from position `si`:
/// `*` matches any run of characters, `?` any one, others themselves.
pub open spec fn glob_at(p: Seq<char>, s: Seq<char>, pi: int, si: int) -> bool
    decreases p.len() - pi, s.len() + 1 - si, 0int,
{
    if pi < 0 || pi >= p.len() {
        si == s.len()
    } else if p[pi] == '*' {
        let pj = skip_stars(p, pi);
        proof {
            lemma_skip_stars(p, pi);
        }
        if pj >= p.len() {
            true
        } else {
            glob_some(p, s, pj, si)
        }
    } else if si < 0 || si >= s.len() {
        false
    } else if p[pi] == '?' || p[pi] == s[si] {
        glob_at(p, s, pi + 1, si + 1)
    } else {
        false
    }
}

/// Whether the glob `p` from position `pj` matches `s` from some position
/// at or after `i`.
pub open spec fn glob_some(p: Seq<char>, s: Seq<char>, pj: int, i: int) -> bool
    decreases p.len() - pj, s.len() + 1 - i, 1int,
{
    if i < 0 || i > s.len() || pj < 0 || pj > p.len() {
        false
    } else {
        glob_at(p, s, pj, i) || glob_some(p, s, pj, i + 1)
    }
}

/// Glob matching (supports `*` and `?`) of `s` from `si` against `p` from `pi`.
fn glob_match(p: &[char], s: &[char], pi: usize, si: usize) -> (r: bool)
    requires
        pi <= p@.len(),
        si <= s@.len(),
    ensures
        r == glob_at(p@, s@, pi as int, si as int),
    decreases p@.len() - pi,
{
    let mut a: usize = pi;
    let mut b: usize = si;
    while a < p.len()
        invariant
            pi <= a <= p@.len(),
            b <= s@.len(),
            glob_at(p@, s@, pi as int, si as int) == glob_at(p@, s@, a as int, b as int),
        decreases p@.len() - a,
    {
        if p[a] == '*' {
            proof {
                lemma_skip_stars(p@, a as int);
            }
            let mut pj = a;
            while pj < p.len() && p[pj] == '*'
                invariant
                    a <= pj <= p@.len(),
                    skip_stars(p@, a as int) == skip_stars(p@, pj as int),
                    p@[a as int] == '*',
                    pj > a || pj == a,
                decreases p@.len() - pj,
            {
                pj = pj + 1;
            }
            if pj == p.len() {
                return true;
            }
            assert(glob_at(p@, s@, a as int, b as int) == glob_some(p@, s@, pj as int, b as int));
            let sn = s.len();
            let mut i = b;
            while i < sn
                invariant
                    sn == s@.len(),
                    b <= i <= sn,
                    a < pj < p@.len(),
                    pi <= a,
                    glob_at(p@, s@, pi as int, si as int) == glob_some(p@, s@, pj as int, i as int),
                decreases sn - i,
            {
                if glob_match(p, s, pj, i) {
                    return true;
                }
                i = i + 1;
            }
            let last = glob_match(p, s, pj, sn);
            assert(glob_some(p@, s@, pj as int, sn as int + 1) == false);
            return last;
        }
        if b >= s.len() {
            return false;
        }
        if p[a] != '?' && p[a] != s[b] {
            return false;
        }
        a = a + 1;
        b = b + 1;
    }
    b == s.len()
}

/// Simple fnmatch-style glob matching (supports `*` and `?`).
fn fnmatch(pattern: &[char], string: &[char]) -> (r: bool)
    ensures
        r == glob_at(pattern@, string@, 0, 0),
{
    glob_match(pattern, string, 0, 0)
}

/// Whether the basic regular expression `p` from `pi` matches `s` from
/// `si`: `.` matches any character, `X*` any run of `X` (or of anything for
/// `.*`), others themselves; with `all` the match must reach the end of `s`.
pub open spec fn rx_at(p: Seq<char>, s: Seq<char>, pi: int, si: int, all: bool) -> bool
    decreases p.len() - pi, s.len() + 1 - si, 1int,
{
    if pi < 0 || pi >= p.len() {
        if all { si == s.len() } else { true }
    } else if pi + 1 < p.len() && p[pi + 1] == '*' {
        rx_star(p, s, pi, si, all)
    } else if si < 0 || si >= s.len() {
        false
    } else if p[pi] == '.' || p[pi] == s[si] {
        rx_at(p, s, pi + 1, si + 1, all)
    } else {
        false
    }
}

/// Whether `p[pi]*` followed by the rest of `p` matches `s` from `si`,
/// trying the shortest run first.
pub open spec fn rx_star(p: Seq<char>, s: Seq<char>, pi: int, si: int, all: bool) -> bool
    decreases p.len() - pi, s.len() + 1 - si, 0int,
{
    if pi < 0 || pi + 2 > p.len() || si < 0 || si > s.len() {
        false
    } else if rx_at(p, s, pi + 2, si, all) {
        true
    } else if si >= s.len() {
        false
    } else if p[pi] == '.' || s[si] == p[pi] {
        rx_star(p, s, pi, si + 1, all)
    } else {
        false
    }
}

/// Basic regular expression matching of `s` from `si` against `p` from `pi`.
fn rx_match(p: &[char], s: &[char], pi: usize, si: usize, all: bool) -> (r: bool)
    requires
        pi <= p@.len(),
        si <= s@.len(),
    ensures
        r == rx_at(p@, s@, pi as int, si as int, all),
    decreases p@.len() - pi, s@.len() + 1 - si,
{
    if pi == p.len() {
        return if all { si == s.len() } else { true };
    }
    if pi + 1 < p.len() && p[pi + 1] == '*' {
        let mc = p[pi];
        let pn = p.len();
        let sn = s.len();
        let mut si2 = si;
        assert(rx_at(p@, s@, pi as int, si as int, all) == rx_star(p@, s@, pi as int, si as int, all));
        while si2 <= sn
            invariant
                rx_at(p@, s@, pi as int, si as int, all) == rx_star(p@, s@, pi as int, si as int, all),
                pn == p@.len(),
                sn == s@.len(),
                si <= si2 <= s@.len(),
                pi + 2 <= p@.len(),
                mc == p@[pi as int],
                rx_star(p@, s@, pi as int, si as int, all) == rx_star(p@, s@, pi as int, si2 as int, all),
            decreases s@.len() + 1 - si2,
        {
            if rx_match(p, s, pi + 2, si2, all) {
                assert(rx_star(p@, s@, pi as int, si2 as int, all));
                return true;
            }
            if si2 >= sn {
                assert(!rx_star(p@, s@, pi as int, si2 as int, all));
                return false;
            }
            if mc == '.' || s[si2] == mc {
                si2 = si2 + 1;
            } else {
                assert(!rx_star(p@, s@, pi as int, si2 as int, all));
                return false;
            }
        }
        return false;
    }
    if si >= s.len() {
        return false;
    }
    if p[pi] == '.' || p[pi] == s[si] {
        rx_match(p, s, pi + 1, si + 1, all)
    } else {
        false
    }
}

/// Whether `c` is one of the characters that make a pattern a regular
/// expression rather than a plain substring.
pub open spec fn is_meta(c: char) -> bool {
    c == '.' || c == '*' || c == '+' || c == '?' || c == '[' || c == ']' || c == '(' || c == ')' || c == '{'
        || c == '}' || c == '|' || c == '^' || c == '$' || c == '\\'
}

/// The position of the first non-ASCII character of `s` at or after `i`,
/// or the length of `s`.
pub open spec fn first_non_ascii(s: Seq<char>, i: int) -> int
    decreases s.len() - i,
{
    if i >= s.len() {
        s.len() as int
    } else if (s[i] as u32) >= 0x80 {
        i
    } else {
        first_non_ascii(s, i + 1)
    }
}

/// Searching for a match of `p` in the suffixes of `s` from position `k` on,
/// where `q` is the first non-ASCII position: the search tries each suffix
/// in turn; past a non-ASCII character the byte offsets it steps through are
/// no longer character boundaries, where slicing panics (nothing).
pub open spec fn rx_search(p: Seq<char>, s: Seq<char>, k: int, q: int, all: bool) -> Option<bool>
    decreases q + 1 - k,
{
    if k > q || k < 0 || k > s.len() {
        if q < s.len() { None } else { Some(false) }
    } else if rx_at(p, s.subrange(k, s.len() as int), 0, 0, all) {
        Some(true)
    } else {
        rx_search(p, s, k + 1, q, all)
    }
}

/// The result of the anchored or unanchored basic regular expression match
/// of `p` against `s`, nothing where the search panics.
pub open spec fn regex_result(p: Seq<char>, s: Seq<char>) -> Option<bool> {
    if p.len() == 0 {
        Some(true)
    } else if !(exists|i: int| 0 <= i < p.len() && is_meta(#[trigger] p[i])) {
        Some(crate::text::occurs_in(p, s))
    } else if p[0] == '^' {
        let p1 = p.subrange(1, p.len() as int);
        if p1.len() > 0 && p1.last() == '$' {
            Some(rx_at(p1.drop_last(), s, 0, 0, true))
        } else {
            Some(rx_at(p1, s, 0, 0, true))
        }
    } else if p.last() == '$' {
        rx_search(p.drop_last(), s, 0, first_non_ascii(s, 0), true)
    } else {
        rx_search(p, s, 0, first_non_ascii(s, 0), false)
    }
}

/// Tries the suffixes of `s` for a match of `p`.
fn regex_search(p: &[char], s: &[char], all: bool) -> (r: Option<bool>)
    ensures
        r == rx_search(p@, s@, 0, first_non_ascii(s@, 0), all),
{
    let mut q: usize = 0;
    while q < s.len() && (s[q] as u32) < 0x80
        invariant
            q <= s@.len(),
            first_non_ascii(s@, 0) == first_non_ascii(s@, q as int),
        decreases s@.len() - q,
    {
        q = q + 1;
    }
    let mut k: usize = 0;
    while k < q
        invariant
            q <= s@.len(),
            q == first_non_ascii(s@, 0),
            k <= q,
            rx_search(p@, s@, 0, q as int, all) == rx_search(p@, s@, k as int, q as int, all),
        decreases q - k,
    {
        let suffix = crate::text::chars_range(s, k, s.len());
        if rx_match(p, suffix.as_slice(), 0, 0, all) {
            return Some(true);
        }
        k = k + 1;
    }
    let last = crate::text::chars_range(s, q, s.len());
    if rx_match(p, last.as_slice(), 0, 0, all) {
        return Some(true);
    }
    assert(rx_search(p@, s@, q + 1, q as int, all) == (if q < s@.len() { None::<bool> } else { Some(false) }));
    if q < s.len() {
        None
    } else {
        Some(false)
    }
}

/// Basic regular expression match; nothing where the original panics.
fn regex_match(pattern: &[char], string: &[char]) -> (r: Option<bool>)
    ensures
        r == regex_result(pattern@, string@),
{
    let n = pattern.len();
    if n == 0 {
        return Some(true);
    }
    let mut i: usize = 0;
    let mut meta = false;
    while i < n
        invariant
            n == pattern@.len(),
            i <= n,
            meta == (exists|j: int| 0 <= j < i && is_meta(#[trigger] pattern@[j])),
        decreases n - i,
    {
        let c = pattern[i];
        if c == '.' || c == '*' || c == '+' || c == '?' || c == '[' || c == ']' || c == '(' || c == ')' || c
            == '{' || c == '}' || c == '|' || c == '^' || c == '$' || c == '\\' {
            meta = true;
        }
        i = i + 1;
    }
    if !meta {
        return Some(crate::text::chars_occur(pattern, string));
    }
    if pattern[0] == '^' {
        let p1 = crate::text::chars_range(pattern, 1, n);
        if p1.len() > 0 && p1[p1.len() - 1] == '$' {
            let p2 = crate::text::chars_range(p1.as_slice(), 0, p1.len() - 1);
            assert(p2@ =~= p1@.drop_last());
            return Some(rx_match(p2.as_slice(), string, 0, 0, true));
        }
        return Some(rx_match(p1.as_slice(), string, 0, 0, true));
    }
    if pattern[n - 1] == '$' {
        let p1 = crate::text::chars_range(pattern, 0, n - 1);
        assert(p1@ =~= pattern@.drop_last());
        return regex_search(p1.as_slice(), string, true);
    }
    regex_search(pattern, string, false)
}

// ---------------------------------------------------------------------------
// Paths
// ---------------------------------------------------------------------------

/// What `Path::parent` gives for the path `s`, as text (empty when it has none).
pub uninterp spec fn path_parent(s: Seq<char>) -> Seq<char>;

/// What `Path::file_name` gives for the path `s`, as text (empty when it has none).
pub uninterp spec fn path_file_name(s: Seq<char>) -> Seq<char>;

/// The parent directory of a path.
///
/// Trusted: calls `Path::parent` and converts the result to a string (empty
/// when there is none); its result is named `path_parent`.
#[verifier::external_body]
fn dirname(s: &str) -> (r: String)
    ensures
        r@ == path_parent(s@),
{
    match std::path::Path::new(s).parent() {
        Some(p) => p.to_string_lossy().into_owned(),
        None => String::new(),
    }
}

/// The last component of a path.
///
/// Trusted: calls `Path::file_name` and converts the result to a string
/// (empty when there is none); its result is named `path_file_name`.
#[verifier::external_body]
fn basename(s: &str) -> (r: String)
    ensures
        r@ == path_file_name(s@),
{
    match std::path::Path::new(s).file_name() {
        Some(f) => f.to_string_lossy().into_owned(),
        None => String::new(),
    }
}

// ---------------------------------------------------------------------------
// Expansion
// ---------------------------------------------------------------------------

/// The bound on nested double expansions (`E:`) that the expansion carries;
/// it is never reached in practice.
pub const EXPANSION_FUEL: u64 = 0xFFFF_FFFF_FFFF_FFFF;

/// The result of a modifier: it does not apply, the expansion panics, or its value.
pub enum Modified {
    NotApplicable,
    Panics,
    Value(Seq<char>),
}

/// A value as a modifier's result, a panic as a panic.
pub open spec fn as_modified(r: Option<Seq<char>>) -> Modified {
    match r {
        Some(v) => Modified::Value(v),
        None => Modified::Panics,
    }
}

/// Whether a value counts as true: it is neither empty nor `0`.
pub open spec fn truthy_text(v: Seq<char>) -> bool {
    v.len() > 0 && v != seq!['0']
}

/// `1` or `0`.
pub open spec fn bool_text(b: bool) -> Seq<char> {
    if b { seq!['1'] } else { seq!['0'] }
}

/// What a name looks up to, or nothing.
pub open spec fn lookup_text(c: ContextView, k: Seq<char>) -> Seq<char> {
    match ctx_lookup(c, k) {
        Some(v) => v,
        None => Seq::empty(),
    }
}

/// Whether `s` contains `#`.
pub open spec fn has_hash(s: Seq<char>) -> bool {
    exists|i: int| 0 <= i < s.len() && #[trigger] s[i] == '#'
}

/// The text of the character with code `v`, when `v` is a number naming a
/// Unicode scalar value; otherwise nothing.
pub open spec fn char_of_code(v: Seq<char>) -> Seq<char> {
    match crate::text::parse_unsigned(v, 0xFFFF_FFFF) {
        Some(n) => if n < 0xD800 || (0xE000 <= n && n <= 0x10FFFF) {
            seq![n as char]
        } else {
            Seq::empty()
        },
        None => Seq::empty(),
    }
}

/// Whether every character of `s` is an ASCII digit.
pub open spec fn all_digits(s: Seq<char>) -> bool {
    forall|i: int| 0 <= i < s.len() ==> crate::text::is_digit(#[trigger] s[i])
}

/// The comparison operator at the start of `s` and its length.
pub open spec fn comparison_op(s: Seq<char>) -> Option<(int, int)> {
    if is_prefix_text(seq!['=', '=', ':'], s) {
        Some((0, 3))
    } else if is_prefix_text(seq!['!', '=', ':'], s) {
        Some((1, 3))
    } else if is_prefix_text(seq!['<', '=', ':'], s) {
        Some((2, 3))
    } else if is_prefix_text(seq!['>', '=', ':'], s) {
        Some((3, 3))
    } else if is_prefix_text(seq!['<', ':'], s) {
        Some((4, 2))
    } else if is_prefix_text(seq!['>', ':'], s) {
        Some((5, 2))
    } else {
        None
    }
}

/// `p` is a prefix of `s`.
pub open spec fn is_prefix_text(p: Seq<char>, s: Seq<char>) -> bool {
    crate::text::is_prefix(p, s)
}

/// The outcome of comparison `op` (see `comparison_op`) on two values.
pub open spec fn compare_text(op: int, a: Seq<char>, b: Seq<char>) -> bool {
    if op == 0 {
        a == b
    } else if op == 1 {
        a != b
    } else if op == 2 {
        !crate::text::seq_less(b, a)
    } else if op == 3 {
        !crate::text::seq_less(a, b)
    } else if op == 4 {
        crate::text::seq_less(a, b)
    } else {
        crate::text::seq_less(b, a)
    }
}

/// `s` without its first `n` characters.
pub open spec fn after(s: Seq<char>, n: int) -> Seq<char> {
    s.subrange(n, s.len() as int)
}

/// The parts of `s` around its first `c`, when it has one.
pub open spec fn split_first(s: Seq<char>, c: char) -> Option<(Seq<char>, Seq<char>)> {
    let k = first_from(s, c, 0);
    if k < s.len() {
        Some((s.subrange(0, k), s.subrange(k + 1, s.len() as int)))
    } else {
        None
    }
}

/// The first position of `c` at or after `j`, or the length of `s`.
pub open spec fn first_from(s: Seq<char>, c: char, j: int) -> int
    decreases s.len() - j,
{
    if j < 0 || j >= s.len() {
        s.len() as int
    } else if s[j] == c {
        j
    } else {
        first_from(s, c, j + 1)
    }
}

/// Splitting keeps both parts shorter than the whole.
pub proof fn lemma_split_first(s: Seq<char>, c: char)
    ensures
        split_first(s, c) matches Some(p) ==> p.0.len() < s.len() && p.1.len() < s.len(),
{
    lemma_first_from(s, c, 0);
}

/// The first position found is in range.
pub proof fn lemma_first_from(s: Seq<char>, c: char, j: int)
    requires
        0 <= j,
    ensures
        j <= first_from(s, c, j) || first_from(s, c, j) == s.len(),
        first_from(s, c, j) <= s.len() || j > s.len(),
        0 <= first_from(s, c, j),
    decreases s.len() - j,
{
    if j < s.len() && s[j] != c {
        lemma_first_from(s, c, j + 1);
    }
}

/// Splitting at a comma keeps both parts shorter than the whole.
pub proof fn lemma_comma_split(s: Seq<char>)
    ensures
        comma_split(s) matches Some(p) ==> p.0.len() < s.len() && p.1.len() < s.len(),
{
    lemma_comma_at_range(s, 0, 0);
}

/// The number parsed from a truncation or padding width, when it parses as an `i32`.
pub open spec fn width_of(n: Seq<char>) -> Option<int> {
    parse_signed(n, i32::MIN as int, i32::MAX as int)
}

/// The value a number text has in arithmetic: the `i64` it parses as, else 0.
pub open spec fn number_of(v: Seq<char>) -> i64 {
    match parse_signed(v, i64::MIN as int, i64::MAX as int) {
        Some(n) => n as i64,
        None => 0,
    }
}

/// Rust's integer division, rounding toward zero.
pub open spec fn quot(a: int, b: int) -> int {
    let m = (if a < 0 { -a } else { a }) / (if b < 0 { -b } else { b });
    if (a < 0) == (b < 0) { m } else { -m }
}

/// Rust's remainder, with the sign of the dividend.
pub open spec fn rem(a: int, b: int) -> int {
    let m = (if a < 0 { -a } else { a }) % (if b < 0 { -b } else { b });
    if a < 0 { -m } else { m }
}

/// The expansion of `t` from position `i` on, appended to `out`; nothing
/// where the expansion panics.
pub open spec fn fx_from(t: Seq<char>, i: int, out: Seq<char>, c: ContextView, fuel: nat) -> Option<Seq<char>>
    decreases fuel, t.len(), 0int, t.len() - i,
{
    if i < 0 || i >= t.len() {
        Some(out)
    } else if t[i] != '#' {
        fx_from(t, i + 1, out.push(t[i]), c, fuel)
    } else if i + 1 >= t.len() {
        Some(out.push('#'))
    } else if t[i + 1] == '#' {
        fx_from(t, i + 2, out.push('#'), c, fuel)
    } else if t[i + 1] == '{' {
        match brace_close(t, i + 2, 1) {
            Some(e) => if i + 2 <= e < t.len() {
                match fx_inner(t.subrange(i + 2, e), c, fuel) {
                    Some(v) => fx_from(t, e + 1, out + v, c, fuel),
                    None => None,
                }
            } else {
                None
            },
            None => fx_from(t, i + 2, out + seq!['#', '{'], c, fuel),
        }
    } else if t[i + 1] == '[' {
        match style_close(t, i + 2) {
            Some(e) => if i + 2 <= e < t.len() {
                match fx_from(t.subrange(i + 2, e), 0, Seq::empty(), c, fuel) {
                    Some(v) => fx_from(t, e + 1, out + seq!['#', '['] + v + seq![']'], c, fuel),
                    None => None,
                }
            } else {
                None
            },
            None => fx_from(t, i + 1, out.push('#'), c, fuel),
        }
    } else {
        match short_alias_name(t[i + 1]) {
            Some(name) => fx_from(
                t,
                i + 2,
                out + match assoc_get(c.vars, name) {
                    Some(v) => v,
                    None => Seq::empty(),
                },
                c,
                fuel,
            ),
            None => fx_from(t, i + 1, out.push('#'), c, fuel),
        }
    }
}

/// The value of an expression: a text with `#` is expanded, a bare name is
/// looked up.
pub open spec fn fx_eval(e: Seq<char>, c: ContextView, fuel: nat) -> Option<Seq<char>>
    decreases fuel, e.len(), 1int, 0int,
{
    if has_hash(e) {
        fx_from(e, 0, Seq::empty(), c, fuel)
    } else {
        Some(lookup_text(c, e))
    }
}

/// The expansion of the text inside `#{...}`.
pub open spec fn fx_inner(s: Seq<char>, c: ContextView, fuel: nat) -> Option<Seq<char>>
    decreases fuel, s.len(), 4int, 0int,
{
    if s.len() > 0 && s[0] == '?' {
        fx_cond(after(s, 1), c, fuel)
    } else {
        match fx_modifier(s, c, fuel) {
            Modified::Value(v) => Some(v),
            Modified::Panics => None,
            Modified::NotApplicable => if is_prefix_text(seq!['s', '/'], s) && subst_parts(s) is Some {
                fx_subst(s, c, fuel)
            } else if comparison_op(s) is Some {
                fx_compare(s, c, fuel)
            } else if s.len() > 0 && s[0] == '=' && trunc_parts(s) is Some {
                fx_trunc(s, c, fuel)
            } else if has_hash(s) {
                fx_from(s, 0, Seq::empty(), c, fuel)
            } else {
                Some(lookup_text(c, s))
            },
        }
    }
}

/// The pattern, replacement and expression of `s/pattern/replacement:expr`.
pub open spec fn subst_parts(s: Seq<char>) -> Option<(Seq<char>, Seq<char>, Seq<char>)> {
    match split_first(after(s, 2), '/') {
        Some(p1) => match split_first(p1.1, ':') {
            Some(p2) => Some((p1.0, p2.0, p2.1)),
            None => None,
        },
        None => None,
    }
}

/// The width and expression of `=N:expr`.
pub open spec fn trunc_parts(s: Seq<char>) -> Option<(int, Seq<char>)> {
    match split_first(after(s, 1), ':') {
        Some(p) => match width_of(p.0) {
            Some(n) => Some((n, p.1)),
            None => None,
        },
        None => None,
    }
}

/// The width and expression of `p:N:expr`.
pub open spec fn pad_parts(s: Seq<char>) -> Option<(int, Seq<char>)> {
    match split_first(after(s, 2), ':') {
        Some(p) => match width_of(p.0) {
            Some(n) => Some((n, p.1)),
            None => None,
        },
        None => None,
    }
}

/// The modifiers: `l:` (literal), `E:` (expand twice), `d:` and `b:`
/// (directory and file name), `q:` (shell quote), `n:` (length), `w:`
/// (display width), `a:` (character from code), `p:` (padding), `!` (not),
/// `||:` and `&&:`, `e|` (arithmetic) and `m:` or `m/r:` (glob or regular
/// expression match).
pub open spec fn fx_modifier(s: Seq<char>, c: ContextView, fuel: nat) -> Modified
    decreases fuel, s.len(), 3int, 0int,
{
    let rest = after(s, 2);
    if is_prefix_text(seq!['l', ':'], s) {
        Modified::Value(rest)
    } else if is_prefix_text(seq!['E', ':'], s) {
        match fx_eval(rest, c, fuel) {
            Some(first) => if fuel == 0 {
                Modified::Value(first)
            } else {
                as_modified(fx_from(first, 0, Seq::empty(), c, (fuel - 1) as nat))
            },
            None => Modified::Panics,
        }
    } else if is_prefix_text(seq!['d', ':'], s) {
        match fx_eval(rest, c, fuel) {
            Some(v) => Modified::Value(path_parent(v)),
            None => Modified::Panics,
        }
    } else if is_prefix_text(seq!['b', ':'], s) {
        match fx_eval(rest, c, fuel) {
            Some(v) => Modified::Value(path_file_name(v)),
            None => Modified::Panics,
        }
    } else if is_prefix_text(seq!['q', ':'], s) {
        match fx_eval(rest, c, fuel) {
            Some(v) => Modified::Value(shell_quoted(v)),
            None => Modified::Panics,
        }
    } else if is_prefix_text(seq!['n', ':'], s) {
        match fx_eval(rest, c, fuel) {
            Some(v) => Modified::Value(decimal(v.len())),
            None => Modified::Panics,
        }
    } else if is_prefix_text(seq!['w', ':'], s) {
        match fx_eval(rest, c, fuel) {
            Some(v) => Modified::Value(decimal((text_width(v) as usize) as nat)),
            None => Modified::Panics,
        }
    } else if is_prefix_text(seq!['a', ':'], s) {
        if all_digits(rest) {
            Modified::Value(char_of_code(rest))
        } else {
            match fx_eval(rest, c, fuel) {
                Some(v) => Modified::Value(char_of_code(v)),
                None => Modified::Panics,
            }
        }
    } else if is_prefix_text(seq!['p', ':'], s) {
        match pad_parts(s) {
            Some(p) => as_modified(fx_pad(s, c, fuel)),
            None => Modified::NotApplicable,
        }
    } else if s.len() > 0 && s[0] == '!' && !is_prefix_text(seq!['!', '=', ':'], s) {
        match fx_eval(after(s, 1), c, fuel) {
            Some(v) => Modified::Value(if truthy_text(v) { seq!['0'] } else { seq!['1'] }),
            None => Modified::Panics,
        }
    } else if is_prefix_text(seq!['|', '|', ':'], s) {
        as_modified(fx_logic(after(s, 3), c, fuel, true))
    } else if is_prefix_text(seq!['&', '&', ':'], s) {
        as_modified(fx_logic(after(s, 3), c, fuel, false))
    } else if is_prefix_text(seq!['e', '|'], s) {
        fx_arith(s, c, fuel)
    } else if is_prefix_text(seq!['m', ':'], s) || is_prefix_text(seq!['m', '/', 'r', ':'], s) {
        as_modified(fx_match(s, c, fuel))
    } else {
        Modified::NotApplicable
    }
}

/// `?cond,true,false`: the true branch when the condition's value is true,
/// else the false branch (empty when missing); nothing at all without a comma.
pub open spec fn fx_cond(rest: Seq<char>, c: ContextView, fuel: nat) -> Option<Seq<char>>
    decreases fuel, rest.len(), 2int, 0int,
{
    proof {
        lemma_comma_split(rest);
    }
    match comma_split(rest) {
        None => Some(Seq::empty()),
        Some(p) => {
            proof {
                lemma_comma_split(p.1);
            }
            let branches = match comma_split(p.1) {
                Some(q) => q,
                None => (p.1, Seq::empty()),
            };
            match fx_eval(p.0, c, fuel) {
                Some(v) => if truthy_text(v) {
                    fx_from(branches.0, 0, Seq::empty(), c, fuel)
                } else {
                    fx_from(branches.1, 0, Seq::empty(), c, fuel)
                },
                None => None,
            }
        },
    }
}

/// A comparison `op:a,b`: `1` or `0` on the expansions of both sides;
/// nothing at all without a comma.
pub open spec fn fx_compare(s: Seq<char>, c: ContextView, fuel: nat) -> Option<Seq<char>>
    decreases fuel, s.len(), 2int, 0int,
{
    match comparison_op(s) {
        None => Some(Seq::empty()),
        Some(op) => {
            let rest = after(s, op.1);
            proof {
                lemma_comma_split(rest);
            }
            match comma_split(rest) {
                None => Some(Seq::empty()),
                Some(p) => match fx_from(p.0, 0, Seq::empty(), c, fuel) {
                    Some(a) => match fx_from(p.1, 0, Seq::empty(), c, fuel) {
                        Some(b) => Some(bool_text(compare_text(op.0, a, b))),
                        None => None,
                    },
                    None => None,
                },
            }
        },
    }
}

/// `s/pattern/replacement:expr`: the expansion of the expression with every
/// occurrence of the pattern replaced.
pub open spec fn fx_subst(s: Seq<char>, c: ContextView, fuel: nat) -> Option<Seq<char>>
    decreases fuel, s.len(), 2int, 0int,
{
    proof {
        lemma_split_first(after(s, 2), '/');
        if let Some(p1) = split_first(after(s, 2), '/') {
            lemma_split_first(p1.1, ':');
        }
    }
    match subst_parts(s) {
        Some(p) => if p.2.len() < s.len() {
            match fx_from(p.2, 0, Seq::empty(), c, fuel) {
                Some(v) => Some(replace_all(v, p.0, p.1)),
                None => None,
            }
        } else {
            None
        },
        None => Some(Seq::empty()),
    }
}

/// `=N:expr`: the value (looked up, else expanded) cut to its first `N`
/// characters, or its last `-N`.
pub open spec fn fx_trunc(s: Seq<char>, c: ContextView, fuel: nat) -> Option<Seq<char>>
    decreases fuel, s.len(), 2int, 0int,
{
    proof {
        lemma_split_first(after(s, 1), ':');
    }
    match trunc_parts(s) {
        Some(p) => if p.1.len() < s.len() {
            let value = match ctx_lookup(c, p.1) {
                Some(v) => Some(v),
                None => fx_from(p.1, 0, Seq::empty(), c, fuel),
            };
            match value {
                Some(v) => {
                    let n = p.0;
                    let k = if n < 0 { -n } else { n };
                    if k >= v.len() {
                        Some(v)
                    } else if n >= 0 {
                        Some(v.subrange(0, k))
                    } else {
                        Some(v.subrange(v.len() - k, v.len() as int))
                    }
                },
                None => None,
            }
        } else {
            None
        },
        None => Some(Seq::empty()),
    }
}

/// `p:N:expr`: the value padded with spaces to `N` characters on the right,
/// or `-N` on the left.
pub open spec fn fx_pad(s: Seq<char>, c: ContextView, fuel: nat) -> Option<Seq<char>>
    decreases fuel, s.len(), 2int, 0int,
{
    proof {
        lemma_split_first(after(s, 2), ':');
    }
    match pad_parts(s) {
        Some(p) => if p.1.len() < s.len() {
            match fx_eval(p.1, c, fuel) {
                Some(v) => {
                    let n = p.0;
                    let k = if n < 0 { -n } else { n };
                    if v.len() >= k {
                        Some(v)
                    } else if n >= 0 {
                        Some(v + repeat_char(' ', k - v.len()))
                    } else {
                        Some(repeat_char(' ', k - v.len()) + v)
                    }
                },
                None => None,
            }
        } else {
            None
        },
        None => Some(Seq::empty()),
    }
}

/// `a,b` with `||` (`or`) or `&&`: `1` or `0` on the truth of both
/// expansions; nothing at all without a comma.
pub open spec fn fx_logic(rest: Seq<char>, c: ContextView, fuel: nat, or: bool) -> Option<Seq<char>>
    decreases fuel, rest.len(), 2int, 0int,
{
    proof {
        lemma_comma_split(rest);
    }
    match comma_split(rest) {
        None => Some(Seq::empty()),
        Some(p) => match fx_from(p.0, 0, Seq::empty(), c, fuel) {
            Some(a) => match fx_from(p.1, 0, Seq::empty(), c, fuel) {
                Some(b) => Some(
                    bool_text(if or { truthy_text(a) || truthy_text(b) } else { truthy_text(a) && truthy_text(b) }),
                ),
                None => None,
            },
            None => None,
        },
    }
}

/// `e|op:a,b`: wrapping `+`, `-`, `*`, or `/` and `%` (0 on a zero divisor)
/// on the numbers the two expansions parse as (0 when they do not); the
/// minimum divided by -1 panics; an unknown operator makes the modifier not
/// apply.
pub open spec fn fx_arith(s: Seq<char>, c: ContextView, fuel: nat) -> Modified
    decreases fuel, s.len(), 2int, 0int,
{
    proof {
        lemma_split_first(after(s, 2), ':');
        if let Some(p) = split_first(after(s, 2), ':') {
            lemma_comma_split(p.1);
        }
    }
    match split_first(after(s, 2), ':') {
        None => Modified::NotApplicable,
        Some(p) => match comma_split(p.1) {
            None => Modified::NotApplicable,
            Some(q) => if q.0.len() < s.len() && q.1.len() < s.len() {
                match fx_from(q.0, 0, Seq::empty(), c, fuel) {
                    None => Modified::Panics,
                    Some(a) => match fx_from(q.1, 0, Seq::empty(), c, fuel) {
                        None => Modified::Panics,
                        Some(b) => {
                            let x = number_of(a);
                            let y = number_of(b);
                            let op = p.0;
                            if op == seq!['+'] {
                                Modified::Value(signed_decimal(x.wrapping_add(y) as int))
                            } else if op == seq!['-'] {
                                Modified::Value(signed_decimal(x.wrapping_sub(y) as int))
                            } else if op == seq!['*'] {
                                Modified::Value(signed_decimal(x.wrapping_mul(y) as int))
                            } else if op == seq!['/'] {
                                if y == 0 {
                                    Modified::Value(seq!['0'])
                                } else if x == i64::MIN && y == -1 {
                                    Modified::Panics
                                } else {
                                    Modified::Value(signed_decimal(quot(x as int, y as int)))
                                }
                            } else if op == seq!['%'] {
                                if y == 0 {
                                    Modified::Value(seq!['0'])
                                } else if x == i64::MIN && y == -1 {
                                    Modified::Panics
                                } else {
                                    Modified::Value(signed_decimal(rem(x as int, y as int)))
                                }
                            } else {
                                Modified::NotApplicable
                            }
                        },
                    },
                }
            } else {
                Modified::Panics
            },
        },
    }
}

/// `m:pattern,string` (glob) or `m/r:pattern,string` (regular expression):
/// `1` or `0`; nothing at all without a comma.
pub open spec fn fx_match(s: Seq<char>, c: ContextView, fuel: nat) -> Option<Seq<char>>
    decreases fuel, s.len(), 2int, 0int,
{
    let regex = is_prefix_text(seq!['m', '/', 'r', ':'], s);
    let rest = if regex { after(s, 4) } else { after(s, 2) };
    proof {
        lemma_comma_split(rest);
    }
    match comma_split(rest) {
        None => Some(Seq::empty()),
        Some(p) => if p.0.len() < s.len() && p.1.len() < s.len() {
            match fx_from(p.0, 0, Seq::empty(), c, fuel) {
                None => None,
                Some(pat) => match fx_from(p.1, 0, Seq::empty(), c, fuel) {
                    None => None,
                    Some(text) => if regex {
                        match regex_result(pat, text) {
                            Some(b) => Some(bool_text(b)),
                            None => None,
                        }
                    } else {
                        Some(bool_text(glob_at(pat, text, 0, 0)))
                    },
                },
            }
        } else {
            None
        },
    }
}

/// The expansion of a template in a context; nothing where it panics.
pub open spec fn expansion(t: Seq<char>, c: ContextView) -> Option<Seq<char>> {
    fx_from(t, 0, Seq::empty(), c, EXPANSION_FUEL as nat)
}

/// The character with code `n`, when `n` is a Unicode scalar value.
///
/// Trusted: calls `char::from_u32`, which std documents as returning the
/// character for every value outside the surrogates `0xD800..=0xDFFF` up to
/// `0x10FFFF`, and `None` for all others.
#[verifier::external_body]
fn char_from_code(n: u32) -> (r: Option<char>)
    ensures
        (n < 0xD800 || (0xE000 <= n && n <= 0x10FFFF)) ==> r == Some(n as char),
        !(n < 0xD800 || (0xE000 <= n && n <= 0x10FFFF)) ==> r is None,
{
    char::from_u32(n)
}

/// The view of an optional string.
pub open spec fn opt_text(r: Option<String>) -> Option<Seq<char>> {
    match r {
        Some(s) => Some(s@),
        None => None,
    }
}

/// A modifier's result.
enum ModResult {
    NotApplicable,
    Panics,
    Value(String),
}

spec fn mod_view(r: ModResult) -> Modified {
    match r {
        ModResult::NotApplicable => Modified::NotApplicable,
        ModResult::Panics => Modified::Panics,
        ModResult::Value(s) => Modified::Value(s@),
    }
}

fn as_mod_result(r: Option<String>) -> (m: ModResult)
    ensures
        mod_view(m) == as_modified(opt_text(r)),
{
    match r {
        Some(v) => ModResult::Value(v),
        None => ModResult::Panics,
    }
}

/// Whether `s` starts with the characters `p`.
fn starts(s: &[char], p: &[char]) -> (r: bool)
    ensures
        r == is_prefix_text(p@, s@),
{
    crate::text::chars_starts_with(s, p)
}

/// `s` without its first `n` characters.
fn drop_chars(s: &[char], n: usize) -> (r: Vec<char>)
    requires
        n <= s@.len(),
    ensures
        r@ == after(s@, n as int),
{
    crate::text::chars_range(s, n, s.len())
}

/// Whether `s` contains `#`.
fn contains_hash(s: &[char]) -> (r: bool)
    ensures
        r == has_hash(s@),
{
    let mut i: usize = 0;
    while i < s.len()
        invariant
            i <= s@.len(),
            forall|j: int| 0 <= j < i ==> s@[j] != '#',
        decreases s@.len() - i,
    {
        if s[i] == '#' {
            return true;
        }
        i = i + 1;
    }
    false
}

/// The parts of `s` around its first `c`.
fn split_first_chars(s: &[char], c: char) -> (r: Option<(Vec<char>, Vec<char>)>)
    ensures
        match split_first(s@, c) {
            Some(p) => r matches Some(q) && q.0@ == p.0 && q.1@ == p.1,
            None => r is None,
        },
{
    let mut k: usize = 0;
    while k < s.len() && s[k] != c
        invariant
            k <= s@.len(),
            first_from(s@, c, 0) == first_from(s@, c, k as int),
        decreases s@.len() - k,
    {
        k = k + 1;
    }
    if k >= s.len() {
        return None;
    }
    Some((crate::text::chars_range(s, 0, k), crate::text::chars_range(s, k + 1, s.len())))
}

/// What a name looks up to in the context, or nothing.
fn lookup_chars(c: &FormatContext, k: &[char]) -> (r: String)
    ensures
        r@ == lookup_text(c@, k@),
{
    let key = string_from_chars(k);
    match c.lookup(key.as_str()) {
        Some(v) => v,
        None => String::new(),
    }
}

/// The text of the character with the given code, or nothing.
fn char_text(v: &[char]) -> (r: String)
    ensures
        r@ == char_of_code(v@),
{
    let mut out = String::new();
    match crate::text::parse_unsigned_chars(v, 0xFFFF_FFFF) {
        Some(n) => {
            match char_from_code(n as u32) {
                Some(ch) => {
                    push_char(&mut out, ch);
                    assert(out@ =~= seq![ch]);
                },
                None => {},
            }
        },
        None => {},
    }
    out
}

/// The value of an expression: a text with `#` is expanded, a bare name is
/// looked up.
fn eval_expr(e: &[char], c: &FormatContext, fuel: u64) -> (r: Option<String>)
    ensures
        opt_text(r) == fx_eval(e@, c@, fuel as nat),
    decreases fuel, e@.len(), 1int, 0int,
{
    if contains_hash(e) {
        expand_from(e, c, fuel)
    } else {
        Some(lookup_chars(c, e))
    }
}

/// Expands a template.
fn expand_from(t: &[char], c: &FormatContext, fuel: u64) -> (r: Option<String>)
    ensures
        opt_text(r) == fx_from(t@, 0, Seq::empty(), c@, fuel as nat),
    decreases fuel, t@.len(), 0int, 0int,
{
    let n = t.len();
    let mut out = String::new();
    let mut i: usize = 0;
    while i < n
        invariant
            n == t@.len(),
            i <= n,
            fx_from(t@, 0, Seq::empty(), c@, fuel as nat) == fx_from(t@, i as int, out@, c@, fuel as nat),
        decreases n - i,
    {
        if t[i] != '#' {
            push_char(&mut out, t[i]);
            i = i + 1;
        } else if i + 1 >= n {
            push_char(&mut out, '#');
            i = n;
        } else if t[i + 1] == '#' {
            push_char(&mut out, '#');
            i = i + 2;
        } else if t[i + 1] == '{' {
            match find_matching_brace(t, i + 2) {
                Some(e) => {
                    let inner = crate::text::chars_range(t, i + 2, e);
                    match expand_inner(inner.as_slice(), c, fuel) {
                        Some(v) => {
                            push_all(&mut out, v.as_str());
                            i = e + 1;
                        },
                        None => {
                            return None;
                        },
                    }
                },
                None => {
                    let ghost o0 = out@;
                    push_char(&mut out, '#');
                    push_char(&mut out, '{');
                    assert(out@ =~= o0 + seq!['#', '{']);
                    i = i + 2;
                },
            }
        } else if t[i + 1] == '[' {
            match find_style_end(t, i + 2) {
                Some(e) => {
                    let inner = crate::text::chars_range(t, i + 2, e);
                    match expand_from(inner.as_slice(), c, fuel) {
                        Some(v) => {
                            let ghost o0 = out@;
                            push_char(&mut out, '#');
                            push_char(&mut out, '[');
                            push_all(&mut out, v.as_str());
                            push_char(&mut out, ']');
                            assert(out@ =~= o0 + seq!['#', '['] + v@ + seq![']']);
                            i = e + 1;
                        },
                        None => {
                            return None;
                        },
                    }
                },
                None => {
                    push_char(&mut out, '#');
                    i = i + 1;
                },
            }
        } else {
            match short_alias(t[i + 1]) {
                Some(name) => {
                    match c.get(name) {
                        Some(v) => push_all(&mut out, v),
                        None => {
                            assert(out@ + Seq::<char>::empty() =~= out@);
                        },
                    }
                    i = i + 2;
                },
                None => {
                    push_char(&mut out, '#');
                    i = i + 1;
                },
            }
        }
    }
    Some(out)
}

/// Expand the content inside `#{...}`.
fn expand_inner(s: &[char], c: &FormatContext, fuel: u64) -> (r: Option<String>)
    ensures
        opt_text(r) == fx_inner(s@, c@, fuel as nat),
    decreases fuel, s@.len(), 4int, 0int,
{
    if s.len() > 0 && s[0] == '?' {
        let rest = drop_chars(s, 1);
        return expand_conditional(rest.as_slice(), c, fuel);
    }
    match expand_modifier(s, c, fuel) {
        ModResult::Value(v) => {
            return Some(v);
        },
        ModResult::Panics => {
            return None;
        },
        ModResult::NotApplicable => {},
    }
    let sl: Vec<char> = vec!['s', '/'];
    assert(sl@ =~= seq!['s', '/']);
    if starts(s, sl.as_slice()) {
        let rest = drop_chars(s, 2);
        match split_first_chars(rest.as_slice(), '/') {
            Some((_, after_slash)) => {
                match split_first_chars(after_slash.as_slice(), ':') {
                    Some(_) => {
                        return expand_substitution(s, c, fuel);
                    },
                    None => {},
                }
            },
            None => {},
        }
    }
    if comparison_kind(s).is_some() {
        return expand_comparison(s, c, fuel);
    }
    if s.len() > 0 && s[0] == '=' {
        let rest = drop_chars(s, 1);
        match split_first_chars(rest.as_slice(), ':') {
            Some((n_str, _)) => {
                if parse_i32(n_str.as_slice()).is_some() {
                    return expand_truncation(s, c, fuel);
                }
            },
            None => {},
        }
    }
    if contains_hash(s) {
        expand_from(s, c, fuel)
    } else {
        Some(lookup_chars(c, s))
    }
}

/// The comparison operator at the start of `s`, if any.
fn comparison_kind(s: &[char]) -> (r: Option<(usize, usize)>)
    ensures
        match comparison_op(s@) {
            Some(p) => r matches Some(q) && q.0 == p.0 && q.1 == p.1,
            None => r is None,
        },
{
    let eq: Vec<char> = vec!['=', '=', ':'];
    let ne: Vec<char> = vec!['!', '=', ':'];
    let le: Vec<char> = vec!['<', '=', ':'];
    let ge: Vec<char> = vec!['>', '=', ':'];
    let lt: Vec<char> = vec!['<', ':'];
    let gt: Vec<char> = vec!['>', ':'];
    assert(eq@ =~= seq!['=', '=', ':']);
    assert(ne@ =~= seq!['!', '=', ':']);
    assert(le@ =~= seq!['<', '=', ':']);
    assert(ge@ =~= seq!['>', '=', ':']);
    assert(lt@ =~= seq!['<', ':']);
    assert(gt@ =~= seq!['>', ':']);
    if starts(s, eq.as_slice()) {
        Some((0, 3))
    } else if starts(s, ne.as_slice()) {
        Some((1, 3))
    } else if starts(s, le.as_slice()) {
        Some((2, 3))
    } else if starts(s, ge.as_slice()) {
        Some((3, 3))
    } else if starts(s, lt.as_slice()) {
        Some((4, 2))
    } else if starts(s, gt.as_slice()) {
        Some((5, 2))
    } else {
        None
    }
}

/// Expand a comparison: `op:a,b`.
fn expand_comparison(s: &[char], c: &FormatContext, fuel: u64) -> (r: Option<String>)
    ensures
        opt_text(r) == fx_compare(s@, c@, fuel as nat),
    decreases fuel, s@.len(), 2int, 0int,
{
    match comparison_kind(s) {
        None => Some(String::new()),
        Some((op, len)) => {
            let rest = drop_chars(s, len);
            proof {
                lemma_comma_split(rest@);
            }
            match split_at_comma(rest.as_slice()) {
                None => Some(String::new()),
                Some((a_expr, b_expr)) => {
                    let a = match expand_from(a_expr.as_slice(), c, fuel) {
                        Some(v) => v,
                        None => {
                            return None;
                        },
                    };
                    let b = match expand_from(b_expr.as_slice(), c, fuel) {
                        Some(v) => v,
                        None => {
                            return None;
                        },
                    };
                    let ac = str_chars(a.as_str());
                    let bc = str_chars(b.as_str());
                    let result = if op == 0 {
                        crate::text::chars_eq(ac.as_slice(), bc.as_slice())
                    } else if op == 1 {
                        !crate::text::chars_eq(ac.as_slice(), bc.as_slice())
                    } else if op == 2 {
                        !crate::text::chars_less(bc.as_slice(), ac.as_slice())
                    } else if op == 3 {
                        !crate::text::chars_less(ac.as_slice(), bc.as_slice())
                    } else if op == 4 {
                        crate::text::chars_less(ac.as_slice(), bc.as_slice())
                    } else {
                        crate::text::chars_less(bc.as_slice(), ac.as_slice())
                    };
                    Some(bool_string(result))
                },
            }
        },
    }
}

/// `1` or `0`.
fn bool_string(b: bool) -> (r: String)
    ensures
        r@ == bool_text(b),
{
    let mut out = String::new();
    push_char(&mut out, if b { '1' } else { '0' });
    assert(out@ =~= bool_text(b));
    out
}

/// Expand a conditional: `cond,true_branch,false_branch`.
fn expand_conditional(rest: &[char], c: &FormatContext, fuel: u64) -> (r: Option<String>)
    ensures
        opt_text(r) == fx_cond(rest@, c@, fuel as nat),
    decreases fuel, rest@.len(), 2int, 0int,
{
    proof {
        lemma_comma_split(rest@);
    }
    match split_at_comma(rest) {
        None => Some(String::new()),
        Some((cond, remainder)) => {
            proof {
                lemma_comma_split(remainder@);
            }
            let (t, f) = match split_at_comma(remainder.as_slice()) {
                Some(p) => p,
                None => (remainder, Vec::new()),
            };
            let v = match eval_expr(cond.as_slice(), c, fuel) {
                Some(v) => v,
                None => {
                    return None;
                },
            };
            let vc = str_chars(v.as_str());
            let truthy = vc.len() > 0 && !(vc.len() == 1 && vc[0] == '0');
            proof {
                if vc@.len() == 1 && vc@[0] == '0' {
                    assert(vc@ =~= seq!['0']);
                }
            }
            if truthy {
                expand_from(t.as_slice(), c, fuel)
            } else {
                expand_from(f.as_slice(), c, fuel)
            }
        },
    }
}

/// Whether a value counts as true.
fn is_truthy(v: &String) -> (r: bool)
    ensures
        r == truthy_text(v@),
{
    let vc = str_chars(v.as_str());
    proof {
        if vc@.len() == 1 && vc@[0] == '0' {
            assert(vc@ =~= seq!['0']);
        }
    }
    vc.len() > 0 && !(vc.len() == 1 && vc[0] == '0')
}

/// Expand logical OR (`or`) or AND: `a,b`.
fn expand_logic(rest: &[char], c: &FormatContext, fuel: u64, or: bool) -> (r: Option<String>)
    ensures
        opt_text(r) == fx_logic(rest@, c@, fuel as nat, or),
    decreases fuel, rest@.len(), 2int, 0int,
{
    proof {
        lemma_comma_split(rest@);
    }
    match split_at_comma(rest) {
        None => Some(String::new()),
        Some((a_expr, b_expr)) => {
            let a = match expand_from(a_expr.as_slice(), c, fuel) {
                Some(v) => v,
                None => {
                    return None;
                },
            };
            let b = match expand_from(b_expr.as_slice(), c, fuel) {
                Some(v) => v,
                None => {
                    return None;
                },
            };
            let at = is_truthy(&a);
            let bt = is_truthy(&b);
            Some(bool_string(if or { at || bt } else { at && bt }))
        },
    }
}

/// Expand substitution: `s/pattern/replacement:expr`.
fn expand_substitution(s: &[char], c: &FormatContext, fuel: u64) -> (r: Option<String>)
    requires
        s@.len() >= 2,
    ensures
        opt_text(r) == fx_subst(s@, c@, fuel as nat),
    decreases fuel, s@.len(), 2int, 0int,
{
    proof {
        lemma_split_first(after(s@, 2), '/');
    }
    let rest = drop_chars(s, 2);
    match split_first_chars(rest.as_slice(), '/') {
        None => Some(String::new()),
        Some((pattern, after_slash)) => {
            proof {
                lemma_split_first(after_slash@, ':');
            }
            match split_first_chars(after_slash.as_slice(), ':') {
                None => Some(String::new()),
                Some((replacement, expr)) => {
                    match expand_from(expr.as_slice(), c, fuel) {
                        Some(v) => {
                            let vc = str_chars(v.as_str());
                            Some(replace_chars(vc.as_slice(), pattern.as_slice(), replacement.as_slice()))
                        },
                        None => None,
                    }
                },
            }
        },
    }
}

/// Expand width truncation: `=N:expr`.
#[verifier::spinoff_prover]
#[verifier::rlimit(30)]
fn expand_truncation(s: &[char], c: &FormatContext, fuel: u64) -> (r: Option<String>)
    requires
        s@.len() >= 1,
    ensures
        opt_text(r) == fx_trunc(s@, c@, fuel as nat),
    decreases fuel, s@.len(), 2int, 0int,
{
    proof {
        lemma_split_first(after(s@, 1), ':');
    }
    let rest = drop_chars(s, 1);
    match split_first_chars(rest.as_slice(), ':') {
        None => Some(String::new()),
        Some((n_str, expr)) => {
            match parse_i32(n_str.as_slice()) {
                None => Some(String::new()),
                Some(n) => {
                    let key = string_from_chars(expr.as_slice());
                    let value = match c.lookup(key.as_str()) {
                        Some(v) => v,
                        None => match expand_from(expr.as_slice(), c, fuel) {
                            Some(v) => v,
                            None => {
                                return None;
                            },
                        },
                    };
                    let vc = str_chars(value.as_str());
                    let count = vc.len();
                    let k: u64 = if n < 0 { (-(n as i64)) as u64 } else { n as u64 };
                    if k as u128 >= count as u128 {
                        Some(value)
                    } else if n >= 0 {
                        Some(string_from_chars(crate::text::chars_range(vc.as_slice(), 0, k as usize).as_slice()))
                    } else {
                        Some(
                            string_from_chars(
                                crate::text::chars_range(vc.as_slice(), count - k as usize, count).as_slice(),
                            ),
                        )
                    }
                },
            }
        },
    }
}

/// Expand padding: `p:N:expr`.
#[verifier::spinoff_prover]
#[verifier::rlimit(30)]
fn expand_padding(s: &[char], c: &FormatContext, fuel: u64) -> (r: Option<String>)
    requires
        s@.len() >= 2,
    ensures
        opt_text(r) == fx_pad(s@, c@, fuel as nat),
    decreases fuel, s@.len(), 2int, 0int,
{
    proof {
        lemma_split_first(after(s@, 2), ':');
    }
    let rest = drop_chars(s, 2);
    match split_first_chars(rest.as_slice(), ':') {
        None => Some(String::new()),
        Some((n_str, expr)) => {
            match parse_i32(n_str.as_slice()) {
                None => Some(String::new()),
                Some(n) => {
                    let value = match eval_expr(expr.as_slice(), c, fuel) {
                        Some(v) => v,
                        None => {
                            return None;
                        },
                    };
                    let count = value.as_str().unicode_len();
                    let k: u64 = if n < 0 { (-(n as i64)) as u64 } else { n as u64 };
                    if count as u128 >= k as u128 {
                        return Some(value);
                    }
                    let pad = (k as usize) - count;
                    let mut out = String::new();
                    if n >= 0 {
                        push_all(&mut out, value.as_str());
                        push_repeat(&mut out, ' ', pad);
                    } else {
                        push_repeat(&mut out, ' ', pad);
                        push_all(&mut out, value.as_str());
                    }
                    Some(out)
                },
            }
        },
    }
}

/// Rust's division and remainder on the magnitudes, with their signs.
fn div_rem(x: i64, y: i64) -> (r: (i64, i64))
    requires
        y != 0,
        !(x == i64::MIN && y == -1),
    ensures
        r.0 == quot(x as int, y as int),
        r.1 == rem(x as int, y as int),
{
    let ux: u64 = if x < 0 { if x == i64::MIN { 9223372036854775808u64 } else { (-x) as u64 } } else { x as u64 };
    let uy: u64 = if y < 0 { if y == i64::MIN { 9223372036854775808u64 } else { (-y) as u64 } } else { y as u64 };
    let q = ux / uy;
    let m = ux % uy;
    assert(q <= ux);
    let neg = (x < 0) != (y < 0);
    let qs: i64 = if neg {
        if q == 9223372036854775808u64 { i64::MIN } else { -(q as i64) }
    } else {
        assert(q <= 9223372036854775807u64) by {
            if x == i64::MIN {
                assert(uy >= 2);
                assert(q <= ux / 2) by (nonlinear_arith)
                    requires
                        uy >= 2,
                        q == ux / uy,
                ;
            }
        }
        q as i64
    };
    assert(m < uy);
    let ms: i64 = if x < 0 { -(m as i64) } else { m as i64 };
    (qs, ms)
}

/// Expand arithmetic: `e|op:a,b`.
#[verifier::spinoff_prover]
#[verifier::rlimit(60)]
fn expand_arithmetic(s: &[char], c: &FormatContext, fuel: u64) -> (r: ModResult)
    requires
        s@.len() >= 2,
    ensures
        mod_view(r) == fx_arith(s@, c@, fuel as nat),
    decreases fuel, s@.len(), 2int, 0int,
{
    proof {
        lemma_split_first(after(s@, 2), ':');
    }
    let rest = drop_chars(s, 2);
    match split_first_chars(rest.as_slice(), ':') {
        None => ModResult::NotApplicable,
        Some((op, args)) => {
            proof {
                lemma_comma_split(args@);
            }
            match split_at_comma(args.as_slice()) {
                None => ModResult::NotApplicable,
                Some((a_expr, b_expr)) => {
                    let a = match expand_from(a_expr.as_slice(), c, fuel) {
                        Some(v) => v,
                        None => {
                            return ModResult::Panics;
                        },
                    };
                    let b = match expand_from(b_expr.as_slice(), c, fuel) {
                        Some(v) => v,
                        None => {
                            return ModResult::Panics;
                        },
                    };
                    let ac = str_chars(a.as_str());
                    let bc = str_chars(b.as_str());
                    let x: i64 = match parse_i64(ac.as_slice()) {
                        Some(v) => v,
                        None => 0,
                    };
                    let y: i64 = match parse_i64(bc.as_slice()) {
                        Some(v) => v,
                        None => 0,
                    };
                    assert(x == number_of(a@) && y == number_of(b@));
                    let mut out = String::new();
                    if op.len() == 1 && op[0] == '+' {
                        assert(op@ =~= seq!['+']);
                        push_signed(&mut out, x.wrapping_add(y));
                    } else if op.len() == 1 && op[0] == '-' {
                        assert(op@ =~= seq!['-']);
                        push_signed(&mut out, x.wrapping_sub(y));
                    } else if op.len() == 1 && op[0] == '*' {
                        assert(op@ =~= seq!['*']);
                        push_signed(&mut out, x.wrapping_mul(y));
                    } else if op.len() == 1 && (op[0] == '/' || op[0] == '%') {
                        let is_div = op[0] == '/';
                        proof {
                            if is_div {
                                assert(op@ =~= seq!['/']);
                            } else {
                                assert(op@ =~= seq!['%']);
                                assert(op@ != seq!['/']);
                            }
                        }
                        if y == 0 {
                            push_char(&mut out, '0');
                            assert(out@ =~= seq!['0']);
                        } else if x == i64::MIN && y == -1 {
                            return ModResult::Panics;
                        } else {
                            let (q, m) = div_rem(x, y);
                            push_signed(&mut out, if is_div { q } else { m });
                        }
                    } else {
                        proof {
                            if op@.len() == 1 {
                                assert(op@ != seq!['+'] && op@ != seq!['-'] && op@ != seq!['*']);
                                assert(op@ != seq!['/'] && op@ != seq!['%']);
                            }
                        }
                        return ModResult::NotApplicable;
                    }
                    ModResult::Value(out)
                },
            }
        },
    }
}

/// Expand pattern match: `m:pattern,string` (glob) or `m/r:pattern,string` (regex).
#[verifier::spinoff_prover]
#[verifier::rlimit(30)]
fn expand_match(s: &[char], c: &FormatContext, fuel: u64) -> (r: Option<String>)
    requires
        is_prefix_text(seq!['m', ':'], s@) || is_prefix_text(seq!['m', '/', 'r', ':'], s@),
    ensures
        opt_text(r) == fx_match(s@, c@, fuel as nat),
    decreases fuel, s@.len(), 2int, 0int,
{
    let mr: Vec<char> = vec!['m', '/', 'r', ':'];
    assert(mr@ =~= seq!['m', '/', 'r', ':']);
    let regex = starts(s, mr.as_slice());
    let rest = if regex { drop_chars(s, 4) } else { drop_chars(s, 2) };
    proof {
        lemma_comma_split(rest@);
    }
    match split_at_comma(rest.as_slice()) {
        None => Some(String::new()),
        Some((p_expr, s_expr)) => {
            let pat = match expand_from(p_expr.as_slice(), c, fuel) {
                Some(v) => v,
                None => {
                    return None;
                },
            };
            let text = match expand_from(s_expr.as_slice(), c, fuel) {
                Some(v) => v,
                None => {
                    return None;
                },
            };
            let pc = str_chars(pat.as_str());
            let tc = str_chars(text.as_str());
            if regex {
                match regex_match(pc.as_slice(), tc.as_slice()) {
                    Some(b) => Some(bool_string(b)),
                    None => None,
                }
            } else {
                Some(bool_string(fnmatch(pc.as_slice(), tc.as_slice())))
            }
        },
    }
}

/// Dispatch single-letter and multi-char modifiers.
fn expand_modifier(s: &[char], c: &FormatContext, fuel: u64) -> (r: ModResult)
    ensures
        mod_view(r) == fx_modifier(s@, c@, fuel as nat),
    decreases fuel, s@.len(), 3int, 0int,
{
    let p_l: Vec<char> = vec!['l', ':'];
    let p_e: Vec<char> = vec!['E', ':'];
    let p_d: Vec<char> = vec!['d', ':'];
    let p_b: Vec<char> = vec!['b', ':'];
    let p_q: Vec<char> = vec!['q', ':'];
    let p_n: Vec<char> = vec!['n', ':'];
    let p_w: Vec<char> = vec!['w', ':'];
    let p_a: Vec<char> = vec!['a', ':'];
    let p_p: Vec<char> = vec!['p', ':'];
    let p_ne: Vec<char> = vec!['!', '=', ':'];
    let p_or: Vec<char> = vec!['|', '|', ':'];
    let p_and: Vec<char> = vec!['&', '&', ':'];
    let p_ar: Vec<char> = vec!['e', '|'];
    let p_m: Vec<char> = vec!['m', ':'];
    let p_mr: Vec<char> = vec!['m', '/', 'r', ':'];
    assert(p_l@ =~= seq!['l', ':']);
    assert(p_e@ =~= seq!['E', ':']);
    assert(p_d@ =~= seq!['d', ':']);
    assert(p_b@ =~= seq!['b', ':']);
    assert(p_q@ =~= seq!['q', ':']);
    assert(p_n@ =~= seq!['n', ':']);
    assert(p_w@ =~= seq!['w', ':']);
    assert(p_a@ =~= seq!['a', ':']);
    assert(p_p@ =~= seq!['p', ':']);
    assert(p_ne@ =~= seq!['!', '=', ':']);
    assert(p_or@ =~= seq!['|', '|', ':']);
    assert(p_and@ =~= seq!['&', '&', ':']);
    assert(p_ar@ =~= seq!['e', '|']);
    assert(p_m@ =~= seq!['m', ':']);
    assert(p_mr@ =~= seq!['m', '/', 'r', ':']);
    if s.len() < 2 && !(s.len() == 1 && s[0] == '!') {
        proof {
            assert(!is_prefix_text(seq!['l', ':'], s@));
        }
        return ModResult::NotApplicable;
    }
    if starts(s, p_l.as_slice()) {
        return ModResult::Value(string_from_chars(drop_chars(s, 2).as_slice()));
    }
    if starts(s, p_e.as_slice()) {
        let rest = drop_chars(s, 2);
        let first = match eval_expr(rest.as_slice(), c, fuel) {
            Some(v) => v,
            None => {
                return ModResult::Panics;
            },
        };
        if fuel == 0 {
            return ModResult::Value(first);
        }
        let fc = str_chars(first.as_str());
        return as_mod_result(expand_from(fc.as_slice(), c, fuel - 1));
    }
    if starts(s, p_d.as_slice()) || starts(s, p_b.as_slice()) || starts(s, p_q.as_slice()) || starts(
        s,
        p_n.as_slice(),
    ) || starts(s, p_w.as_slice()) {
        let rest = drop_chars(s, 2);
        let v = match eval_expr(rest.as_slice(), c, fuel) {
            Some(v) => v,
            None => {
                return ModResult::Panics;
            },
        };
        if starts(s, p_d.as_slice()) {
            return ModResult::Value(dirname(v.as_str()));
        }
        if starts(s, p_b.as_slice()) {
            return ModResult::Value(basename(v.as_str()));
        }
        let vc = str_chars(v.as_str());
        if starts(s, p_q.as_slice()) {
            return ModResult::Value(shell_quote(vc.as_slice()));
        }
        if starts(s, p_n.as_slice()) {
            return ModResult::Value(crate::text::usize_to_string(vc.len()));
        }
        let w = display_width(vc.as_slice());
        let wu: usize = #[verifier::truncate] (w as usize);
        return ModResult::Value(crate::text::usize_to_string(wu));
    }
    if starts(s, p_a.as_slice()) {
        let rest = drop_chars(s, 2);
        let mut digits = true;
        let mut i: usize = 0;
        while i < rest.len()
            invariant
                i <= rest@.len(),
                digits == (forall|j: int| 0 <= j < i ==> crate::text::is_digit(#[trigger] rest@[j])),
            decreases rest@.len() - i,
        {
            if !('0' <= rest[i] && rest[i] <= '9') {
                digits = false;
            }
            i = i + 1;
        }
        if digits {
            return ModResult::Value(char_text(rest.as_slice()));
        }
        return match eval_expr(rest.as_slice(), c, fuel) {
            Some(v) => {
                let vc = str_chars(v.as_str());
                ModResult::Value(char_text(vc.as_slice()))
            },
            None => ModResult::Panics,
        };
    }
    if starts(s, p_p.as_slice()) {
        let rest = drop_chars(s, 2);
        match split_first_chars(rest.as_slice(), ':') {
            Some((n_str, _)) => {
                if parse_i32(n_str.as_slice()).is_some() {
                    return as_mod_result(expand_padding(s, c, fuel));
                }
                return ModResult::NotApplicable;
            },
            None => {
                return ModResult::NotApplicable;
            },
        }
    }
    if s.len() > 0 && s[0] == '!' && !starts(s, p_ne.as_slice()) {
        let rest = drop_chars(s, 1);
        return match eval_expr(rest.as_slice(), c, fuel) {
            Some(v) => {
                let t = is_truthy(&v);
                let mut out = String::new();
                push_char(&mut out, if t { '0' } else { '1' });
                assert(out@ =~= (if truthy_text(v@) { seq!['0'] } else { seq!['1'] }));
                ModResult::Value(out)
            },
            None => ModResult::Panics,
        };
    }
    if starts(s, p_or.as_slice()) {
        let rest = drop_chars(s, 3);
        return as_mod_result(expand_logic(rest.as_slice(), c, fuel, true));
    }
    if starts(s, p_and.as_slice()) {
        let rest = drop_chars(s, 3);
        return as_mod_result(expand_logic(rest.as_slice(), c, fuel, false));
    }
    if starts(s, p_ar.as_slice()) {
        return expand_arithmetic(s, c, fuel);
    }
    if starts(s, p_m.as_slice()) || starts(s, p_mr.as_slice()) {
        return as_mod_result(expand_match(s, c, fuel));
    }
    ModResult::NotApplicable
}

/// The expansion of `template`, or nothing where the expansion panics (a
/// division of the minimum by -1, or a regular expression search that steps
/// into a multi-byte character).
pub fn try_format_expand(template: &str, ctx: &FormatContext) -> (r: Option<String>)
    ensures
        opt_text(r) == expansion(template@, ctx@),
{
    let t = str_chars(template);
    expand_from(t.as_slice(), ctx, EXPANSION_FUEL)
}

/// Expand format strings with tmux-compatible syntax.
///
/// Supports:
/// - `#{variable_name}` — variable substitution
/// - `#{?cond,true_branch,false_branch}` — conditionals
/// - `#{==:#{a},#{b}}` — equality comparison (also `!=`, `<`, `>`, `<=`, `>=`)
/// - `#{=N:variable}` — width truncation (positive=right, negative=left)
/// - `#{l:text}` — literal string (no expansion)
/// - `#{s/pat/rep:expr}` — substitution
/// - `#S`, `#W`, `#I`, etc. — short aliases
/// - `#[style]` — inline style (passed through for renderer)
/// - `##` — literal `#`
pub fn format_expand(template: &str, ctx: &FormatContext) -> (r: String)
    requires
        expansion(template@, ctx@) is Some,
    ensures
        expansion(template@, ctx@) == Some(r@),
{
    match try_format_expand(template, ctx) {
        Some(v) => v,
        None => String::new(),
    }
}

/// The views of a list of borrowed string pairs.
pub open spec fn ref_pairs_view(v: Seq<(&str, &str)>) -> Seq<(Seq<char>, Seq<char>)> {
    v.map_values(|p: (&str, &str)| (p.0@, p.1@))
}

/// Whether pairs are in order of their names.
pub open spec fn sorted_by_name(s: Seq<(Seq<char>, Seq<char>)>) -> bool {
    forall|i: int, j: int| 0 <= i < j < s.len() ==> !crate::text::seq_less(#[trigger] s[j].0, #[trigger] s[i].0)
}

impl FormatContext {
    /// Return all variables as (key, value) pairs, sorted by key.
    pub fn list_vars(&self) -> (r: Vec<(&str, &str)>)
        ensures
            sorted_by_name(ref_pairs_view(r@)),
            ref_pairs_view(r@).to_multiset() == self@.vars.to_multiset(),
    {
        broadcast use vstd::seq_lib::group_to_multiset_ensures;
        let ghost vv = pairs_view(self.vars@);
        let mut r: Vec<(&str, &str)> = Vec::new();
        let mut i: usize = 0;
        assert(ref_pairs_view(r@) =~= vv.take(0));
        while i < self.vars.len()
            invariant
                vv == pairs_view(self.vars@),
                vv == self@.vars,
                i <= vv.len(),
                sorted_by_name(ref_pairs_view(r@)),
                ref_pairs_view(r@).to_multiset() == vv.take(i as int).to_multiset(),
            decreases vv.len() - i,
        {
            let x: (&str, &str) = (self.vars[i].0.as_str(), self.vars[i].1.as_str());
            let ghost xv = (x.0@, x.1@);
            assert(xv == vv[i as int]);
            let xc = str_chars(x.0);
            let ghost rv = ref_pairs_view(r@);
            let mut p: usize = 0;
            while p < r.len()
                invariant
                    p <= r@.len(),
                    rv == ref_pairs_view(r@),
                    xc@ == xv.0,
                    forall|k: int| 0 <= k < p ==> !crate::text::seq_less(xv.0, #[trigger] rv[k].0),
                ensures
                    p <= r@.len(),
                    forall|k: int| 0 <= k < p ==> !crate::text::seq_less(xv.0, #[trigger] rv[k].0),
                    p < r@.len() ==> crate::text::seq_less(xv.0, rv[p as int].0),
                decreases r@.len() - p,
            {
                let rc = str_chars(r[p].0);
                assert(rc@ == rv[p as int].0);
                if crate::text::chars_less(xc.as_slice(), rc.as_slice()) {
                    break;
                }
                p = p + 1;
            }
            proof {
                if p < rv.len() {
                    assert forall|k: int| p <= k < rv.len() implies crate::text::seq_less(xv.0, #[trigger] rv[k].0) by {
                        if k > p {
                            assert(!crate::text::seq_less(rv[k].0, rv[p as int].0));
                            crate::text::lemma_seq_less_total(rv[k].0, rv[p as int].0);
                            if rv[k].0 != rv[p as int].0 {
                                crate::text::lemma_seq_less_trans(xv.0, rv[p as int].0, rv[k].0);
                            }
                        }
                    }
                }
            }
            r.insert(p, x);
            proof {
                let nv = ref_pairs_view(r@);
                assert(nv =~= rv.insert(p as int, xv));
                assert forall|a: int, b: int| 0 <= a < b < nv.len() implies !crate::text::seq_less(
                    #[trigger] nv[b].0,
                    #[trigger] nv[a].0,
                ) by {
                    if a < p && b < p {
                        assert(nv[a] == rv[a] && nv[b] == rv[b]);
                    } else if a < p && b == p {
                        crate::text::lemma_seq_less_total(xv.0, rv[a].0);
                    } else if a < p && b > p {
                        assert(nv[a] == rv[a] && nv[b] == rv[b - 1]);
                    } else if a == p {
                        assert(nv[b] == rv[b - 1]);
                        crate::text::lemma_seq_less_total(xv.0, rv[b - 1].0);
                    } else {
                        assert(nv[a] == rv[a - 1] && nv[b] == rv[b - 1]);
                    }
                }
                assert(vv.take(i + 1) =~= vv.take(i as int).push(xv));
                vstd::seq_lib::to_multiset_insert(rv, p as int, xv);
                vstd::seq_lib::to_multiset_build(vv.take(i as int), xv);
                assert(nv.to_multiset() == rv.to_multiset().insert(xv));
            }
            i = i + 1;
        }
        assert(vv.take(vv.len() as int) =~= vv);
        r
    }
}

// ---------------------------------------------------------------------------
// Laws
// ---------------------------------------------------------------------------

/// Text without `#` is copied as it is.
proof fn lemma_plain_from(t: Seq<char>, i: int, out: Seq<char>, c: ContextView, fuel: nat)
    requires
        0 <= i <= t.len(),
        forall|j: int| 0 <= j < t.len() ==> t[j] != '#',
    ensures
        fx_from(t, i, out, c, fuel) == Some(out + t.subrange(i, t.len() as int)),
    decreases t.len() - i,
{
    if i < t.len() {
        lemma_plain_from(t, i + 1, out.push(t[i]), c, fuel);
        assert(out.push(t[i]) + t.subrange(i + 1, t.len() as int) =~= out + t.subrange(i, t.len() as int));
    } else {
        assert(out + t.subrange(i, t.len() as int) =~= out);
    }
}

/// A template without `#` expands to itself, whatever the context.
pub proof fn law_plain_text_passes_through(t: Seq<char>, c: ContextView)
    requires
        forall|j: int| 0 <= j < t.len() ==> t[j] != '#',
    ensures
        expansion(t, c) == Some(t),
{
    lemma_plain_from(t, 0, Seq::empty(), c, EXPANSION_FUEL as nat);
    assert(Seq::<char>::empty() + t.subrange(0, t.len() as int) =~= t);
}

/// Setting a variable and getting it back gives the value set.
pub proof fn law_set_then_get(c: ContextView, key: Seq<char>, value: Seq<char>)
    requires
        keys_unique(c.vars),
    ensures
        assoc_get(assoc_insert(c.vars, key, value), key) == Some(value),
        ctx_lookup(ContextView { vars: assoc_insert(c.vars, key, value), ..c }, key) == Some(value),
{
    lemma_assoc_insert(c.vars, key, value);
}

/// A `#{` that is never closed, followed by a name, is copied as it is.
pub proof fn law_unclosed_brace_stays(name: Seq<char>, c: ContextView)
    requires
        forall|j: int| 0 <= j < name.len() ==> name[j] != '#' && name[j] != '}' && name[j] != '{',
    ensures
        expansion(seq!['#', '{'] + name, c) == Some(seq!['#', '{'] + name),
{
    let t = seq!['#', '{'] + name;
    let fuel = EXPANSION_FUEL as nat;
    assert(brace_close(t, 2, 1) is None) by {
        lemma_no_close(t, 2, 1);
    }
    assert forall|j: int| 2 <= j < t.len() implies t[j] != '#' by {
        assert(t[j] == name[j - 2]);
    }
    lemma_plain_tail(t, 2, seq!['#', '{'], c, fuel);
    assert(seq!['#', '{'] + t.subrange(2, t.len() as int) =~= t);
}

/// Without any `}` from position `i` on there is no closing brace.
proof fn lemma_no_close(t: Seq<char>, i: int, depth: int)
    requires
        0 <= i,
        forall|j: int| i <= j < t.len() ==> t[j] != '}' && t[j] != '{',
    ensures
        brace_close(t, i, depth) is None,
    decreases t.len() - i,
{
    if i < t.len() {
        lemma_no_close(t, i + 1, depth);
    }
}

/// The tail of a template without `#` from position `i` on is copied.
proof fn lemma_plain_tail(t: Seq<char>, i: int, out: Seq<char>, c: ContextView, fuel: nat)
    requires
        0 <= i <= t.len(),
        forall|j: int| i <= j < t.len() ==> t[j] != '#',
    ensures
        fx_from(t, i, out, c, fuel) == Some(out + t.subrange(i, t.len() as int)),
    decreases t.len() - i,
{
    if i < t.len() {
        lemma_plain_tail(t, i + 1, out.push(t[i]), c, fuel);
        assert(out.push(t[i]) + t.subrange(i + 1, t.len() as int) =~= out + t.subrange(i, t.len() as int));
    } else {
        assert(out + t.subrange(i, t.len() as int) =~= out);
    }
}

/// A name made of lowercase letters and `_` (optionally after `@`) is read
/// as a plain variable by `#{...}`.
pub open spec fn simple_name(k: Seq<char>) -> bool {
    k.len() > 0 && forall|j: int| 0 <= j < k.len() ==> (('a' <= #[trigger] k[j] && k[j] <= 'z') || k[j] == '_'
        || (j == 0 && k[j] == '@'))
}

/// No modifier applies to a simple name.
#[verifier::spinoff_prover]
#[verifier::rlimit(60)]
proof fn lemma_simple_not_modifier(k: Seq<char>, c: ContextView, fuel: nat)
    requires
        simple_name(k),
    ensures
        fx_modifier(k, c, fuel) == Modified::NotApplicable,
{
    assert(('a' <= k[0] && k[0] <= 'z') || k[0] == '_' || k[0] == '@');
    if k.len() >= 2 {
        assert(('a' <= k[1] && k[1] <= 'z') || k[1] == '_');
        assert(k.subrange(0, 2)[1] == k[1]);
    }
    if k.len() >= 3 {
        assert(k.subrange(0, 3)[1] == k[1]);
    }
    if k.len() >= 4 {
        assert(k.subrange(0, 4)[1] == k[1]);
    }
}

/// A simple name is no conditional, substitution, comparison or truncation.
proof fn lemma_simple_plain(k: Seq<char>)
    requires
        simple_name(k),
    ensures
        k[0] != '?' && k[0] != '=',
        !is_prefix_text(seq!['s', '/'], k),
        comparison_op(k) is None,
        !has_hash(k),
{
    assert(('a' <= k[0] && k[0] <= 'z') || k[0] == '_' || k[0] == '@');
    if k.len() >= 2 {
        assert(('a' <= k[1] && k[1] <= 'z') || k[1] == '_');
        assert(k.subrange(0, 2)[1] == k[1]);
        assert(k.subrange(0, 2)[0] == k[0]);
    }
    if k.len() >= 3 {
        assert(k.subrange(0, 3)[0] == k[0]);
    }
    if has_hash(k) {
        let j = choose|j: int| 0 <= j < k.len() && #[trigger] k[j] == '#';
        assert(('a' <= k[j] && k[j] <= 'z') || k[j] == '_' || (j == 0 && k[j] == '@'));
    }
}

/// `#{name}` of a simple name expands to what the name looks up to, or nothing.
#[verifier::rlimit(40)]
pub proof fn law_known_variable_expands(k: Seq<char>, c: ContextView)
    requires
        simple_name(k),
    ensures
        expansion(seq!['#', '{'] + k + seq!['}'], c) == Some(lookup_text(c, k)),
{
    let t = seq!['#', '{'] + k + seq!['}'];
    let fuel = EXPANSION_FUEL as nat;
    assert forall|j: int| 2 <= j < t.len() - 1 implies t[j] != '}' && t[j] != '{' by {
        assert(t[j] == k[j - 2]);
    }
    lemma_close_at_end(t, 2, 1);
    assert(t.subrange(2, t.len() - 1) =~= k);
    lemma_simple_not_modifier(k, c, fuel);
    lemma_simple_plain(k);
    assert(fx_inner(k, c, fuel) == Some(lookup_text(c, k)));
    assert(Seq::<char>::empty() + lookup_text(c, k) =~= lookup_text(c, k));
    assert(fx_from(t, t.len() as int, lookup_text(c, k), c, fuel) == Some(lookup_text(c, k)));
    assert(fx_from(t, 0, Seq::empty(), c, fuel) == fx_from(t, t.len() as int, Seq::<char>::empty() + lookup_text(c, k), c, fuel));
}

/// With no braces before the last character, which is `}`, that character
/// closes the brace open at position `i`.
proof fn lemma_close_at_end(t: Seq<char>, i: int, depth: int)
    requires
        2 <= i <= t.len() - 1,
        depth == 1,
        t[t.len() - 1] == '}',
        forall|j: int| i <= j < t.len() - 1 ==> t[j] != '}' && t[j] != '{',
    ensures
        brace_close(t, i, depth) == Some(t.len() - 1),
    decreases t.len() - i,
{
    if i < t.len() - 1 {
        lemma_close_at_end(t, i + 1, depth);
    }
}

/// A lone `*` matches any text.
pub proof fn law_star_matches_everything(s: Seq<char>)
    ensures
        glob_at(seq!['*'], s, 0, 0),
{
    lemma_skip_stars(seq!['*'], 0);
    assert(skip_stars(seq!['*'], 1) == 1);
}

/// A shell-quoted text starts and ends with a single quote.
pub proof fn law_shell_quote_is_quoted(s: Seq<char>)
    ensures
        shell_quoted(s).len() >= 2,
        shell_quoted(s)[0] == '\'',
        shell_quoted(s).last() == '\'',
    decreases s.len(),
{
    if s.len() > 0 {
        law_shell_quote_is_quoted(s.drop_last());
        let q = shell_quoted(s.drop_last());
        let add = if s.last() == '\'' { seq!['\'', '\\', '\'', '\''] } else { seq![s.last()] };
        assert((q.drop_last() + add + seq!['\''])[0] == q[0]);
    }
}

/// Printable ASCII text is as wide as it is long.
pub proof fn law_ascii_width_is_length(s: Seq<char>)
    requires
        forall|j: int| 0 <= j < s.len() ==> 0x20 <= (#[trigger] s[j] as u32) && (s[j] as u32) <= 0x7E,
    ensures
        text_width(s) == s.len(),
    decreases s.len(),
{
    if s.len() > 0 {
        assert(0x20 <= (s[s.len() - 1] as u32) <= 0x7E);
        law_ascii_width_is_length(s.drop_last());
    }
}

/// Padding never shortens the value.
pub proof fn law_padding_keeps_value(s: Seq<char>, c: ContextView, fuel: nat)
    ensures
        pad_parts(s) matches Some(p) ==> (fx_eval(p.1, c, fuel) matches Some(v) ==> (fx_pad(s, c, fuel) matches Some(
            r,
        ) ==> r.len() >= v.len())),
{
    lemma_split_first(after(s, 2), ':');
    if let Some(p) = pad_parts(s) {
        if let Some(v) = fx_eval(p.1, c, fuel) {
            let n = p.0;
            let k = if n < 0 { -n } else { n };
            if v.len() < k {
                lemma_repeat_len(' ', k - v.len());
            }
        }
    }
}

/// `repeat_char(c, n)` has `n` characters.
proof fn lemma_repeat_len(c: char, n: int)
    requires
        n >= 0,
    ensures
        repeat_char(c, n).len() == n,
    decreases n,
{
    if n > 0 {
        lemma_repeat_len(c, n - 1);
    }
}

/// At or after the epoch the weekday is 0 (Sunday) to 6.
pub proof fn law_weekday_in_range(t: int)
    requires
        t >= 0,
    ensures
        0 <= local_fields(t).weekday <= 6,
{
}

/// Within an era of 146097 days, the day of the year the date algorithm
/// computes lies in 0..=365.
proof fn lemma_day_of_year_bounds(doe: u32, yoe: u32)
    by (bit_vector)
    requires
        doe < 146097,
        yoe == (doe - doe / 1460 + doe / 36524 - doe / 146096) / 365,
    ensures
        365 * yoe + yoe / 4 - yoe / 100 <= doe,
        doe - (365 * yoe + yoe / 4 - yoe / 100) <= 365,
{
}

/// The month of every time is 1 to 12, its day of the month 1 to 31 and its
/// day of the year 1 to 366.
pub proof fn law_month_and_day_in_range(t: int)
    ensures
        1 <= local_fields(t).month <= 12,
        1 <= local_fields(t).day <= 31,
        1 <= local_fields(t).yday <= 366,
{
    let days = t / 86400;
    let z = days + 719468;
    let doe = z % 146097;
    assert(0 <= doe < 146097);
    let yoe = (doe - doe / 1460 + doe / 36524 - doe / 146096) / 365;
    assert(0 <= doe / 1460 <= doe) by (nonlinear_arith)
        requires
            0 <= doe < 146097,
    ;
    assert(0 <= yoe < 401) by (nonlinear_arith)
        requires
            0 <= doe < 146097,
            yoe == (doe - doe / 1460 + doe / 36524 - doe / 146096) / 365,
    ;
    lemma_day_of_year_bounds(doe as u32, yoe as u32);
    let doy = doe - (365 * yoe + yoe / 4 - yoe / 100);
    assert(0 <= doy <= 365);
    let mp = (5 * doy + 2) / 153;
    assert(0 <= mp <= 11);
    let d = doy - (153 * mp + 2) / 5 + 1;
    assert(1 <= d <= 31);
}

/// `#{<:x,y}` gives `1` exactly when the expansion of `x` comes before the
/// expansion of `y` in character order, and `#{>:x,y}` exactly when it comes
/// after; a side with no expansion leaves the whole without one.
pub proof fn law_less_and_greater_compare(rest: Seq<char>, c: ContextView, fuel: nat)
    requires
        comma_split(rest) is Some,
    ensures
        ({
            let (x, y) = comma_split(rest).unwrap();
            match (fx_from(x, 0, Seq::empty(), c, fuel), fx_from(y, 0, Seq::empty(), c, fuel)) {
                (Some(a), Some(b)) => {
                    &&& fx_compare(seq!['<', ':'] + rest, c, fuel) == Some(
                        if crate::text::seq_less(a, b) { seq!['1'] } else { seq!['0'] },
                    )
                    &&& fx_compare(seq!['>', ':'] + rest, c, fuel) == Some(
                        if crate::text::seq_less(b, a) { seq!['1'] } else { seq!['0'] },
                    )
                },
                _ => fx_compare(seq!['<', ':'] + rest, c, fuel) is None && fx_compare(seq!['>', ':'] + rest, c, fuel)
                    is None,
            }
        }),
{
    let lt = seq!['<', ':'] + rest;
    let gt = seq!['>', ':'] + rest;
    assert(lt[0] == '<' && lt[1] == ':');
    assert(gt[0] == '>' && gt[1] == ':');
    assert(!is_prefix_text(seq!['=', '=', ':'], lt) && !is_prefix_text(seq!['!', '=', ':'], lt));
    assert(!is_prefix_text(seq!['<', '=', ':'], lt) && !is_prefix_text(seq!['>', '=', ':'], lt)) by {
        if lt.len() >= 3 {
            assert(lt.subrange(0, 3)[1] == ':');
        }
    }
    assert(is_prefix_text(seq!['<', ':'], lt)) by {
        assert(lt.subrange(0, 2) =~= seq!['<', ':']);
    }
    assert(!is_prefix_text(seq!['=', '=', ':'], gt) && !is_prefix_text(seq!['!', '=', ':'], gt));
    assert(!is_prefix_text(seq!['<', '=', ':'], gt) && !is_prefix_text(seq!['>', '=', ':'], gt)) by {
        if gt.len() >= 3 {
            assert(gt.subrange(0, 3)[1] == ':');
        }
    }
    assert(!is_prefix_text(seq!['<', ':'], gt)) by {
        assert(gt.subrange(0, 2)[0] == '>');
    }
    assert(is_prefix_text(seq!['>', ':'], gt)) by {
        assert(gt.subrange(0, 2) =~= seq!['>', ':']);
    }
    assert(comparison_op(lt) == Some((4int, 2int)));
    assert(comparison_op(gt) == Some((5int, 2int)));
    assert(after(lt, 2) =~= rest);
    assert(after(gt, 2) =~= rest);
}

/// The operator at the start of `op + rest` for a three-character operator.
proof fn lemma_op3(o1: char, rest: Seq<char>)
    requires
        o1 == '=' || o1 == '!' || o1 == '<' || o1 == '>',
    ensures
        comparison_op(seq![o1, '=', ':'] + rest) == Some((
            if o1 == '=' { 0int } else if o1 == '!' { 1int } else if o1 == '<' { 2int } else { 3int },
            3int,
        )),
        after(seq![o1, '=', ':'] + rest, 3) == rest,
{
    let t = seq![o1, '=', ':'] + rest;
    assert(t[0] == o1 && t[1] == '=' && t[2] == ':');
    assert(t.subrange(0, 3) =~= seq![o1, '=', ':']);
    assert(after(t, 3) =~= rest);
    if o1 != '=' {
        assert(!is_prefix_text(seq!['=', '=', ':'], t)) by {
            assert(t.subrange(0, 3)[0] == o1);
        }
    }
    if o1 != '!' {
        assert(!is_prefix_text(seq!['!', '=', ':'], t)) by {
            assert(t.subrange(0, 3)[0] == o1);
        }
    }
    if o1 != '<' {
        assert(!is_prefix_text(seq!['<', '=', ':'], t)) by {
            assert(t.subrange(0, 3)[0] == o1);
        }
    }
}

/// `#{==:x,y}` gives `1` exactly when both sides expand to the same text,
/// `#{!=:x,y}` exactly when they differ, `#{<=:x,y}` exactly when the left
/// does not come after the right in character order, and `#{>=:x,y}`
/// exactly when it does not come before it.
pub proof fn law_equality_and_order_compare(rest: Seq<char>, c: ContextView, fuel: nat)
    requires
        comma_split(rest) is Some,
    ensures
        ({
            let (x, y) = comma_split(rest).unwrap();
            match (fx_from(x, 0, Seq::empty(), c, fuel), fx_from(y, 0, Seq::empty(), c, fuel)) {
                (Some(a), Some(b)) => {
                    &&& fx_compare(seq!['=', '=', ':'] + rest, c, fuel) == Some(
                        if a == b { seq!['1'] } else { seq!['0'] },
                    )
                    &&& fx_compare(seq!['!', '=', ':'] + rest, c, fuel) == Some(
                        if a != b { seq!['1'] } else { seq!['0'] },
                    )
                    &&& fx_compare(seq!['<', '=', ':'] + rest, c, fuel) == Some(
                        if !crate::text::seq_less(b, a) { seq!['1'] } else { seq!['0'] },
                    )
                    &&& fx_compare(seq!['>', '=', ':'] + rest, c, fuel) == Some(
                        if !crate::text::seq_less(a, b) { seq!['1'] } else { seq!['0'] },
                    )
                },
                _ => true,
            }
        }),
{
    lemma_op3('=', rest);
    lemma_op3('!', rest);
    lemma_op3('<', rest);
    lemma_op3('>', rest);
}

} // verus!
