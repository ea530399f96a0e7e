use vstd::prelude::*;
use crate::text::{chars_of, push_char};

verus! {

/// Largest magnitude of the scientific exponent that a `Decimal` carries.
pub const MAX_EXPONENT: i64 = 1_000_000_000;

/// Bound at which the reading of a run of digits stops counting.
pub const VALUE_CAP: u128 = 1_000_000_000_000_000_000_000_000;

/// Whether `c` is one of the ASCII digits `0` to `9`.
pub open spec fn is_digit(c: char) -> bool {
    '0' <= c && c <= '9'
}

/// The numeric value of a digit character.
pub open spec fn digit_value(c: char) -> nat {
    ((c as u32) as int - 48) as nat
}

/// The digit character for a value below ten.
pub open spec fn digit_char(d: nat) -> char {
    ((d + 48) as u32) as char
}

/// Number of consecutive digits in `s` from position `i` on.
pub open spec fn digit_run(s: Seq<char>, i: int) -> nat
    decreases s.len() - i,
{
    if 0 <= i < s.len() && is_digit(s[i]) {
        1 + digit_run(s, i + 1)
    } else {
        0
    }
}

/// The value of a string of digits read in base ten.
pub open spec fn digits_value(s: Seq<char>) -> nat
    decreases s.len(),
{
    if s.len() == 0 {
        0
    } else {
        digits_value(s.drop_last()) * 10 + digit_value(s.last())
    }
}

/// The base-ten text of a natural number, without leading zeros.
pub open spec fn nat_text(n: nat) -> Seq<char>
    decreases n,
{
    if n < 10 {
        seq![digit_char(n)]
    } else {
        nat_text(n / 10).push(digit_char(n % 10))
    }
}

/// The base-ten text of an integer, with a leading `-` when negative.
pub open spec fn int_text(n: int) -> Seq<char> {
    if n < 0 {
        seq!['-'] + nat_text((-n) as nat)
    } else {
        nat_text(n as nat)
    }
}

pub proof fn lemma_digit_char(d: nat)
    requires
        d < 10,
    ensures
        is_digit(digit_char(d)),
        digit_value(digit_char(d)) == d,
{
}

/// The digits counted by `digit_run` are digits, and they lie inside `s`.
pub proof fn lemma_digit_run(s: Seq<char>, i: int)
    requires
        0 <= i <= s.len(),
    ensures
        i + digit_run(s, i) <= s.len(),
        forall|k: int| i <= k < i + digit_run(s, i) ==> is_digit(#[trigger] s[k]),
        i + digit_run(s, i) < s.len() ==> !is_digit(s[i + digit_run(s, i)]),
    decreases s.len() - i,
{
    if i < s.len() && is_digit(s[i]) {
        lemma_digit_run(s, i + 1);
    }
}

/// A run of digits followed by a non-digit (or by the end) has the run's length.
pub proof fn lemma_digit_run_of(s: Seq<char>, i: int, n: int)
    requires
        0 <= i,
        0 <= n,
        i + n <= s.len(),
        forall|k: int| i <= k < i + n ==> is_digit(#[trigger] s[k]),
        i + n == s.len() || !is_digit(s[i + n]),
    ensures
        digit_run(s, i) == n,
    decreases n,
{
    if n > 0 {
        lemma_digit_run_of(s, i + 1, n - 1);
    }
}

/// The text of a natural number consists of digits and reads back as that number.
pub proof fn lemma_nat_text(n: nat)
    ensures
        nat_text(n).len() >= 1,
        forall|k: int| 0 <= k < nat_text(n).len() ==> is_digit(#[trigger] nat_text(n)[k]),
        digits_value(nat_text(n)) == n,
    decreases n,
{
    if n < 10 {
        lemma_digit_char(n);
        let t = nat_text(n);
        assert(t.drop_last() =~= Seq::<char>::empty());
        assert(digits_value(t) == digits_value(t.drop_last()) * 10 + digit_value(t.last()));
    } else {
        lemma_nat_text(n / 10);
        lemma_digit_char(n % 10);
        let t = nat_text(n);
        assert(t.drop_last() =~= nat_text(n / 10));
        assert(t.last() == digit_char(n % 10));
        assert(digits_value(t) == digits_value(t.drop_last()) * 10 + digit_value(t.last()));
        assert(n == (n / 10) * 10 + n % 10);
    }
}

/// A digit character for a value below ten.
pub fn digit_to_char(d: u64) -> (c: char)
    requires
        d < 10,
    ensures
        c == digit_char(d as nat),
{
    let c = ((d as u8) + 48u8) as char;
    c
}

/// Appends the base-ten text of `n` to `out`.
pub fn write_nat(out: &mut String, n: u64)
    ensures
        final(out)@ == old(out)@ + nat_text(n as nat),
    decreases n,
{
    if n >= 10 {
        write_nat(out, n / 10);
    }
    push_char(out, digit_to_char(n % 10));
    assert(final(out)@ =~= old(out)@ + nat_text(n as nat));
}

/// `v`, or one past `VALUE_CAP` when `v` is larger than that.
pub open spec fn capped(v: nat) -> nat {
    if v > VALUE_CAP { (VALUE_CAP + 1) as nat } else { v }
}

/// Number of consecutive `0` characters in `r` from position `i` on.
pub open spec fn zero_run(r: Seq<char>, i: int) -> nat
    decreases r.len() - i,
{
    if 0 <= i < r.len() && r[i] == '0' {
        1 + zero_run(r, i + 1)
    } else {
        0
    }
}

/// Number of consecutive `0` characters in `r` that end just before position `j`.
pub open spec fn zero_run_back(r: Seq<char>, j: int) -> nat
    decreases j,
{
    if 0 < j <= r.len() && r[j - 1] == '0' {
        1 + zero_run_back(r, j - 1)
    } else {
        0
    }
}

pub proof fn lemma_zero_run(r: Seq<char>, i: int)
    requires
        0 <= i <= r.len(),
    ensures
        i + zero_run(r, i) <= r.len(),
        forall|k: int| i <= k < i + zero_run(r, i) ==> #[trigger] r[k] == '0',
        i + zero_run(r, i) < r.len() ==> r[i + zero_run(r, i)] != '0',
    decreases r.len() - i,
{
    if i < r.len() && r[i] == '0' {
        lemma_zero_run(r, i + 1);
    }
}

pub proof fn lemma_zero_run_back(r: Seq<char>, j: int)
    requires
        0 <= j <= r.len(),
    ensures
        zero_run_back(r, j) <= j,
        forall|k: int| j - zero_run_back(r, j) <= k < j ==> #[trigger] r[k] == '0',
        zero_run_back(r, j) < j ==> r[j - zero_run_back(r, j) - 1] != '0',
    decreases j,
{
    if 0 < j && r[j - 1] == '0' {
        lemma_zero_run_back(r, j - 1);
    }
}

/// An exact decimal number in scientific form: the significant digits
/// `d0 d1 d2 ...` stand for `d0.d1d2... × 10^exponent`. Zero has no digits.
#[derive(Debug, Clone, PartialEq, Eq)]
pub struct Decimal {
    pub negative: bool,
    pub digits: Vec<char>,
    pub exponent: i64,
}

/// The mathematical content of a `Decimal`.
pub ghost struct DecimalView {
    pub negative: bool,
    pub digits: Seq<char>,
    pub exponent: int,
}

impl View for Decimal {
    type V = DecimalView;

    open spec fn view(&self) -> DecimalView {
        DecimalView { negative: self.negative, digits: self.digits@, exponent: self.exponent as int }
    }
}

/// The zero decimal.
pub open spec fn decimal_zero() -> DecimalView {
    DecimalView { negative: false, digits: Seq::empty(), exponent: 0 }
}

/// The normal form: digits only, no leading or trailing zero digit, zero
/// without sign or exponent, and the exponent within `MAX_EXPONENT`.
pub open spec fn decimal_wf(v: DecimalView) -> bool {
    &&& forall|k: int| 0 <= k < v.digits.len() ==> is_digit(#[trigger] v.digits[k])
    &&& v.digits.len() == 0 ==> v == decimal_zero()
    &&& v.digits.len() > 0 ==> v.digits[0] != '0' && v.digits.last() != '0'
    &&& -MAX_EXPONENT <= v.exponent <= MAX_EXPONENT
}

/// Displayed text of a decimal: `d0[.d1d2...]e<exponent>`, with `-` in front
/// when negative, and `0e0` for zero.
pub open spec fn decimal_text(v: DecimalView) -> Seq<char> {
    if v.digits.len() == 0 {
        seq!['0', 'e', '0']
    } else {
        (if v.negative { seq!['-'] } else { Seq::<char>::empty() }) + seq![v.digits[0]] + (if v.digits.len()
            > 1 {
            seq!['.'] + v.digits.subrange(1, v.digits.len() as int)
        } else {
            Seq::<char>::empty()
        }) + seq!['e'] + int_text(v.exponent)
    }
}

/// Length of an optional `+` or `-` at position `i`.
pub open spec fn sign_len(s: Seq<char>, i: int) -> int {
    if 0 <= i < s.len() && (s[i] == '+' || s[i] == '-') {
        1
    } else {
        0
    }
}

/// The exponent written from position `c` to the end of `s`: nothing (zero),
/// or `e` / `E`, an optional sign and at least one digit.
pub open spec fn exponent_part(s: Seq<char>, c: int) -> Option<int> {
    if c == s.len() {
        Some(0)
    } else if 0 <= c < s.len() && (s[c] == 'e' || s[c] == 'E') {
        let d = c + 1 + sign_len(s, c + 1);
        if digit_run(s, d) > 0 && d + digit_run(s, d) == s.len() {
            let v = digits_value(s.subrange(d, s.len() as int)) as int;
            Some(if sign_len(s, c + 1) == 1 && s[c + 1] == '-' { -v } else { v })
        } else {
            None
        }
    } else {
        None
    }
}

/// The normal form of the number `0.raw × 10^point`, where `raw` holds digits;
/// `None` when its exponent is out of range.
pub open spec fn normalize(negative: bool, raw: Seq<char>, point: int) -> Option<DecimalView> {
    let z = zero_run(raw, 0) as int;
    if z == raw.len() {
        Some(decimal_zero())
    } else {
        let e = point - z - 1;
        if -MAX_EXPONENT <= e <= MAX_EXPONENT {
            Some(
                DecimalView {
                    negative,
                    digits: raw.subrange(z, raw.len() - zero_run_back(raw, raw.len() as int)),
                    exponent: e,
                },
            )
        } else {
            None
        }
    }
}

/// The decimal that `s` denotes: an optional sign, digits with at most one
/// `.` and at least one digit, then an optional exponent; `None` when `s` is
/// not of that form or its exponent is out of range.
pub open spec fn parse_decimal_spec(s: Seq<char>) -> Option<DecimalView> {
    let a = sign_len(s, 0);
    let negative = a == 1 && s[0] == '-';
    let n1 = digit_run(s, a) as int;
    let b = a + n1;
    let has_point = b < s.len() && s[b] == '.';
    let n2 = if has_point { digit_run(s, b + 1) as int } else { 0 };
    let c = if has_point { b + 1 + n2 } else { b };
    let raw = if has_point { s.subrange(a, b) + s.subrange(b + 1, c) } else { s.subrange(a, b) };
    if n1 + n2 == 0 {
        None
    } else {
        match exponent_part(s, c) {
            Some(e) => normalize(negative, raw, n1 + e),
            None => None,
        }
    }
}

/// The unsigned 32-bit integer that `s` denotes: an optional `+` and at
/// least one digit, with a value that fits.
pub open spec fn parse_u32_spec(s: Seq<char>) -> Option<u32> {
    let a: int = if s.len() > 0 && s[0] == '+' { 1 } else { 0 };
    let n = digit_run(s, a) as int;
    if n > 0 && a + n == s.len() && digits_value(s.subrange(a, s.len() as int)) <= u32::MAX {
        Some(digits_value(s.subrange(a, s.len() as int)) as u32)
    } else {
        None
    }
}

/// Length of the run of digits in `s` from position `i` on.
fn digit_run_at(s: &Vec<char>, i: usize) -> (n: usize)
    requires
        i <= s@.len(),
    ensures
        n == digit_run(s@, i as int),
        i + n <= s@.len(),
{
    let mut j = i;
    while j < s.len() && '0' <= s[j] && s[j] <= '9'
        invariant
            i <= j <= s@.len(),
            digit_run(s@, i as int) == (j - i) + digit_run(s@, j as int),
        decreases s@.len() - j,
    {
        j = j + 1;
    }
    j - i
}

/// Length of the run of `0` characters in `r` from position `i` on.
fn zero_run_at(r: &Vec<char>, i: usize) -> (n: usize)
    requires
        i <= r@.len(),
    ensures
        n == zero_run(r@, i as int),
        i + n <= r@.len(),
{
    let mut j = i;
    while j < r.len() && r[j] == '0'
        invariant
            i <= j <= r@.len(),
            zero_run(r@, i as int) == (j - i) + zero_run(r@, j as int),
        decreases r@.len() - j,
    {
        j = j + 1;
    }
    j - i
}

/// Length of the run of `0` characters in `r` that ends at its end.
fn zero_run_at_end(r: &Vec<char>) -> (n: usize)
    ensures
        n == zero_run_back(r@, r@.len() as int),
        n <= r@.len(),
{
    let mut j = r.len();
    while j > 0 && r[j - 1] == '0'
        invariant
            j <= r@.len(),
            zero_run_back(r@, r@.len() as int) == (r@.len() - j) + zero_run_back(r@, j as int),
        decreases j,
    {
        j = j - 1;
    }
    r.len() - j
}

/// The value of the digits `s[from..to]`, capped just above `VALUE_CAP`.
fn capped_value(s: &Vec<char>, from: usize, to: usize) -> (v: u128)
    requires
        from <= to <= s@.len(),
        forall|k: int| from <= k < to ==> is_digit(#[trigger] s@[k]),
    ensures
        v == capped(digits_value(s@.subrange(from as int, to as int))),
{
    let mut v: u128 = 0;
    let mut k = from;
    assert(s@.subrange(from as int, from as int) =~= Seq::<char>::empty());
    while k < to
        invariant
            from <= k <= to <= s@.len(),
            forall|k: int| from <= k < to ==> is_digit(#[trigger] s@[k]),
            v == capped(digits_value(s@.subrange(from as int, k as int))),
        decreases to - k,
    {
        let ghost prev = s@.subrange(from as int, k as int);
        let ghost next = s@.subrange(from as int, k + 1);
        assert(next.drop_last() =~= prev);
        assert(next.last() == s@[k as int]);
        assert(is_digit(s@[k as int]));
        let d = (s[k] as u32 - 48) as u128;
        let w = v * 10 + d;
        v = if w > VALUE_CAP { VALUE_CAP + 1 } else { w };
        k = k + 1;
    }
    v
}

/// The exponent written from position `c` on, as its sign and its capped magnitude.
fn read_exponent(s: &Vec<char>, c: usize) -> (r: Option<(bool, u128)>)
    requires
        c <= s@.len(),
    ensures
        r is None <==> exponent_part(s@, c as int) is None,
        r matches Some((neg, m)) ==> exists|e: int| {
            &&& exponent_part(s@, c as int) == Some(e)
            &&& m == capped((if neg { -e } else { e }) as nat)
            &&& (if neg { e <= 0 } else { e >= 0 })
        },
{
    let n = s.len();
    if c == n {
        return Some((false, 0));
    }
    if !(s[c] == 'e' || s[c] == 'E') {
        return None;
    }
    let sl: usize = if c + 1 < n && (s[c + 1] == '+' || s[c + 1] == '-') { 1 } else { 0 };
    let neg = sl == 1 && s[c + 1] == '-';
    let d = c + 1 + sl;
    let m = digit_run_at(s, d);
    if m == 0 || d + m != n {
        return None;
    }
    proof {
        lemma_digit_run(s@, d as int);
    }
    let v = capped_value(s, d, n);
    let ghost e: int = exponent_part(s@, c as int)->0;
    assert(v == capped((if neg { -e } else { e }) as nat));
    Some((neg, v))
}

/// Appends `s[from..to]` to `out`.
fn push_range(out: &mut Vec<char>, s: &Vec<char>, from: usize, to: usize)
    requires
        from <= to <= s@.len(),
    ensures
        final(out)@ == old(out)@ + s@.subrange(from as int, to as int),
{
    let mut k = from;
    while k < to
        invariant
            from <= k <= to <= s@.len(),
            out@ == old(out)@ + s@.subrange(from as int, k as int),
        decreases to - k,
    {
        out.push(s[k]);
        k = k + 1;
        assert(out@ =~= old(out)@ + s@.subrange(from as int, k as int));
    }
}

/// The normal form of `0.raw × 10^(n1 + e)`, given `e` by its sign and its
/// capped magnitude.
fn normalize_digits(
    negative: bool,
    raw: &Vec<char>,
    n1: usize,
    eneg: bool,
    emag: u128,
    Ghost(e): Ghost<int>,
) -> (r: Option<Decimal>)
    requires
        forall|k: int| 0 <= k < raw@.len() ==> is_digit(#[trigger] raw@[k]),
        emag == capped((if eneg { -e } else { e }) as nat),
        if eneg { e <= 0 } else { e >= 0 },
    ensures
        match r {
            Some(d) => normalize(negative, raw@, n1 + e) == Some(d@) && decimal_wf(d@),
            None => normalize(negative, raw@, n1 + e) is None,
        },
{
    let len = raw.len();
    let z = zero_run_at(raw, 0);
    proof {
        lemma_zero_run(raw@, 0);
    }
    if z == len {
        return Some(Decimal { negative: false, digits: Vec::new(), exponent: 0 });
    }
    if emag > VALUE_CAP {
        return None;
    }
    let p: i128 = if eneg {
        n1 as i128 - emag as i128
    } else {
        n1 as i128 + emag as i128
    };
    let ex: i128 = p - z as i128 - 1;
    if ex < -(MAX_EXPONENT as i128) || ex > MAX_EXPONENT as i128 {
        return None;
    }
    let t = zero_run_at_end(raw);
    proof {
        lemma_zero_run_back(raw@, len as int);
        assert(raw@[z as int] != '0');
        assert(t < len - z) by {
            if t >= len - z {
                assert(raw@[z as int] == '0');
            }
        }
    }
    let mut digits: Vec<char> = Vec::new();
    push_range(&mut digits, raw, z, len - t);
    assert(digits@ =~= raw@.subrange(z as int, len - t));
    let d = Decimal { negative, digits, exponent: ex as i64 };
    assert(d@.digits.last() == raw@[len - t - 1]);
    Some(d)
}

/// Appends the base-ten text of `n`, with `-` when negative, to `out`.
fn write_int(out: &mut String, n: i64)
    requires
        n > i64::MIN,
    ensures
        final(out)@ == old(out)@ + int_text(n as int),
{
    if n < 0 {
        push_char(out, '-');
        write_nat(out, (-n) as u64);
        assert(final(out)@ =~= old(out)@ + int_text(n as int));
    } else {
        write_nat(out, n as u64);
    }
}

impl Decimal {
    /// A copy with the same sign, digits and exponent.
    pub fn duplicate(&self) -> (r: Decimal)
        ensures
            r@ == self@,
    {
        let mut digits: Vec<char> = Vec::new();
        let mut k: usize = 0;
        while k < self.digits.len()
            invariant
                k <= self.digits@.len(),
                digits@ == self.digits@.subrange(0, k as int),
            decreases self.digits@.len() - k,
        {
            digits.push(self.digits[k]);
            k = k + 1;
            assert(digits@ =~= self.digits@.subrange(0, k as int));
        }
        assert(digits@ =~= self.digits@);
        Decimal { negative: self.negative, digits, exponent: self.exponent }
    }

    /// The decimal is in normal form.
    pub open spec fn wf(&self) -> bool {
        decimal_wf(self@)
    }

    /// The number zero.
    pub fn zero() -> (r: Decimal)
        ensures
            r@ == decimal_zero(),
            r.wf(),
    {
        let r = Decimal { negative: false, digits: Vec::new(), exponent: 0 };
        assert(r@.digits =~= Seq::<char>::empty());
        r
    }

    /// Reads a decimal number: an optional sign, digits with at most one `.`
    /// and at least one digit, and an optional exponent (`e` or `E`, an
    /// optional sign, digits). `None` when the text has another form or the
    /// exponent of the result would exceed `MAX_EXPONENT`.
    pub fn parse(text: &str) -> (r: Option<Decimal>)
        ensures
            match r {
                Some(d) => parse_decimal_spec(text@) == Some(d@) && d.wf(),
                None => parse_decimal_spec(text@) is None,
            },
    {
        let s = chars_of(text);
        let len = s.len();
        let a: usize = if len > 0 && (s[0] == '+' || s[0] == '-') {
            1
        } else {
            0
        };
        let negative = a == 1 && s[0] == '-';
        let n1 = digit_run_at(&s, a);
        proof {
            lemma_digit_run(s@, a as int);
        }
        let b = a + n1;
        let has_point = b < len && s[b] == '.';
        let n2: usize = if has_point {
            digit_run_at(&s, b + 1)
        } else {
            0
        };
        proof {
            if has_point {
                lemma_digit_run(s@, b + 1);
            }
        }
        let c = if has_point {
            b + 1 + n2
        } else {
            b
        };
        if n1 == 0 && n2 == 0 {
            return None;
        }
        let (eneg, emag) = match read_exponent(&s, c) {
            Some(p) => p,
            None => {
                return None;
            },
        };
        let ghost e: int = exponent_part(s@, c as int)->0;
        let mut raw: Vec<char> = Vec::new();
        push_range(&mut raw, &s, a, b);
        if has_point {
            push_range(&mut raw, &s, b + 1, c);
        }
        let ghost spec_raw = if has_point {
            s@.subrange(a as int, b as int) + s@.subrange(b + 1, c as int)
        } else {
            s@.subrange(a as int, b as int)
        };
        assert(raw@ =~= spec_raw);
        normalize_digits(negative, &raw, n1, eneg, emag, Ghost(e))
    }

    /// The displayed text: `d0[.d1d2...]e<exponent>`, `-` in front when
    /// negative, `0e0` for zero.
    pub fn to_text(&self) -> (r: String)
        requires
            self.wf(),
        ensures
            r@ == decimal_text(self@),
    {
        let mut out = String::new();
        if self.digits.len() == 0 {
            push_char(&mut out, '0');
            push_char(&mut out, 'e');
            push_char(&mut out, '0');
            assert(out@ =~= decimal_text(self@));
            return out;
        }
        if self.negative {
            push_char(&mut out, '-');
        }
        push_char(&mut out, self.digits[0]);
        let ghost head = out@;
        if self.digits.len() > 1 {
            push_char(&mut out, '.');
            let mut k: usize = 1;
            while k < self.digits.len()
                invariant
                    1 <= k <= self.digits@.len(),
                    out@ == head + seq!['.'] + self.digits@.subrange(1, k as int),
                decreases self.digits@.len() - k,
            {
                push_char(&mut out, self.digits[k]);
                k = k + 1;
                assert(out@ =~= head + seq!['.'] + self.digits@.subrange(1, k as int));
            }
        }
        push_char(&mut out, 'e');
        write_int(&mut out, self.exponent);
        assert(out@ =~= decimal_text(self@));
        out
    }
}

/// Reads an unsigned 32-bit integer: an optional `+` and at least one digit,
/// with a value that fits.
pub fn parse_u32(text: &str) -> (r: Option<u32>)
    ensures
        r == parse_u32_spec(text@),
{
    let s = chars_of(text);
    let len = s.len();
    let a: usize = if len > 0 && s[0] == '+' {
        1
    } else {
        0
    };
    let n = digit_run_at(&s, a);
    if n == 0 || a + n != len {
        return None;
    }
    proof {
        lemma_digit_run(s@, a as int);
    }
    let v = capped_value(&s, a, len);
    if v > 4294967295 {
        None
    } else {
        Some(v as u32)
    }
}

/// The base-ten text of `n`.
pub fn u32_text(n: u32) -> (r: String)
    ensures
        r@ == nat_text(n as nat),
{
    let mut out = String::new();
    write_nat(&mut out, n as u64);
    assert(out@ =~= nat_text(n as nat));
    out
}

/// An `e` followed by the text of an integer reads back as that integer.
pub proof fn lemma_exponent_text(s: Seq<char>, c: int, e: int)
    requires
        0 <= c < s.len(),
        s[c] == 'e',
        s.subrange(c + 1, s.len() as int) == int_text(e),
    ensures
        exponent_part(s, c) == Some(e),
{
    let m: nat = if e < 0 { (-e) as nat } else { e as nat };
    lemma_nat_text(m);
    let t = nat_text(m);
    let u = s.subrange(c + 1, s.len() as int);
    let d: int = if e < 0 { c + 2 } else { c + 1 };
    if e < 0 {
        assert(u =~= seq!['-'] + t);
        assert(u[0] == '-');
    } else {
        assert(u =~= t);
    }
    assert(s.len() == d + t.len());
    assert forall|k: int| d <= k < d + t.len() implies is_digit(#[trigger] s[k]) by {
        assert(s[k] == u[k - c - 1]);
        assert(t[k - d] == u[k - c - 1]);
    }
    lemma_digit_run_of(s, d, t.len() as int);
    assert forall|k: int| 0 <= k < t.len() implies #[trigger] s.subrange(d, s.len() as int)[k]
        == t[k] by {
        assert(s[d + k] == u[d + k - c - 1]);
    }
    assert(s.subrange(d, s.len() as int) =~= t);
    if e < 0 {
        assert(s[c + 1] == u[0]);
    } else {
        assert(s[c + 1] == t[0]);
        assert(is_digit(t[0]));
    }
}

/// The text of a `u32` reads back as the same number.
pub proof fn lemma_u32_round_trip(n: u32)
    ensures
        parse_u32_spec(nat_text(n as nat)) == Some(n),
{
    let s = nat_text(n as nat);
    lemma_nat_text(n as nat);
    lemma_digit_run_of(s, 0, s.len() as int);
    assert(is_digit(s[0]));
    assert(s.subrange(0, s.len() as int) =~= s);
}

/// The displayed text of a decimal in normal form reads back as the same decimal.
#[verifier::rlimit(60)]
pub proof fn lemma_decimal_round_trip(v: DecimalView)
    requires
        decimal_wf(v),
    ensures
        parse_decimal_spec(decimal_text(v)) == Some(v),
{
    let s = decimal_text(v);
    if v.digits.len() == 0 {
        assert(s =~= seq!['0', 'e', '0']);
        lemma_digit_run_of(s, 0, 1);
        assert(s.subrange(2, s.len() as int) =~= int_text(0));
        lemma_exponent_text(s, 1, 0);
        let raw = s.subrange(0, 1);
        assert(raw =~= seq!['0']);
        assert(zero_run(raw, 1) == 0);
        assert(zero_run(raw, 0) == 1);
    } else {
        let n = v.digits.len();
        let sg: Seq<char> = if v.negative { seq!['-'] } else { Seq::<char>::empty() };
        let fr: Seq<char> = if n > 1 {
            seq!['.'] + v.digits.subrange(1, n as int)
        } else {
            Seq::<char>::empty()
        };
        let a = sg.len() as int;
        let c = a + 1 + fr.len();
        assert(s =~= sg + seq![v.digits[0]] + fr + seq!['e'] + int_text(v.exponent));
        assert(s[a] == v.digits[0]);
        assert(is_digit(v.digits[0]));
        assert(sign_len(s, 0) == a);
        assert(s[c] == 'e');
        if n > 1 {
            assert(s[a + 1] == '.');
            assert forall|k: int| a + 2 <= k < a + 2 + (n - 1) implies is_digit(#[trigger] s[k]) by {
                assert(s[k] == v.digits[k - a - 1]);
            }
            lemma_digit_run_of(s, a + 2, n - 1);
        } else {
            assert(s[a + 1] == 'e');
        }
        lemma_digit_run_of(s, a, 1);
        assert(s.subrange(c + 1, s.len() as int) =~= int_text(v.exponent));
        lemma_exponent_text(s, c, v.exponent);
        let raw = if n > 1 {
            s.subrange(a, a + 1) + s.subrange(a + 2, c)
        } else {
            s.subrange(a, a + 1)
        };
        assert(raw =~= v.digits);
        assert(zero_run(raw, 0) == 0);
        assert(raw[n - 1] != '0');
        assert(zero_run_back(raw, n as int) == 0);
        assert(raw.subrange(0, n as int) =~= v.digits);
    }
}

} // verus!
