//! Rational numbers as text: the decimal forms in which fractions are written
//! and read.
use vstd::prelude::*;
use crate::divisibility::abs_spec;
use crate::error::Error;
use crate::affine_space::{Affine3, Mat3, Pos3, Vec3};
use crate::frac::Frac;
use crate::symmetry::{Isometry, IsometryGroup};

verus! {

/// The character of a decimal digit.
pub open spec fn digit_char(d: int) -> char {
    if d == 0 {
        '0'
    } else if d == 1 {
        '1'
    } else if d == 2 {
        '2'
    } else if d == 3 {
        '3'
    } else if d == 4 {
        '4'
    } else if d == 5 {
        '5'
    } else if d == 6 {
        '6'
    } else if d == 7 {
        '7'
    } else if d == 8 {
        '8'
    } else {
        '9'
    }
}

/// A natural number in decimal digits, without leading zeros.
pub open spec fn decimal_nat(n: nat) -> Seq<char>
    decreases n,
{
    if n < 10 {
        seq![digit_char(n as int)]
    } else {
        decimal_nat(n / 10).push(digit_char((n % 10) as int))
    }
}

/// An integer in decimal digits, with `-` before a negative one.
pub open spec fn decimal(n: int) -> Seq<char> {
    if n < 0 {
        seq!['-'] + decimal_nat(abs_spec(n))
    } else {
        decimal_nat(abs_spec(n))
    }
}

/// The text of one decimal digit.
fn digit_str(d: u32) -> (r: &'static str)
    requires
        d < 10,
    ensures
        r@ == seq![digit_char(d as int)],
{
    proof {
        reveal_strlit("0");
        reveal_strlit("1");
        reveal_strlit("2");
        reveal_strlit("3");
        reveal_strlit("4");
        reveal_strlit("5");
        reveal_strlit("6");
        reveal_strlit("7");
        reveal_strlit("8");
        reveal_strlit("9");
    }
    let r = if d == 0 {
        "0"
    } else if d == 1 {
        "1"
    } else if d == 2 {
        "2"
    } else if d == 3 {
        "3"
    } else if d == 4 {
        "4"
    } else if d == 5 {
        "5"
    } else if d == 6 {
        "6"
    } else if d == 7 {
        "7"
    } else if d == 8 {
        "8"
    } else {
        "9"
    };
    assert(r@ =~= seq![digit_char(d as int)]);
    r
}

/// Appends the decimal digits of `n` to `s`.
pub fn append_nat(s: &mut String, n: u64)
    ensures
        final(s)@ == old(s)@ + decimal_nat(n as nat),
    decreases n,
{
    if n >= 10 {
        append_nat(s, n / 10);
    }
    s.append(digit_str((n % 10) as u32));
    proof {
        if n >= 10 {
            assert(final(s)@ =~= old(s)@ + decimal_nat(n as nat));
        } else {
            assert(final(s)@ =~= old(s)@ + decimal_nat(n as nat));
        }
    }
}

/// Appends the decimal form of `n` to `s`.
pub fn append_int(s: &mut String, n: i32)
    ensures
        final(s)@ == old(s)@ + decimal(n as int),
{
    if n < 0 {
        proof {
            reveal_strlit("-");
        }
        s.append("-");
        append_nat(s, (-(n as i64)) as u64);
        proof {
            assert(final(s)@ =~= old(s)@ + decimal(n as int));
        }
    } else {
        append_nat(s, n as u64);
    }
}

/// The fraction as `n`, or as `n/d` when it is not a whole number.
pub open spec fn plain(f: Frac) -> Seq<char> {
    if f.denom() == 1 {
        decimal(f.numer() as int)
    } else {
        decimal(f.numer() as int) + seq!['/'] + decimal(f.denom() as int)
    }
}

/// The plain form, with `+` before a positive fraction.
pub open spec fn signed(f: Frac) -> Seq<char> {
    if f.numer() > 0 {
        seq!['+'] + plain(f)
    } else {
        plain(f)
    }
}

/// The fraction as the factor of a term: nothing for `1`, `-` for `-1`, the
/// plain form otherwise.
pub open spec fn prefactor(f: Frac) -> Seq<char> {
    if f.numer() == -1 && f.denom() == 1 {
        seq!['-']
    } else if f.numer() == 1 && f.denom() == 1 {
        Seq::empty()
    } else {
        plain(f)
    }
}

/// The fraction as the factor of a term after others: `+` for `1`, `-` for
/// `-1`, the plain form otherwise.
pub open spec fn signed_prefactor(f: Frac) -> Seq<char> {
    if f.numer() == -1 && f.denom() == 1 {
        seq!['-']
    } else if f.numer() == 1 && f.denom() == 1 {
        seq!['+']
    } else {
        plain(f)
    }
}

impl Frac {
    /// Appends the plain form of the fraction to `s`.
    pub fn append_to(&self, s: &mut String)
        ensures
            final(s)@ == old(s)@ + plain(*self),
    {
        let n = self.get_numerator();
        let d = self.get_denominator();
        append_int(s, n);
        if d != 1 {
            proof {
                reveal_strlit("/");
            }
            s.append("/");
            append_int(s, d);
            proof {
                assert(final(s)@ =~= old(s)@ + plain(*self));
            }
        }
    }

    /// The fraction as `n`, or as `n/d` when it is not a whole number.
    pub fn to_string(&self) -> (r: String)
        ensures
            r@ == plain(*self),
    {
        let mut s = String::new();
        self.append_to(&mut s);
        proof {
            assert(s@ =~= plain(*self));
        }
        s
    }

    /// The fraction with its sign always shown: the plain form, with `+`
    /// before a positive fraction.
    pub fn as_string_signed(self) -> (r: String)
        ensures
            r@ == signed(self),
    {
        let mut s = String::new();
        if self.get_numerator() > 0 {
            proof {
                reveal_strlit("+");
            }
            s.append("+");
        }
        self.append_to(&mut s);
        proof {
            assert(s@ =~= signed(self));
        }
        s
    }

    /// The fraction as the factor of a term: empty for `1`, `-` for `-1`, the
    /// plain form otherwise.
    pub fn as_prefactor(self) -> (r: String)
        ensures
            r@ == prefactor(self),
    {
        let mut s = String::new();
        let n = self.get_numerator();
        let d = self.get_denominator();
        if n == -1 && d == 1 {
            proof {
                reveal_strlit("-");
            }
            s.append("-");
            proof {
                assert(s@ =~= prefactor(self));
            }
        } else if n == 1 && d == 1 {
        } else {
            self.append_to(&mut s);
            proof {
                assert(s@ =~= prefactor(self));
            }
        }
        s
    }

    /// The fraction as the factor of a term after others: `+` for `1`, `-` for
    /// `-1`, the plain form otherwise.
    pub fn as_signed_prefactor(self) -> (r: String)
        ensures
            r@ == signed_prefactor(self),
    {
        let mut s = String::new();
        let n = self.get_numerator();
        let d = self.get_denominator();
        if n == -1 && d == 1 {
            proof {
                reveal_strlit("-");
            }
            s.append("-");
            proof {
                assert(s@ =~= signed_prefactor(self));
            }
        } else if n == 1 && d == 1 {
            proof {
                reveal_strlit("+");
            }
            s.append("+");
            proof {
                assert(s@ =~= signed_prefactor(self));
            }
        } else {
            self.append_to(&mut s);
            proof {
                assert(s@ =~= signed_prefactor(self));
            }
        }
        s
    }
}

/// The character is a decimal digit.
pub open spec fn is_digit(c: char) -> bool {
    '0' <= c && c <= '9'
}

/// The value of a decimal digit.
pub open spec fn digit_value(c: char) -> int {
    c as int - '0' as int
}

/// Every character is a decimal digit.
pub open spec fn all_digits(s: Seq<char>) -> bool {
    forall|i: int| 0 <= i < s.len() ==> is_digit(#[trigger] s[i])
}

/// The number that a sequence of decimal digits stands for.
pub open spec fn digits_value(s: Seq<char>) -> int
    decreases s.len(),
{
    if s.len() == 0 {
        0
    } else {
        digits_value(s.drop_last()) * 10 + digit_value(s.last())
    }
}

/// The integer that a text stands for: an optional sign, `+` or `-`, then one
/// decimal digit or more, and a value that fits 32 bits. `None` for any other
/// text.
pub open spec fn parse_int(s: Seq<char>) -> Option<int> {
    let signed = s.len() > 0 && (s[0] == '-' || s[0] == '+');
    let digits = if signed {
        s.skip(1)
    } else {
        s
    };
    let value = if s.len() > 0 && s[0] == '-' {
        -digits_value(digits)
    } else {
        digits_value(digits)
    };
    if digits.len() > 0 && all_digits(digits) && i32::MIN <= value <= i32::MAX {
        Some(value)
    } else {
        None
    }
}

/// Where the first `/` of `s` stands, counted from `k`; the length of `s` if
/// there is none.
pub open spec fn first_slash(s: Seq<char>, k: int) -> int
    decreases s.len() - k,
{
    if k < 0 || k >= s.len() {
        s.len() as int
    } else if s[k] == '/' {
        k
    } else {
        first_slash(s, k + 1)
    }
}

/// The fraction that a text stands for: an integer, or two integers with `/`
/// between them, of which the second is not zero; what follows a second `/` is
/// not read. `None` for any other text, and for a fraction that cannot be
/// stored.
pub open spec fn parse_frac(s: Seq<char>) -> Option<Frac> {
    let i = first_slash(s, 0);
    if i >= s.len() {
        match parse_int(s) {
            Some(n) => Frac::checked(n as real),
            None => None,
        }
    } else {
        let j = first_slash(s, i + 1);
        match (parse_int(s.subrange(0, i)), parse_int(s.subrange(i + 1, j))) {
            (Some(n), Some(d)) => if d == 0 {
                None
            } else {
                Frac::checked(crate::frac::rat(n, d))
            },
            _ => None,
        }
    }
}

/// A number written with more digits is not smaller.
pub proof fn lemma_digits_monotonic(s: Seq<char>, k: int)
    requires
        all_digits(s),
        0 <= k <= s.len(),
    ensures
        0 <= digits_value(s.take(k)) <= digits_value(s),
    decreases s.len() - k,
{
    if k == s.len() {
        assert(s.take(k) == s);
        lemma_digits_nonnegative(s);
    } else {
        lemma_digits_monotonic(s, k + 1);
        assert(s.take(k + 1).drop_last() == s.take(k));
        assert(is_digit(s.take(k + 1).last()));
        lemma_digits_nonnegative(s.take(k));
    }
}

/// A sequence of digits stands for a number that is not negative.
pub proof fn lemma_digits_nonnegative(s: Seq<char>)
    requires
        all_digits(s),
    ensures
        0 <= digits_value(s),
    decreases s.len(),
{
    if s.len() > 0 {
        assert(is_digit(s.last()));
        lemma_digits_nonnegative(s.drop_last());
    }
}

/// The integer that the characters `from..to` of `s` stand for.
pub fn parse_int_in(s: &str, from: usize, to: usize) -> (r: Option<i32>)
    requires
        from <= to <= s@.len(),
    ensures
        match r {
            Some(v) => parse_int(s@.subrange(from as int, to as int)) == Some(v as int),
            None => parse_int(s@.subrange(from as int, to as int)) is None,
        },
{
    let ghost text = s@.subrange(from as int, to as int);
    if from == to {
        return None;
    }
    let first = s.get_char(from);
    let negative = first == '-';
    let start: usize = if first == '-' || first == '+' {
        from + 1
    } else {
        from
    };
    let ghost digits = s@.subrange(start as int, to as int);
    proof {
        assert(text[0] == first);
        if start == from + 1 {
            assert(digits =~= text.skip(1));
        } else {
            assert(digits =~= text);
        }
    }
    if start == to {
        return None;
    }
    let mut value: i64 = 0;
    let mut i: usize = start;
    proof {
        assert(digits.take(0).len() == 0);
    }
    while i < to
        invariant
            start <= i <= to,
            from <= start,
            from < to <= s@.len(),
            text == s@.subrange(from as int, to as int),
            negative <==> text[0] == '-',
            (text[0] == '-' || text[0] == '+') <==> start == from + 1,
            start == from || start == from + 1,
            digits == (if start == from + 1 {
                text.skip(1)
            } else {
                text
            }),
            digits == s@.subrange(start as int, to as int),
            all_digits(digits.take(i - start)),
            value == digits_value(digits.take(i - start)),
            0 <= value <= 0x8000_0000,
        decreases to - i,
    {
        let c = s.get_char(i);
        proof {
            assert(digits[i - start] == c);
            assert(digits.take(i - start + 1).drop_last() == digits.take(i - start));
            assert(digits.take(i - start + 1).last() == c);
        }
        if !(c >= '0' && c <= '9') {
            proof {
                assert(!is_digit(digits[i - start]));
            }
            return None;
        }
        let d: i64 = (c as u32 - '0' as u32) as i64;
        value = value * 10 + d;
        proof {
            assert forall|j: int| 0 <= j < i - start + 1 implies is_digit(
                #[trigger] digits.take(i - start + 1)[j],
            ) by {
                if j < i - start {
                    assert(digits.take(i - start)[j] == digits[j]);
                }
            }
        }
        if value > 0x8000_0000 {
            proof {
                if all_digits(digits) {
                    lemma_digits_monotonic(digits, i - start + 1);
                }
            }
            return None;
        }
        i += 1;
    }
    proof {
        assert(digits.take(to - start) == digits);
    }
    if negative {
        Some((-value) as i32)
    } else if value > 0x7fff_ffff {
        None
    } else {
        Some(value as i32)
    }
}

/// Where the first `/` of `s` stands, counted from `from`; the length of `s`
/// if there is none.
fn find_slash(s: &str, from: usize, len: usize) -> (r: usize)
    requires
        from <= len,
        len == s@.len(),
    ensures
        r == first_slash(s@, from as int),
        from <= r <= len,
{
    let mut k: usize = from;
    while k < len
        invariant
            from <= k <= len,
            len == s@.len(),
            first_slash(s@, k as int) == first_slash(s@, from as int),
        decreases len - k,
    {
        if s.get_char(k) == '/' {
            return k;
        }
        k += 1;
    }
    k
}

impl Frac {
    /// The fraction that a text stands for, as [`parse_frac`] describes it;
    /// [`Error::MalformedNumber`] for a text that stands for none.
    pub fn from_str(s: &str) -> (r: Result<Frac, Error>)
        ensures
            match r {
                Ok(f) => parse_frac(s@) == Some(f),
                Err(e) => e == Error::MalformedNumber && parse_frac(s@) is None,
            },
    {
        let len = s.unicode_len();
        let i = find_slash(s, 0, len);
        if i >= len {
            proof {
                assert(s@.subrange(0, len as int) == s@);
            }
            match parse_int_in(s, 0, len) {
                Some(n) => {
                    let f = Frac::from_int(n);
                    proof {
                        Frac::lemma_checked_some(f, n as real);
                    }
                    Ok(f)
                },
                None => Err(Error::MalformedNumber),
            }
        } else {
            let j = find_slash(s, i + 1, len);
            match (parse_int_in(s, 0, i), parse_int_in(s, i + 1, j)) {
                (Some(n), Some(d)) => match Frac::checked_new(n, d) {
                    Some(f) => Ok(f),
                    None => Err(Error::MalformedNumber),
                },
                _ => Err(Error::MalformedNumber),
            }
        }
    }
}

/// Three fractions in brackets: `[x, y, z]`.
pub open spec fn triple_text(x: Frac, y: Frac, z: Frac) -> Seq<char> {
    seq!['['] + plain(x) + seq![',', ' '] + plain(y) + seq![',', ' '] + plain(z) + seq![']']
}

/// Writes three fractions in brackets.
fn triple_to_string(x: Frac, y: Frac, z: Frac) -> (r: String)
    ensures
        r@ == triple_text(x, y, z),
{
    proof {
        reveal_strlit("[");
        reveal_strlit(", ");
        reveal_strlit("]");
    }
    let mut s = String::new();
    s.append("[");
    x.append_to(&mut s);
    s.append(", ");
    y.append_to(&mut s);
    s.append(", ");
    z.append_to(&mut s);
    s.append("]");
    proof {
        assert(s@ =~= triple_text(x, y, z));
    }
    s
}

impl Vec3 {
    /// The vector as `[x, y, z]`.
    pub fn to_string(&self) -> (r: String)
        ensures
            r@ == triple_text(self.x, self.y, self.z),
    {
        triple_to_string(self.x, self.y, self.z)
    }
}

impl Pos3 {
    /// The position as `[x, y, z]`.
    pub fn to_string(&self) -> (r: String)
        ensures
            r@ == triple_text(self.x, self.y, self.z),
    {
        triple_to_string(self.x, self.y, self.z)
    }
}

/// A coefficient before its axis, as in `+x`, `-y` or `1/2z`; nothing for the
/// coefficient zero.
pub open spec fn term_text(coefficient: Frac, axis: char) -> Seq<char> {
    if coefficient.numer() == 0 {
        Seq::empty()
    } else {
        signed_prefactor(coefficient).push(axis)
    }
}

/// The terms of a line with all their signs: the three axes with their
/// coefficients, then the translation, each left out where it is zero.
pub open spec fn signed_row_text(a: Frac, b: Frac, c: Frac, t: Frac) -> Seq<char> {
    term_text(a, 'x') + term_text(b, 'y') + term_text(c, 'z') + if t.numer() == 0 {
        Seq::<char>::empty()
    } else {
        signed(t)
    }
}

/// A line of an operation, as in `-x+1/2`: the terms with their signs, without
/// a leading `+`.
pub open spec fn row_text(a: Frac, b: Frac, c: Frac, t: Frac) -> Seq<char> {
    let full = signed_row_text(a, b, c, t);
    if full.len() > 0 && full[0] == '+' {
        full.skip(1)
    } else {
        full
    }
}

/// `out` with one more line: after a comma, unless nothing was written yet.
pub open spec fn with_row(out: Seq<char>, row: Seq<char>) -> Seq<char> {
    if out.len() > 0 {
        out + seq![','] + row
    } else {
        out + row
    }
}

/// An affine map as it is written down, as in `-x+1/2,y,-z`: its three lines
/// with commas between them.
pub open spec fn affine_text(a: Affine3) -> Seq<char> {
    with_row(
        with_row(
            with_row(Seq::empty(), row_text(a.mat.m00, a.mat.m01, a.mat.m02, a.translation.x)),
            row_text(a.mat.m10, a.mat.m11, a.mat.m12, a.translation.y),
        ),
        row_text(a.mat.m20, a.mat.m21, a.mat.m22, a.translation.z),
    )
}

/// Appends a coefficient before its axis.
fn append_term(s: &mut String, coefficient: Frac, axis: &str)
    requires
        axis@.len() == 1,
    ensures
        final(s)@ == old(s)@ + term_text(coefficient, axis@[0]),
{
    if coefficient.get_numerator() != 0 {
        let p = coefficient.as_signed_prefactor();
        s.append(p.as_str());
        s.append(axis);
        proof {
            assert(final(s)@ =~= old(s)@ + term_text(coefficient, axis@[0]));
        }
    } else {
        proof {
            assert(final(s)@ =~= old(s)@ + term_text(coefficient, axis@[0]));
        }
    }
}

/// Appends one line of an operation to `out`.
fn append_row(out: &mut String, a: Frac, b: Frac, c: Frac, t: Frac)
    ensures
        final(out)@ == with_row(old(out)@, row_text(a, b, c, t)),
{
    proof {
        reveal_strlit("x");
        reveal_strlit("y");
        reveal_strlit("z");
        reveal_strlit(",");
    }
    if out.as_str().unicode_len() > 0 {
        out.append(",");
    }
    let mut line = String::new();
    append_term(&mut line, a, "x");
    append_term(&mut line, b, "y");
    append_term(&mut line, c, "z");
    if t.get_numerator() != 0 {
        let text = t.as_string_signed();
        line.append(text.as_str());
    }
    proof {
        assert(line@ =~= signed_row_text(a, b, c, t));
    }
    let len = line.as_str().unicode_len();
    if len > 0 && line.as_str().get_char(0) == '+' {
        let rest = line.as_str().substring_char(1, len);
        out.append(rest);
        proof {
            assert(line@.subrange(1, len as int) =~= line@.skip(1));
        }
    } else {
        out.append(line.as_str());
    }
    proof {
        assert(final(out)@ =~= with_row(old(out)@, row_text(a, b, c, t)));
    }
}

impl Affine3 {
    /// The map as it is written down, as in `-x+1/2,y,-z`.
    pub fn to_string(&self) -> (r: String)
        ensures
            r@ == affine_text(*self),
    {
        let mut out = String::new();
        append_row(&mut out, self.mat.m00, self.mat.m01, self.mat.m02, self.translation.x);
        append_row(&mut out, self.mat.m10, self.mat.m11, self.mat.m12, self.translation.y);
        append_row(&mut out, self.mat.m20, self.mat.m21, self.mat.m22, self.translation.z);
        out
    }
}

impl Mat3 {
    /// The matrix as the linear map is written down, as in `-x,y,-z`.
    pub fn to_string(&self) -> (r: String)
        ensures
            r@ == affine_text(Affine3 { mat: *self, translation: Vec3 {
                x: Frac::from_int(0),
                y: Frac::from_int(0),
                z: Frac::from_int(0),
            } }),
    {
        let o = Frac::from_int(0);
        let a = Affine3 { mat: *self, translation: Vec3 { x: o, y: o, z: o } };
        a.to_string()
    }
}

impl Isometry {
    /// The operation as it is written down, as in `-x+1/2,y,-z`.
    pub fn to_string(&self) -> (r: String)
        ensures
            r@ == affine_text(self.affine()),
    {
        self.affine().to_string()
    }
}

/// The operations `ops[k..]` as they are written down, each followed by `;`
/// and a line break, after `out`.
pub open spec fn group_text_from(out: Seq<char>, ops: Seq<Isometry>, k: int) -> Seq<char>
    decreases ops.len() - k,
{
    if k < 0 || k >= ops.len() {
        out
    } else {
        group_text_from(out + affine_text(ops[k].affine()) + seq![';', '\n'], ops, k + 1)
    }
}

impl IsometryGroup {
    /// The operations of the group as they are written down, each followed by
    /// `;` and a line break.
    pub fn to_string(&self) -> (r: String)
        ensures
            r@ == group_text_from(Seq::empty(), self@, 0),
    {
        proof {
            reveal_strlit(";\n");
        }
        let ops = self.get_operations();
        let mut out = String::new();
        let mut k: usize = 0;
        while k < ops.len()
            invariant
                k <= ops.len(),
                ops@ == self@,
                group_text_from(out@, ops@, k as int) == group_text_from(Seq::empty(), ops@, 0),
            decreases ops.len() - k,
        {
            let text = ops[k].to_string();
            let ghost before = out@;
            out.append(text.as_str());
            out.append(";\n");
            proof {
                reveal_strlit(";\n");
                assert(out@ =~= before + affine_text(ops@[k as int].affine()) + seq![';', '\n']);
            }
            k += 1;
        }
        out
    }
}

} // verus!
