//! Exact base-10 amounts and their decimal-literal grammar.
use std::str::FromStr;

use rust_decimal::Decimal;
use vstd::prelude::*;

verus! {

/// Largest scale rust_decimal holds.
pub const MAX_SCALE: u32 = 28;

/// An exact decimal number, `mantissa / 10^scale`.
#[derive(Clone, Copy, Debug, PartialEq, Eq, Structural)]
pub struct Amount {
    pub mantissa: i128,
    pub scale: u32,
}

pub open spec fn is_digit(c: char) -> bool {
    '0' <= c && c <= '9'
}

pub open spec fn digit_value(c: char) -> int {
    c as int - '0' as int
}

/// The chars of `s` other than the decimal point.
pub open spec fn digits_of(s: Seq<char>) -> Seq<char>
    decreases s.len(),
{
    if s.len() == 0 {
        s
    } else if s.last() == '.' {
        digits_of(s.drop_last())
    } else {
        digits_of(s.drop_last()).push(s.last())
    }
}

/// The number that a run of decimal digits spells.
pub open spec fn digits_value(s: Seq<char>) -> int
    decreases s.len(),
{
    if s.len() == 0 {
        0
    } else {
        digits_value(s.drop_last()) * 10 + digit_value(s.last())
    }
}

pub open spec fn has_point(s: Seq<char>) -> bool {
    exists|i: int| 0 <= i < s.len() && s[i] == '.'
}

/// How many chars follow the decimal point (0 when there is none).
pub open spec fn fraction_len(s: Seq<char>) -> nat
    decreases s.len(),
{
    if s.len() == 0 || s.last() == '.' {
        0
    } else if has_point(s.drop_last()) {
        fraction_len(s.drop_last()) + 1
    } else {
        0
    }
}

/// `s` without a leading minus sign.
pub open spec fn unsigned_part(s: Seq<char>) -> Seq<char> {
    if s.len() > 0 && s[0] == '-' {
        s.drop_first()
    } else {
        s
    }
}

pub open spec fn is_negative(s: Seq<char>) -> bool {
    s.len() > 0 && s[0] == '-'
}

/// Unsigned literal: digits with at most one point, which has a digit on each side.
pub open spec fn unsigned_shaped(u: Seq<char>) -> bool {
    &&& u.len() > 0
    &&& is_digit(u[0])
    &&& is_digit(u.last())
    &&& forall|i: int| 0 <= i < u.len() ==> (is_digit(#[trigger] u[i]) || u[i] == '.')
    &&& forall|i: int, j: int| #![trigger u[i], u[j]] 0 <= i < j < u.len() && u[i] == '.' ==> u[j] != '.'
    &&& digits_value(digits_of(u)) < 0x1_0000_0000_0000_0000_0000_0000
    &&& fraction_len(u) <= MAX_SCALE
}

/// A plain decimal literal: an optional `-`, then an unsigned literal whose
/// digits spell a mantissa below 2^96 with at most `MAX_SCALE` fraction digits.
pub open spec fn decimal_shaped(s: Seq<char>) -> bool {
    unsigned_shaped(unsigned_part(s))
}

/// The exact amount that a decimal-shaped literal denotes, its scale being
/// the number of written fraction digits.
pub open spec fn amount_of(s: Seq<char>) -> Amount {
    let u = unsigned_part(s);
    let m = digits_value(digits_of(u));
    Amount {
        mantissa: (if is_negative(s) { -m } else { m }) as i128,
        scale: fraction_len(u) as u32,
    }
}

/// Mantissa and scale in the range that rust_decimal represents.
pub open spec fn amount_valid(a: Amount) -> bool {
    &&& -0x1_0000_0000_0000_0000_0000_0000 < a.mantissa < 0x1_0000_0000_0000_0000_0000_0000
    &&& a.scale <= MAX_SCALE
}

/// What `Decimal::from_str_exact` reads from a text, as mantissa and scale.
pub uninterp spec fn decimal_read(s: Seq<char>) -> Option<Amount>;

/// The exact read of a text: the value it spells when it is a plain decimal
/// literal, else whatever rust_decimal reads from it exactly, if anything.
pub open spec fn exact_read(s: Seq<char>) -> Option<Amount> {
    if decimal_shaped(s) {
        Some(amount_of(s))
    } else {
        decimal_read(s)
    }
}

/// The digit char for `d` in `0..10`.
pub open spec fn digit_char(d: int) -> char {
    ((d + 48) as u8) as char
}

/// The decimal digits of `n`, most significant first; none for zero.
pub open spec fn nat_digits(n: nat) -> Seq<char>
    decreases n,
{
    if n == 0 {
        Seq::empty()
    } else {
        nat_digits(n / 10).push(digit_char((n % 10) as int))
    }
}

/// The digits of `n`, with zeros in front until at least `scale` of them.
pub open spec fn padded_digits(n: nat, scale: nat) -> Seq<char> {
    let d = nat_digits(n);
    if d.len() < scale {
        Seq::new((scale - d.len()) as nat, |i: int| '0') + d
    } else {
        d
    }
}

pub open spec fn abs(m: int) -> nat {
    if m < 0 {
        (-m) as nat
    } else {
        m as nat
    }
}

/// The unsigned text: whole digits (`0` when there are none), then, for a
/// positive scale, a point and exactly `scale` fraction digits.
pub open spec fn unsigned_text(n: nat, scale: nat) -> Seq<char> {
    let p = padded_digits(n, scale);
    let w = p.take(p.len() - scale);
    let whole = if w.len() == 0 { seq!['0'] } else { w };
    if scale == 0 {
        whole
    } else {
        whole + seq!['.'] + p.skip(p.len() - scale)
    }
}

/// The text that rust_decimal writes for `m / 10^scale`: a `-` for a
/// negative mantissa, then the unsigned text.
pub open spec fn decimal_text(m: int, scale: nat) -> Seq<char> {
    if m < 0 {
        seq!['-'] + unsigned_text(abs(m), scale)
    } else {
        unsigned_text(abs(m), scale)
    }
}

/// Relies on `Decimal::from_str_exact` (with `Decimal::mantissa` and
/// `Decimal::scale`): a plain decimal literal within range parses to its
/// digits as the mantissa and its fraction digits as the scale, negated after
/// a leading `-`; other text gives what rust_decimal reads, failing where the
/// value would need rounding. Every `Decimal` has a mantissa below 2^96 and a
/// scale of at most 28.
#[verifier::external_body]
pub(crate) fn decimal_from_chars(s: &Vec<char>) -> (r: Option<Amount>)
    ensures
        r == (if decimal_shaped(s@) { Some(amount_of(s@)) } else { decimal_read(s@) }),
        r matches Some(a) ==> amount_valid(a),
{
    let text: String = s.iter().collect();
    Decimal::from_str_exact(&text).ok().map(|d| Amount { mantissa: d.mantissa(), scale: d.scale() })
}

/// Relies on `Decimal::from_i128_with_scale` (which panics outside the valid
/// range) and rust_decimal's `Display`, which writes the sign, the whole
/// digits or `0`, and `scale` fraction digits after a point.
#[verifier::external_body]
pub(crate) fn decimal_to_text(a: &Amount) -> (r: String)
    requires
        amount_valid(*a),
    ensures
        r@ == decimal_text(a.mantissa as int, a.scale as nat),
{
    Decimal::from_i128_with_scale(a.mantissa, a.scale).to_string()
}

impl Amount {
    /// The canonical decimal text of this amount, as handed to storage.
    pub fn to_text(&self) -> (r: String)
        requires
            amount_valid(*self),
        ensures
            r@ == decimal_text(self.mantissa as int, self.scale as nat),
    {
        decimal_to_text(self)
    }
}

pub open spec fn dot_free(s: Seq<char>) -> bool {
    forall|i: int| 0 <= i < s.len() ==> is_digit(#[trigger] s[i])
}

proof fn lemma_nat_digits(n: nat)
    ensures
        dot_free(nat_digits(n)),
        digits_value(nat_digits(n)) == n,
    decreases n,
{
    if n > 0 {
        lemma_nat_digits(n / 10);
        let d = (n % 10) as int;
        assert(digit_value(digit_char(d)) == d);
        let p = nat_digits(n / 10);
        let q = nat_digits(n);
        assert(q.drop_last() == p);
        assert forall|i: int| 0 <= i < q.len() implies is_digit(#[trigger] q[i]) by {
            if i < p.len() {
                assert(q[i] == p[i]);
            }
        }
    }
}

proof fn lemma_leading_zero(x: Seq<char>)
    ensures
        digits_value(seq!['0'] + x) == digits_value(x),
    decreases x.len(),
{
    let y = seq!['0'] + x;
    if x.len() == 0 {
        assert(y.drop_last() =~= Seq::<char>::empty());
        assert(y.last() == '0');
        assert(digits_value(y) == digits_value(y.drop_last()) * 10 + digit_value(y.last()));
    } else {
        lemma_leading_zero(x.drop_last());
        assert(y.drop_last() =~= seq!['0'] + x.drop_last());
        assert(y.last() == x.last());
        assert(digits_value(y) == digits_value(y.drop_last()) * 10 + digit_value(y.last()));
    }
}

proof fn lemma_leading_zeros(k: nat, x: Seq<char>)
    ensures
        digits_value(Seq::new(k, |i: int| '0') + x) == digits_value(x),
    decreases k,
{
    if k > 0 {
        lemma_leading_zeros((k - 1) as nat, x);
        assert(Seq::new(k, |i: int| '0') + x =~= seq!['0'] + (Seq::new((k - 1) as nat, |i: int| '0') + x));
        lemma_leading_zero(Seq::new((k - 1) as nat, |i: int| '0') + x);
    }
}

proof fn lemma_no_point(x: Seq<char>)
    requires
        dot_free(x),
    ensures
        digits_of(x) == x,
        !has_point(x),
        fraction_len(x) == 0,
    decreases x.len(),
{
    if x.len() > 0 {
        lemma_no_point(x.drop_last());
        assert(digits_of(x) =~= x);
    }
}

proof fn lemma_one_point(a: Seq<char>, b: Seq<char>)
    requires
        dot_free(a),
        dot_free(b),
    ensures
        digits_of(a + seq!['.'] + b) == a + b,
        fraction_len(a + seq!['.'] + b) == b.len(),
        has_point(a + seq!['.'] + b),
    decreases b.len(),
{
    let t = a + seq!['.'] + b;
    assert(t[a.len() as int] == '.');
    if b.len() == 0 {
        lemma_no_point(a);
        assert(t.drop_last() =~= a);
        assert(a + b =~= a);
    } else {
        lemma_one_point(a, b.drop_last());
        assert(t.drop_last() =~= a + seq!['.'] + b.drop_last());
        assert(is_digit(b.last()));
        assert(a + b =~= (a + b.drop_last()).push(b.last()));
    }
}

/// Every amount that rust_decimal holds reads back from its canonical text as
/// the very same mantissa and scale, so amounts handed to storage as text lose
/// no precision.
pub proof fn canonical_text_round_trip(a: Amount)
    requires
        amount_valid(a),
    ensures
        decimal_shaped(decimal_text(a.mantissa as int, a.scale as nat)),
        amount_of(decimal_text(a.mantissa as int, a.scale as nat)) == a,
{
    let m = a.mantissa as int;
    let sc = a.scale as nat;
    let n = abs(m);
    let d = nat_digits(n);
    lemma_nat_digits(n);
    let p = padded_digits(n, sc);
    if d.len() < sc {
        let z = Seq::new((sc - d.len()) as nat, |i: int| '0');
        lemma_leading_zeros((sc - d.len()) as nat, d);
        assert forall|i: int| 0 <= i < p.len() implies is_digit(#[trigger] p[i]) by {
            if i >= z.len() {
                assert(p[i] == d[i - z.len()]);
            }
        }
    }
    assert(dot_free(p));
    assert(digits_value(p) == n);
    let w = p.take(p.len() - sc);
    let f = p.skip(p.len() - sc);
    let whole = if w.len() == 0 { seq!['0'] } else { w };
    assert(dot_free(w));
    assert(dot_free(f));
    assert(dot_free(whole));
    assert(w + f =~= p);
    let u = unsigned_text(n, sc);
    if w.len() == 0 {
        assert(f =~= p);
        lemma_leading_zero(p);
    }
    assert(whole + f == p || whole + f =~= seq!['0'] + p);
    assert(digits_value(whole + f) == n);
    if sc == 0 {
        lemma_no_point(whole);
        assert(f.len() == 0);
        assert(whole + f =~= whole);
        assert(u == whole);
    } else {
        lemma_one_point(whole, f);
        assert(u == whole + seq!['.'] + f);
        assert(u[0] == whole[0]);
        assert(u.last() == f.last());
        assert forall|i: int| 0 <= i < u.len() implies (is_digit(#[trigger] u[i]) || u[i] == '.') by {
            if i < whole.len() {
                assert(u[i] == whole[i]);
            } else if i > whole.len() {
                assert(u[i] == f[i - whole.len() - 1]);
            }
        }
        assert forall|i: int, j: int| #![trigger u[i], u[j]] 0 <= i < j < u.len() && u[i] == '.' implies u[j] != '.' by {
            if i < whole.len() {
                assert(u[i] == whole[i]);
            } else if i > whole.len() {
                assert(u[i] == f[i - whole.len() - 1]);
            }
            assert(u[j] == f[j - whole.len() - 1]);
        }
    }
    assert(is_digit(u[0]));
    let t = decimal_text(m, sc);
    if m < 0 {
        assert(unsigned_part(t) =~= u);
        assert(is_negative(t));
    } else {
        assert(unsigned_part(t) == u);
        assert(!is_negative(t));
    }
}

} // verus!
