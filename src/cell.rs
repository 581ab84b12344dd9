//! The value parser: raw money-cell text to an exact amount.
use vstd::prelude::*;
use vstd::string::*;

use crate::amount::{amount_valid, canonical_text_round_trip, decimal_from_chars, decimal_text, exact_read, Amount};

verus! {

/// Why a cell's text gave no amount.
#[derive(Clone, Copy, Debug, PartialEq, Eq, Structural)]
pub enum ParseError {
    /// After cleaning, the text is not a decimal literal.
    NotDecimal,
}

/// Unicode `White_Space` characters, which `str::trim` removes.
pub open spec fn is_white_space(c: char) -> bool {
    ('\u{9}' <= c && c <= '\u{d}') || c == ' ' || c == '\u{85}' || c == '\u{a0}' || c == '\u{1680}'
        || ('\u{2000}' <= c && c <= '\u{200a}') || c == '\u{2028}' || c == '\u{2029}' || c == '\u{202f}'
        || c == '\u{205f}' || c == '\u{3000}'
}

/// `s` without its leading white space.
pub open spec fn trim_start(s: Seq<char>) -> Seq<char>
    decreases s.len(),
{
    if s.len() > 0 && is_white_space(s[0]) {
        trim_start(s.drop_first())
    } else {
        s
    }
}

/// `s` without its trailing white space.
pub open spec fn trim_end(s: Seq<char>) -> Seq<char>
    decreases s.len(),
{
    if s.len() > 0 && is_white_space(s.last()) {
        trim_end(s.drop_last())
    } else {
        s
    }
}

/// `s` without leading and trailing white space.
pub open spec fn trimmed(s: Seq<char>) -> Seq<char> {
    trim_end(trim_start(s))
}

/// Relies on `str::trim`: the string without leading and trailing Unicode
/// `White_Space` characters.
#[verifier::external_body]
fn trim_text(s: &str) -> (r: &str)
    ensures
        r@ == trimmed(s@),
{
    s.trim()
}

/// The chars of a string, in order.
pub fn chars_of(s: &str) -> (r: Vec<char>)
    ensures
        r@ == s@,
{
    let n = s.unicode_len();
    let mut out: Vec<char> = Vec::new();
    let mut i: usize = 0;
    while i < n
        invariant
            n == s@.len(),
            i <= n,
            out@ == s@.take(i as int),
        decreases n - i,
    {
        let c = s.get_char(i);
        out.push(c);
        i = i + 1;
        assert(out@ =~= s@.take(i as int));
    }
    assert(s@.take(n as int) =~= s@);
    out
}

/// Glyphs that the portal adds around numbers and that carry no value.
pub open spec fn is_decoration(c: char) -> bool {
    c == '£' || c == '%' || c == ','
}

/// Drops currency, percent and thousands-separator glyphs and writes the
/// Unicode minus sign as an ASCII hyphen-minus.
pub open spec fn strip_glyphs(s: Seq<char>) -> Seq<char>
    decreases s.len(),
{
    if s.len() == 0 {
        s
    } else if is_decoration(s.last()) {
        strip_glyphs(s.drop_last())
    } else if s.last() == '\u{2212}' {
        strip_glyphs(s.drop_last()).push('-')
    } else {
        strip_glyphs(s.drop_last()).push(s.last())
    }
}

/// The text of a cell as it is handed to the decimal grammar.
pub open spec fn cleaned(s: Seq<char>) -> Seq<char> {
    strip_glyphs(trimmed(s))
}

/// What reading a text as an exact decimal yields.
pub open spec fn read_result(s: Seq<char>) -> Result<Amount, ParseError> {
    match exact_read(s) {
        Some(a) => Ok(a),
        None => Err(ParseError::NotDecimal),
    }
}

/// What parsing a cell yields.
pub open spec fn cell_result(s: Seq<char>) -> Result<Amount, ParseError> {
    read_result(cleaned(s))
}

/// Drops decoration glyphs from already trimmed text and normalises the minus sign.
pub fn strip_decorations(s: &Vec<char>) -> (r: Vec<char>)
    ensures
        r@ == strip_glyphs(s@),
{
    let mut out: Vec<char> = Vec::new();
    let mut i: usize = 0;
    while i < s.len()
        invariant
            i <= s@.len(),
            out@ == strip_glyphs(s@.take(i as int)),
        decreases s@.len() - i,
    {
        let c = s[i];
        assert(s@.take(i as int + 1).drop_last() == s@.take(i as int));
        if c == '£' || c == '%' || c == ',' {
        } else if c == '\u{2212}' {
            out.push('-');
        } else {
            out.push(c);
        }
        i = i + 1;
    }
    assert(s@.take(s@.len() as int) == s@);
    out
}

/// Trims a cell's text and strips its decoration glyphs.
pub fn clean_cell(text: &str) -> (r: Vec<char>)
    ensures
        r@ == cleaned(text@),
{
    let t = trim_text(text);
    let cs = chars_of(t);
    strip_decorations(&cs)
}

/// Parses cleaned text as an exact decimal.
pub fn parse_cleaned(s: &Vec<char>) -> (r: Result<Amount, ParseError>)
    ensures
        r == read_result(s@),
        r matches Ok(a) ==> amount_valid(a),
{
    match decimal_from_chars(s) {
        Some(a) => Ok(a),
        None => Err(ParseError::NotDecimal),
    }
}

/// Parses a money cell's text: trims it, strips `£`, `%` and `,`, turns the
/// Unicode minus into `-`, and reads the rest as an exact decimal; text that
/// is no decimal, or whose value would need rounding, fails.
pub fn parse_cell(text: &str) -> (r: Result<Amount, ParseError>)
    ensures
        r == cell_result(text@),
        r matches Ok(a) ==> amount_valid(a),
{
    let c = clean_cell(text);
    parse_cleaned(&c)
}

/// Stripping glyphs works char by char, so it splits over concatenation.
pub proof fn strip_glyphs_concat(a: Seq<char>, b: Seq<char>)
    ensures
        strip_glyphs(a + b) == strip_glyphs(a) + strip_glyphs(b),
    decreases b.len(),
{
    if b.len() == 0 {
        assert(a + b =~= a);
        assert(strip_glyphs(a) + strip_glyphs(b) =~= strip_glyphs(a));
    } else {
        strip_glyphs_concat(a, b.drop_last());
        assert((a + b).drop_last() =~= a + b.drop_last());
        assert((a + b).last() == b.last());
        if is_decoration(b.last()) {
        } else if b.last() == '\u{2212}' {
            assert(strip_glyphs(a + b) =~= strip_glyphs(a) + strip_glyphs(b));
        } else {
            assert(strip_glyphs(a + b) =~= strip_glyphs(a) + strip_glyphs(b));
        }
    }
}

/// Cleaned text holds no `£`, `%`, `,` or Unicode minus: a `£`, `%` or `,`
/// anywhere in a cell changes nothing, and a Unicode minus reads exactly as
/// `-`, so the sign is kept.
pub proof fn glyphs_carry_no_value(a: Seq<char>, c: char, b: Seq<char>)
    ensures
        forall|i: int|
            0 <= i < strip_glyphs(a).len() ==> !is_decoration(#[trigger] strip_glyphs(a)[i])
                && strip_glyphs(a)[i] != '\u{2212}',
        is_decoration(c) ==> strip_glyphs(a + seq![c] + b) == strip_glyphs(a + b),
        strip_glyphs(a + seq!['\u{2212}'] + b) == strip_glyphs(a + seq!['-'] + b),
{
    strip_glyphs_free(a);
    strip_glyphs_concat(a + seq![c], b);
    strip_glyphs_concat(a, seq![c]);
    strip_glyphs_concat(a, b);
    strip_glyphs_concat(a + seq!['\u{2212}'], b);
    strip_glyphs_concat(a, seq!['\u{2212}']);
    strip_glyphs_concat(a + seq!['-'], b);
    strip_glyphs_concat(a, seq!['-']);
    reveal_with_fuel(strip_glyphs, 2);
    assert(seq![c].drop_last() =~= Seq::<char>::empty());
    assert(seq!['\u{2212}'].drop_last() =~= Seq::<char>::empty());
    assert(seq!['-'].drop_last() =~= Seq::<char>::empty());
    if is_decoration(c) {
        assert(strip_glyphs(seq![c]) =~= Seq::<char>::empty());
        assert(strip_glyphs(a) + Seq::<char>::empty() =~= strip_glyphs(a));
    }
    assert(strip_glyphs(seq!['\u{2212}']) =~= seq!['-']);
    assert(strip_glyphs(seq!['-']) =~= seq!['-']);
}

proof fn strip_glyphs_free(a: Seq<char>)
    ensures
        forall|i: int|
            0 <= i < strip_glyphs(a).len() ==> !is_decoration(#[trigger] strip_glyphs(a)[i])
                && strip_glyphs(a)[i] != '\u{2212}',
    decreases a.len(),
{
    if a.len() > 0 {
        strip_glyphs_free(a.drop_last());
        let p = strip_glyphs(a.drop_last());
        let q = strip_glyphs(a);
        assert forall|i: int| 0 <= i < q.len() implies !is_decoration(#[trigger] q[i]) && q[i] != '\u{2212}' by {
            if i < p.len() {
                assert(q[i] == p[i]);
            }
        }
    }
}

/// The canonical text of every amount that rust_decimal holds reads back as
/// that very amount.
pub proof fn stored_text_reads_back(a: Amount)
    requires
        amount_valid(a),
    ensures
        read_result(decimal_text(a.mantissa as int, a.scale as nat)) == Ok::<Amount, ParseError>(a),
{
    canonical_text_round_trip(a);
}

/// Reads an amount back from its decimal text, as storage returns it.
pub fn amount_from_text(text: &str) -> (r: Result<Amount, ParseError>)
    ensures
        r == read_result(text@),
        r matches Ok(a) ==> amount_valid(a),
{
    let cs = chars_of(text);
    parse_cleaned(&cs)
}

} // verus!
