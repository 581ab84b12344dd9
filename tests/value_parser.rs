use vanguard::amount::Amount;
use vanguard::cell::{amount_from_text, clean_cell, parse_cell, strip_decorations, ParseError};

fn amount(mantissa: i128, scale: u32) -> Amount {
    Amount { mantissa, scale }
}

#[test]
fn pound_and_thousands_separator_are_stripped() {
    assert_eq!(parse_cell("£1,234.50"), Ok(amount(123450, 2)));
}

#[test]
fn unicode_minus_and_percent_keep_the_sign() {
    assert_eq!(parse_cell("−2.3%"), Ok(amount(-23, 1)));
}

#[test]
fn surrounding_whitespace_is_trimmed() {
    assert_eq!(parse_cell("  \t£12,000 \n"), Ok(amount(12000, 0)));
}

#[test]
fn ascii_minus_is_kept() {
    assert_eq!(parse_cell("-0.07"), Ok(amount(-7, 2)));
}

#[test]
fn trailing_zeros_keep_their_scale() {
    assert_eq!(parse_cell("0.10%"), Ok(amount(10, 2)));
}

#[test]
fn cleaning_removes_every_glyph() {
    let cleaned: String = clean_cell("  −£1,2,3%  ").into_iter().collect();
    assert_eq!(cleaned, "-123");
    let stripped: String = strip_decorations(&"£−,%9".chars().collect()).into_iter().collect();
    assert_eq!(stripped, "-9");
}

#[test]
fn text_that_is_not_decimal_fails() {
    for text in ["", "   ", "£", "%", "-", "abc", "1.2.3", "1 000", "1e5", "--1", "N/A", "1-2"] {
        assert_eq!(parse_cell(text), Err(ParseError::NotDecimal), "{text:?}");
    }
}

#[test]
fn other_forms_read_exactly_are_accepted() {
    assert_eq!(parse_cell("+5"), Ok(amount(5, 0)));
    assert_eq!(parse_cell(".5"), Ok(amount(5, 1)));
    assert_eq!(parse_cell("5."), Ok(amount(5, 0)));
    assert_eq!(parse_cell("1_000"), Ok(amount(1000, 0)));
}

#[test]
fn values_beyond_exact_range_fail_instead_of_rounding() {
    assert_eq!(parse_cell("12345678901234567890123456789"), Ok(amount(12345678901234567890123456789, 0)));
    assert_eq!(parse_cell("79228162514264337593543950335"), Ok(amount(79228162514264337593543950335, 0)));
    assert_eq!(parse_cell("79228162514264337593543950336"), Err(ParseError::NotDecimal));
    assert_eq!(parse_cell("0.0000000000000000000000000001"), Ok(amount(1, 28)));
    assert_eq!(parse_cell("0.00000000000000000000000000001"), Err(ParseError::NotDecimal));
}

#[test]
fn stored_text_reads_back() {
    assert_eq!(amount_from_text("123.456789"), Ok(amount(123456789, 6)));
    assert_eq!(amount_from_text("£1"), Err(ParseError::NotDecimal));
}

#[test]
fn canonical_text_round_trips() {
    for a in [
        amount(123456789, 6),
        amount(-5, 2),
        amount(0, 0),
        amount(0, 3),
        amount(123450, 2),
        amount(-23, 1),
        amount(7, 0),
        amount(1, 28),
        amount(-79228162514264337593543950335, 28),
        amount(79228162514264337593543950335, 0),
    ] {
        let text = a.to_text();
        assert_eq!(amount_from_text(&text), Ok(a), "{text}");
    }
    assert_eq!(amount(123456789, 6).to_text(), "123.456789");
    assert_eq!(amount(-5, 2).to_text(), "-0.05");
    assert_eq!(amount(123450, 2).to_text(), "1234.50");
    assert_eq!(amount(1, 28).to_text(), "0.0000000000000000000000000001");
}
