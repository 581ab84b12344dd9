use vanguard::amount::Amount;
use vanguard::cell::amount_from_text;
use vanguard::store::{insert_rows, insert_sql, row_texts, INSERT_HEAD, ROW_PLACEHOLDER};
use vanguard::table::Investment;

fn inv(name: &str, m: i128, s: u32) -> Investment {
    let a = Amount { mantissa: m, scale: s };
    Investment {
        name: name.to_string(),
        ongoing_charge: a,
        units: a,
        avg_unit_cost: a,
        last_price: a,
        total_cost: a,
        value: a,
        change: Amount { mantissa: -m, scale: s },
    }
}

#[test]
fn statement_has_one_tuple_per_row() {
    assert_eq!(insert_sql(1), format!("{INSERT_HEAD}{ROW_PLACEHOLDER}"));
    assert_eq!(insert_sql(3), format!("{INSERT_HEAD}{ROW_PLACEHOLDER},{ROW_PLACEHOLDER},{ROW_PLACEHOLDER}"));
    assert_eq!(insert_sql(0), INSERT_HEAD);
    assert!(insert_sql(2).starts_with("INSERT INTO investments (name, ongoing_charge,"));
}

#[test]
fn arbitrary_precision_survives_as_text() {
    let texts = row_texts(&inv("Fund", 123456789, 6));
    assert_eq!(texts.len(), 8);
    assert_eq!(texts[0], "Fund");
    assert_eq!(texts[1], "123.456789");
    assert_eq!(texts[7], "-123.456789");
    for t in &texts[1..] {
        let back = amount_from_text(t).unwrap();
        assert_eq!(back.to_text(), *t);
    }
    assert_eq!(amount_from_text(&texts[1]), Ok(Amount { mantissa: 123456789, scale: 6 }));
}

#[test]
fn batch_rows_keep_record_order() {
    let rows = insert_rows(&vec![inv("A", 1, 0), inv("B", 25, 1)]);
    assert_eq!(rows.len(), 2);
    assert_eq!(rows[0][0], "A");
    assert_eq!(rows[1][0], "B");
    assert_eq!(rows[1][2], "2.5");
    assert_eq!(rows[1][7], "-2.5");
}
