use vanguard::amount::Amount;
use vanguard::table::{build_investments, is_cash_name, parse_row, TableError, TableRow};

fn row(name: &str, cells: &[&str]) -> TableRow {
    TableRow { name: name.to_string(), cells: cells.iter().map(|c| c.to_string()).collect() }
}

fn good(name: &str, n: i128) -> TableRow {
    let units = format!("{n}.5");
    let value = format!("£{n},000.00");
    row(name, &["0.22%", &units, "£1.10", "£1.20", "£1,000", &value, "−3.5%"])
}

#[test]
fn cash_row_is_skipped_wherever_it_stands() {
    for pos in 0..3 {
        let mut rows = vec![good("Alpha", 1), good("Beta", 2)];
        rows.insert(pos, row("Cash", &["x"]));
        let out = build_investments(&rows).unwrap();
        let names: Vec<&str> = out.iter().map(|i| i.name.as_str()).collect();
        assert_eq!(names, vec!["Alpha", "Beta"]);
    }
}

#[test]
fn only_the_exact_name_cash_is_skipped() {
    assert!(is_cash_name(&"Cash".to_string()));
    assert!(!is_cash_name(&"cash".to_string()));
    assert!(!is_cash_name(&"Cash ".to_string()));
    assert!(!is_cash_name(&"Cas".to_string()));
    let out = build_investments(&vec![good("Cash Fund", 4)]).unwrap();
    assert_eq!(out.len(), 1);
}

#[test]
fn fields_follow_the_fixed_order() {
    let out = build_investments(&vec![good("Alpha", 7)]).unwrap();
    let inv = &out[0];
    assert_eq!(inv.ongoing_charge, Amount { mantissa: 22, scale: 2 });
    assert_eq!(inv.units, Amount { mantissa: 75, scale: 1 });
    assert_eq!(inv.avg_unit_cost, Amount { mantissa: 110, scale: 2 });
    assert_eq!(inv.last_price, Amount { mantissa: 120, scale: 2 });
    assert_eq!(inv.total_cost, Amount { mantissa: 1000, scale: 0 });
    assert_eq!(inv.value, Amount { mantissa: 700000, scale: 2 });
    assert_eq!(inv.change, Amount { mantissa: -35, scale: 1 });
}

#[test]
fn order_of_rows_is_kept() {
    let rows = vec![good("C", 3), good("A", 1), row("Cash", &[]), good("B", 2)];
    let out = build_investments(&rows).unwrap();
    let names: Vec<&str> = out.iter().map(|i| i.name.as_str()).collect();
    assert_eq!(names, vec!["C", "A", "B"]);
    assert_eq!(out[2].units, Amount { mantissa: 25, scale: 1 });
}

#[test]
fn empty_table_gives_no_records() {
    assert_eq!(build_investments(&vec![]).unwrap().len(), 0);
    assert_eq!(build_investments(&vec![row("Cash", &[])]).unwrap().len(), 0);
}

#[test]
fn wrong_cell_count_fails_the_table() {
    let rows = vec![good("A", 1), row("B", &["1", "2"])];
    assert_eq!(build_investments(&rows).unwrap_err(), TableError::CellCount { row: 1, found: 2 });
    let eight = row("C", &["1", "2", "3", "4", "5", "6", "7", "8"]);
    assert_eq!(parse_row(&eight, 4).unwrap_err(), TableError::CellCount { row: 4, found: 8 });
}

#[test]
fn bad_value_fails_the_whole_table() {
    let rows = vec![
        good("A", 1),
        row("B", &["1", "2", "n/a", "4", "x", "6", "7"]),
        row("C", &["1"]),
    ];
    assert_eq!(build_investments(&rows).unwrap_err(), TableError::BadValue { row: 1, cell: 2 });
}
