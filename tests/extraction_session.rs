use vanguard::amount::Amount;
use vanguard::cell::amount_from_text;
use vanguard::session::{Command, ExtractError, Pause, Session, Stage, HOLDING_ROW, LOGIN_URL};
use vanguard::store::insert_rows;
use vanguard::table::{Investment, TableError, TableRow};

fn row(name: &str, cells: &[&str]) -> TableRow {
    TableRow { name: name.to_string(), cells: cells.iter().map(|c| c.to_string()).collect() }
}

/// A portal stand-in: every command succeeds, the given wait stage needs
/// `late` misses first, and the table holds `rows`.
fn run(rows: Vec<TableRow>, late: Option<(Stage, u32)>, failing: Option<Stage>) -> (Result<Vec<Investment>, ExtractError>, Vec<Command>, u64) {
    let mut s = Session::new();
    let mut commands = vec![];
    let mut slept = 0;
    let mut misses = 0;
    while !s.is_done() {
        let c = s.command();
        commands.push(c);
        if s.stage == Stage::ReadRows && failing != Some(Stage::ReadRows) {
            s.report_rows(&rows);
            continue;
        }
        let ok = match late {
            Some((stage, n)) if stage == s.stage && misses < n => {
                misses += 1;
                false
            },
            _ => failing != Some(s.stage),
        };
        if let Pause::Sleep { secs } = s.report(ok) {
            slept += secs;
        }
    }
    (s.into_result(), commands, slept)
}

fn table() -> Vec<TableRow> {
    vec![
        row("Global Fund", &["0.23%", "1,000.5", "£2.10", "£2.20", "£2,100.00", "£2,201.10", "4.81%"]),
        row("Cash", &["", "", "", "", "", "", ""]),
        row("Bond Fund", &["0.10%", "10", "£100.00", "£98.50", "£1,000.00", "£985.00", "−1.5%"]),
    ]
}

#[test]
fn stub_portal_yields_expected_snapshot() {
    let (result, commands, slept) = run(table(), None, None);
    let records = result.unwrap();
    assert_eq!(records.len(), 3 - 1);
    assert_eq!(commands[1], Command::Navigate { url: LOGIN_URL });
    assert_eq!(*commands.last().unwrap(), Command::Teardown);
    assert_eq!(slept, 0);
    let rows = insert_rows(&records);
    assert_eq!(rows[0][0], "Global Fund");
    assert_eq!(rows[0][2], "1000.5");
    assert_eq!(rows[1][0], "Bond Fund");
    assert_eq!(rows[1][7], "-1.5");
    assert_eq!(amount_from_text(&rows[1][4]), Ok(Amount { mantissa: 9850, scale: 2 }));
    assert_eq!(records[0].value, Amount { mantissa: 220110, scale: 2 });
}

#[test]
fn late_rows_are_waited_for() {
    let (result, commands, slept) = run(table(), Some((Stage::AwaitRows, 4)), None);
    assert_eq!(result.unwrap().len(), 2);
    assert_eq!(slept, 4);
    assert_eq!(commands.iter().filter(|c| **c == Command::Find { selector: HOLDING_ROW }).count(), 5);
}

#[test]
fn missing_element_fails_after_teardown() {
    let (result, commands, slept) = run(table(), Some((Stage::DetailedView, 100)), None);
    assert_eq!(result.unwrap_err(), ExtractError::ElementNotFound { stage: Stage::DetailedView });
    assert_eq!(slept, 9);
    assert_eq!(*commands.last().unwrap(), Command::Teardown);
}

#[test]
fn sign_in_failure_is_not_retried_in_place() {
    let (result, commands, _) = run(table(), None, Some(Stage::SignIn));
    assert_eq!(result.unwrap_err(), ExtractError::Step { stage: Stage::SignIn });
    assert_eq!(commands.len(), 4);
    assert_eq!(commands[3], Command::Teardown);
}

#[test]
fn failed_launch_has_nothing_to_tear_down() {
    let (result, commands, _) = run(table(), None, Some(Stage::Launch));
    assert_eq!(result.unwrap_err(), ExtractError::Step { stage: Stage::Launch });
    assert_eq!(commands, vec![Command::Launch]);
}

#[test]
fn unparseable_cell_fails_the_attempt() {
    let bad = vec![row("Fund", &["0.1", "x", "1", "1", "1", "1", "1"])];
    let (result, commands, _) = run(bad, None, None);
    assert_eq!(result.unwrap_err(), ExtractError::Table { error: TableError::BadValue { row: 0, cell: 1 } });
    assert_eq!(*commands.last().unwrap(), Command::Teardown);
}
