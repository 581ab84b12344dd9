//! Turning the scraped holdings table into investment records.
use vstd::prelude::*;

use crate::amount::{amount_valid, Amount};
use crate::cell::{cell_result, chars_of, parse_cell};

verus! {

/// Number of money cells in each holdings row.
pub const MONEY_CELLS: usize = 7;

/// One holding, with its seven exact amounts.
#[derive(Clone, Debug)]
pub struct Investment {
    pub name: String,
    pub ongoing_charge: Amount,
    pub units: Amount,
    pub avg_unit_cost: Amount,
    pub last_price: Amount,
    pub total_cost: Amount,
    pub value: Amount,
    pub change: Amount,
}

impl Investment {
    /// Every amount is one that rust_decimal can hold.
    pub open spec fn valid(&self) -> bool {
        forall|k: int| 0 <= k < MONEY_CELLS ==> amount_valid(#[trigger] self@.1[k])
    }
}

impl View for Investment {
    /// The name and the seven amounts in table order.
    type V = (Seq<char>, Seq<Amount>);

    open spec fn view(&self) -> (Seq<char>, Seq<Amount>) {
        (
            self.name@,
            seq![
                self.ongoing_charge,
                self.units,
                self.avg_unit_cost,
                self.last_price,
                self.total_cost,
                self.value,
                self.change,
            ],
        )
    }
}

/// The text of one table row: its name cell and its money cells, in order.
#[derive(Clone, Debug)]
pub struct TableRow {
    pub name: String,
    pub cells: Vec<String>,
}

impl View for TableRow {
    type V = (Seq<char>, Seq<Seq<char>>);

    open spec fn view(&self) -> (Seq<char>, Seq<Seq<char>>) {
        (self.name@, self.cells@.map_values(|c: String| c@))
    }
}

/// Why a table could not be turned into records.
#[derive(Clone, Copy, Debug, PartialEq, Eq, Structural)]
pub enum TableError {
    /// Row `row` holds `found` money cells instead of seven.
    CellCount { row: usize, found: usize },
    /// Money cell `cell` of row `row` is not a decimal.
    BadValue { row: usize, cell: usize },
}

/// The name of the row that is not a holding.
pub open spec fn cash_name() -> Seq<char> {
    seq!['C', 'a', 's', 'h']
}

pub open spec fn is_cash(name: Seq<char>) -> bool {
    name == cash_name()
}

/// Index of the first cell at or after `j` that does not parse (or the length).
pub open spec fn first_bad_from(cells: Seq<Seq<char>>, j: int) -> int
    decreases cells.len() - j,
{
    if j >= cells.len() || j < 0 || cell_result(cells[j]) is Err {
        j
    } else {
        first_bad_from(cells, j + 1)
    }
}

/// The amounts that parsed cells give, in order.
pub open spec fn cell_amounts(cells: Seq<Seq<char>>) -> Seq<Amount> {
    cells.map_values(|c: Seq<char>| cell_result(c)->Ok_0)
}

/// What row number `idx` gives: seven amounts, or the first fault.
pub open spec fn row_amounts(cells: Seq<Seq<char>>, idx: int) -> Result<Seq<Amount>, TableError> {
    if cells.len() != MONEY_CELLS {
        Err(TableError::CellCount { row: idx as usize, found: cells.len() as usize })
    } else if first_bad_from(cells, 0) < cells.len() {
        Err(TableError::BadValue { row: idx as usize, cell: first_bad_from(cells, 0) as usize })
    } else {
        Ok(cell_amounts(cells))
    }
}

/// The records a table yields: rows in order, the cash row skipped, and the
/// first faulty holding row failing the whole table.
pub open spec fn extract_rows(rows: Seq<(Seq<char>, Seq<Seq<char>>)>) -> Result<
    Seq<(Seq<char>, Seq<Amount>)>,
    TableError,
>
    decreases rows.len(),
{
    if rows.len() == 0 {
        Ok(Seq::empty())
    } else {
        match extract_rows(rows.drop_last()) {
            Err(e) => Err(e),
            Ok(v) => {
                let r = rows.last();
                if is_cash(r.0) {
                    Ok(v)
                } else {
                    match row_amounts(r.1, rows.len() - 1) {
                        Err(e) => Err(e),
                        Ok(a) => Ok(v.push((r.0, a))),
                    }
                }
            },
        }
    }
}

/// The holding rows of a table, in order.
pub open spec fn kept(rows: Seq<(Seq<char>, Seq<Seq<char>>)>) -> Seq<(Seq<char>, Seq<Seq<char>>)>
    decreases rows.len(),
{
    if rows.len() == 0 {
        rows
    } else if is_cash(rows.last().0) {
        kept(rows.drop_last())
    } else {
        kept(rows.drop_last()).push(rows.last())
    }
}

pub open spec fn rows_view(rows: Seq<TableRow>) -> Seq<(Seq<char>, Seq<Seq<char>>)> {
    rows.map_values(|r: TableRow| r@)
}

pub open spec fn records_view(v: Seq<Investment>) -> Seq<(Seq<char>, Seq<Amount>)> {
    v.map_values(|i: Investment| i@)
}

/// Whether a row's name is exactly `Cash`.
pub fn is_cash_name(name: &String) -> (r: bool)
    ensures
        r == is_cash(name@),
{
    let cs = chars_of(name.as_str());
    let r = cs.len() == 4 && cs[0] == 'C' && cs[1] == 'a' && cs[2] == 's' && cs[3] == 'h';
    proof {
        if r {
            assert(cs@ =~= cash_name());
        }
    }
    r
}

/// Parses the money cells of the row numbered `idx`.
pub fn parse_row(row: &TableRow, idx: usize) -> (r: Result<Investment, TableError>)
    ensures
        match r {
            Ok(inv) => row_amounts(row@.1, idx as int) == Ok::<Seq<Amount>, TableError>(inv@.1)
                && inv@.0 == row@.0 && inv.valid(),
            Err(e) => row_amounts(row@.1, idx as int) == Err::<Seq<Amount>, TableError>(e),
        },
{
    let ghost cells = row@.1;
    let n = row.cells.len();
    if n != MONEY_CELLS {
        return Err(TableError::CellCount { row: idx, found: n });
    }
    let mut vals: Vec<Amount> = Vec::new();
    let mut j: usize = 0;
    while j < n
        invariant
            n == MONEY_CELLS,
            cells == row@.1,
            cells.len() == n,
            j <= n,
            first_bad_from(cells, 0) == first_bad_from(cells, j as int),
            vals@.len() == j,
            forall|k: int| 0 <= k < j ==> cell_result(#[trigger] cells[k]) == Ok::<Amount, crate::cell::ParseError>(vals@[k]),
            forall|k: int| 0 <= k < j ==> amount_valid(#[trigger] vals@[k]),
        decreases n - j,
    {
        assert(cells[j as int] == row.cells@[j as int]@);
        match parse_cell(row.cells[j].as_str()) {
            Ok(a) => {
                vals.push(a);
            },
            Err(_) => {
                return Err(TableError::BadValue { row: idx, cell: j });
            },
        }
        j = j + 1;
    }
    assert(cell_amounts(cells) =~= vals@);
    let inv = Investment {
        name: row.name.clone(),
        ongoing_charge: vals[0],
        units: vals[1],
        avg_unit_cost: vals[2],
        last_price: vals[3],
        total_cost: vals[4],
        value: vals[5],
        change: vals[6],
    };
    assert(inv@.1 =~= vals@);
    Ok(inv)
}

/// Builds the records of a holdings table: skips the row named `Cash`,
/// keeps table order, and fails on the first holding row whose cells are
/// not seven decimals.
pub fn build_investments(rows: &Vec<TableRow>) -> (r: Result<Vec<Investment>, TableError>)
    ensures
        match r {
            Ok(v) => extract_rows(rows_view(rows@)) == Ok::<_, TableError>(records_view(v@))
                && forall|i: int| 0 <= i < v@.len() ==> (#[trigger] v@[i]).valid(),
            Err(e) => extract_rows(rows_view(rows@)) == Err::<Seq<(Seq<char>, Seq<Amount>)>, _>(e),
        },
{
    let ghost all = rows_view(rows@);
    let mut out: Vec<Investment> = Vec::new();
    let mut i: usize = 0;
    assert(all.take(0) =~= Seq::<(Seq<char>, Seq<Seq<char>>)>::empty());
    assert(records_view(out@) =~= Seq::<(Seq<char>, Seq<Amount>)>::empty());
    while i < rows.len()
        invariant
            i <= rows@.len(),
            all == rows_view(rows@),
            extract_rows(all.take(i as int)) == Ok::<_, TableError>(records_view(out@)),
            forall|k: int| 0 <= k < out@.len() ==> (#[trigger] out@[k]).valid(),
        decreases rows@.len() - i,
    {
        let ghost next = all.take(i as int + 1);
        assert(next.drop_last() =~= all.take(i as int));
        assert(next.last() == rows@[i as int]@);
        let row = &rows[i];
        if !is_cash_name(&row.name) {
            match parse_row(row, i) {
                Ok(inv) => {
                    let ghost before = out@;
                    out.push(inv);
                    assert(records_view(out@) =~= records_view(before).push(inv@));
                },
                Err(e) => {
                    proof { lemma_error_sticks(all, i as int + 1); }
                    return Err(e);
                },
            }
        }
        i = i + 1;
    }
    assert(all.take(rows@.len() as int) =~= all);
    Ok(out)
}

/// Once a prefix of the table fails, the whole table fails the same way.
proof fn lemma_error_sticks(rows: Seq<(Seq<char>, Seq<Seq<char>>)>, k: int)
    requires
        0 <= k <= rows.len(),
        extract_rows(rows.take(k)) is Err,
    ensures
        extract_rows(rows) == extract_rows(rows.take(k)),
    decreases rows.len(),
{
    if k == rows.len() {
        assert(rows.take(k) =~= rows);
    } else {
        assert(rows.drop_last().take(k) =~= rows.take(k));
        lemma_error_sticks(rows.drop_last(), k);
    }
}

/// A successful extraction yields exactly the holding rows of the table, in
/// table order: no record is named `Cash`, and each carries the seven amounts
/// its money cells spell, in the fixed field order.
pub proof fn extraction_keeps_holdings_in_order(rows: Seq<(Seq<char>, Seq<Seq<char>>)>)
    requires
        extract_rows(rows) is Ok,
    ensures
        ({
            let v = extract_rows(rows)->Ok_0;
            &&& v.len() == kept(rows).len()
            &&& forall|i: int| 0 <= i < v.len() ==> {
                &&& (#[trigger] v[i]).0 == kept(rows)[i].0
                &&& !is_cash(v[i].0)
                &&& kept(rows)[i].1.len() == MONEY_CELLS
                &&& v[i].1.len() == MONEY_CELLS
                &&& forall|j: int| 0 <= j < MONEY_CELLS ==> v[i].1[j] == cell_result(
                    #[trigger] kept(rows)[i].1[j],
                )->Ok_0
            }
        }),
    decreases rows.len(),
{
    if rows.len() > 0 {
        let pre = rows.drop_last();
        extraction_keeps_holdings_in_order(pre);
        let r = rows.last();
        if !is_cash(r.0) {
            let v = extract_rows(rows)->Ok_0;
            let w = extract_rows(pre)->Ok_0;
            assert(v == w.push((r.0, cell_amounts(r.1))));
            assert forall|i: int| 0 <= i < v.len() implies {
                &&& (#[trigger] v[i]).0 == kept(rows)[i].0
                &&& !is_cash(v[i].0)
                &&& kept(rows)[i].1.len() == MONEY_CELLS
                &&& v[i].1.len() == MONEY_CELLS
                &&& forall|j: int| 0 <= j < MONEY_CELLS ==> v[i].1[j] == cell_result(
                    #[trigger] kept(rows)[i].1[j],
                )->Ok_0
            } by {
                if i < w.len() {
                    assert(v[i] == w[i]);
                    assert(kept(rows)[i] == kept(pre)[i]);
                } else {
                    assert(kept(rows)[i] == r);
                }
            }
        }
    }
}

} // verus!
