//! What the persistence writer hands to storage: one batched INSERT whose
//! decimal columns travel and are kept as exact canonical text.
use vstd::prelude::*;
use vstd::string::*;

use crate::amount::{amount_valid, decimal_text};
use crate::cell::{cell_result, read_result, stored_text_reads_back, ParseError};
use crate::table::{extract_rows, extraction_keeps_holdings_in_order, kept, Investment, MONEY_CELLS};

verus! {

/// The statement head naming the snapshot table and its columns.
pub const INSERT_HEAD: &'static str = "INSERT INTO investments (name, ongoing_charge, units, avg_unit_cost, last_price, total_cost, value, change) VALUES ";

/// The value tuple of one row: the name, then the texts of seven decimals,
/// bound as they are so that no numeric conversion can round them.
pub const ROW_PLACEHOLDER: &'static str = "(?, ?, ?, ?, ?, ?, ?, ?)";

/// Separator between two value tuples.
pub const ROW_SEPARATOR: &'static str = ",";

/// Columns bound for each row.
pub const COLUMNS: usize = 8;

/// `n` value tuples joined by commas.
pub open spec fn placeholders(n: nat) -> Seq<char>
    decreases n,
{
    if n == 0 {
        Seq::empty()
    } else if n == 1 {
        ROW_PLACEHOLDER@
    } else {
        placeholders((n - 1) as nat) + ROW_SEPARATOR@ + ROW_PLACEHOLDER@
    }
}

/// The text bound for column `k` of a record: the name, then each amount's
/// canonical decimal text.
pub open spec fn column_text(inv: Investment, k: int) -> Seq<char> {
    if k == 0 {
        inv.name@
    } else {
        decimal_text(inv@.1[k - 1].mantissa as int, inv@.1[k - 1].scale as nat)
    }
}

/// The statement that inserts `n` rows in one batch.
pub fn insert_sql(n: usize) -> (r: String)
    ensures
        r@ == INSERT_HEAD@ + placeholders(n as nat),
{
    let mut sql = String::new();
    sql.append(INSERT_HEAD);
    let mut i: usize = 0;
    while i < n
        invariant
            i <= n,
            sql@ == INSERT_HEAD@ + placeholders(i as nat),
        decreases n - i,
    {
        let ghost before = sql@;
        if i > 0 {
            sql.append(ROW_SEPARATOR);
        }
        sql.append(ROW_PLACEHOLDER);
        proof {
            if i > 0 {
                assert(sql@ =~= INSERT_HEAD@ + (placeholders(i as nat) + ROW_SEPARATOR@ + ROW_PLACEHOLDER@));
            } else {
                assert(sql@ =~= INSERT_HEAD@ + ROW_PLACEHOLDER@);
            }
        }
        i = i + 1;
    }
    sql
}

/// The column texts of one record, in column order.
pub fn row_texts(inv: &Investment) -> (r: Vec<String>)
    requires
        inv.valid(),
    ensures
        r@.len() == COLUMNS,
        forall|k: int| 0 <= k < COLUMNS ==> (#[trigger] r@[k])@ == column_text(*inv, k),
{
    assert(crate::amount::amount_valid(inv@.1[0]));
    assert(crate::amount::amount_valid(inv@.1[1]));
    assert(crate::amount::amount_valid(inv@.1[2]));
    assert(crate::amount::amount_valid(inv@.1[3]));
    assert(crate::amount::amount_valid(inv@.1[4]));
    assert(crate::amount::amount_valid(inv@.1[5]));
    assert(crate::amount::amount_valid(inv@.1[6]));
    let mut r: Vec<String> = Vec::new();
    r.push(inv.name.clone());
    r.push(inv.ongoing_charge.to_text());
    r.push(inv.units.to_text());
    r.push(inv.avg_unit_cost.to_text());
    r.push(inv.last_price.to_text());
    r.push(inv.total_cost.to_text());
    r.push(inv.value.to_text());
    r.push(inv.change.to_text());
    r
}

/// The column texts of every record of a batch, one row per record, in order.
pub fn insert_rows(items: &Vec<Investment>) -> (r: Vec<Vec<String>>)
    requires
        forall|i: int| 0 <= i < items@.len() ==> (#[trigger] items@[i]).valid(),
    ensures
        r@.len() == items@.len(),
        forall|i: int| 0 <= i < r@.len() ==> (#[trigger] r@[i])@.len() == COLUMNS,
        forall|i: int, k: int|
            0 <= i < r@.len() && 0 <= k < COLUMNS ==> (#[trigger] r@[i]@[k])@ == column_text(items@[i], k),
{
    let mut out: Vec<Vec<String>> = Vec::new();
    let mut i: usize = 0;
    while i < items.len()
        invariant
            i <= items@.len(),
            out@.len() == i,
            forall|j: int| 0 <= j < items@.len() ==> (#[trigger] items@[j]).valid(),
            forall|j: int| 0 <= j < i ==> (#[trigger] out@[j])@.len() == COLUMNS,
            forall|j: int, k: int|
                0 <= j < i && 0 <= k < COLUMNS ==> (#[trigger] out@[j]@[k])@ == column_text(items@[j], k),
        decreases items@.len() - i,
    {
        let row = row_texts(&items[i]);
        out.push(row);
        i = i + 1;
    }
    out
}

/// A snapshot taken from a table and stored as text reads back as exactly the
/// table's holding rows: one record per row not named `Cash`, in table order,
/// each name as scraped and each of the seven fields, read back from its
/// stored text, equal to the value its money cell spells.
pub proof fn stored_snapshot_matches_table(rows: Seq<(Seq<char>, Seq<Seq<char>>)>)
    requires
        extract_rows(rows) is Ok,
        forall|i: int, k: int|
            0 <= i < extract_rows(rows)->Ok_0.len() && 0 <= k < MONEY_CELLS ==> amount_valid(
                #[trigger] extract_rows(rows)->Ok_0[i].1[k],
            ),
    ensures
        ({
            let v = extract_rows(rows)->Ok_0;
            &&& v.len() == kept(rows).len()
            &&& forall|i: int, k: int|
                0 <= i < v.len() && 0 <= k < MONEY_CELLS ==> {
                    &&& v[i].0 == kept(rows)[i].0
                    &&& read_result(
                        decimal_text((#[trigger] v[i].1[k]).mantissa as int, v[i].1[k].scale as nat),
                    ) == Ok::<_, ParseError>(cell_result(kept(rows)[i].1[k])->Ok_0)
                }
        }),
{
    extraction_keeps_holdings_in_order(rows);
    let v = extract_rows(rows)->Ok_0;
    assert forall|i: int, k: int| 0 <= i < v.len() && 0 <= k < MONEY_CELLS implies {
        &&& v[i].0 == kept(rows)[i].0
        &&& read_result(
            decimal_text((#[trigger] v[i].1[k]).mantissa as int, v[i].1[k].scale as nat),
        ) == Ok::<_, ParseError>(cell_result(kept(rows)[i].1[k])->Ok_0)
    } by {
        stored_text_reads_back(v[i].1[k]);
        assert(v[i].1[k] == cell_result(kept(rows)[i].1[k])->Ok_0);
    }
}

} // verus!
