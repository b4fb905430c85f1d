//! Table rendering. The text of a rendered table is named, not spelled
//! out: it is a function of the title and the records alone, and the table
//! library computes it. The records themselves — the column-name row and
//! one record per display row — are built by verified code.

use vstd::prelude::*;
use crate::sort::rows_view;

verus! {

/// The text of a psql-styled, titled table over the given records, as the
/// table library renders it.
pub uninterp spec fn psql_table(title: Seq<char>, records: Seq<Seq<Seq<char>>>) -> Seq<char>;

/// The records of a two-column table: the column-name row first, then one
/// record per display row, in order.
pub open spec fn table_records(
    col1: Seq<char>,
    col2: Seq<char>,
    rows: Seq<(Seq<char>, Seq<char>)>,
) -> Seq<Seq<Seq<char>>> {
    seq![seq![col1, col2]] + rows.map_values(|r: (Seq<char>, Seq<char>)| seq![r.0, r.1])
}

/// Relies on tabled (`Builder::from`, `Panel::header`, `Style::psql`,
/// `Alignment::left`): renders the records as a psql-styled table with a
/// title panel above them, rows below the column-name row aligned left.
/// The text depends only on the title and the records. `Panel::header`
/// inserts a spanning title row, writing its text through the position of
/// the first cell, which on an empty table does not exist: the records
/// must hold at least one record with at least one column.
#[verifier::external_body]
fn render_table(records: Vec<Vec<String>>, title: &str) -> (r: String)
    requires
        records@.len() > 0,
        records@[0]@.len() > 0,
    ensures
        r@ == psql_table(title@, records.deep_view()),
{
    let mut table = tabled::builder::Builder::from(records).build();
    table.with(tabled::settings::Panel::header(title)).with(tabled::settings::Style::psql()).with(
        tabled::settings::Modify::new(tabled::settings::object::Rows::new(2..)).with(
            tabled::settings::Alignment::left(),
        ),
    );
    table.to_string()
}

/// Renders one titled two-column table: the column names on the first
/// record, then the given rows in order.
pub(crate) fn make_table(title: &str, col1: &str, col2: &str, rows: Vec<(String, String)>) -> (r:
    String)
    ensures
        r@ == psql_table(title@, table_records(col1@, col2@, rows_view(rows@))),
{
    let ghost original = rows@;
    let ghost target = table_records(col1@, col2@, rows_view(original));
    let mut records: Vec<Vec<String>> = Vec::new();
    let mut header: Vec<String> = Vec::new();
    header.push(col1.to_owned());
    header.push(col2.to_owned());
    proof {
        assert(header.deep_view() =~= seq![col1@, col2@]);
    }
    records.push(header);
    proof {
        assert(target[0] == seq![col1@, col2@]);
        assert(records.deep_view() =~= target.subrange(0, 1));
    }
    let mut rows = rows;
    while rows.len() > 0
        invariant
            target == table_records(col1@, col2@, rows_view(original)),
            rows@.len() <= original.len(),
            rows@ =~= original.skip(original.len() - rows@.len()),
            records.deep_view() =~= target.subrange(
                0,
                original.len() - rows@.len() + 1,
            ),
        decreases rows@.len(),
    {
        let ghost j = original.len() - rows@.len();
        let ghost records0 = records.deep_view();
        let (key, value) = rows.remove(0);
        proof {
            assert(original.skip(j)[0] == (key, value));
            assert(original[j] == (key, value));
            assert(rows@ =~= original.skip(j + 1));
        }
        let mut record: Vec<String> = Vec::new();
        record.push(key);
        record.push(value);
        proof {
            assert(record.deep_view() =~= seq![key@, value@]);
        }
        records.push(record);
        proof {
            assert(records.deep_view() =~= records0.push(seq![key@, value@]));
            assert(rows_view(original)[j] == (original[j].0@, original[j].1@));
            assert(target[j + 1] == seq![original[j].0@, original[j].1@]);
            assert(records.deep_view() =~= target.subrange(0, j + 2));
        }
    }
    proof {
        assert(records.deep_view() =~= target);
        assert(records.deep_view().len() == records@.len());
        assert(target.len() == 1 + rows_view(original).len());
        assert(records.deep_view()[0] == target[0]);
        assert(records@[0].deep_view() == records.deep_view()[0]);
        assert(records@[0]@.len() == records@[0].deep_view().len());
        assert(target[0] == seq![col1@, col2@]);
    }
    render_table(records, title)
}

} // verus!
