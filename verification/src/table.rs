use vstd::prelude::*;

use crate::error::{ErrorView, OperationError};

verus! {

/// What the csv crate's reader — built with all-fields trimming and flexible
/// row widths — yields on given text: the header record, and then the data
/// records or the message of the first record-level error; a header-level
/// error stands at the outer level.
pub uninterp spec fn csv_parse_of(s: Seq<char>) -> Result<
    (Seq<Seq<char>>, Result<Seq<Seq<Seq<char>>>, Seq<char>>),
    Seq<char>,
>;

/// What prettytable renders for the given header and data cells: one header
/// row (bold, a presentation hint) followed by one row per record.
pub uninterp spec fn table_render_of(headers: Seq<Seq<char>>, rows: Seq<Seq<Seq<char>>>) -> Seq<
    char,
>;

/// The shape of [`csv_parse`]'s result, as [`csv_parse_of`] speaks of it.
pub open spec fn csv_parse_view(
    r: Result<(Vec<String>, Result<Vec<Vec<String>>, String>), String>,
) -> Result<(Seq<Seq<char>>, Result<Seq<Seq<Seq<char>>>, Seq<char>>), Seq<char>> {
    match r {
        Ok((headers, Ok(rows))) => Ok((headers.deep_view(), Ok(rows.deep_view()))),
        Ok((headers, Err(m))) => Ok((headers.deep_view(), Err(m@))),
        Err(m) => Err(m@),
    }
}

/// Relies on the csv crate: `Reader::headers` and `Reader::records` on a
/// reader built by `ReaderBuilder` with `trim(Trim::All)` and
/// `flexible(true)`. Fields come back trimmed, ragged row widths are accepted,
/// the first record is the header row, and errors carry the crate's message.
/// The result is a function of the text alone.
#[verifier::external_body]
fn csv_parse(text: &str) -> (r: Result<
    (Vec<String>, Result<Vec<Vec<String>>, String>),
    String,
>)
    ensures
        csv_parse_of(text@) == csv_parse_view(r),
{
    let mut reader = csv::ReaderBuilder::new().trim(csv::Trim::All).flexible(true).from_reader(
        text.as_bytes(),
    );
    let headers: Vec<String> = match reader.headers() {
        Ok(h) => h.iter().map(|f| f.to_string()).collect(),
        Err(e) => return Err(e.to_string()),
    };
    let mut rows: Vec<Vec<String>> = Vec::new();
    for record in reader.records() {
        match record {
            Ok(rec) => rows.push(rec.iter().map(|f| f.to_string()).collect()),
            Err(e) => return Ok((headers, Err(e.to_string()))),
        }
    }
    Ok((headers, Ok(rows)))
}

/// Relies on prettytable: a `Table` holding one header row — each cell styled
/// bold — and one row per record, rendered through its `Display`. The text
/// depends on the cells alone.
#[verifier::external_body]
fn render_cells(headers: &Vec<String>, rows: &Vec<Vec<String>>) -> (r: String)
    ensures
        r@ == table_render_of(headers.deep_view(), rows.deep_view()),
{
    let mut table = prettytable::Table::new();
    let hcells = headers.iter().map(|h| prettytable::Cell::new(h).style_spec("bcB")).collect();
    table.add_row(prettytable::Row::new(hcells));
    for record in rows {
        let cells = record.iter().map(|f| prettytable::Cell::new(f)).collect();
        table.add_row(prettytable::Row::new(cells));
    }
    format!("{}", table)
}

/// A parsed CSV payload: the header row and the data rows, fields already
/// trimmed. Row widths may differ from the header width; a row renders its
/// own cells only.
pub struct CsvTable {
    pub headers: Vec<String>,
    pub records: Vec<Vec<String>>,
}

impl CsvTable {
    /// Well-formed: a non-empty header row and at least one data row.
    pub open spec fn wf(&self) -> bool {
        self.headers@.len() > 0 && self.records@.len() > 0
    }

    /// The rendered text table: a header row then one row per record, each
    /// cell verbatim; nothing is re-validated here.
    pub fn render(&self) -> (r: String)
        requires
            self.wf(),
        ensures
            r@ == table_render_of(self.headers.deep_view(), self.records.deep_view()),
    {
        render_cells(&self.headers, &self.records)
    }
}

/// What the CSV operation returns for a payload: the rendered table, or the
/// first applicable failure — a header-level syntax error, then the empty
/// header check, then a record-level syntax error, then the empty data check.
pub open spec fn spec_process_csv(input: Seq<char>) -> Result<Seq<char>, ErrorView> {
    match csv_parse_of(input) {
        Err(m) => Err(ErrorView::CsvSyntax(m)),
        Ok((headers, rows_or)) => if headers.len() == 0 {
            Err(ErrorView::CsvNoHeaders)
        } else {
            match rows_or {
                Err(m) => Err(ErrorView::CsvSyntax(m)),
                Ok(rows) => if rows.len() == 0 {
                    Err(ErrorView::CsvNoDataRows)
                } else {
                    Ok(table_render_of(headers, rows))
                },
            }
        },
    }
}

/// Treat the payload as CSV text and render it as a table. Fails with
/// `CsvNoHeaders` on an empty header row, with `CsvNoDataRows` when no data
/// row follows, and passes the parser's own message through on a syntax
/// error — each exactly when [`spec_process_csv`] says so.
pub fn process_csv(input: &str) -> (r: Result<String, OperationError>)
    ensures
        match r {
            Ok(out) => spec_process_csv(input@) == Ok::<Seq<char>, ErrorView>(out@),
            Err(e) => spec_process_csv(input@) == Err::<Seq<char>, ErrorView>(e@),
        },
{
    match csv_parse(input) {
        Err(m) => Err(OperationError::CsvSyntax(m)),
        Ok((headers, rows_or)) => {
            if headers.len() == 0 {
                Err(OperationError::CsvNoHeaders)
            } else {
                match rows_or {
                    Err(m) => Err(OperationError::CsvSyntax(m)),
                    Ok(rows) => {
                        if rows.len() == 0 {
                            Err(OperationError::CsvNoDataRows)
                        } else {
                            let table = CsvTable { headers, records: rows };
                            Ok(table.render())
                        }
                    },
                }
            }
        },
    }
}

} // verus!
