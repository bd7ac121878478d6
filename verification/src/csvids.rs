//! Alpha ids from a CSV file with an `id` column.

use vstd::prelude::*;
use crate::text::{strs, text_eq};

verus! {

/// What the `csv` reader, with its default settings (a header row, comma
/// separated, all rows as long as the header), reads from a text: none when
/// the header row cannot be read; else the header fields and the rows, the
/// rows none when some row cannot be read.
pub uninterp spec fn csv_table(text: Seq<char>) -> Option<(Seq<Seq<char>>, Option<Seq<Seq<Seq<char>>>>)>;

/// The texts of a list of rows.
pub open spec fn rows_view(rows: Seq<Vec<String>>) -> Seq<Seq<Seq<char>>> {
    rows.map_values(|r: Vec<String>| strs(r@))
}

/// Calls `csv::Reader::from_reader` on the text, then `headers` and
/// `records`, and copies the fields out. The result depends on the text
/// alone and is named `csv_table`; nothing more is claimed of it.
#[verifier::external_body]
fn read_csv_table(text: &str) -> (r: Option<(Vec<String>, Option<Vec<Vec<String>>>)>)
    ensures
        match r {
            None => csv_table(text@) is None,
            Some(t) => csv_table(text@) == Some(
                (
                    strs(t.0@),
                    match t.1 {
                        Some(rows) => Some(rows_view(rows@)),
                        None => None,
                    },
                ),
            ),
        },
{
    let mut rdr = csv::Reader::from_reader(text.as_bytes());
    let headers: Vec<String> = match rdr.headers() {
        Ok(h) => h.iter().map(|f| f.to_string()).collect(),
        Err(_) => return None,
    };
    let rows: Result<Vec<Vec<String>>, csv::Error> =
        rdr.records().map(|rec| rec.map(|r| r.iter().map(|f| f.to_string()).collect())).collect();
    Some((headers, rows.ok()))
}

/// Why no ids could be read from a CSV file.
#[derive(Debug, Clone, Copy, PartialEq, Eq, Structural)]
pub enum CsvIdsError {
    /// The text is not valid CSV.
    Malformed,
    /// The header has no `id` column.
    NoIdColumn,
}

/// The index of the first header that is `id`.
pub open spec fn id_column(headers: Seq<Seq<char>>) -> Option<int>
    decreases headers.len(),
{
    if headers.len() == 0 {
        None
    } else if headers[0] == "id"@ {
        Some(0)
    } else {
        match id_column(headers.drop_first()) {
            Some(i) => Some(i + 1),
            None => None,
        }
    }
}

proof fn lemma_id_column(headers: Seq<Seq<char>>, i: int)
    requires
        0 <= i <= headers.len(),
        forall|k: int| 0 <= k < i ==> headers[k] != "id"@,
    ensures
        i < headers.len() && headers[i] == "id"@ ==> id_column(headers) == Some(i),
        i == headers.len() ==> id_column(headers) is None,
    decreases i,
{
    if i > 0 {
        lemma_id_column(headers.drop_first(), i - 1);
    }
}

/// The id column is the first header that is exactly `id`, and there is
/// none exactly when no header is `id`.
pub proof fn lemma_id_column_first(headers: Seq<Seq<char>>)
    ensures
        match id_column(headers) {
            Some(c) => 0 <= c < headers.len() && headers[c] == "id"@ && forall|k: int|
                0 <= k < c ==> headers[k] != "id"@,
            None => forall|k: int| 0 <= k < headers.len() ==> headers[k] != "id"@,
        },
    decreases headers.len(),
{
    if headers.len() > 0 {
        let rest = headers.drop_first();
        lemma_id_column_first(rest);
        assert forall|k: int| 0 < k < headers.len() implies headers[k] == rest[k - 1] by {}
    }
}

/// The non-empty value of column `col` in a row, if the row has one.
pub open spec fn id_cell(row: Seq<Seq<char>>, col: int) -> Seq<Seq<char>> {
    if 0 <= col < row.len() && row[col].len() > 0 {
        seq![row[col]]
    } else {
        Seq::empty()
    }
}

/// The ids a CSV table gives: the non-empty values of its first `id`
/// column, row by row.
pub open spec fn table_ids(
    headers: Seq<Seq<char>>,
    rows: Option<Seq<Seq<Seq<char>>>>,
) -> Result<Seq<Seq<char>>, CsvIdsError> {
    match id_column(headers) {
        None => Err(CsvIdsError::NoIdColumn),
        Some(col) => match rows {
            None => Err(CsvIdsError::Malformed),
            Some(rs) => Ok(rs.map_values(|r: Seq<Seq<char>>| id_cell(r, col)).flatten()),
        },
    }
}

/// The ids of a CSV table read from a file.
pub fn ids_from_table(headers: &Vec<String>, rows: Option<&Vec<Vec<String>>>) -> (r: Result<Vec<String>, CsvIdsError>)
    ensures
        match r {
            Ok(v) => table_ids(
                strs(headers@),
                match rows {
                    Some(rs) => Some(rows_view(rs@)),
                    None => None,
                },
            ) == Ok::<Seq<Seq<char>>, CsvIdsError>(strs(v@)),
            Err(e) => table_ids(
                strs(headers@),
                match rows {
                    Some(rs) => Some(rows_view(rs@)),
                    None => None,
                },
            ) == Err::<Seq<Seq<char>>, CsvIdsError>(e),
        },
{
    proof {
        reveal_strlit("id");
    }
    let h = headers.len();
    let mut col: usize = 0;
    while col < h && !text_eq(headers[col].as_str(), "id")
        invariant
            h == headers@.len(),
            col <= h,
            forall|k: int| 0 <= k < col ==> strs(headers@)[k] != "id"@,
        decreases h - col,
    {
        col = col + 1;
    }
    proof {
        lemma_id_column(strs(headers@), col as int);
    }
    if col == h {
        return Err(CsvIdsError::NoIdColumn);
    }
    let rows = match rows {
        Some(rs) => rs,
        None => return Err(CsvIdsError::Malformed),
    };
    let ghost all = rows_view(rows@);
    let mut out: Vec<String> = Vec::new();
    let n = rows.len();
    let mut i: usize = 0;
    assert(all.take(0).map_values(|r: Seq<Seq<char>>| id_cell(r, col as int)) =~= Seq::<Seq<Seq<char>>>::empty());
    while i < n
        invariant
            n == rows@.len(),
            all == rows_view(rows@),
            i <= n,
            strs(out@) == all.take(i as int).map_values(|r: Seq<Seq<char>>| id_cell(r, col as int)).flatten(),
        decreases n - i,
    {
        let ghost blocks = all.take(i as int).map_values(|r: Seq<Seq<char>>| id_cell(r, col as int));
        let ghost before = strs(out@);
        let row = &rows[i];
        assert(all[i as int] == strs(row@));
        if col < row.len() && row[col].as_str().unicode_len() > 0 {
            out.push(row[col].clone());
            assert(strs(out@) =~= before + id_cell(all[i as int], col as int));
        } else {
            assert(before + id_cell(all[i as int], col as int) =~= before);
        }
        proof {
            assert(all.take(i + 1).map_values(|r: Seq<Seq<char>>| id_cell(r, col as int)) =~= blocks.push(
                id_cell(all[i as int], col as int),
            ));
            blocks.lemma_flatten_push(id_cell(all[i as int], col as int));
        }
        i = i + 1;
    }
    assert(all.take(n as int) =~= all);
    Ok(out)
}

/// The ids a CSV text gives, as the `csv` reader reads it.
pub open spec fn csv_ids(text: Seq<char>) -> Result<Seq<Seq<char>>, CsvIdsError> {
    match csv_table(text) {
        None => Err(CsvIdsError::Malformed),
        Some(t) => table_ids(t.0, t.1),
    }
}

/// The alpha ids in the text of a CSV file: the non-empty values of its
/// `id` column.
pub fn read_ids_from_csv(text: &str) -> (r: Result<Vec<String>, CsvIdsError>)
    ensures
        match r {
            Ok(v) => csv_ids(text@) == Ok::<Seq<Seq<char>>, CsvIdsError>(strs(v@)),
            Err(e) => csv_ids(text@) == Err::<Seq<Seq<char>>, CsvIdsError>(e),
        },
{
    match read_csv_table(text) {
        None => Err(CsvIdsError::Malformed),
        Some((headers, rows)) => match &rows {
            Some(rs) => ids_from_table(&headers, Some(rs)),
            None => ids_from_table(&headers, None),
        },
    }
}

} // verus!
