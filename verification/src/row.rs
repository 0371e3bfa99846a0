//! The generic row: an ordered mapping from column name to a tagged scalar,
//! the universal intermediate between the store and any typed result.

use vstd::prelude::*;
use crate::errors::AppError;

verus! {

/// One column's value, tagged by the kind the boundary decoded it as, in a
/// fixed priority order: text first, then identifiers rendered as text,
/// integers, booleans, timestamps as their textual form, non-integer
/// numbers and structured values as raw text, and null where nothing
/// succeeded.
#[derive(Debug, Clone, PartialEq, Eq)]
pub enum CellValue {
    Text(String),
    Integer(i64),
    Boolean(bool),
    /// A timestamp, rendered in its textual interchange form.
    Timestamp(String),
    /// The decimal text of a non-integer numeric column.
    Decimal(String),
    /// The raw JSON text of a structured column.
    Structured(String),
    Null,
}

/// An ordered row: column names with their tagged values.
#[derive(Debug, Clone, PartialEq, Eq)]
pub struct Row {
    pub cells: Vec<(String, CellValue)>,
}

/// The value under `name`, the first occurrence winning.
pub open spec fn cell_of(cells: Seq<(String, CellValue)>, name: Seq<char>) -> Option<CellValue>
    decreases cells.len(),
{
    if cells.len() == 0 {
        None
    } else if cells[0].0@ == name {
        Some(cells[0].1)
    } else {
        cell_of(cells.drop_first(), name)
    }
}

impl Row {
    /// A row with no columns yet.
    pub fn new() -> (r: Row)
        ensures
            r.cells@.len() == 0,
    {
        Row { cells: Vec::new() }
    }

    /// Appends a column; an existing column of the same name keeps
    /// priority on reads.
    pub fn push(&mut self, name: String, value: CellValue)
        ensures
            final(self).cells@ == old(self).cells@.push((name, value)),
    {
        self.cells.push((name, value));
    }

    /// Reads one column, exactly as `cell_of` describes.
    pub fn get(&self, name: &str) -> (r: Option<&CellValue>)
        ensures
            r matches Some(c) ==> cell_of(self.cells@, name@) == Some(*c),
            r is None ==> cell_of(self.cells@, name@) is None,
    {
        let owned: String = name.to_owned();
        let mut i: usize = 0;
        proof {
            assert(self.cells@.skip(0) =~= self.cells@);
        }
        while i < self.cells.len()
            invariant
                owned@ == name@,
                i <= self.cells.len(),
                cell_of(self.cells@, name@) == cell_of(self.cells@.skip(i as int), name@),
            decreases self.cells.len() - i,
        {
            if self.cells[i].0 == owned {
                proof {
                    assert(self.cells@.skip(i as int)[0] == self.cells@[i as int]);
                }
                return Some(&self.cells[i].1);
            }
            proof {
                assert(self.cells@.skip(i as int).drop_first() =~= self.cells@.skip(i as int + 1));
            }
            i = i + 1;
        }
        proof {
            assert(self.cells@.skip(self.cells@.len() as int).len() == 0);
        }
        None
    }
}

/// A result type that knows how to decode itself out of a generic row.
/// Decode failure is a schema mismatch, never retried.
pub trait FromRow: Sized {
    /// What decoding yields for any cell list: `None` where the row does
    /// not fit the type.
    spec fn decode_spec(cells: Seq<(String, CellValue)>) -> Option<Self>;

    /// Decodes a row, exactly as `decode_spec` describes; a row that does
    /// not fit is a `SerializationError`.
    fn from_row(row: &Row) -> (r: Result<Self, AppError>)
        ensures
            r matches Ok(v) ==> Self::decode_spec(row.cells@) == Some(v),
            r is Err <==> Self::decode_spec(row.cells@) is None,
            r matches Err(e) ==> e matches AppError::SerializationError(_),
    ;
}

/// What a fetched optional row means for a typed read: no row is
/// `NotFound`, a row that does not fit the type is a `SerializationError`,
/// anything else is the decoded value.
pub fn decode_fetched<T: FromRow>(row: Option<Row>, entity: &str, id: &str) -> (r: Result<
    T,
    AppError,
>)
    ensures
        row is None <==> (r matches Err(e) && e matches AppError::NotFound { entity: en, id: i }
            && en@ == entity@ && i@ == id@),
        row matches Some(rw) ==> (match T::decode_spec(rw.cells@) {
            Some(v) => r matches Ok(out) && out == v,
            None => r matches Err(e) && e matches AppError::SerializationError(_),
        }),
{
    match row {
        None => Err(AppError::NotFound { entity: entity.to_owned(), id: id.to_owned() }),
        Some(rw) => T::from_row(&rw),
    }
}

} // verus!
