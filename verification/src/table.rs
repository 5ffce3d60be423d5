//! A simple table for pretty-printing data: rows of attributed strings
//! with a per-column width cache. Layout bookkeeping lives here; the
//! actual printing belongs to the unverified presentation layer, which
//! reads the table through the accessors.

use vstd::prelude::*;
use vstd::string::*;
use crate::attr_str::AttributeString;
use crate::util::DEFAULT_MAX_TERM_COLS;

verus! {

/// Left/right padding of a column. `Plain` pads not at all.
#[derive(Clone, Copy, Debug, PartialEq, Eq, Structural)]
pub enum Padding {
    Plain,
    Left,
    Right,
}

/// A row of column data. `AttributeString` is used so that rows can be
/// printed in more than one color.
pub struct Row {
    values: Vec<AttributeString>,
}

impl View for Row {
    type V = Seq<AttributeString>;

    closed spec fn view(&self) -> Seq<AttributeString> {
        self.values@
    }
}

impl Default for Row {
    fn default() -> (r: Self)
        ensures
            r@ == Seq::<AttributeString>::empty(),
    {
        Self { values: Vec::new() }
    }
}

impl Row {
    /// Creates a new row from a pack of values.
    pub fn new(values: Vec<AttributeString>) -> (r: Self)
        ensures
            r@ == values@,
    {
        Self { values }
    }

    /// Number of values in the row.
    pub fn len(&self) -> (r: usize)
        ensures
            r == self@.len(),
    {
        self.values.len()
    }

    /// Pushes a new value onto the row.
    pub fn push(&mut self, value: AttributeString)
        ensures
            final(self)@ == old(self)@.push(value),
    {
        self.values.push(value);
    }

    /// Maps each value of the row through `f`, consuming the row.
    pub fn map<F: Fn(&AttributeString) -> AttributeString>(self, f: F) -> (r: Self)
        requires
            forall|i: int| 0 <= i < self@.len() ==> call_requires(f, (&self@[i],)),
        ensures
            r@.len() == self@.len(),
            forall|i: int| 0 <= i < self@.len() ==> call_ensures(f, (&self@[i],), #[trigger] r@[i]),
    {
        let n = self.values.len();
        let mut out: Vec<AttributeString> = Vec::new();
        let mut i: usize = 0;
        while i < n
            invariant
                n == self@.len(),
                0 <= i <= n,
                out@.len() == i,
                forall|k: int| 0 <= k < self@.len() ==> call_requires(f, (&self@[k],)),
                forall|k: int| 0 <= k < i ==> call_ensures(f, (&self@[k],), #[trigger] out@[k]),
            decreases n - i,
        {
            let v = f(&self.values[i]);
            out.push(v);
            i += 1;
        }
        Row::new(out)
    }

    /// The values of the row, for the printing layer.
    pub fn values(&self) -> (r: &Vec<AttributeString>)
        ensures
            r@ == self@,
    {
        &self.values
    }
}

/// Whether a row fits a header: any row of the header's length, and on a
/// table whose header has no columns only the empty row. A row that does
/// not fit is rejected.
pub open spec fn spec_row_accepted(header_len: int, row_len: int) -> bool {
    if header_len == 0 {
        row_len == 0
    } else {
        row_len == header_len
    }
}

/// Length in bytes of a cell's text, the unit of the width cache,
/// exactly as the byte-length accessor reports it.
pub open spec fn spec_cell_len(c: AttributeString) -> int {
    (vstd::utf8::encode_utf8(c@.0).len() as usize) as int
}

/// The width cache as mathematical integers.
pub open spec fn widths_model(ws: Seq<usize>) -> Seq<int> {
    ws.map_values(|w: usize| w as int)
}

/// The widths and running size after the first `i` header cells: each
/// column takes its text length, trimmed to the room left of `mw`.
pub open spec fn spec_hdr_acc(cells: Seq<AttributeString>, mw: int, i: int) -> (Seq<int>, int)
    decreases i,
{
    if i <= 0 {
        (Seq::empty(), 0)
    } else {
        let p = spec_hdr_acc(cells, mw, i - 1);
        let col = spec_cell_len(cells[i - 1]);
        let col2 = if p.1 + col > mw {
            mw - p.1
        } else {
            col
        };
        (p.0.push(col2), p.1 + col2)
    }
}

/// The width cache and running size after the first `i` cells of a pushed
/// row: a cell wider than the room left of `mw` is trimmed (to nothing
/// when no room is left at all); a cached width grows to the cell's
/// width, or shrinks to it when the cached value no longer fits; the
/// running size grows by the resulting width plus one, saturating.
pub open spec fn spec_push_acc(ws: Seq<int>, mw: int, cells: Seq<AttributeString>, i: int) -> (
    Seq<int>,
    int,
)
    decreases i,
{
    if i <= 0 {
        (ws, 0)
    } else {
        let p = spec_push_acc(ws, mw, cells, i - 1);
        let col = spec_cell_len(cells[i - 1]);
        let col1 = if p.1 + col > mw {
            if p.1 < mw {
                mw - p.1 - 1
            } else {
                0
            }
        } else {
            col
        };
        let ws2 = if col1 > p.0[i - 1] || p.1 + p.0[i - 1] > mw {
            p.0.update(i - 1, col1)
        } else {
            p.0
        };
        let col2 = ws2[i - 1];
        let size2 = if p.1 + col2 + 1 > usize::MAX as int {
            usize::MAX as int
        } else {
            p.1 + col2 + 1
        };
        (ws2, size2)
    }
}

/// The width cache after a whole list of rows is pushed, in order.
pub open spec fn spec_rows_widths(ws: Seq<int>, mw: int, rows: Seq<Row>) -> Seq<int>
    decreases rows.len(),
{
    if rows.len() == 0 {
        ws
    } else {
        spec_push_acc(
            spec_rows_widths(ws, mw, rows.drop_last()),
            mw,
            rows.last()@,
            rows.last()@.len() as int,
        ).0
    }
}

/// A table of rows with a cached maximal width per column.
pub struct Table {
    /// Table header
    header: Row,
    /// Padding for each column
    padding: Vec<Padding>,
    /// Row data
    rows: Vec<Row>,
    /// Maximal width of each column, updated on push
    widths: Vec<usize>,
    /// Max width of a whole row; columns are trimmed to keep it
    max_width: usize,
}

impl Table {
    pub closed spec fn spec_header(&self) -> Seq<AttributeString> {
        self.header@
    }

    pub closed spec fn spec_padding(&self) -> Seq<Padding> {
        self.padding@
    }

    pub closed spec fn spec_rows(&self) -> Seq<Row> {
        self.rows@
    }

    pub closed spec fn spec_widths(&self) -> Seq<usize> {
        self.widths@
    }

    pub closed spec fn spec_max_width(&self) -> usize {
        self.max_width
    }

    /// Creates a new table. A `max_width` of 0 stands for "whatever the
    /// terminal offers"; since width detection belongs to the caller,
    /// 0 falls back to the default of 80 columns, and callers that know
    /// their terminal pass the real width instead.
    pub fn new(header: Row, padding: &[Padding], rows: Vec<Row>, max_width: usize) -> (r: Self)
        requires
            forall|i: int| 0 <= i < rows@.len() ==> spec_row_accepted(
                header@.len() as int,
                (#[trigger] rows@[i])@.len() as int,
            ),
        ensures
            r.spec_header() == header@,
            r.spec_padding() == padding@,
            r.spec_max_width() == if max_width == 0 {
                DEFAULT_MAX_TERM_COLS
            } else {
                max_width
            },
            r.spec_rows() == rows@,
            r.spec_widths().len() == header@.len(),
            widths_model(r.spec_widths()) == spec_rows_widths(
                spec_hdr_acc(header@, r.spec_max_width() as int, header@.len() as int).0,
                r.spec_max_width() as int,
                rows@,
            ),
    {
        let mw = if max_width == 0 {
            DEFAULT_MAX_TERM_COLS
        } else {
            max_width
        };
        let hn = header.len();
        let mut widths: Vec<usize> = Vec::new();
        let mut size: usize = 0;
        let mut i: usize = 0;
        proof {
            assert(widths_model(widths@) =~= spec_hdr_acc(header@, mw as int, 0).0);
        }
        // Total size of the header row in characters; each column is
        // trimmed to the space that is left of `mw`.
        while i < hn
            invariant
                hn == header@.len(),
                0 <= i <= hn,
                widths@.len() == i,
                size <= mw,
                widths_model(widths@) == spec_hdr_acc(header@, mw as int, i as int).0,
                size == spec_hdr_acc(header@, mw as int, i as int).1,
            decreases hn - i,
        {
            let ghost ws_before = widths_model(widths@);
            let mut col_size = header.values()[i].len();
            if (size as u128) + (col_size as u128) > (mw as u128) {
                col_size = mw - size;
            }
            widths.push(col_size);
            proof {
                assert(widths_model(widths@) =~= ws_before.push(col_size as int));
            }
            size = size + col_size;
            i += 1;
        }
        let ghost header_view = header@;
        let mut table = Self {
            header,
            padding: vstd::slice::slice_to_vec(padding),
            rows: Vec::new(),
            widths,
            max_width: mw,
        };
        let mut rest = rows;
        let ghost orig_rows = rest@;
        let n = rest.len();
        let mut j: usize = 0;
        while j < n
            invariant
                n == orig_rows.len(),
                rest@.len() == n - j,
                0 <= j <= n,
                forall|k: int| 0 <= k < rest@.len() ==> rest@[k] == orig_rows[j + k],
                forall|k: int| 0 <= k < orig_rows.len() ==> spec_row_accepted(
                    header_view.len() as int,
                    (#[trigger] orig_rows[k])@.len() as int,
                ),
                table.spec_header() == header_view,
                table.spec_padding() == padding@,
                table.spec_max_width() == mw,
                table.spec_widths().len() == header_view.len(),
                table.spec_rows() == orig_rows.take(j as int),
                widths_model(table.spec_widths()) == spec_rows_widths(
                    spec_hdr_acc(header_view, mw as int, header_view.len() as int).0,
                    mw as int,
                    orig_rows.take(j as int),
                ),
            decreases n - j,
        {
            let row = rest.remove(0);
            let ghost rows_before = table.spec_rows();
            let res = table.push_row(row);
            proof {
                assert(res is Ok);
                assert(table.spec_rows() =~= orig_rows.take(j + 1));
                assert(orig_rows.take(j + 1).drop_last() =~= orig_rows.take(j as int));
                assert(orig_rows.take(j + 1).last() == orig_rows[j as int]);
            }
            j += 1;
        }
        proof {
            assert(orig_rows.take(n as int) =~= orig_rows);
        }
        table
    }

    /// Creates a new table, given only the header.
    pub fn with_header(header: Row) -> (r: Self)
        ensures
            r.spec_header() == header@,
            r.spec_padding() == Seq::<Padding>::empty(),
            r.spec_rows() == Seq::<Row>::empty(),
            r.spec_max_width() == DEFAULT_MAX_TERM_COLS,
            r.spec_widths().len() == header@.len(),
    {
        Self::new(header, &[], Vec::new(), 0)
    }

    /// Creates a new table, given only the header and a padding for each
    /// column.
    pub fn with_header_and_padding(header: Row, padding: &[Padding]) -> (r: Self)
        ensures
            r.spec_header() == header@,
            r.spec_padding() == padding@,
            r.spec_rows() == Seq::<Row>::empty(),
            r.spec_max_width() == DEFAULT_MAX_TERM_COLS,
            r.spec_widths().len() == header@.len(),
    {
        Self::new(header, padding, Vec::new(), 0)
    }

    /// Creates a new table with an empty header of the given number of
    /// columns.
    pub fn with_empty_header(values: usize) -> (r: Self)
        ensures
            r.spec_header().len() == values,
            forall|i: int| 0 <= i < values ==> (#[trigger] r.spec_header()[i])@.0
                == Seq::<char>::empty(),
            r.spec_padding() == Seq::<Padding>::empty(),
            r.spec_rows() == Seq::<Row>::empty(),
            r.spec_max_width() == DEFAULT_MAX_TERM_COLS,
            r.spec_widths().len() == values,
    {
        proof {
            reveal_strlit("");
        }
        let mut header = Row::default();
        let mut i: usize = 0;
        while i < values
            invariant
                0 <= i <= values,
                header@.len() == i,
                forall|k: int| 0 <= k < i ==> (#[trigger] header@[k])@.0 == Seq::<char>::empty(),
            decreases values - i,
        {
            proof {
                reveal_strlit("");
            }
            header.push(AttributeString::from(""));
            i += 1;
        }
        Self::with_header(header)
    }

    /// Creates a new table with an empty header, from a padding for each
    /// column.
    pub fn with_empty_header_and_padding(padding: Vec<Padding>) -> (r: Self)
        ensures
            r.spec_header().len() == padding@.len(),
            forall|i: int| 0 <= i < padding@.len() ==> (#[trigger] r.spec_header()[i])@.0
                == Seq::<char>::empty(),
            r.spec_padding() == padding@,
            r.spec_rows() == Seq::<Row>::empty(),
            r.spec_max_width() == DEFAULT_MAX_TERM_COLS,
            r.spec_widths().len() == padding@.len(),
    {
        proof {
            reveal_strlit("");
        }
        let mut header = Row::default();
        let n = padding.len();
        let mut i: usize = 0;
        while i < n
            invariant
                0 <= i <= n,
                header@.len() == i,
                forall|k: int| 0 <= k < i ==> (#[trigger] header@[k])@.0 == Seq::<char>::empty(),
            decreases n - i,
        {
            proof {
                reveal_strlit("");
            }
            header.push(AttributeString::from(""));
            i += 1;
        }
        Self::new(header, padding.as_slice(), Vec::new(), 0)
    }

    /// Checks that a row has the same number of elements as the header;
    /// a table without a header accepts every length here.
    fn check_row(&self, row: &Row) -> (r: Result<(), String>)
        ensures
            r is Ok <==> (self.spec_header().len() == 0 || row@.len() == self.spec_header().len()),
    {
        if !self.header.values.is_empty() && row.len() != self.header.len() {
            Err(String::from_str("Row can't be added because of mismatching length"))
        } else {
            Ok(())
        }
    }

    /// Pushes a row into the table and updates the width cache; rows that
    /// do not fit the header are rejected and the table stays as it was.
    pub fn push_row(&mut self, row: Row) -> (r: Result<(), String>)
        ensures
            r is Ok <==> ((old(self).spec_header().len() == 0 || row@.len() == old(
                self,
            ).spec_header().len()) && row@.len() <= old(self).spec_widths().len()),
            r is Ok ==> {
                &&& final(self).spec_rows() == old(self).spec_rows().push(row)
                &&& final(self).spec_header() == old(self).spec_header()
                &&& final(self).spec_padding() == old(self).spec_padding()
                &&& final(self).spec_max_width() == old(self).spec_max_width()
                &&& final(self).spec_widths().len() == old(self).spec_widths().len()
                &&& widths_model(final(self).spec_widths()) == spec_push_acc(
                    widths_model(old(self).spec_widths()),
                    old(self).spec_max_width() as int,
                    row@,
                    row@.len() as int,
                ).0
            },
            r is Err ==> *final(self) == *old(self),
    {
        match self.check_row(&row) {
            Err(e) => {
                return Err(e);
            }
            Ok(()) => {}
        }
        if row.len() > self.widths.len() {
            // Reachable only on a table whose header has no columns: the
            // width cache has no slot for any cell of this row.
            return Err(String::from_str("Row can't be added because of mismatching length"));
        }
        let mw = self.max_width;
        let rn = row.len();
        let ghost ws0 = widths_model(old(self).widths@);
        let mut size: usize = 0;
        let mut i: usize = 0;
        while i < rn
            invariant
                rn == row@.len(),
                rn <= self.widths@.len(),
                0 <= i <= rn,
                self.header == old(self).header,
                self.padding == old(self).padding,
                self.rows == old(self).rows,
                self.max_width == old(self).max_width,
                self.widths@.len() == old(self).widths@.len(),
                mw == self.max_width,
                ws0 == widths_model(old(self).widths@),
                widths_model(self.widths@) == spec_push_acc(ws0, mw as int, row@, i as int).0,
                size == spec_push_acc(ws0, mw as int, row@, i as int).1,
            decreases rn - i,
        {
            let ghost ws_before = widths_model(self.widths@);
            let mut col_size = row.values()[i].len();
            // Trim the column to the space that is left of `mw`.
            if (size as u128) + (col_size as u128) > (mw as u128) {
                col_size = if size < mw {
                    mw - size - 1
                } else {
                    0
                };
            }
            if col_size > self.widths[i] {
                self.widths[i] = col_size;
                proof {
                    assert(widths_model(self.widths@) =~= ws_before.update(
                        i as int,
                        col_size as int,
                    ));
                }
            } else {
                if (size as u128) + (self.widths[i] as u128) > (mw as u128) {
                    self.widths[i] = col_size;
                    proof {
                        assert(widths_model(self.widths@) =~= ws_before.update(
                            i as int,
                            col_size as int,
                        ));
                    }
                } else {
                    proof {
                        assert(widths_model(self.widths@) =~= ws_before);
                    }
                }
                col_size = self.widths[i];
            }
            size = if (size as u128) + (col_size as u128) + 1 > (usize::MAX as u128) {
                usize::MAX
            } else {
                size + col_size + 1
            };
            i += 1;
        }
        proof {
            assert(spec_push_acc(ws0, mw as int, row@, rn as int).0 == widths_model(self.widths@));
        }
        self.rows.push(row);
        Ok(())
    }

    /// The header row, for the printing layer.
    pub fn header(&self) -> (r: &Row)
        ensures
            r@ == self.spec_header(),
    {
        &self.header
    }

    /// The paddings, for the printing layer.
    pub fn padding(&self) -> (r: &Vec<Padding>)
        ensures
            r@ == self.spec_padding(),
    {
        &self.padding
    }

    /// The rows, for the printing layer.
    pub fn rows(&self) -> (r: &Vec<Row>)
        ensures
            r@ == self.spec_rows(),
    {
        &self.rows
    }

    /// The cached column widths, for the printing layer.
    pub fn widths(&self) -> (r: &Vec<usize>)
        ensures
            r@ == self.spec_widths(),
    {
        &self.widths
    }

    /// The maximal width a printed row may take.
    pub fn max_width(&self) -> (r: usize)
        ensures
            r == self.spec_max_width(),
    {
        self.max_width
    }
}

} // verus!
