use vstd::prelude::*;
use crate::errors::VtabError;
use crate::stream::{
    new_stream, new_stream_noquote, read_row, rewind, set_mark, stream_at, stream_fails_at,
    stream_mark, stream_rows, RecordStream,
};
use crate::table::{
    cols_of, connect, needs_read, spec_outcome, ConfigS, OutcomeS, TableInstance,
};
use crate::schema::spec_make_schema;
use crate::text::{normalize_str, push_dec, spec_normalize};

verus! {

/// A forward-only, restartable scan over one table instance. The cursor owns
/// an independent record stream; its rewind mark sits at the first data
/// record once the header (if any) has been skipped.
pub struct Cursor {
    pub stream: RecordStream,
    /// Whether the header skip has run and the rewind mark sits at the
    /// first data record.
    pub skipped: bool,
    /// The 1-based ordinal of the current record among the rows yielded
    /// since the last restart; 0 before any row was yielded.
    pub row_number: usize,
    /// The fields of the current record.
    pub cols: Vec<String>,
    /// Whether the scan is exhausted.
    pub eof: bool,
}

impl TableInstance {
    /// How many data records a full scan of this table yields.
    pub open spec fn scan_count(self) -> int {
        self.rows().len() - self.first_data()
    }

    /// Opens a fresh cursor: an independent parser over the same payload,
    /// not yet positioned on any row.
    pub fn open(&self) -> (c: Cursor)
        ensures
            c.opened_from(*self),
            c.inv(),
            !c.skipped,
            c.row_number == 0,
            !c.eof,
            c.cols@.len() == 0,
    {
        let normalized = normalize_str(self.table.as_str());
        let stream = if self.quote == 0 {
            new_stream_noquote(normalized.as_str(), self.delimiter)
        } else {
            new_stream(normalized.as_str(), self.delimiter, self.quote)
        };
        Cursor { stream, skipped: false, row_number: 0, cols: Vec::new(), eof: false }
    }
}

impl Cursor {
    /// The records of the payload this cursor scans.
    pub open spec fn rows(self) -> Seq<Seq<Seq<char>>> {
        stream_rows(self.stream)
    }

    /// The record index the scan restarts at: the cursor's rewind mark.
    pub open spec fn base(self) -> int {
        stream_mark(self.stream)
    }

    /// How many data records a full scan yields.
    pub open spec fn scan_len(self) -> int {
        self.rows().len() - self.base()
    }

    /// The cursor belongs to this table: same records, and its rewind mark
    /// sits at the table's first data record (at the start before the
    /// header skip has run).
    pub open spec fn opened_from(self, t: TableInstance) -> bool {
        &&& self.rows() == t.rows()
        &&& self.rows().len() <= isize::MAX as int
        &&& (forall|i: int| stream_fails_at(self.stream, i) == t.row_fails(i))
        &&& (if self.skipped {
            self.base() == t.first_data()
        } else {
            self.base() == 0
        })
    }

    /// Well-formedness of the scan state: the stream position, row counter,
    /// current record and end flag agree with the records yielded so far.
    pub open spec fn inv(self) -> bool {
        &&& self.rows().len() <= isize::MAX as int
        &&& 0 <= self.base() <= self.rows().len()
        &&& (if self.skipped {
            &&& (!self.eof ==> stream_at(self.stream) == self.base() + self.row_number)
            &&& self.row_number <= self.scan_len()
            &&& (self.row_number > 0 ==> self.cols.deep_view() == self.rows()[self.base()
                + self.row_number - 1])
            &&& (self.eof ==> self.row_number == self.scan_len())
        } else {
            &&& self.base() == 0
            &&& self.row_number == 0
            &&& !self.eof
        })
    }

    /// Restarts the scan: rewinds to the first data record (skipping the
    /// header once, and marking it so every later restart resumes exactly
    /// there, never yielding the header as data) and reads the first row.
    /// Calling this again after any amount of iteration re-enters the same
    /// sequence. It fails exactly when the header record it must skip or
    /// the first data record is malformed.
    pub fn filter(&mut self, t: &TableInstance) -> (r: Result<(), VtabError>)
        requires
            old(self).opened_from(*t),
        ensures
            final(self).opened_from(*t),
            match r {
                Ok(()) => {
                    &&& final(self).inv()
                    &&& final(self).skipped
                    &&& final(self).base() == t.first_data()
                    &&& (if t.scan_count() > 0 {
                        &&& final(self).row_number == 1
                        &&& !final(self).eof
                        &&& final(self).cols.deep_view() == t.rows()[t.first_data()]
                    } else {
                        &&& final(self).eof
                        &&& final(self).row_number == 0
                    })
                },
                Err(e) => e matches VtabError::ParseError(_),
            },
            (r matches Err(_)) <==> ((!old(self).skipped && t.has_headers && t.row_fails(0)
                && t.rows().len() > 0) || (t.row_fails(t.first_data()) && t.first_data()
                < t.rows().len())),
    {
        match rewind(&mut self.stream) {
            Ok(()) => {},
            Err(m) => {
                return Err(VtabError::ParseError(m));
            },
        }
        self.row_number = 0;
        self.eof = false;
        if !self.skipped {
            if t.has_headers {
                match read_row(&mut self.stream) {
                    Ok(_) => {},
                    Err(m) => {
                        return Err(VtabError::ParseError(m));
                    },
                }
            }
            set_mark(&mut self.stream);
            self.skipped = true;
        }
        match read_row(&mut self.stream) {
            Ok(Some(rec)) => {
                self.cols = rec;
                self.row_number = 1;
                Ok(())
            },
            Ok(None) => {
                self.eof = true;
                Ok(())
            },
            Err(m) => Err(VtabError::ParseError(m)),
        }
    }

    /// Advances to the next record. At the end it is a no-op returning
    /// success; when records remain, it stores the next one and increments
    /// the row counter by exactly one; when none remain, it raises the end
    /// flag and leaves the current record untouched. It fails exactly when
    /// the record it would yield is malformed, and then changes nothing
    /// visible.
    pub fn next(&mut self) -> (r: Result<(), VtabError>)
        requires
            old(self).inv(),
            old(self).skipped,
        ensures
            final(self).skipped,
            final(self).rows() == old(self).rows(),
            final(self).base() == old(self).base(),
            forall|i: int|
                stream_fails_at(final(self).stream, i) == stream_fails_at(old(self).stream, i),
            old(self).eof ==> r matches Ok(()),
            (r matches Err(_)) <==> (!old(self).eof && old(self).base() + old(self).row_number
                < old(self).rows().len() && stream_fails_at(
                old(self).stream,
                old(self).base() + old(self).row_number,
            )),
            match r {
                Ok(()) => {
                    &&& final(self).inv()
                    &&& (old(self).eof ==> *final(self) == *old(self))
                    &&& (!old(self).eof ==> (if old(self).row_number < old(self).scan_len() {
                        &&& final(self).row_number == old(self).row_number + 1
                        &&& !final(self).eof
                        &&& final(self).cols.deep_view() == old(self).rows()[old(self).base()
                            + old(self).row_number]
                    } else {
                        &&& final(self).eof
                        &&& final(self).row_number == old(self).row_number
                        &&& final(self).cols == old(self).cols
                    }))
                },
                Err(e) => {
                    &&& e matches VtabError::ParseError(_)
                    &&& final(self).row_number == old(self).row_number
                    &&& final(self).cols == old(self).cols
                    &&& final(self).eof == old(self).eof
                },
            },
    {
        if self.eof {
            return Ok(());
        }
        match read_row(&mut self.stream) {
            Ok(Some(rec)) => {
                self.cols = rec;
                self.row_number = self.row_number + 1;
                Ok(())
            },
            Ok(None) => {
                self.eof = true;
                Ok(())
            },
            Err(m) => Err(VtabError::ParseError(m)),
        }
    }

    /// True exactly when the scan is exhausted.
    pub fn eof(&self) -> (r: bool)
        ensures
            r == self.eof,
    {
        self.eof
    }

    /// The value of one column of the current record: a null result for a
    /// record with zero fields (never an empty string), the field's text
    /// verbatim otherwise, and an error for an index outside the record.
    pub fn column(&self, col: usize) -> (r: Result<Option<String>, VtabError>)
        ensures
            (if self.cols@.len() == 0 {
                r matches Ok(v) && v is None
            } else if col < self.cols@.len() {
                r matches Ok(v) && v matches Some(s) && s@ == self.cols.deep_view()[col as int]
            } else {
                r matches Err(e) && e matches VtabError::IndexError(_)
            }),
    {
        if self.cols.len() == 0 {
            return Ok(None);
        }
        if col >= self.cols.len() {
            let mut m = String::from_str("column index out of bounds: ");
            push_dec(&mut m, col as u64);
            return Err(VtabError::IndexError(m));
        }
        let s = self.cols[col].clone();
        proof {
            assert(self.cols.deep_view()[col as int] == self.cols@[col as int]@);
        }
        Ok(Some(s))
    }

    /// The current row identifier: the 1-based ordinal of the current
    /// record, starting at 1 for the first row after a restart.
    pub fn rowid(&self) -> (r: i64)
        requires
            self.inv(),
        ensures
            r as int == self.row_number as int,
    {
        self.row_number as i64
    }

    /// A copy of the current record's fields, in order.
    pub fn current_row(&self) -> (r: Vec<String>)
        ensures
            r.deep_view() == self.cols.deep_view(),
    {
        let n = self.cols.len();
        let mut out: Vec<String> = Vec::new();
        let mut j: usize = 0;
        while j < n
            invariant
                0 <= j <= n,
                n == self.cols@.len(),
                out@.len() == j,
                forall|k: int| 0 <= k < j ==> out@[k] == self.cols@[k],
            decreases n - j,
        {
            out.push(self.cols[j].clone());
            j = j + 1;
        }
        proof {
            assert forall|k: int| 0 <= k < n implies out.deep_view()[k]
                == self.cols.deep_view()[k] by {
                assert(out@[k] == self.cols@[k]);
            }
            assert(out.deep_view() =~= self.cols.deep_view());
        }
        out
    }
}

/// A scan is deterministic and restartable: two cursors over the same
/// records with the same restart point that have yielded the same number of
/// rows hold the same current record, however either one got there.
pub proof fn lemma_scan_deterministic(c1: Cursor, c2: Cursor)
    requires
        c1.inv(),
        c2.inv(),
        c1.skipped,
        c2.skipped,
        c1.rows() == c2.rows(),
        c1.base() == c2.base(),
        c1.row_number == c2.row_number,
        c1.row_number > 0,
    ensures
        c1.cols.deep_view() == c2.cols.deep_view(),
{
}

/// The row identifier is the 1-based position of the current record among
/// the data records: the record a cursor holds is exactly the
/// `row_number`-th one after the restart point, so identifiers run 1, 2, 3,
/// … with no gaps.
pub proof fn lemma_row_number_is_ordinal(c: Cursor)
    requires
        c.inv(),
        c.skipped,
        c.row_number > 0,
    ensures
        c.cols.deep_view() == c.rows()[c.base() + c.row_number - 1],
{
}

/// With a header present, the first row a restarted scan yields is the
/// second record of the source, never the header itself.
pub proof fn lemma_first_row_skips_header(t: TableInstance, c: Cursor)
    requires
        t.has_headers,
        t.rows().len() > 0,
        c.inv(),
        c.skipped,
        c.rows() == t.rows(),
        c.base() == t.first_data(),
        c.row_number == 1,
    ensures
        c.cols.deep_view() == t.rows()[1],
{
}

/// Builds a table from a full construction-argument list and drains one
/// complete scan, returning the schema text and every data row in order.
/// Success is owed exactly when the arguments denote a configuration, a
/// column set is determinable, and no record of the payload is malformed.
pub fn scan_table(args: &Vec<String>) -> (r: Result<(String, Vec<Vec<String>>), VtabError>)
    ensures
        (match spec_outcome(args.deep_view()) {
            OutcomeS::Conf(c) => {
                let rows = csv_rows_of(c);
                let fd: int = if c.has_headers && rows.len() > 0 {
                    1
                } else {
                    0
                };
                let sampled = if needs_read(c) && rows.len() > 0 {
                    Some(rows[0])
                } else {
                    None
                };
                let cols = cols_of(c, sampled);
                &&& (match r {
                    Ok(p) => {
                        &&& p.1.deep_view() == rows.skip(fd)
                        &&& p.0@ == (match c.schema {
                            Some(s) => s,
                            None => spec_make_schema(cols),
                        })
                    },
                    Err(e) => e matches VtabError::ParseError(_) || (e
                        matches VtabError::SchemaError(m) && m@ == "no column specified"@),
                })
                &&& ((r matches Ok(_)) <==> (!(c.schema is None && cols.len() == 0) && (
                forall|k: int| 0 <= k < rows.len() ==> !row_fails_of(c, k))))
            },
            OutcomeS::ParamErr(msg) => r matches Err(e) && e matches VtabError::ParameterError(
                m,
            ) && m@ == msg,
            OutcomeS::NoTable => r matches Err(e) && e matches VtabError::SchemaError(m) && m@
                == "no table name specified"@,
        }),
{
    let (schema_text, t) = match connect(args) {
        Ok(p) => p,
        Err(e) => {
            proof {
                match spec_outcome(args.deep_view()) {
                    OutcomeS::Conf(cs) => {
                        let rows = csv_rows_of(cs);
                        if needs_read(cs) && rows.len() > 0 && row_fails_of(cs, 0) {
                            assert(0 <= 0 < rows.len() && row_fails_of(cs, 0));
                        }
                    },
                    _ => {},
                }
            }
            return Err(e);
        },
    };
    let mut c = t.open();
    match c.filter(&t) {
        Ok(()) => {},
        Err(e) => {
            proof {
                match spec_outcome(args.deep_view()) {
                    OutcomeS::Conf(cs) => {
                        let rows = csv_rows_of(cs);
                        assert(t.rows() == rows);
                        if t.row_fails(0) && rows.len() > 0 {
                            assert(0 <= 0 < rows.len() && row_fails_of(cs, 0));
                        } else {
                            assert(t.row_fails(t.first_data()) && t.first_data() < rows.len());
                            assert(row_fails_of(cs, t.first_data()));
                        }
                    },
                    _ => {},
                }
            }
            return Err(e);
        },
    }
    let ghost fd = t.first_data();
    proof {
        assert forall|k: int| 0 <= k < fd + c.row_number implies !t.row_fails(k) by {
            if k == fd {
                assert(fd < t.rows().len());
            } else {
                assert(k == 0 && fd == 1);
                assert(t.has_headers && t.rows().len() > 0);
            }
        }
    }
    let mut out: Vec<Vec<String>> = Vec::new();
    while !c.eof
        invariant
            c.inv(),
            c.skipped,
            c.rows() == t.rows(),
            c.base() == fd,
            fd == t.first_data(),
            (match spec_outcome(args.deep_view()) {
                OutcomeS::Conf(cs) => t.matches(cs),
                _ => false,
            }),
            forall|i: int| stream_fails_at(c.stream, i) == t.row_fails(i),
            forall|k: int| 0 <= k < fd + c.row_number ==> !t.row_fails(k),
            out.deep_view() == t.rows().subrange(fd, fd + out@.len()),
            !c.eof ==> c.row_number == out@.len() + 1 && c.cols.deep_view() == t.rows()[fd
                + c.row_number - 1],
            c.eof ==> out@.len() == c.scan_len(),
        decreases c.scan_len() - out@.len(),
    {
        let ghost prev = out@;
        let ghost prevdv = out.deep_view();
        let row = c.current_row();
        out.push(row);
        proof {
            assert forall|k: int| 0 <= k < out@.len() implies out.deep_view()[k] == t.rows()
                .subrange(fd, fd + out@.len())[k] by {
                if k < prev.len() {
                    assert(out@[k] == prev[k]);
                    assert(prevdv[k] == prev[k].deep_view());
                } else {
                    assert(out@[k] == row);
                }
            }
            assert(out.deep_view() =~= t.rows().subrange(fd, fd + out@.len()));
        }
        let ghost at = c.base() + c.row_number;
        match c.next() {
            Ok(()) => {},
            Err(e) => {
                proof {
                    match spec_outcome(args.deep_view()) {
                        OutcomeS::Conf(cs) => {
                            let rows = csv_rows_of(cs);
                            assert(t.rows() == rows);
                            assert(t.row_fails(at) && 0 <= at < rows.len());
                            assert(row_fails_of(cs, at));
                        },
                        _ => {},
                    }
                }
                return Err(e);
            },
        }
    }
    proof {
        assert(t.rows().subrange(fd, fd + out@.len()) =~= t.rows().skip(fd));
        assert(fd + c.row_number == t.rows().len());
        match spec_outcome(args.deep_view()) {
            OutcomeS::Conf(cs) => {
                let rows = csv_rows_of(cs);
                assert(t.rows() == rows);
                assert forall|k: int| 0 <= k < rows.len() implies !row_fails_of(cs, k) by {
                    assert(!t.row_fails(k));
                }
            },
            _ => {},
        }
    }
    Ok((schema_text, out))
}

/// The records of a configuration's normalized payload.
pub open spec fn csv_rows_of(c: ConfigS) -> Seq<Seq<Seq<char>>> {
    crate::stream::csv_rows(spec_normalize(c.table), c.delimiter, c.quote)
}

/// Whether reading record `i` of a configuration's normalized payload
/// fails.
pub open spec fn row_fails_of(c: ConfigS, i: int) -> bool {
    crate::stream::csv_row_fails(spec_normalize(c.table), c.delimiter, c.quote, i)
}

} // verus!
