use vstd::prelude::*;

verus! {

/// A restartable stream of records over an in-memory text, backed by the
/// `csv` crate's reader. The stream owns its source bytes and configuration
/// together with a rewind mark (a count of records), so a mark can never be
/// applied to data it was not taken over, and rewinding replays the parse
/// from the start of the buffer rather than seeking: the reader's own seek
/// resets its parser core, which re-arms the byte-order-mark stripping that
/// is meant for the start of the input only, so a record at the seek target
/// could come back altered. A replayed stream is, state for state, the
/// sequential parse.
#[verifier::external_body]
pub struct RecordStream {
    rdr: csv::Reader<std::io::Cursor<Vec<u8>>>,
    bytes: Vec<u8>,
    delimiter: u8,
    quote_byte: u8,
    quoting: bool,
    mark: u64,
}

/// The full sequence of records (each an ordered sequence of text fields)
/// that the record parser yields for the given source text, field delimiter
/// and quote byte. A quote byte of zero stands for quote interpretation
/// turned off entirely.
pub uninterp spec fn csv_rows(src: Seq<char>, delim: u8, quote: u8) -> Seq<Seq<Seq<char>>>;

/// Whether reading record `at` of the given source fails (for an in-memory
/// text this is decided by the text and configuration alone: a record whose
/// field count differs from the first record's, or one that is not valid
/// text). False beyond the last record, where reading reports plain end of
/// input.
pub uninterp spec fn csv_row_fails(src: Seq<char>, delim: u8, quote: u8, at: int) -> bool;

/// The records of the stream's underlying text, fixed at construction.
pub uninterp spec fn stream_rows(s: RecordStream) -> Seq<Seq<Seq<char>>>;

/// The index of the next record the stream would yield.
pub uninterp spec fn stream_at(s: RecordStream) -> int;

/// The record index of the stream's current rewind mark.
pub uninterp spec fn stream_mark(s: RecordStream) -> int;

/// Whether reading record `i` from this stream fails; fixed by the text and
/// configuration at construction, like the records themselves.
pub uninterp spec fn stream_fails_at(s: RecordStream, i: int) -> bool;

/// Relies on csv::ReaderBuilder (`has_headers(false)`, `delimiter`, `quote`)
/// and `from_reader` over an in-memory cursor: the reader yields the records
/// of `text` in order, and its start position is the first record. Each
/// yielded record consumes at least one byte of the text, and a byte buffer
/// holds fewer than `isize::MAX` bytes, which bounds the record count.
#[verifier::external_body]
pub(crate) fn new_stream(text: &str, delim: u8, quote: u8) -> (s: RecordStream)
    requires
        quote != 0,
    ensures
        stream_rows(s) == csv_rows(text@, delim, quote),
        stream_at(s) == 0,
        stream_mark(s) == 0,
        stream_rows(s).len() <= isize::MAX as int,
        forall|i: int| stream_fails_at(s, i) == csv_row_fails(text@, delim, quote, i),
{
    let bytes = text.as_bytes().to_vec();
    RecordStream {
        rdr: csv::ReaderBuilder::new()
            .has_headers(false)
            .delimiter(delim)
            .quote(quote)
            .from_reader(std::io::Cursor::new(bytes.clone())),
        bytes,
        delimiter: delim,
        quote_byte: quote,
        quoting: true,
        mark: 0,
    }
}

/// Relies on csv::ReaderBuilder as `new_stream` does, with `quoting(false)`:
/// quote bytes are ordinary field content. The model writes this
/// configuration as quote byte zero.
#[verifier::external_body]
pub(crate) fn new_stream_noquote(text: &str, delim: u8) -> (s: RecordStream)
    ensures
        stream_rows(s) == csv_rows(text@, delim, 0),
        stream_at(s) == 0,
        stream_mark(s) == 0,
        stream_rows(s).len() <= isize::MAX as int,
        forall|i: int| stream_fails_at(s, i) == csv_row_fails(text@, delim, 0, i),
{
    let bytes = text.as_bytes().to_vec();
    RecordStream {
        rdr: csv::ReaderBuilder::new()
            .has_headers(false)
            .delimiter(delim)
            .quoting(false)
            .from_reader(std::io::Cursor::new(bytes.clone())),
        bytes,
        delimiter: delim,
        quote_byte: 34,
        quoting: false,
        mark: 0,
    }
}

/// Relies on csv::Reader::read_record: reads the record at the stream's
/// position and advances past it, reports end of input distinctly from a
/// parse error, and errs exactly when that record is malformed (an
/// in-memory read has no other failure source, and at end of input there is
/// no record left to be malformed). A yielded record always has at least
/// one field.
#[verifier::external_body]
pub(crate) fn read_row(s: &mut RecordStream) -> (r: Result<Option<Vec<String>>, String>)
    ensures
        stream_rows(*final(s)) == stream_rows(*old(s)),
        stream_mark(*final(s)) == stream_mark(*old(s)),
        forall|i: int| stream_fails_at(*final(s), i) == stream_fails_at(*old(s), i),
        match r {
            Ok(Some(rec)) => {
                &&& stream_at(*old(s)) < stream_rows(*old(s)).len()
                &&& rec.deep_view() == stream_rows(*old(s))[stream_at(*old(s))]
                &&& rec@.len() >= 1
                &&& stream_at(*final(s)) == stream_at(*old(s)) + 1
                &&& !stream_fails_at(*old(s), stream_at(*old(s)))
            },
            Ok(None) => {
                &&& stream_at(*old(s)) >= stream_rows(*old(s)).len()
                &&& stream_at(*final(s)) == stream_at(*old(s))
                &&& !stream_fails_at(*old(s), stream_at(*old(s)))
            },
            Err(_) => stream_fails_at(*old(s), stream_at(*old(s))) && stream_at(*old(s))
                < stream_rows(*old(s)).len(),
        },
{
    let mut rec = csv::StringRecord::new();
    match s.rdr.read_record(&mut rec) {
        Ok(true) => Ok(Some(rec.iter().map(|f| f.to_string()).collect())),
        Ok(false) => Ok(None),
        Err(e) => Err(e.to_string()),
    }
}

/// Relies on csv::Reader::position, whose record count is the number of
/// records read so far: the mark names exactly the next unread record.
#[verifier::external_body]
pub(crate) fn set_mark(s: &mut RecordStream)
    ensures
        stream_rows(*final(s)) == stream_rows(*old(s)),
        stream_at(*final(s)) == stream_at(*old(s)),
        stream_mark(*final(s)) == stream_at(*old(s)),
        forall|i: int| stream_fails_at(*final(s), i) == stream_fails_at(*old(s), i),
{
    s.mark = s.rdr.position().record();
}

/// Replays the stream up to its mark: a fresh reader over the stored bytes
/// (built as at construction), advanced with csv::Reader::read_byte_record
/// past the marked number of records. The replayed state is byte for byte
/// the sequential parse, so later reads yield exactly the records the first
/// pass yielded. The error arm is never taken: a mark is only ever set
/// after successful reads, replaying is deterministic, a raw byte read does
/// no text decoding, and the first record sets the expected field count
/// rather than being checked against it; the arm is kept so the body
/// forwards the library's error type honestly.
#[verifier::external_body]
pub(crate) fn rewind(s: &mut RecordStream) -> (r: Result<(), String>)
    ensures
        stream_rows(*final(s)) == stream_rows(*old(s)),
        stream_mark(*final(s)) == stream_mark(*old(s)),
        forall|i: int| stream_fails_at(*final(s), i) == stream_fails_at(*old(s), i),
        r matches Ok(_),
        stream_at(*final(s)) == stream_mark(*old(s)),
{
    s.rdr = csv::ReaderBuilder::new()
        .has_headers(false)
        .delimiter(s.delimiter)
        .quote(s.quote_byte)
        .quoting(s.quoting)
        .from_reader(std::io::Cursor::new(s.bytes.clone()));
    let mut rec = csv::ByteRecord::new();
    let mut k: u64 = 0;
    while k < s.mark {
        if !s.rdr.read_byte_record(&mut rec).map_err(|e| e.to_string())? {
            break;
        }
        k += 1;
    }
    Ok(())
}

} // verus!
