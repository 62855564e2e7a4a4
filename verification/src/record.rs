//! Records of a delimited text stream, read through the `csv` crate.

use crate::config::CliCfg;
use crate::error::LoadError;
use crate::text::texts;
use vstd::prelude::*;

verus! {

/// `csv::StringRecord`, a record as the reader fills it. What it holds is [`record_fields`].
#[verifier::external_type_specification]
#[verifier::external_body]
pub struct ExStringRecord(csv::StringRecord);

/// `csv::ReaderBuilder`, the settings of a reader. It is only handed on.
#[verifier::external_type_specification]
#[verifier::external_body]
pub struct ExReaderBuilder(csv::ReaderBuilder);

/// `csv::Reader`, a reader of records over a stream of bytes. It is only handed on.
#[verifier::external_type_specification]
#[verifier::external_body]
#[verifier::reject_recursive_types(R)]
pub struct ExReader<R>(csv::Reader<R>);

/// `csv::Error`, the failure of a read. It is only handed on.
#[verifier::external_type_specification]
#[verifier::external_body]
pub struct ExReadError(csv::Error);

/// `grep_cli::DecompressionReader`, a file that is decompressed as it is read. It is only
/// handed on.
#[verifier::external_type_specification]
#[verifier::external_body]
pub struct ExDecompressionReader(grep_cli::DecompressionReader);

/// The fields that a `csv::StringRecord` holds, in order.
pub uninterp spec fn record_fields(rec: csv::StringRecord) -> Seq<Seq<char>>;

/// `csv::StringRecord::new` gives a record without fields.
pub assume_specification[ csv::StringRecord::new ]() -> (rec: csv::StringRecord)
    ensures
        record_fields(rec) == Seq::<Seq<char>>::empty(),
;

/// `csv::StringRecord::len` gives the number of fields in the record.
pub assume_specification[ csv::StringRecord::len ](rec: &csv::StringRecord) -> (n: usize)
    ensures
        n == record_fields(*rec).len(),
;

/// `csv::StringRecord::iter` walks the fields of the record in order; each is copied into a
/// `String` of its own.
#[verifier::external_body]
fn field_texts(rec: &csv::StringRecord) -> (v: Vec<String>)
    ensures
        texts(v@) == record_fields(*rec),
{
    rec.iter().map(|f| f.to_string()).collect()
}

/// `csv::Error::is_io_error` tells whether the error came from the underlying stream. Nothing
/// is claimed of the answer.
pub assume_specification[ csv::Error::is_io_error ](e: &csv::Error) -> (b: bool)
;

/// The message that `csv::Error` displays. Nothing is claimed of it.
#[verifier::external_body]
fn read_error_text(e: &csv::Error) -> (s: String) {
    format!("{}", e)
}

/// How a reader takes its bytes apart.
#[derive(Debug, Clone, Copy, PartialEq, Eq, Structural)]
pub struct ReaderSettings {
    /// The byte between two fields.
    pub separator: u8,
    /// The byte that opens and closes a quoted field.
    pub quote: u8,
    /// The byte that takes the meaning from the byte after it, if there is one.
    pub escape: Option<u8>,
    /// The byte that makes a line a comment when the line starts with it, if there is one.
    pub comment: Option<u8>,
    /// Whether the reader keeps the first record to itself as a header row.
    pub has_headers: bool,
    /// Whether records may differ in their number of fields.
    pub flexible: bool,
}

/// The settings for reading a file under `cfg`: its separator, quote, escape and comment; no
/// header row is kept back, so that the first record is handed out like any other; and records
/// of any width are let through.
pub open spec fn reader_settings(cfg: &CliCfg) -> ReaderSettings {
    ReaderSettings {
        separator: cfg.field_sep,
        quote: cfg.quote,
        escape: cfg.escape,
        comment: cfg.comment,
        has_headers: false,
        flexible: true,
    }
}

/// Makes the settings for reading a file under `cfg`.
pub fn settings_of(cfg: &CliCfg) -> (settings: ReaderSettings)
    ensures
        settings == reader_settings(cfg),
{
    ReaderSettings {
        separator: cfg.field_sep,
        quote: cfg.quote,
        escape: cfg.escape,
        comment: cfg.comment,
        has_headers: false,
        flexible: true,
    }
}

/// `csv::ReaderBuilder`: a builder with the delimiter, quote, escape and comment bytes of
/// `settings` set, and with its two switches for a header row and for records of uneven width.
/// Nothing is claimed of it.
#[verifier::external_body]
fn reader_builder(settings: ReaderSettings) -> (b: csv::ReaderBuilder) {
    let mut b = csv::ReaderBuilder::new();
    b.delimiter(settings.separator).has_headers(settings.has_headers).flexible(
        settings.flexible,
    ).escape(settings.escape).quote(settings.quote).comment(settings.comment);
    b
}

/// `csv::ReaderBuilder::from_reader` over a file that is decompressed as it is read.
#[verifier::external_body]
fn stream_reader(b: &csv::ReaderBuilder, rdr: grep_cli::DecompressionReader) -> (r: csv::Reader<
    grep_cli::DecompressionReader,
>) {
    b.from_reader(rdr)
}

/// `csv::ReaderBuilder::from_reader` over bytes held in memory.
#[verifier::external_body]
fn bytes_reader<'a>(b: &csv::ReaderBuilder, data: &'a [u8]) -> (r: csv::Reader<&'a [u8]>) {
    b.from_reader(data)
}

/// Where records come from.
enum RecordSource<'a> {
    /// A file, decompressed while it is read.
    Stream(csv::Reader<grep_cli::DecompressionReader>),
    /// Text held in memory.
    Buffer(csv::Reader<&'a [u8]>),
}

/// `csv::Reader::read_record`, on a file that is decompressed as it is read: reads the next
/// record into `rec` and tells whether there was one. What it reads depends on the stream, so
/// nothing is claimed of the outcome.
#[verifier::external_body]
fn read_stream_into(
    rdr: &mut csv::Reader<grep_cli::DecompressionReader>,
    rec: &mut csv::StringRecord,
) -> (r: Result<bool, csv::Error>) {
    rdr.read_record(rec)
}

/// `csv::Reader::read_record`, on bytes held in memory: reads the next record into `rec` and
/// tells whether there was one. Nothing is claimed of the outcome.
#[verifier::external_body]
fn read_bytes_into(rdr: &mut csv::Reader<&[u8]>, rec: &mut csv::StringRecord) -> (r: Result<
    bool,
    csv::Error,
>) {
    rdr.read_record(rec)
}

/// One record, ready to be bound to the parameters of a statement.
pub struct StringRecordParamed {
    raw_rec: csv::StringRecord,
}

impl StringRecordParamed {
    /// The fields of the record, in order.
    pub closed spec fn fields(&self) -> Seq<Seq<char>> {
        record_fields(self.raw_rec)
    }

    /// The number of fields of the record.
    pub open spec fn width(&self) -> nat {
        self.fields().len()
    }

    /// Wraps a record as it was read.
    pub fn new(raw_rec: csv::StringRecord) -> (rec: StringRecordParamed)
        ensures
            rec.fields() == record_fields(raw_rec),
    {
        StringRecordParamed { raw_rec }
    }

    /// A record without fields, to read into.
    pub fn empty() -> (rec: StringRecordParamed)
        ensures
            rec.fields() == Seq::<Seq<char>>::empty(),
    {
        StringRecordParamed { raw_rec: csv::StringRecord::new() }
    }

    /// The number of fields.
    pub fn len(&self) -> (n: usize)
        ensures
            n == self.width(),
    {
        self.raw_rec.len()
    }

    /// The fields as strings of their own.
    pub fn texts(&self) -> (v: Vec<String>)
        ensures
            texts(v@) == self.fields(),
    {
        field_texts(&self.raw_rec)
    }

    /// The record as it was read.
    pub fn raw(&self) -> (raw: &csv::StringRecord)
        ensures
            record_fields(*raw) == self.fields(),
    {
        &self.raw_rec
    }
}

/// The error for a failed read with the message `text`: the stream's fault where
/// `from_stream` says so, else the fault of the record.
pub fn read_error_from(from_stream: bool, text: String) -> (err: LoadError)
    ensures
        from_stream ==> (err matches LoadError::Io(msg) && msg@ == text@),
        !from_stream ==> (err matches LoadError::MalformedRecord(msg) && msg@ == text@),
{
    if from_stream {
        LoadError::Io(text)
    } else {
        LoadError::MalformedRecord(text)
    }
}

/// The error that a failed read becomes.
pub fn read_error(e: &csv::Error) -> (err: LoadError)
    ensures
        err is Io || err is MalformedRecord,
{
    read_error_from(e.is_io_error(), read_error_text(e))
}

/// A stream of records that remembers what it has handed out.
pub struct Records<'a> {
    src: RecordSource<'a>,
    count: u64,
    settings: ReaderSettings,
    input: Ghost<Option<Seq<u8>>>,
    seen: Ghost<Seq<Seq<Seq<char>>>>,
    ended: Ghost<bool>,
}

impl<'a> Records<'a> {
    /// The records handed out so far, oldest first, each as the sequence of its fields.
    pub closed spec fn seen(&self) -> Seq<Seq<Seq<char>>> {
        self.seen@
    }

    /// The number of records handed out so far.
    pub closed spec fn count(&self) -> nat {
        self.count as nat
    }

    /// Whether the stream has said that no record is left.
    pub closed spec fn ended(&self) -> bool {
        self.ended@
    }

    /// Nothing has been read from the stream yet.
    pub open spec fn fresh(&self) -> bool {
        &&& self.seen() == Seq::<Seq<Seq<char>>>::empty()
        &&& self.count() == 0
        &&& !self.ended()
    }

    /// `self` is over the same source as `before`, read with the same settings.
    pub open spec fn same_source_as(&self, before: &Records<'a>) -> bool {
        &&& self.settings() == before.settings()
        &&& self.input() == before.input()
    }

    /// The settings that were handed to the reader when it was made.
    pub closed spec fn settings(&self) -> ReaderSettings {
        self.settings
    }

    /// The bytes that were handed to the reader when it was made, where it reads bytes held
    /// in memory; `None` where it reads a file.
    pub closed spec fn input(&self) -> Option<Seq<u8>> {
        self.input@
    }

    /// A reader with `settings` over `data`, which has handed out nothing yet.
    fn open_bytes(settings: ReaderSettings, data: &'a [u8]) -> (records: Records<'a>)
        ensures
            records.fresh(),
            records.settings() == settings,
            records.input() == Some(data@),
    {
        let b = reader_builder(settings);
        Records {
            src: RecordSource::Buffer(bytes_reader(&b, data)),
            count: 0,
            settings,
            input: Ghost(Some(data@)),
            seen: Ghost(Seq::empty()),
            ended: Ghost(false),
        }
    }

    /// A reader with `settings` over `rdr`, which has handed out nothing yet.
    fn open_stream(settings: ReaderSettings, rdr: grep_cli::DecompressionReader) -> (records:
        Records<'a>)
        ensures
            records.fresh(),
            records.settings() == settings,
            records.input() is None,
    {
        let b = reader_builder(settings);
        Records {
            src: RecordSource::Stream(stream_reader(&b, rdr)),
            count: 0,
            settings,
            input: Ghost(None),
            seen: Ghost(Seq::empty()),
            ended: Ghost(false),
        }
    }

    /// Reads `data` with the separator, quote, escape and comment bytes of `cfg`. Every record is
    /// handed out, the first one too, whatever its width.
    pub fn over_bytes(cfg: &CliCfg, data: &'a [u8]) -> (records: Records<'a>)
        ensures
            records.fresh(),
            records.settings() == reader_settings(cfg),
            records.input() == Some(data@),
    {
        Records::open_bytes(settings_of(cfg), data)
    }

    /// Reads `rdr` with the separator, quote, escape and comment bytes of `cfg`. Every record is
    /// handed out, the first one too, whatever its width.
    pub fn over_stream(cfg: &CliCfg, rdr: grep_cli::DecompressionReader) -> (records: Records<'a>)
        ensures
            records.fresh(),
            records.settings() == reader_settings(cfg),
            records.input() is None,
    {
        Records::open_stream(settings_of(cfg), rdr)
    }

    /// The settings that were handed to the reader when it was made.
    pub fn settings_in_use(&self) -> (settings: ReaderSettings)
        ensures
            settings == self.settings(),
    {
        self.settings
    }

    /// The number of records handed out so far.
    pub fn handed_out(&self) -> (n: u64)
        ensures
            n == self.count(),
    {
        self.count
    }

    /// Reads the next record into `rec`. `Ok(true)` says that there was one, `Ok(false)` that
    /// the stream is at its end. A stream that has handed out `u64::MAX` records hands out no
    /// more.
    pub fn next(&mut self, rec: &mut StringRecordParamed) -> (r: Result<bool, LoadError>)
        ensures
            r matches Ok(true) ==> {
                &&& final(self).seen() == old(self).seen().push(final(rec).fields())
                &&& final(self).count() == old(self).count() + 1
            },
            !(r matches Ok(true)) ==> {
                &&& final(self).seen() == old(self).seen()
                &&& final(self).count() == old(self).count()
            },
            final(self).ended() == (old(self).ended() || r matches Ok(false)),
            final(self).same_source_as(old(self)),
            r matches Err(e) ==> e is Io || e is MalformedRecord || e is TooLarge,
            r matches Err(LoadError::TooLarge) <==> old(self).count() == u64::MAX,
    {
        if self.count == u64::MAX {
            return Err(LoadError::TooLarge);
        }
        let read = match &mut self.src {
            RecordSource::Stream(rdr) => read_stream_into(rdr, &mut rec.raw_rec),
            RecordSource::Buffer(rdr) => read_bytes_into(rdr, &mut rec.raw_rec),
        };
        match read {
            Ok(true) => {
                self.count = self.count + 1;
                proof {
                    self.seen@ = self.seen@.push(rec.fields());
                }
                Ok(true)
            },
            Ok(false) => {
                proof {
                    self.ended@ = true;
                }
                Ok(false)
            },
            Err(e) => Err(read_error(&e)),
        }
    }
}

} // verus!
