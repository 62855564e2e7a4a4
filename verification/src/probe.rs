//! Taking a schema from the leading records of a file.

use crate::config::CliCfg;
use crate::error::{LoadError, SchemaInconsistencyError};
use crate::field::{
    columns, header_fields, named_columns, numbered_columns, numbered_fields, ordered, Column, Field,
};
use crate::record::{Records, StringRecordParamed};
use crate::text::texts;
use vstd::prelude::*;

verus! {

/// The schema inferred from a file, with what the load pass needs to know of the probe.
#[derive(Debug, Clone, PartialEq, Eq)]
pub struct FileSchema {
    /// The columns, in order.
    pub fields: Vec<Field>,
    /// The reference width: the field count of the first record.
    pub width: usize,
    /// Whether the first record was taken as the header.
    pub header_present: bool,
}

/// What a [`FileSchema`] stands for.
pub struct Probe {
    pub columns: Seq<Column>,
    pub width: nat,
    pub header_present: bool,
}

impl View for FileSchema {
    type V = Probe;

    open spec fn view(&self) -> Probe {
        Probe {
            columns: columns(self.fields@),
            width: self.width as nat,
            header_present: self.header_present,
        }
    }
}

/// How a probe ends when every read succeeds.
pub enum Verdict {
    /// A schema was found.
    Schema(Probe),
    /// A sampled record has another width than the first one.
    Inconsistent { line: nat, found: nat, expected: nat },
    /// Nothing usable was found.
    Empty,
}

/// The largest number of records that a probe reads: the sample, and the header if there is
/// one. A sample size of zero stands for the whole file, which is at most `u64::MAX` records.
pub open spec fn sample_limit(header_present: bool, sample_size: u64) -> nat {
    let wanted = sample_size as nat + header_rows(header_present);
    if sample_size == 0 || wanted > u64::MAX {
        u64::MAX as nat
    } else {
        wanted
    }
}

/// The number of leading records that are not data: one under a header, else none.
pub open spec fn header_rows(header_present: bool) -> nat {
    if header_present {
        1
    } else {
        0
    }
}

/// The index of the first among the records `1 .. n` of `s` whose width differs from that of
/// record `0`, if there is one.
pub open spec fn first_drift(s: Seq<Seq<Seq<char>>>, n: int) -> Option<int>
    decreases n,
{
    if n <= 1 {
        None
    } else {
        match first_drift(s, n - 1) {
            Some(i) => Some(i),
            None => if s[n - 1].len() != s[0].len() {
                Some(n - 1)
            } else {
                None
            },
        }
    }
}

/// Whether the first record of `read` makes a schema: there is a data record to confirm its
/// width, it has a field, and its fields can be numbered by column ordinals.
pub open spec fn usable(read: Seq<Seq<Seq<char>>>, header_present: bool) -> bool {
    &&& read.len() > header_rows(header_present)
    &&& 0 < read[0].len() <= u32::MAX
}

/// The schema that the first record of `read` gives: its fields as names under a header, else
/// names made from the positions.
pub open spec fn schema_of(read: Seq<Seq<Seq<char>>>, header_present: bool) -> Probe {
    Probe {
        columns: if header_present {
            named_columns(read[0])
        } else {
            numbered_columns(read[0].len())
        },
        width: read[0].len(),
        header_present,
    }
}

/// The verdict on the records `read`, which are those that the probe has looked at. Width drift
/// is reported first, at the earliest record that shows it, with records counted from one;
/// with `ignore_field_count` it is not looked for.
pub open spec fn probe(read: Seq<Seq<Seq<char>>>, header_present: bool, ignore_field_count: bool) -> Verdict {
    let drift = if ignore_field_count {
        None
    } else {
        first_drift(read, read.len() as int)
    };
    match drift {
        Some(i) => Verdict::Inconsistent {
            line: (i + 1) as nat,
            found: read[i].len(),
            expected: read[0].len(),
        },
        None => if usable(read, header_present) {
            Verdict::Schema(schema_of(read, header_present))
        } else {
            Verdict::Empty
        },
    }
}

/// The probe that left `records` behind came to a schema: it stopped at the end of the stream
/// or with the sample full, and the verdict on what it read is a schema.
pub open spec fn came_to_schema(records: &Records<'_>, cfg: &CliCfg) -> bool {
    &&& records.ended() || records.count() == sample_limit(cfg.headeron, cfg.sanity_sample)
    &&& probe(records.seen(), cfg.headeron, cfg.ignore_field_count) is Schema
}

/// The verdict that a result of [`detect_file_schema`] stands for, where it is one.
pub open spec fn verdict_of(res: Result<FileSchema, LoadError>) -> Option<Verdict> {
    match res {
        Ok(schema) => Some(Verdict::Schema(schema@)),
        Err(LoadError::SchemaInconsistency(e)) => Some(
            Verdict::Inconsistent {
                line: e.line as nat,
                found: e.found as nat,
                expected: e.expected as nat,
            },
        ),
        Err(LoadError::EmptySchema) => Some(Verdict::Empty),
        Err(_) => None,
    }
}

/// The first drift is the least index, from one on, of a record whose width is not that of
/// the first record.
pub proof fn lemma_first_drift_is_least(s: Seq<Seq<Seq<char>>>, n: int)
    ensures
        first_drift(s, n) matches Some(i) ==> {
            &&& 1 <= i < n
            &&& s[i].len() != s[0].len()
            &&& forall|j: int| 1 <= j < i ==> (#[trigger] s[j]).len() == s[0].len()
        },
        first_drift(s, n) is None ==> forall|j: int|
            1 <= j < n ==> (#[trigger] s[j]).len() == s[0].len(),
    decreases n,
{
    if n > 1 {
        lemma_first_drift_is_least(s, n - 1);
    }
}

/// A probe reports drift at the earliest record that shows it, and gives a schema only where
/// no record that it looked at drifts, unless drift is ignored.
pub proof fn law_probe_reports_the_first_drift(
    read: Seq<Seq<Seq<char>>>,
    header_present: bool,
    ignore_field_count: bool,
)
    ensures
        probe(read, header_present, ignore_field_count) matches Verdict::Inconsistent {
            line,
            found,
            expected,
        } ==> {
            &&& !ignore_field_count
            &&& 2 <= line <= read.len()
            &&& found == read[line - 1].len()
            &&& expected == read[0].len()
            &&& found != expected
            &&& forall|j: int| 1 <= j < line - 1 ==> (#[trigger] read[j]).len() == read[0].len()
        },
        !ignore_field_count && !(probe(read, header_present, ignore_field_count)
            is Inconsistent) ==> forall|j: int|
            1 <= j < read.len() ==> (#[trigger] read[j]).len() == read[0].len(),
        probe(read, header_present, ignore_field_count) matches Verdict::Schema(found) ==> {
            &&& found.width == read[0].len()
            &&& found.columns.len() == found.width
            &&& found.header_present == header_present
            &&& read.len() > header_rows(header_present)
        },
{
    lemma_first_drift_is_least(read, read.len() as int);
}

/// Records that come later do not change the first drift among the earlier ones.
pub proof fn lemma_first_drift_push(s: Seq<Seq<Seq<char>>>, r: Seq<Seq<char>>, n: int)
    requires
        n <= s.len(),
    ensures
        first_drift(s.push(r), n) == first_drift(s, n),
    decreases n,
{
    if n > 1 {
        lemma_first_drift_push(s, r, n - 1);
    }
}

/// The largest number of records that a probe with these options reads.
pub fn sample_limit_of(header_present: bool, sample_size: u64) -> (limit: u64)
    ensures
        limit == sample_limit(header_present, sample_size),
{
    if sample_size == 0 {
        u64::MAX
    } else if header_present {
        if sample_size == u64::MAX {
            u64::MAX
        } else {
            sample_size + 1
        }
    } else {
        sample_size
    }
}

/// Holds a sampled record of `found` fields, the `line`-th of its file, against the reference
/// width `expected`.
pub fn check_sample(line: u64, found: usize, expected: usize, ignore_field_count: bool) -> (res:
    Result<(), SchemaInconsistencyError>)
    ensures
        res is Err <==> !ignore_field_count && found != expected,
        res matches Err(e) ==> e == (SchemaInconsistencyError { line, found, expected }),
{
    if !ignore_field_count && found != expected {
        Err(SchemaInconsistencyError { line, found, expected })
    } else {
        Ok(())
    }
}

/// The reference width: the number of header fields under a header, else `width`.
pub open spec fn reference_width(header_present: bool, first: Seq<String>, width: usize) -> nat {
    if header_present {
        first.len()
    } else {
        width as nat
    }
}

/// Makes the schema once sampling is over. `read` is the number of records looked at. Under a
/// header, `first` holds the fields of the header and `width` is not looked at; without one,
/// `width` is the field count of the first record and `first` is not looked at.
pub fn conclude(header_present: bool, first: &Vec<String>, width: usize, read: u64) -> (res: Result<
    FileSchema,
    LoadError,
>)
    ensures
        res is Ok <==> read > header_rows(header_present) && 0 < reference_width(
            header_present,
            first@,
            width,
        ) <= u32::MAX,
        res matches Ok(schema) ==> {
            &&& schema@.columns == if header_present {
                named_columns(texts(first@))
            } else {
                numbered_columns(width as nat)
            }
            &&& schema@.width == reference_width(header_present, first@, width)
            &&& schema@.header_present == header_present
            &&& ordered(schema@.columns)
            &&& schema@.columns.len() == schema@.width
        },
        res matches Err(e) ==> e is EmptySchema,
{
    let needed: u64 = if header_present { 1 } else { 0 };
    let width = if header_present { first.len() } else { width };
    if read <= needed || width == 0 || width > u32::MAX as usize {
        return Err(LoadError::EmptySchema);
    }
    let fields = if header_present {
        header_fields(first)
    } else {
        numbered_fields(width as u32)
    };
    Ok(FileSchema { fields, width, header_present })
}

/// Reads the leading records of a file and takes its schema from them.
///
/// At most [`sample_limit`] records are read, and reading stops at the first record whose
/// width drifts. Where every read succeeds, the result is the [`probe`] verdict on the
/// records that were read; a schema or the empty verdict is given only once the sample is
/// full or the stream has ended. A read that fails ends the probe with the reader's error.
pub fn detect_file_schema(cfg: &CliCfg, records: &mut Records<'_>) -> (res: Result<FileSchema, LoadError>)
    requires
        old(records).fresh(),
    ensures
        final(records).same_source_as(old(records)),
        final(records).seen().len() == final(records).count(),
        final(records).count() <= sample_limit(cfg.headeron, cfg.sanity_sample),
        verdict_of(res) matches Some(v) ==> v == probe(
            final(records).seen(),
            cfg.headeron,
            cfg.ignore_field_count,
        ),
        verdict_of(res) is None ==> (res matches Err(e) && (e is Io || e is MalformedRecord || e
            is TooLarge)),
        verdict_of(res) is None ==> !final(records).ended() && final(records).count()
            < sample_limit(cfg.headeron, cfg.sanity_sample),
        res is Ok <==> came_to_schema(final(records), cfg),
        res is Ok || (res matches Err(LoadError::EmptySchema)) ==> {
            ||| final(records).ended()
            ||| final(records).count() == sample_limit(cfg.headeron, cfg.sanity_sample)
        },
        res matches Err(LoadError::SchemaInconsistency(e)) ==> e.line == final(records).count(),
        res matches Ok(schema) ==> ordered(schema@.columns) && schema@.columns.len()
            == schema@.width,
{
    let limit = sample_limit_of(cfg.headeron, cfg.sanity_sample);
    let mut rec = StringRecordParamed::empty();
    let mut first: Vec<String> = Vec::new();
    let mut width: usize = 0;
    let mut line: u64 = 0;
    let mut more = true;
    while more && line < limit
        invariant
            limit == sample_limit(cfg.headeron, cfg.sanity_sample),
            records.same_source_as(old(records)),
            line == records.count(),
            line == records.seen().len(),
            line <= limit,
            more == !records.ended(),
            line >= 1 ==> width == records.seen()[0].len(),
            line >= 1 && cfg.headeron ==> texts(first@) == records.seen()[0],
            !cfg.ignore_field_count ==> first_drift(records.seen(), line as int) is None,
        decreases (if more { 1nat } else { 0nat }) + limit - line,
    {
        let ghost before = records.seen();
        match records.next(&mut rec) {
            Err(e) => {
                return Err(e);
            },
            Ok(false) => {
                more = false;
            },
            Ok(true) => {
                line = line + 1;
                let found = rec.len();
                proof {
                    lemma_first_drift_push(before, rec.fields(), line - 1);
                }
                if line == 1 {
                    width = found;
                    if cfg.headeron {
                        first = rec.texts();
                    }
                } else {
                    match check_sample(line, found, width, cfg.ignore_field_count) {
                        Err(e) => {
                            return Err(LoadError::SchemaInconsistency(e));
                        },
                        Ok(()) => {},
                    }
                }
            },
        }
    }
    conclude(cfg.headeron, &first, width, line)
}

} // verus!
