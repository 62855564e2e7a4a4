//! The options of one run.

use vstd::prelude::*;
use vstd::string::StringSliceAdditionalSpecFns;

verus! {

/// `std::path::PathBuf`, a path in the file system. It is only handed on.
#[verifier::external_type_specification]
#[verifier::external_body]
pub struct ExPathBuf(std::path::PathBuf);

/// Everything a run is configured with. It is built once and handed by reference to whoever
/// needs it.
#[derive(Debug)]
pub struct CliCfg {
    /// List of input files.
    pub files: Vec<std::path::PathBuf>,
    /// Pattern whose first group gives the table name when matched against a file's path.
    pub file_re: Option<String>,
    /// Table into which to write data.
    pub tablename: Option<String>,
    /// The database to import into.
    pub db_file: std::path::PathBuf,
    /// Verbosity: each step asks for more detail.
    pub verbose: usize,
    /// Field separator used in the input.
    pub field_sep: u8,
    /// Replace a table that already exists.
    pub overwrite_tables: bool,
    /// Quote used for field parsing.
    pub quote: u8,
    /// Escape used for field parsing, if any.
    pub escape: Option<u8>,
    /// Lines that start with this byte are skipped.
    pub comment: Option<u8>,
    /// The first record of a file names its columns.
    pub headeron: bool,
    /// Number of records to check against the reference width; zero means all.
    pub sanity_sample: u64,
    /// Let records through whose field count differs from the header's or the table's.
    pub ignore_field_count: bool,
    /// Queries to run after the import.
    pub sqls: Vec<String>,
    /// Delimiter of the query report.
    pub out_delimiter: String,
    /// Keep the database in memory.
    pub memory: bool,
}

/// How much a run reports.
#[derive(Debug, Clone, Copy, PartialEq, Eq, Structural)]
pub enum Verbosity {
    Warn,
    Info,
    Debug,
    Trace,
}

/// The level that a count of verbosity flags asks for: one flag for `Info`, two for `Debug`,
/// three for `Trace`, anything else for `Warn`.
pub open spec fn level_of(verbose: nat) -> Verbosity {
    if verbose == 3 {
        Verbosity::Trace
    } else if verbose == 2 {
        Verbosity::Debug
    } else if verbose == 1 {
        Verbosity::Info
    } else {
        Verbosity::Warn
    }
}

/// The first byte of `src`, which is how a separator, quote, escape or comment is given; `None`
/// where `src` is empty.
pub fn parse_char_into_u8(src: &str) -> (b: Option<u8>)
    ensures
        src.spec_bytes().len() == 0 <==> b is None,
        b matches Some(first) ==> first == src.spec_bytes()[0],
{
    let bytes = src.as_bytes();
    if bytes.len() == 0 {
        None
    } else {
        Some(bytes[0])
    }
}

impl CliCfg {
    /// The reporting level that the options ask for.
    pub fn verbosity(&self) -> (v: Verbosity)
        ensures
            v == level_of(self.verbose as nat),
    {
        match self.verbose {
            3 => Verbosity::Trace,
            2 => Verbosity::Debug,
            1 => Verbosity::Info,
            _ => Verbosity::Warn,
        }
    }

    /// Whether the table is named in exactly one way: by a pattern or by a fixed name.
    pub fn names_table_once(&self) -> (b: bool)
        ensures
            b == (self.file_re is None != self.tablename is None),
    {
        self.file_re.is_none() != self.tablename.is_none()
    }

    /// Whether records are held to the expected width.
    pub fn polices_width(&self) -> (b: bool)
        ensures
            b == !self.ignore_field_count,
    {
        !self.ignore_field_count
    }
}

} // verus!
