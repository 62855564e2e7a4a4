//! Which table a file goes to.

use crate::config::CliCfg;
use vstd::prelude::*;

verus! {

/// `regex::Error`, the failure to compile a pattern. It is only handed on.
#[verifier::external_type_specification]
#[verifier::external_body]
pub struct ExPatternError(regex::Error);

/// What the first search of `pattern` in `text` captures in the group numbered `group`: `None`
/// where the pattern does not match, else what that group matched, if there is such a group
/// and it took part in the match.
pub uninterp spec fn captured_group(pattern: Seq<char>, text: Seq<char>, group: nat) -> Option<
    Option<Seq<char>>,
>;

/// What a capture stands for.
pub open spec fn capture_view(found: Option<Option<String>>) -> Option<Option<Seq<char>>> {
    match found {
        None => None,
        Some(None) => Some(None),
        Some(Some(s)) => Some(Some(s@)),
    }
}

/// The group of a pattern that holds the table name: the first.
pub open spec fn name_group() -> nat {
    1
}

/// `regex::Regex::new` compiles `pattern`, and `regex::Regex::captures` gives its first match
/// in `text`, of which `regex::Captures::get` takes the group numbered `group`. Whether a
/// pattern compiles is left open, since the limit on the size of a compiled pattern is
/// counted in bytes of the machine at hand; what a compiled pattern captures is
/// `captured_group`.
#[verifier::external_body]
fn capture_group(pattern: &str, text: &str, group: usize) -> (r: Result<
    Option<Option<String>>,
    regex::Error,
>)
    ensures
        r matches Ok(found) ==> capture_view(found) == captured_group(
            pattern@,
            text@,
            group as nat,
        ),
{
    let re = regex::Regex::new(pattern)?;
    Ok(re.captures(text).map(|caps| caps.get(group).map(|m| m.as_str().to_string())))
}

/// The message that `regex::Error` displays. Nothing is claimed of it.
#[verifier::external_body]
fn pattern_error_text(e: &regex::Error) -> (s: String) {
    format!("{}", e)
}

/// Why no table name was found for a file.
#[derive(Debug, Clone, PartialEq, Eq)]
pub enum TableNameError {
    /// The pattern could not be compiled; holds the message.
    BadPattern(String),
    /// The pattern does not match the path of the file.
    NoMatch,
    /// The pattern matches, but its first group is missing or took no part in the match.
    NoGroup,
    /// The options give neither a pattern nor a name.
    Unnamed,
}

/// The table name that a capture gives.
pub fn name_from_capture(found: Option<Option<String>>) -> (res: Result<String, TableNameError>)
    ensures
        match capture_view(found) {
            None => res == Err::<String, TableNameError>(TableNameError::NoMatch),
            Some(None) => res == Err::<String, TableNameError>(TableNameError::NoGroup),
            Some(Some(name)) => res matches Ok(n) && n@ == name,
        },
{
    match found {
        None => Err(TableNameError::NoMatch),
        Some(None) => Err(TableNameError::NoGroup),
        Some(Some(name)) => Ok(name),
    }
}

/// What a search gave: a capture, or the message of a pattern that did not compile.
pub open spec fn search_view(searched: Result<Option<Option<String>>, String>) -> Result<
    Option<Option<Seq<char>>>,
    Seq<char>,
> {
    match searched {
        Ok(found) => Ok(capture_view(found)),
        Err(message) => Err(message@),
    }
}

/// The table name that a search gives: the captured group, and an error where the pattern did
/// not compile, did not match, or has no such group in its match.
pub fn name_from_search(searched: Result<Option<Option<String>>, String>) -> (res: Result<
    String,
    TableNameError,
>)
    ensures
        match search_view(searched) {
            Err(message) => res matches Err(TableNameError::BadPattern(m)) && m@ == message,
            Ok(None) => res == Err::<String, TableNameError>(TableNameError::NoMatch),
            Ok(Some(None)) => res == Err::<String, TableNameError>(TableNameError::NoGroup),
            Ok(Some(Some(name))) => res matches Ok(n) && n@ == name,
        },
{
    match searched {
        Ok(found) => name_from_capture(found),
        Err(message) => Err(TableNameError::BadPattern(message)),
    }
}

/// The name of the table that the file at `path` goes to.
///
/// With a pattern in the options, the name is what the first group of the pattern captures
/// in `path`; a fixed name is then not looked at. Without a pattern it is the fixed name.
pub fn get_table_name(cfg: &CliCfg, path: &str) -> (res: Result<String, TableNameError>)
    ensures
        cfg.file_re matches Some(pattern) ==> {
            ||| res matches Err(TableNameError::BadPattern(_))
            ||| match captured_group(pattern@, path@, name_group()) {
                None => res == Err::<String, TableNameError>(TableNameError::NoMatch),
                Some(None) => res == Err::<String, TableNameError>(TableNameError::NoGroup),
                Some(Some(name)) => res matches Ok(n) && n@ == name,
            }
        },
        cfg.file_re is None ==> match cfg.tablename {
            Some(name) => res matches Ok(n) && n@ == name@,
            None => res == Err::<String, TableNameError>(TableNameError::Unnamed),
        },
{
    match &cfg.file_re {
        Some(pattern) => {
            let searched = match capture_group(pattern.as_str(), path, 1) {
                Ok(found) => Ok(found),
                Err(e) => Err(pattern_error_text(&e)),
            };
            name_from_search(searched)
        },
        None => match &cfg.tablename {
            Some(name) => Ok(name.clone()),
            None => Err(TableNameError::Unnamed),
        },
    }
}

} // verus!
