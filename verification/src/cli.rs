//! The command-line configuration: which sources to read and which of the
//! four counters to display, with the conventional defaults applied.

use vstd::prelude::*;
use vstd::string::StringExecFns;

verus! {

/// The resolved invocation: the sources to measure and the counters to show.
pub struct Cli {
    pub files: Vec<String>,
    pub lines: bool,
    pub words: bool,
    pub bytes: bool,
    pub chars: bool,
}

impl Cli {
    /// Whether a trailing total row is owed: more than one source was
    /// requested.
    pub fn needs_total(&self) -> (r: bool)
        ensures
            r == (self.files@.len() > 1),
    {
        self.files.len() > 1
    }
}

/// A malformed invocation, rejected before any source is read.
#[derive(Debug)]
pub enum ArgError {
    /// The byte count and the character count were both requested, though
    /// each suppresses the other.
    ConflictingFlags,
}

impl ArgError {
    /// A human-readable description of the failure.
    pub fn message(&self) -> (r: String)
        ensures
            r@ == "the byte count and the character count cannot be requested together"@,
    {
        "the byte count and the character count cannot be requested together".to_owned()
    }
}

/// Resolves the raw flag values into a configuration: rejects a request for
/// both bytes and characters; selects lines, words, and bytes when no flag
/// was given; and reads standard input when no source was named.
pub fn get_args(files: Vec<String>, lines: bool, words: bool, bytes: bool, chars: bool) -> (r:
    Result<Cli, ArgError>)
    ensures
        (bytes && chars) <==> (r is Err),
        !(bytes && chars) ==> (r matches Ok(cli) && (files@.len() > 0 ==> cli.files@ == files@) && (
        files@.len() == 0 ==> cli.files@.len() == 1 && cli.files@[0]@ == "-"@) && (if !lines
            && !words && !bytes && !chars {
            cli.lines && cli.words && cli.bytes && !cli.chars
        } else {
            cli.lines == lines && cli.words == words && cli.bytes == bytes && cli.chars == chars
        })),
{
    if bytes && chars {
        return Err(ArgError::ConflictingFlags);
    }
    let mut files = files;
    if files.len() == 0 {
        files.push(String::from_str("-"));
    }
    if !lines && !words && !bytes && !chars {
        Ok(Cli { files, lines: true, words: true, bytes: true, chars: false })
    } else {
        Ok(Cli { files, lines, words, bytes, chars })
    }
}

} // verus!
