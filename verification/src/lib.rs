//! Small helpers for command-line tools: ANSI decoration of text for the
//! terminal, and reading one trimmed line from a line-oriented input source.
//!
//! The library itself touches no stream. A caller hands it a `LineSource`,
//! which is asked once for its next line; what the caller gets back is that
//! line without the whitespace at its ends, or the report that the read
//! failed. Whether a failed read ends the program is the caller's choice.

use vstd::prelude::*;

pub mod colors;
pub mod trim;

use crate::trim::{is_trimmed, lemma_trimmed_cut, lemma_trimmed_fixed, trim, trimmed};

verus! {

/// What one read from a line source gave.
#[derive(Debug)]
pub enum ReadOutcome {
    /// A line as it was read, its terminator included if it had one.
    Line(String),
    /// The source had nothing more to give.
    EndOfStream,
    /// The read failed for another reason than the end of the stream.
    Failure,
}

/// The read of a line failed. There is nothing to recover: no text was read.
#[derive(Clone, Copy, Debug, PartialEq, Eq, Structural)]
pub struct ReadError;

impl ReadError {
    /// The diagnostic for a failed read.
    pub fn message(&self) -> (m: &'static str)
        ensures
            m@ == "Failed to read input line"@,
    {
        "Failed to read input line"
    }
}

/// Anything that yields lines one by one: the standard input of the
/// process, or a text in memory that stands in for it.
pub trait LineSource {
    /// Reads the next line, blocking until it is there.
    fn next_line(&mut self) -> ReadOutcome;
}

/// What a read amounts to for the caller: the trimmed line, the empty text
/// at the end of the stream, or the failure.
pub open spec fn line_of(outcome: ReadOutcome) -> Result<Seq<char>, ReadError> {
    match outcome {
        ReadOutcome::Line(raw) => Ok(trimmed(raw@)),
        ReadOutcome::EndOfStream => Ok(Seq::<char>::empty()),
        ReadOutcome::Failure => Err(ReadError),
    }
}

/// Turns the outcome of a read into the line to hand on. A line comes back
/// without the whitespace at its ends, so without its terminator; the end of
/// the stream is an empty line and no error; a failed read is the error, and
/// no text comes with it.
pub fn trimmed_line(outcome: ReadOutcome) -> (r: Result<String, ReadError>)
    ensures
        r is Ok <==> !(outcome is Failure),
        match r {
            Ok(line) => line_of(outcome) == Ok::<Seq<char>, ReadError>(line@),
            Err(e) => line_of(outcome) == Err::<Seq<char>, ReadError>(e),
        },
{
    match outcome {
        ReadOutcome::Line(raw) => Ok(trim(raw.as_str())),
        ReadOutcome::EndOfStream => Ok(String::new()),
        ReadOutcome::Failure => Err(ReadError),
    }
}

/// Reads one line from `source` and returns it trimmed.
///
/// The source is asked exactly once. Which line it gives is its own affair,
/// so the result is described for every outcome: a line that comes back
/// neither begins nor ends with whitespace, and `trimmed_line` says which
/// line it is for each outcome of the read.
pub fn _read_stdin<S: LineSource>(source: &mut S) -> (r: Result<String, ReadError>)
    ensures
        r matches Ok(line) ==> is_trimmed(line@),
{
    let outcome = source.next_line();
    proof {
        lemma_line_is_trimmed(outcome);
    }
    trimmed_line(outcome)
}

/// Whatever was read, a line that is handed on neither begins nor ends with
/// whitespace, and trimming it again changes nothing.
pub proof fn lemma_line_is_trimmed(outcome: ReadOutcome)
    ensures
        line_of(outcome) matches Ok(line) ==> is_trimmed(line) && trimmed(line) == line,
{
    match outcome {
        ReadOutcome::Line(raw) => {
            lemma_trimmed_cut(raw@);
            lemma_trimmed_fixed(trimmed(raw@));
        },
        _ => {
            lemma_trimmed_fixed(Seq::<char>::empty());
        },
    }
}

} // verus!
