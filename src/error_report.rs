//! Error reports handed back to the driver.
use vstd::prelude::*;
use crate::text::{decimal, push_decimal};

verus! {

/// A language error: the line it concerns, a location text and a message.
#[derive(Debug)]
pub struct LoxErrorReport {
    pub line_number: usize,
    pub location: String,
    pub message: String,
}

/// The text of a report: line, location and message.
pub open spec fn report_text(line: nat, location: Seq<char>, message: Seq<char>) -> Seq<char> {
    "Line: "@ + decimal(line) + ", Loc: "@ + location + ", Message: "@ + message
}

impl LoxErrorReport {
    pub fn new(line_number: usize, location: String, message: String) -> (r: LoxErrorReport)
        ensures
            r.line_number == line_number,
            r.location == location,
            r.message == message,
    {
        LoxErrorReport { line_number, location, message }
    }

    /// A copy of this report.
    pub fn duplicate(&self) -> (r: LoxErrorReport)
        ensures
            r == *self,
    {
        LoxErrorReport {
            line_number: self.line_number,
            location: self.location.clone(),
            message: self.message.clone(),
        }
    }

    /// The report as one line of text.
    pub fn to_text(&self) -> (r: String)
        ensures
            r@ == report_text(self.line_number as nat, self.location@, self.message@),
    {
        let mut out = String::from_str("Line: ");
        push_decimal(&mut out, self.line_number);
        out.append(", Loc: ");
        out.append(self.location.as_str());
        out.append(", Message: ");
        out.append(self.message.as_str());
        out
    }
}

impl Clone for LoxErrorReport {
    fn clone(&self) -> (r: LoxErrorReport)
        ensures
            r == *self,
    {
        self.duplicate()
    }
}

#[verifier::external_type_specification]
#[verifier::external_body]
pub struct ExIoError(std::io::Error);

/// An error of a whole run: reading the source failed, or the language
/// reported an error.
#[derive(Debug)]
pub enum LoxScriptError {
    IoError(std::io::Error),
    LoxError(LoxErrorReport),
}

impl From<LoxErrorReport> for LoxScriptError {
    fn from(err: LoxErrorReport) -> (r: LoxScriptError)
        ensures
            r == LoxScriptError::LoxError(err),
    {
        LoxScriptError::LoxError(err)
    }
}

impl vstd::std_specs::convert::FromSpecImpl<LoxErrorReport> for LoxScriptError {
    open spec fn obeys_from_spec() -> bool {
        true
    }

    open spec fn from_spec(err: LoxErrorReport) -> LoxScriptError {
        LoxScriptError::LoxError(err)
    }
}

impl From<std::io::Error> for LoxScriptError {
    fn from(err: std::io::Error) -> (r: LoxScriptError)
        ensures
            r == LoxScriptError::IoError(err),
    {
        LoxScriptError::IoError(err)
    }
}

impl vstd::std_specs::convert::FromSpecImpl<std::io::Error> for LoxScriptError {
    open spec fn obeys_from_spec() -> bool {
        true
    }

    open spec fn from_spec(err: std::io::Error) -> LoxScriptError {
        LoxScriptError::IoError(err)
    }
}

} // verus!
