//! Typed error values carrying a source range and a message, convertible to
//! a uniform diagnostic record. Each error kind bakes in a fixed string code
//! and numeric code; the taxonomy is closed and extended only by declaring a
//! new kind.

use vstd::prelude::*;

use crate::positions_and_ranges::CustomRange;

verus! {

/// Severity of a reported diagnostic.
#[derive(Clone, Copy, PartialEq, Eq, Structural, Debug)]
pub enum Severity {
    Error,
    Warning,
    Information,
    Hint,
}

/// Mathematical model of an [`Error`].
pub struct ErrorModel {
    pub message: Seq<char>,
    pub range: CustomRange,
    pub severity: Severity,
    pub code: Seq<char>,
    pub code_number: i32,
}

/// The uniform diagnostic record every error kind converts into.
/// Should not be directly constructed; use an error kind's `to_error`.
#[derive(Debug)]
pub struct Error {
    pub message: String,
    pub range: CustomRange,
    pub severity: Severity,
    pub code: String,
    pub code_number: i32,
}

impl View for Error {
    type V = ErrorModel;

    open spec fn view(&self) -> ErrorModel {
        ErrorModel {
            message: self.message@,
            range: self.range,
            severity: self.severity,
            code: self.code@,
            code_number: self.code_number,
        }
    }
}

impl Error {
    pub fn new(
        message: String,
        range: CustomRange,
        severity: Severity,
        code: String,
        code_number: i32,
    ) -> (r: Self)
        ensures
            r@ == (ErrorModel {
                message: message@,
                range,
                severity,
                code: code@,
                code_number,
            }),
    {
        Self { message, range, severity, code, code_number }
    }
}

/// The model of the error a [`SyntaxError`] with the given range and message
/// converts into.
pub open spec fn syntax_error_model(range: CustomRange, message: Seq<char>) -> ErrorModel {
    ErrorModel {
        message,
        range,
        severity: Severity::Error,
        code: "syntax_error"@,
        code_number: 0,
    }
}

/// A fatal lexical or syntactic error: an unexpected or missing token or
/// character, with a caller-supplied message.
#[derive(Debug)]
pub struct SyntaxError {
    pub range: CustomRange,
    pub message: String,
}

impl SyntaxError {
    pub fn new(range: CustomRange, message: String) -> (r: Self)
        ensures
            r.range == range,
            r.message@ == message@,
    {
        Self { range, message }
    }

    pub fn to_error(&self) -> (r: Error)
        ensures
            r@ == syntax_error_model(self.range, self.message@),
    {
        Error::new(
            self.message.clone(),
            self.range,
            Severity::Error,
            String::from_str("syntax_error"),
            0,
        )
    }
}

/// The model of the error a [`TargeterAlreadyDefinedError`] converts into.
pub open spec fn targeter_already_defined_error_model(range: CustomRange) -> ErrorModel {
    ErrorModel {
        message: "The targeter is already defined for this skill line!"@,
        range,
        severity: Severity::Error,
        code: "targeter_already_defined_error"@,
        code_number: 1,
    }
}

/// A second targeter was given for one skill line; the range is that of the
/// targeter already parsed.
#[derive(Debug)]
pub struct TargeterAlreadyDefinedError {
    pub range: CustomRange,
    pub message: String,
}

impl TargeterAlreadyDefinedError {
    pub fn new(range: CustomRange) -> (r: Self)
        ensures
            r.range == range,
            r.message@ == "The targeter is already defined for this skill line!"@,
    {
        Self {
            range,
            message: String::from_str("The targeter is already defined for this skill line!"),
        }
    }

    pub fn to_error(&self) -> (r: Error)
        ensures
            r@ == (ErrorModel {
                message: self.message@,
                range: self.range,
                severity: Severity::Error,
                code: "targeter_already_defined_error"@,
                code_number: 1,
            }),
    {
        Error::new(
            self.message.clone(),
            self.range,
            Severity::Error,
            String::from_str("targeter_already_defined_error"),
            1,
        )
    }
}

/// The model of the error a [`TriggerAlreadyDefinedError`] converts into.
pub open spec fn trigger_already_defined_error_model(range: CustomRange) -> ErrorModel {
    ErrorModel {
        message: "The trigger is already defined for this skill line!"@,
        range,
        severity: Severity::Error,
        code: "trigger_already_defined_error"@,
        code_number: 2,
    }
}

/// A second trigger was given for one skill line; the range is that of the
/// trigger already parsed.
#[derive(Debug)]
pub struct TriggerAlreadyDefinedError {
    pub range: CustomRange,
    pub message: String,
}

impl TriggerAlreadyDefinedError {
    pub fn new(range: CustomRange) -> (r: Self)
        ensures
            r.range == range,
            r.message@ == "The trigger is already defined for this skill line!"@,
    {
        Self {
            range,
            message: String::from_str("The trigger is already defined for this skill line!"),
        }
    }

    pub fn to_error(&self) -> (r: Error)
        ensures
            r@ == (ErrorModel {
                message: self.message@,
                range: self.range,
                severity: Severity::Error,
                code: "trigger_already_defined_error"@,
                code_number: 2,
            }),
    {
        Error::new(
            self.message.clone(),
            self.range,
            Severity::Error,
            String::from_str("trigger_already_defined_error"),
            2,
        )
    }
}

/// A document's top-level structure does not match what a schema expects;
/// the message names the expected and the encountered shape.
#[derive(Debug)]
pub struct InvalidConfigurationFileStructureError {
    pub range: CustomRange,
    pub message: String,
}

impl InvalidConfigurationFileStructureError {
    pub fn new(range: CustomRange, got: String, expected: String) -> (r: Self)
        ensures
            r.range == range,
            r.message@ == "Invalid configuration file structure. Expected "@ + expected@ + ", got "@
                + got@,
    {
        let mut message = String::from_str("Invalid configuration file structure. Expected ");
        message.append(expected.as_str());
        message.append(", got ");
        message.append(got.as_str());
        Self { range, message }
    }

    pub fn to_error(&self) -> (r: Error)
        ensures
            r@ == (ErrorModel {
                message: self.message@,
                range: self.range,
                severity: Severity::Error,
                code: "invalid_configuration_file_structure_error"@,
                code_number: 3,
            }),
    {
        Error::new(
            self.message.clone(),
            self.range,
            Severity::Error,
            String::from_str("invalid_configuration_file_structure_error"),
            3,
        )
    }
}

} // verus!
