//! What can go wrong, and the platform's own error code.

use crate::text::{append_numeral, decimal_text};
use vstd::prelude::*;
use vstd::string::*;

verus! {

/// An error code that the platform's display subsystem returned.
#[derive(Clone, Copy, Debug, PartialEq, Eq, Structural)]
pub struct CGError {
    pub error: i32,
}

impl From<i32> for CGError {
    fn from(e: i32) -> (r: CGError) {
        CGError { error: e }
    }
}

impl vstd::std_specs::convert::FromSpecImpl<i32> for CGError {
    open spec fn obeys_from_spec() -> bool {
        true
    }

    open spec fn from_spec(e: i32) -> CGError {
        CGError { error: e }
    }
}

/// What `convert_result` makes of a platform result: the value as it is, the
/// error code as a `CGError`.
pub open spec fn converted<T>(result: Result<T, i32>) -> Result<T, CGError> {
    match result {
        Ok(value) => Ok(value),
        Err(code) => Err(CGError { error: code }),
    }
}

/// Turns the error code of a platform result into a `CGError` and leaves a
/// success untouched.
pub fn convert_result<T>(result: Result<T, i32>) -> (r: Result<T, CGError>)
    ensures
        r == converted(result),
{
    match result {
        Ok(value) => Ok(value),
        Err(code) => Err(CGError { error: code }),
    }
}

/// The step of the configuration protocol at which the platform failed.
#[derive(Clone, Copy, Debug, PartialEq, Eq, Structural)]
pub enum ConfigurePhase {
    /// Opening the configuration session.
    Begin,
    /// Handing the new mode to the open session.
    Apply,
    /// Committing the session.
    Complete,
}

/// Every failure of the library.
#[derive(Debug, PartialEq, Eq)]
pub enum ModeError {
    /// The platform could not list the active displays.
    ActiveDisplays(CGError),
    /// More displays are active than a display index can number.
    TooManyDisplays,
    /// The platform reported no modes for this display.
    NoDisplayModes(u8),
    /// The platform reported no current mode for this display.
    NoCurrentMode(u8),
    /// No active display has this index.
    UnknownDisplay(u8),
    /// The text is no mode specifier; it is carried along.
    InvalidModeSpecifier(String),
    /// The pattern of mode specifiers was refused by the pattern engine.
    PatternRejected,
    /// The requested mode is the one the display is in.
    AlreadyCurrent,
    /// No mode of the catalog answers to the specifier.
    NoMatchingMode,
    /// The platform failed while a mode was being committed.
    Configuration(ConfigurePhase, CGError),
}

impl ModeError {
    /// The sentence that tells of the error.
    pub open spec fn message_text(&self) -> Seq<char> {
        match self {
            ModeError::ActiveDisplays(_) => "Unable to list active displays"@,
            ModeError::TooManyDisplays => "Too many active displays"@,
            ModeError::NoDisplayModes(_) => "No display modes for display"@,
            ModeError::NoCurrentMode(d) => "No current mode for display: "@ + decimal_text(
                *d as nat,
            ),
            ModeError::UnknownDisplay(d) => "Unable to set mode for display: "@ + decimal_text(
                *d as nat,
            ),
            ModeError::InvalidModeSpecifier(text) => "Not a valid mode: "@ + text@,
            ModeError::PatternRejected => "Could not compile regex"@,
            ModeError::AlreadyCurrent => "Wanted Mode is already current"@,
            ModeError::NoMatchingMode => "No mode of the display matches the wanted mode"@,
            ModeError::Configuration(phase, _) => match phase {
                ConfigurePhase::Begin => "Could not begin configuring the display"@,
                ConfigurePhase::Apply => "Could not apply the mode to the display"@,
                ConfigurePhase::Complete => "Could not complete configuring the display"@,
            },
        }
    }

    /// The platform's error code behind the error, where there is one.
    pub open spec fn cause_code(&self) -> Option<CGError> {
        match self {
            ModeError::ActiveDisplays(e) => Some(*e),
            ModeError::Configuration(_, e) => Some(*e),
            _ => None,
        }
    }

    /// The sentence that tells of the error.
    pub fn message(&self) -> (text: String)
        ensures
            text@ == self.message_text(),
    {
        match self {
            ModeError::ActiveDisplays(_) => "Unable to list active displays".to_owned(),
            ModeError::TooManyDisplays => "Too many active displays".to_owned(),
            ModeError::NoDisplayModes(_) => "No display modes for display".to_owned(),
            ModeError::NoCurrentMode(d) => {
                let mut text = "No current mode for display: ".to_owned();
                append_numeral(&mut text, *d as u64, 10, 1);
                text
            },
            ModeError::UnknownDisplay(d) => {
                let mut text = "Unable to set mode for display: ".to_owned();
                append_numeral(&mut text, *d as u64, 10, 1);
                text
            },
            ModeError::InvalidModeSpecifier(specifier) => {
                let mut text = "Not a valid mode: ".to_owned();
                text.append(specifier.as_str());
                text
            },
            ModeError::PatternRejected => "Could not compile regex".to_owned(),
            ModeError::AlreadyCurrent => "Wanted Mode is already current".to_owned(),
            ModeError::NoMatchingMode => "No mode of the display matches the wanted mode"
                .to_owned(),
            ModeError::Configuration(phase, _) => match phase {
                ConfigurePhase::Begin => "Could not begin configuring the display".to_owned(),
                ConfigurePhase::Apply => "Could not apply the mode to the display".to_owned(),
                ConfigurePhase::Complete => "Could not complete configuring the display"
                    .to_owned(),
            },
        }
    }

    /// The platform's error code behind the error, where there is one.
    pub fn cause(&self) -> (code: Option<CGError>)
        ensures
            code == self.cause_code(),
    {
        match self {
            ModeError::ActiveDisplays(e) => Some(*e),
            ModeError::Configuration(_, e) => Some(*e),
            _ => None,
        }
    }
}

} // verus!
