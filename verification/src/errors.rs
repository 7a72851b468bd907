//! Error values of the engine and of the control API.

use vstd::prelude::*;

use crate::text::{append_str, string_of};

verus! {

/// An error of the audio engine, with its message.
#[derive(Debug)]
pub struct AudioError {
    pub message: String,
}

impl AudioError {
    pub fn new_msg(message: &str) -> (r: AudioError)
        ensures
            r.message@ == message@,
    {
        AudioError { message: string_of(message) }
    }

    pub fn new(message: &str) -> (r: AudioError)
        ensures
            r.message@ == message@,
    {
        AudioError { message: string_of(message) }
    }

    /// The error that an I/O failure with description `detail` becomes.
    pub fn from_io_detail(detail: &str) -> (r: AudioError)
        ensures
            r.message@ == "An audio engine error occurred: "@ + detail@,
    {
        let mut m = string_of("An audio engine error occurred: ");
        append_str(&mut m, detail);
        AudioError { message: m }
    }

    /// The text the error displays.
    pub fn to_text(&self) -> (r: String)
        ensures
            r@ == self.message@,
    {
        string_of(self.message.as_str())
    }
}

/// An error of the audio hardware, with its message.
#[derive(Debug)]
pub struct HardwareError {
    pub message: String,
}

impl HardwareError {
    pub fn new(message: &str) -> (r: HardwareError)
        ensures
            r.message@ == message@,
    {
        HardwareError { message: string_of(message) }
    }

    /// The error that an I/O failure with description `detail` becomes.
    pub fn from_io_detail(detail: &str) -> (r: HardwareError)
        ensures
            r.message@ == "An hardware error occurred: "@ + detail@,
    {
        let mut m = string_of("An hardware error occurred: ");
        append_str(&mut m, detail);
        HardwareError { message: m }
    }

    /// The text the error displays.
    pub fn to_text(&self) -> (r: String)
        ensures
            r@ == self.message@,
    {
        string_of(self.message.as_str())
    }
}

/// The audio stream is not running yet, or has to recover.
#[derive(Debug)]
pub struct RunningError {}

impl RunningError {
    pub fn new_msg() -> (r: RunningError)
        ensures
            r == (RunningError {  }),
    {
        RunningError {  }
    }

    pub fn new() -> (r: RunningError)
        ensures
            r == (RunningError {  }),
    {
        RunningError {  }
    }

    /// The text the error displays.
    pub fn to_text(&self) -> (r: String)
        ensures
            r@ == "Running Error !"@,
    {
        string_of("Running Error !")
    }
}

/// A request the HTTP control API does not serve.
#[derive(Debug, PartialEq, Eq, Structural)]
pub enum HttpError {
    InvalidMethod,
    UnsupportedReq,
}

impl HttpError {
    /// The text the error displays.
    pub fn to_text(&self) -> (r: String)
        ensures
            r@ == (match self {
                HttpError::InvalidMethod => "Invalid HTTP Request Method"@,
                HttpError::UnsupportedReq => "Unsupported HTTP Request"@,
            }),
    {
        match self {
            HttpError::InvalidMethod => string_of("Invalid HTTP Request Method"),
            HttpError::UnsupportedReq => string_of("Unsupported HTTP Request"),
        }
    }
}

/// A control command that does not exist.
#[derive(Debug, PartialEq, Eq, Structural)]
pub struct CmdError {}

impl CmdError {
    /// The text the error displays.
    pub fn to_text(&self) -> (r: String)
        ensures
            r@ == "Unknown Command"@,
    {
        string_of("Unknown Command")
    }
}

} // verus!
