//! Error kinds of the compiler. Every one is fatal to a run: the driver
//! aborts with a diagnostic and writes no output.

use vstd::prelude::*;
use vstd::string::*;

verus! {

/// One fatal failure of a compilation run.
#[derive(Debug, Clone)]
pub enum CompileError {
    /// A remap key or event name is not in the symbol table.
    UnknownSymbol(String),
    /// The `type` field is not one of the recognized device families.
    UnknownDeviceType(String),
    /// A remap value is neither a string nor a table, or a tuning
    /// parameter inside it has the wrong shape; carries the remap key.
    InvalidMapping(String),
    /// The input does not parse as the expected structured format, or a
    /// required field is missing.
    MalformedDescriptor(String),
    /// A descriptor directory or file could not be read, or the output
    /// could not be written. Never produced by the compiler itself; the
    /// driver around it maps file-system failures here.
    Io(String),
}

/// A failure as mathematical data: the same five kinds, with the
/// offending text as a character sequence.
pub enum CompileErrorView {
    UnknownSymbol(Seq<char>),
    UnknownDeviceType(Seq<char>),
    InvalidMapping(Seq<char>),
    MalformedDescriptor(Seq<char>),
    Io(Seq<char>),
}

impl View for CompileError {
    type V = CompileErrorView;

    open spec fn view(&self) -> CompileErrorView {
        match self {
            CompileError::UnknownSymbol(s) => CompileErrorView::UnknownSymbol(s@),
            CompileError::UnknownDeviceType(s) => CompileErrorView::UnknownDeviceType(s@),
            CompileError::InvalidMapping(s) => CompileErrorView::InvalidMapping(s@),
            CompileError::MalformedDescriptor(s) => CompileErrorView::MalformedDescriptor(s@),
            CompileError::Io(s) => CompileErrorView::Io(s@),
        }
    }
}

/// The diagnostic line that identifies a failure.
pub open spec fn describe_spec(e: CompileError) -> Seq<char> {
    match e {
        CompileError::UnknownSymbol(s) => "unknown symbol: "@ + s@,
        CompileError::UnknownDeviceType(s) => "unknown device type: "@ + s@,
        CompileError::InvalidMapping(s) => "invalid mapping for key: "@ + s@,
        CompileError::MalformedDescriptor(s) => "malformed descriptor: "@ + s@,
        CompileError::Io(s) => "i/o failure: "@ + s@,
    }
}

impl CompileError {
    /// Renders the diagnostic message naming the offending symbol, value
    /// or file.
    pub fn describe(&self) -> (r: String)
        ensures
            r@ == describe_spec(*self),
    {
        match self {
            CompileError::UnknownSymbol(s) => {
                let mut m = String::from_str("unknown symbol: ");
                m.append(s.as_str());
                m
            },
            CompileError::UnknownDeviceType(s) => {
                let mut m = String::from_str("unknown device type: ");
                m.append(s.as_str());
                m
            },
            CompileError::InvalidMapping(s) => {
                let mut m = String::from_str("invalid mapping for key: ");
                m.append(s.as_str());
                m
            },
            CompileError::MalformedDescriptor(s) => {
                let mut m = String::from_str("malformed descriptor: ");
                m.append(s.as_str());
                m
            },
            CompileError::Io(s) => {
                let mut m = String::from_str("i/o failure: ");
                m.append(s.as_str());
                m
            },
        }
    }
}

} // verus!
