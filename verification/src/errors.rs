use vstd::prelude::*;

verus! {

/// The errors that the library reports.
#[derive(Clone, Copy, Debug, PartialEq, Eq, Structural)]
pub enum Error {
    NullError,
    DataParseError,
    NetworkError,
    InvalidPacketError,
    PipeError,
    TimeoutError,
}

impl Error {
    /// The human readable description of the error.
    pub fn message(&self) -> (r: &'static str)
        ensures
            r@ == self.spec_message(),
    {
        let r = match self {
            Error::NullError => "Null error",
            Error::DataParseError => "Data parse error",
            Error::NetworkError => "Network error",
            Error::InvalidPacketError => "Invalid packet",
            Error::PipeError => "Pipe error",
            Error::TimeoutError => "Operation timed out",
        };
        r
    }

    pub open spec fn spec_message(&self) -> Seq<char> {
        match self {
            Error::NullError => "Null error"@,
            Error::DataParseError => "Data parse error"@,
            Error::NetworkError => "Network error"@,
            Error::InvalidPacketError => "Invalid packet"@,
            Error::PipeError => "Pipe error"@,
            Error::TimeoutError => "Operation timed out"@,
        }
    }
}

} // verus!
