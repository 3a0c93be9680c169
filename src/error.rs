//! Errors produced while attaching to the capture devices or loading the
//! configuration.
use vstd::prelude::*;
use vstd::string::StringExecFns;

verus! {

/// Possible errors produced by the syscall collector.
#[derive(Debug, Clone)]
pub enum Error {
    RingBufferMapping,
    TooManyCollectors,
    DeviceError,
    UnknownConfigPathError,
    ConfigParseError(String),
}

pub type Result<T> = core::result::Result<T, Error>;

impl Error {
    /// The human readable description of the error.
    pub open spec fn message_spec(&self) -> Seq<char> {
        match self {
            Error::RingBufferMapping => "Unable to map ring buffer device"@,
            Error::TooManyCollectors => "Too many collectors attached to device"@,
            Error::DeviceError => "Insufficient privileges to open device or device not loaded"@,
            Error::UnknownConfigPathError => "Unable to resolve configuration file path"@,
            Error::ConfigParseError(e) => "Invalid configuration descriptor. Reason: "@ + e@,
        }
    }

    /// Renders the error as a message for the operator.
    pub fn to_string(&self) -> (r: String)
        ensures
            r@ == self.message_spec(),
    {
        match self {
            Error::RingBufferMapping => String::from_str("Unable to map ring buffer device"),
            Error::TooManyCollectors => String::from_str("Too many collectors attached to device"),
            Error::DeviceError => String::from_str(
                "Insufficient privileges to open device or device not loaded",
            ),
            Error::UnknownConfigPathError => String::from_str(
                "Unable to resolve configuration file path",
            ),
            Error::ConfigParseError(e) => {
                let mut s = String::from_str("Invalid configuration descriptor. Reason: ");
                s.append(e.as_str());
                s
            },
        }
    }
}

} // verus!
