//! The failures a node can meet while it handles a message.

use vstd::prelude::*;

verus! {

/// Why a message could not be handled.
#[derive(Clone, Copy, Debug, PartialEq, Eq, Structural)]
pub enum Error {
    /// The envelope is malformed, a required field is missing, or the first
    /// message of a node is not its `init`.
    Protocol,
    /// A `topology` message gives this node no usable list of neighbours.
    BadTopology,
    /// No handler is registered for the message's type.
    UnsupportedMessageType,
    /// A field is there, but its value has the wrong shape.
    MalformedField,
}

impl Error {
    /// The code that an `error` message carries for this failure.
    ///
    /// 1000 and 1001 are this node's own; 10 and 12 are the codes that the
    /// protocol itself gives to an unsupported operation and to a malformed
    /// request.
    pub open spec fn spec_code(self) -> u64 {
        match self {
            Error::Protocol => 1000,
            Error::BadTopology => 1001,
            Error::UnsupportedMessageType => 10,
            Error::MalformedField => 12,
        }
    }

    /// The text that an `error` message carries for this failure.
    pub open spec fn spec_text(self) -> Seq<char> {
        match self {
            Error::Protocol => "protocol error"@,
            Error::BadTopology => "bad topology"@,
            Error::UnsupportedMessageType => "unsupported message type"@,
            Error::MalformedField => "malformed field"@,
        }
    }

    /// The code that an `error` message carries for this failure.
    pub fn code(&self) -> (r: u64)
        ensures
            r == self.spec_code(),
    {
        match self {
            Error::Protocol => 1000,
            Error::BadTopology => 1001,
            Error::UnsupportedMessageType => 10,
            Error::MalformedField => 12,
        }
    }

    /// The text that an `error` message carries for this failure.
    pub fn text(&self) -> (r: String)
        ensures
            r@ == self.spec_text(),
    {
        match self {
            Error::Protocol => "protocol error".to_owned(),
            Error::BadTopology => "bad topology".to_owned(),
            Error::UnsupportedMessageType => "unsupported message type".to_owned(),
            Error::MalformedField => "malformed field".to_owned(),
        }
    }
}

} // verus!
