//! The failures that the link layer reports.

use vstd::prelude::*;

verus! {

/// Why an operation on the link failed.
#[derive(Debug, PartialEq, Eq)]
pub enum PlcError {
    /// The port could not be opened or configured. The text is the driver's
    /// description of the failure.
    Connect(String),
    /// Sending or receiving failed on an open port. The text is the system's
    /// description of the failure.
    IO(String),
    /// A command in hexadecimal held a word that is not a byte.
    CommandParse,
}

impl PlcError {
    /// The line shown to the user for this failure.
    pub open spec fn text(&self) -> Seq<char> {
        match self {
            PlcError::Connect(reason) => "Failed connection to the device: "@ + reason@,
            PlcError::IO(reason) => "Failed send/receive data, try reconnect device: "@ + reason@,
            PlcError::CommandParse => "Command: Incorrect values"@,
        }
    }

    /// Renders the failure as the line shown to the user.
    pub fn message(&self) -> (line: String)
        ensures
            line@ == self.text(),
    {
        match self {
            PlcError::Connect(reason) => {
                let mut line = "Failed connection to the device: ".to_owned();
                line.append(reason.as_str());
                line
            },
            PlcError::IO(reason) => {
                let mut line = "Failed send/receive data, try reconnect device: ".to_owned();
                line.append(reason.as_str());
                line
            },
            PlcError::CommandParse => "Command: Incorrect values".to_owned(),
        }
    }
}

} // verus!
