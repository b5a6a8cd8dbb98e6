//! The record of one request on its way to a backend.

use vstd::prelude::*;
use vstd::string::StringExecFns;

verus! {

/// One client request together with the addresses at both ends.
#[derive(Debug, PartialEq, Eq)]
pub struct Message {
    /// The request line, without its line terminator.
    pub message: String,
    /// The address of the backend that serves the request.
    pub worker_addr: String,
    /// The address of the client that sent it.
    pub client_addr: String,
}

impl Message {
    /// The text that `to_string` produces.
    pub open spec fn rendered(&self) -> Seq<char> {
        "[MESSAGE]: message: "@ + self.message@ + "\n\tworker_addr: "@ + self.worker_addr@
            + "\n\tclient_addr: "@ + self.client_addr@ + "\n\t\n"@
    }

    /// Renders the message for a log: the request line and both addresses,
    /// each on a line of its own.
    pub fn to_string(&self) -> (text: String)
        ensures
            text@ == self.rendered(),
    {
        let mut text: String = "[MESSAGE]: message: ".to_owned();
        text.append(self.message.as_str());
        text.append("\n\tworker_addr: ");
        text.append(self.worker_addr.as_str());
        text.append("\n\tclient_addr: ");
        text.append(self.client_addr.as_str());
        text.append("\n\t\n");
        text
    }
}

} // verus!
