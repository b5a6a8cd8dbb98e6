//! Error values of the worker pool and of request forwarding.

use vstd::prelude::*;
use vstd::std_specs::convert::FromSpecImpl;

verus! {

/// Failures of the worker pool itself.
#[derive(Debug, PartialEq, Eq)]
pub enum ThreadError {
    /// The pool (or the node set behind it) was configured with no entries.
    InvalidSize(String),
    /// The lock around the job queue was found poisoned.
    MutexError(String),
    /// A job was submitted after the queue had been closed.
    SenderError(String),
    /// The operating system refused to start a worker thread.
    ThreadHandlerError(String),
    /// A worker thread could not be joined during shutdown.
    JoinError(String),
    /// Any other failure, carried as text.
    Other(String),
}

/// Failures of one forwarded request.
#[derive(Debug, PartialEq, Eq)]
pub enum WorkerError {
    /// The backend chosen for the request could not be reached or used.
    CannotConnectToWorker(String),
    /// The client closed its connection before a full request line arrived.
    ProtocolError(String),
    /// Any other failure, carried as text.
    Other(String),
}

impl ThreadError {
    /// The fixed prefix that names the variant in the rendered text.
    pub open spec fn label(&self) -> Seq<char> {
        match self {
            ThreadError::InvalidSize(_) => "InvalidSizeError: "@,
            ThreadError::MutexError(_) => "MutexError: "@,
            ThreadError::SenderError(_) => "SenderThreadError: "@,
            ThreadError::ThreadHandlerError(_) => "ThreadHandlerError: "@,
            ThreadError::JoinError(_) => "JoinThreadError: "@,
            ThreadError::Other(_) => "OtherThreadError: "@,
        }
    }

    /// The free-form text the variant carries.
    pub open spec fn detail(&self) -> Seq<char> {
        match self {
            ThreadError::InvalidSize(msg) => msg@,
            ThreadError::MutexError(msg) => msg@,
            ThreadError::SenderError(msg) => msg@,
            ThreadError::ThreadHandlerError(msg) => msg@,
            ThreadError::JoinError(msg) => msg@,
            ThreadError::Other(msg) => msg@,
        }
    }

    /// The carried text.
    pub fn message(&self) -> (msg: &String)
        ensures
            msg@ == self.detail(),
    {
        match self {
            ThreadError::InvalidSize(msg) => msg,
            ThreadError::MutexError(msg) => msg,
            ThreadError::SenderError(msg) => msg,
            ThreadError::ThreadHandlerError(msg) => msg,
            ThreadError::JoinError(msg) => msg,
            ThreadError::Other(msg) => msg,
        }
    }

    /// Renders the error as its label followed by the carried text.
    pub fn to_string(&self) -> (text: String)
        ensures
            text@ == self.label() + self.detail(),
    {
        let mut text: String = match self {
            ThreadError::InvalidSize(_) => "InvalidSizeError: ".to_owned(),
            ThreadError::MutexError(_) => "MutexError: ".to_owned(),
            ThreadError::SenderError(_) => "SenderThreadError: ".to_owned(),
            ThreadError::ThreadHandlerError(_) => "ThreadHandlerError: ".to_owned(),
            ThreadError::JoinError(_) => "JoinThreadError: ".to_owned(),
            ThreadError::Other(_) => "OtherThreadError: ".to_owned(),
        };
        text.append(self.message().as_str());
        text
    }
}

impl From<String> for ThreadError {
    /// Wraps a failure reported as text by some other component.
    fn from(error: String) -> (converted: ThreadError) {
        ThreadError::Other(error)
    }
}

impl FromSpecImpl<String> for ThreadError {
    open spec fn obeys_from_spec() -> bool {
        true
    }

    open spec fn from_spec(error: String) -> ThreadError {
        ThreadError::Other(error)
    }
}

impl WorkerError {
    /// The fixed prefix that names the variant in the rendered text.
    pub open spec fn label(&self) -> Seq<char> {
        match self {
            WorkerError::CannotConnectToWorker(_) => "CannotConnectError: "@,
            WorkerError::ProtocolError(_) => "ProtocolError: "@,
            WorkerError::Other(_) => "OtherWorkerError: "@,
        }
    }

    /// The free-form text the variant carries.
    pub open spec fn detail(&self) -> Seq<char> {
        match self {
            WorkerError::CannotConnectToWorker(msg) => msg@,
            WorkerError::ProtocolError(msg) => msg@,
            WorkerError::Other(msg) => msg@,
        }
    }

    /// The carried text.
    pub fn message(&self) -> (msg: &String)
        ensures
            msg@ == self.detail(),
    {
        match self {
            WorkerError::CannotConnectToWorker(msg) => msg,
            WorkerError::ProtocolError(msg) => msg,
            WorkerError::Other(msg) => msg,
        }
    }

    /// Renders the error as its label followed by the carried text.
    pub fn to_string(&self) -> (text: String)
        ensures
            text@ == self.label() + self.detail(),
    {
        let mut text: String = match self {
            WorkerError::CannotConnectToWorker(_) => "CannotConnectError: ".to_owned(),
            WorkerError::ProtocolError(_) => "ProtocolError: ".to_owned(),
            WorkerError::Other(_) => "OtherWorkerError: ".to_owned(),
        };
        text.append(self.message().as_str());
        text
    }
}

impl From<String> for WorkerError {
    /// Wraps a failure reported as text by some other component.
    fn from(error: String) -> (converted: WorkerError) {
        WorkerError::Other(error)
    }
}

impl FromSpecImpl<String> for WorkerError {
    open spec fn obeys_from_spec() -> bool {
        true
    }

    open spec fn from_spec(error: String) -> WorkerError {
        WorkerError::Other(error)
    }
}

} // verus!
