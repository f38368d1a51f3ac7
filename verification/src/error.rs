//! Failures of the three operations and the messages that report them.
//!
//! Every failure ends the call that met it. Its message names the operation,
//! the target where there is one, and the cause where one is known.

use crate::text::{endpoint, endpoint_text};
use vstd::prelude::*;

verus! {

/// What went wrong.
#[derive(Clone, Copy, Debug, PartialEq, Eq, Structural)]
pub enum ErrorKind {
    /// The host could not be resolved to any address.
    ResolutionError,
    /// No connection was made within the time allowed.
    ConnectError,
    /// The serial port could not be opened.
    OpenError,
    /// The payload could not be written in full.
    WriteError,
    /// The operating system could not list its serial ports.
    EnumerationError,
    /// The task that carried out the operation broke down.
    TaskFailure,
}

/// A failure and the message that reports it.
#[derive(Clone, Debug, PartialEq, Eq)]
pub struct TransportError {
    pub kind: ErrorKind,
    pub message: String,
}

/// Mathematical model of a [`TransportError`].
pub struct TransportErrorView {
    pub kind: ErrorKind,
    pub message: Seq<char>,
}

impl View for TransportError {
    type V = TransportErrorView;

    open spec fn view(&self) -> TransportErrorView {
        TransportErrorView { kind: self.kind, message: self.message@ }
    }
}

/// The model of the outcome of an operation that returns nothing.
pub open spec fn outcome_view(outcome: Result<(), TransportError>) -> Result<
    (),
    TransportErrorView,
> {
    match outcome {
        Ok(_) => Ok(()),
        Err(error) => Err(error@),
    }
}

/// The cause given where an event reaches a job that did not ask for it.
pub open spec fn unexpected_event_text() -> Seq<char> {
    "unexpected event"@
}

/// The host could not be resolved; `cause` is absent where the resolver
/// answered with no address.
pub open spec fn resolution_failure(
    host: Seq<char>,
    port: u16,
    cause: Option<Seq<char>>,
) -> TransportErrorView {
    TransportErrorView {
        kind: ErrorKind::ResolutionError,
        message: match cause {
            Some(cause) => "Unable to resolve host ("@ + endpoint_text(host, port) + "): "@ + cause,
            None => "Unable to resolve host ("@ + endpoint_text(host, port) + ")"@,
        },
    }
}

/// No connection to the endpoint was made.
pub open spec fn connect_failure(host: Seq<char>, port: u16, cause: Seq<char>) -> TransportErrorView {
    TransportErrorView {
        kind: ErrorKind::ConnectError,
        message: "TCP connect failed ("@ + endpoint_text(host, port) + "): "@ + cause,
    }
}

/// The payload was not written to the endpoint in full.
pub open spec fn tcp_write_failure(
    host: Seq<char>,
    port: u16,
    cause: Seq<char>,
) -> TransportErrorView {
    TransportErrorView {
        kind: ErrorKind::WriteError,
        message: "TCP write failed ("@ + endpoint_text(host, port) + "): "@ + cause,
    }
}

/// The serial port could not be opened.
pub open spec fn open_failure(port_name: Seq<char>, cause: Seq<char>) -> TransportErrorView {
    TransportErrorView {
        kind: ErrorKind::OpenError,
        message: "Unable to open serial port "@ + port_name + ": "@ + cause,
    }
}

/// A chunk could not be written to the serial port.
pub open spec fn serial_write_failure(port_name: Seq<char>, cause: Seq<char>) -> TransportErrorView {
    TransportErrorView {
        kind: ErrorKind::WriteError,
        message: "Serial write failed ("@ + port_name + "): "@ + cause,
    }
}

/// The serial port could not be flushed after the last chunk.
pub open spec fn serial_flush_failure(port_name: Seq<char>, cause: Seq<char>) -> TransportErrorView {
    TransportErrorView {
        kind: ErrorKind::WriteError,
        message: "Serial flush failed ("@ + port_name + "): "@ + cause,
    }
}

/// The operating system could not list its serial ports.
pub open spec fn enumeration_failure(cause: Seq<char>) -> TransportErrorView {
    TransportErrorView {
        kind: ErrorKind::EnumerationError,
        message: "Unable to list serial ports: "@ + cause,
    }
}

/// The task that was to print to `target` broke down.
pub open spec fn print_task_failure(target: Seq<char>, cause: Seq<char>) -> TransportErrorView {
    TransportErrorView {
        kind: ErrorKind::TaskFailure,
        message: "Print task failed ("@ + target + "): "@ + cause,
    }
}

/// The task that was to list the serial ports broke down.
pub open spec fn list_task_failure(cause: Seq<char>) -> TransportErrorView {
    TransportErrorView {
        kind: ErrorKind::TaskFailure,
        message: "List ports task failed: "@ + cause,
    }
}

fn join(head: &str, target: &str, link: &str, cause: &str) -> (text: String)
    ensures
        text@ == head@ + target@ + link@ + cause@,
{
    let mut text = String::from_str(head);
    text.append(target);
    text.append(link);
    text.append(cause);
    text
}

fn prefixed(head: &str, cause: &str) -> (text: String)
    ensures
        text@ == head@ + cause@,
{
    let mut text = String::from_str(head);
    text.append(cause);
    text
}

impl TransportError {
    /// The host could not be resolved; `cause` is absent where the resolver
    /// answered with no address.
    pub fn resolution(host: &str, port: u16, cause: Option<&str>) -> (error: TransportError)
        ensures
            error@ == resolution_failure(
                host@,
                port,
                match cause {
                    Some(cause) => Some(cause@),
                    None => None,
                },
            ),
    {
        let target = endpoint(host, port);
        let message = match cause {
            Some(cause) => join("Unable to resolve host (", target.as_str(), "): ", cause),
            None => join("Unable to resolve host (", target.as_str(), ")", ""),
        };
        proof {
            reveal_strlit("");
            if cause is None {
                assert(message@ =~= "Unable to resolve host ("@ + endpoint_text(host@, port) + ")"@);
            }
        }
        TransportError { kind: ErrorKind::ResolutionError, message }
    }

    /// No connection to the endpoint was made.
    pub fn connect(host: &str, port: u16, cause: &str) -> (error: TransportError)
        ensures
            error@ == connect_failure(host@, port, cause@),
    {
        let target = endpoint(host, port);
        TransportError {
            kind: ErrorKind::ConnectError,
            message: join("TCP connect failed (", target.as_str(), "): ", cause),
        }
    }

    /// The payload was not written to the endpoint in full.
    pub fn tcp_write(host: &str, port: u16, cause: &str) -> (error: TransportError)
        ensures
            error@ == tcp_write_failure(host@, port, cause@),
    {
        let target = endpoint(host, port);
        TransportError {
            kind: ErrorKind::WriteError,
            message: join("TCP write failed (", target.as_str(), "): ", cause),
        }
    }

    /// The serial port could not be opened.
    pub fn open(port_name: &str, cause: &str) -> (error: TransportError)
        ensures
            error@ == open_failure(port_name@, cause@),
    {
        TransportError {
            kind: ErrorKind::OpenError,
            message: join("Unable to open serial port ", port_name, ": ", cause),
        }
    }

    /// A chunk could not be written to the serial port.
    pub fn serial_write(port_name: &str, cause: &str) -> (error: TransportError)
        ensures
            error@ == serial_write_failure(port_name@, cause@),
    {
        TransportError {
            kind: ErrorKind::WriteError,
            message: join("Serial write failed (", port_name, "): ", cause),
        }
    }

    /// The serial port could not be flushed after the last chunk.
    pub fn serial_flush(port_name: &str, cause: &str) -> (error: TransportError)
        ensures
            error@ == serial_flush_failure(port_name@, cause@),
    {
        TransportError {
            kind: ErrorKind::WriteError,
            message: join("Serial flush failed (", port_name, "): ", cause),
        }
    }

    /// The operating system could not list its serial ports.
    pub fn enumeration(cause: &str) -> (error: TransportError)
        ensures
            error@ == enumeration_failure(cause@),
    {
        TransportError {
            kind: ErrorKind::EnumerationError,
            message: prefixed("Unable to list serial ports: ", cause),
        }
    }

    /// The task that was to print to `target` broke down.
    pub fn print_task(target: &str, cause: &str) -> (error: TransportError)
        ensures
            error@ == print_task_failure(target@, cause@),
    {
        TransportError {
            kind: ErrorKind::TaskFailure,
            message: join("Print task failed (", target, "): ", cause),
        }
    }

    /// The task that was to list the serial ports broke down.
    pub fn list_task(cause: &str) -> (error: TransportError)
        ensures
            error@ == list_task_failure(cause@),
    {
        TransportError {
            kind: ErrorKind::TaskFailure,
            message: prefixed("List ports task failed: ", cause),
        }
    }
}

} // verus!
