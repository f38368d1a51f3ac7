use print_transport::error::{ErrorKind, TransportError};

#[test]
fn resolution_error_names_endpoint_and_cause() {
    let error = TransportError::resolution("printer.local", 9100, Some("name not known"));
    assert_eq!(error.kind, ErrorKind::ResolutionError);
    assert_eq!(error.message, "Unable to resolve host (printer.local:9100): name not known");
}

#[test]
fn resolution_error_without_an_address() {
    let error = TransportError::resolution("printer.local", 9100, None);
    assert_eq!(error.kind, ErrorKind::ResolutionError);
    assert_eq!(error.message, "Unable to resolve host (printer.local:9100)");
}

#[test]
fn connect_error_names_endpoint_and_cause() {
    let error = TransportError::connect("10.0.0.9", 9100, "connection timed out");
    assert_eq!(error.kind, ErrorKind::ConnectError);
    assert_eq!(error.message, "TCP connect failed (10.0.0.9:9100): connection timed out");
}

#[test]
fn tcp_write_error_names_endpoint_and_cause() {
    let error = TransportError::tcp_write("10.0.0.9", 515, "broken pipe");
    assert_eq!(error.kind, ErrorKind::WriteError);
    assert_eq!(error.message, "TCP write failed (10.0.0.9:515): broken pipe");
}

#[test]
fn open_error_names_port_and_cause() {
    let error = TransportError::open("COM7", "No such file or directory");
    assert_eq!(error.kind, ErrorKind::OpenError);
    assert_eq!(error.message, "Unable to open serial port COM7: No such file or directory");
}

#[test]
fn serial_write_error_names_port_and_cause() {
    let error = TransportError::serial_write("/dev/rfcomm0", "Operation timed out");
    assert_eq!(error.kind, ErrorKind::WriteError);
    assert_eq!(error.message, "Serial write failed (/dev/rfcomm0): Operation timed out");
}

#[test]
fn serial_flush_error_names_port_and_cause() {
    let error = TransportError::serial_flush("COM3", "device removed");
    assert_eq!(error.kind, ErrorKind::WriteError);
    assert_eq!(error.message, "Serial flush failed (COM3): device removed");
}

#[test]
fn enumeration_error_names_the_cause() {
    let error = TransportError::enumeration("access denied");
    assert_eq!(error.kind, ErrorKind::EnumerationError);
    assert_eq!(error.message, "Unable to list serial ports: access denied");
}

#[test]
fn task_failures_name_the_task() {
    let print = TransportError::print_task("COM3", "task panicked");
    assert_eq!(print.kind, ErrorKind::TaskFailure);
    assert_eq!(print.message, "Print task failed (COM3): task panicked");
    let list = TransportError::list_task("task was cancelled");
    assert_eq!(list.kind, ErrorKind::TaskFailure);
    assert_eq!(list.message, "List ports task failed: task was cancelled");
}

#[test]
fn an_empty_cause_leaves_the_rest_of_the_message() {
    assert_eq!(TransportError::open("COM1", "").message, "Unable to open serial port COM1: ");
    assert_eq!(TransportError::enumeration("").message, "Unable to list serial ports: ");
}
