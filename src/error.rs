use vstd::prelude::*;

verus! {

/// The failures a lifecycle call can report. Each variant carries the text
/// that the failure concerns (an identifier, a type tag or a backend message).
#[derive(Debug, PartialEq, Eq)]
pub enum BrokerError {
    /// An identifier does not have the shape its role requires.
    InvalidFormat(String),
    /// A binding identifier has an all-zero node segment, so it reads as an instance identifier.
    AmbiguousId(String),
    /// No backend provider is registered for the service type.
    UnknownServiceType(String),
    /// No type record exists for the instance.
    UnknownInstance(String),
    /// No type record exists for the binding.
    UnknownBinding(String),
    /// A requested scope is not one of `read`, `write`.
    InvalidScope(String),
    /// An instance still has active bindings.
    DirectoryNotEmpty(String),
    /// A provider refused an argument it does not support.
    Unsupported(String),
    /// A backing resource or the credential store failed.
    BackendError(String),
}

} // verus!
