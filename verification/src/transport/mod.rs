//! What can go wrong on a byte stream, and CAN frames.
use vstd::prelude::*;

use crate::text;

pub mod can;

verus! {

/// An error of the operating system.
#[derive(Debug)]
pub struct IoError {
    pub timed_out: bool,
    pub message: String,
}

#[derive(Debug)]
pub enum TransportError {
    Io(IoError),
    NotConnected,
    LockPoisoned,
}

impl View for TransportError {
    type V = Seq<char>;

    /// The error as text.
    open spec fn view(&self) -> Seq<char> {
        match self {
            TransportError::Io(error) => "io error: "@ + error.message@,
            TransportError::NotConnected => "not connected"@,
            TransportError::LockPoisoned => "transport lock poisoned"@,
        }
    }
}

impl TransportError {
    pub fn to_text(&self) -> (r: String)
        ensures
            r@ == self@,
    {
        match self {
            TransportError::Io(error) => {
                let mut r = text::owned("io error: ");
                text::push_text(&mut r, error.message.as_str());
                r
            },
            TransportError::NotConnected => text::owned("not connected"),
            TransportError::LockPoisoned => text::owned("transport lock poisoned"),
        }
    }

    /// Whether the error only says that nothing arrived in time.
    pub fn is_timeout(&self) -> (r: bool)
        ensures
            r == (self is Io && self->Io_0.timed_out),
    {
        match self {
            TransportError::Io(error) => error.timed_out,
            _ => false,
        }
    }
}

/// The words for what went wrong on the wire.
pub proof fn law_transport_error_texts(error: IoError)
    ensures
        TransportError::Io(error)@ == "io error: "@ + error.message@,
        TransportError::NotConnected@ == "not connected"@,
        TransportError::LockPoisoned@ == "transport lock poisoned"@,
{
}

} // verus!
