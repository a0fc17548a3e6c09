//! Decoded frames and their bounded payload buffer.
use vstd::prelude::*;
use crate::command::{Event, Response, MAX_PAYLOAD_LEN};

verus! {

#[verifier::external_type_specification]
#[verifier::external_body]
#[verifier::reject_recursive_types(T)]
pub struct ExHeaplessVec<T, const N: usize>(heapless::Vec<T, N>);

/// Fixed-capacity buffer holding a frame's payload.
pub type Payload = heapless::Vec<u8, MAX_PAYLOAD_LEN>;

/// The bytes held by a payload buffer, in order.
pub uninterp spec fn payload_bytes(v: heapless::Vec<u8, MAX_PAYLOAD_LEN>) -> Seq<u8>;

/// Relies on heapless::Vec::new: the new vector is empty.
#[verifier::external_body]
pub(crate) fn payload_new() -> (r: Payload)
    ensures
        payload_bytes(r) == Seq::<u8>::empty(),
{
    heapless::Vec::new()
}

/// Relies on heapless::Vec::push: appends the byte while the length is under the
/// capacity, and hands the byte back otherwise.
#[verifier::external_body]
pub(crate) fn payload_push(v: &mut Payload, b: u8) -> (r: Result<(), u8>)
    ensures
        payload_bytes(*old(v)).len() < MAX_PAYLOAD_LEN ==> r is Ok && payload_bytes(*final(v))
            == payload_bytes(*old(v)).push(b),
        payload_bytes(*old(v)).len() >= MAX_PAYLOAD_LEN ==> r is Err && *final(v) == *old(v),
{
    v.push(b)
}

/// Relies on heapless::Vec::as_slice: the slice holds the vector's elements.
#[verifier::external_body]
pub(crate) fn payload_as_slice(v: &Payload) -> (r: &[u8])
    ensures
        r@ == payload_bytes(*v),
{
    v.as_slice()
}

/// A command or event together with its payload.
pub struct Frame<T> {
    command: T,
    data: Payload,
}

impl<T> Frame<T> {
    /// The frame's command kind and payload bytes.
    pub closed spec fn view(&self) -> (T, Seq<u8>) {
        (self.command, payload_bytes(self.data))
    }

    /// A frame of kind `command` carrying the bytes of `data`.
    pub(crate) fn new(command: T, data: Payload) -> (r: Frame<T>)
        ensures
            r@ == (command, payload_bytes(data)),
    {
        Frame { command, data }
    }

    /// The command kind of the frame.
    pub fn command(&self) -> (r: &T)
        ensures
            *r == self@.0,
    {
        &self.command
    }

    /// The payload of the frame.
    pub fn data(&self) -> (r: &[u8])
        ensures
            r@ == self@.1,
    {
        payload_as_slice(&self.data)
    }
}

/// Abstract value of a classified frame: its kind and payload bytes.
pub enum Arrival {
    Response(Response, Seq<u8>),
    Event(Event, Seq<u8>),
}

/// A frame that the ingress has decoded and classified.
pub enum Incoming {
    /// A response to the request in flight.
    Response(Frame<Response>),
    /// A spontaneous event.
    Event(Frame<Event>),
}

impl Incoming {
    /// The kind and payload of the classified frame.
    pub open spec fn view(&self) -> Arrival {
        match self {
            Incoming::Response(f) => Arrival::Response(f@.0, f@.1),
            Incoming::Event(f) => Arrival::Event(f@.0, f@.1),
        }
    }
}

} // verus!
