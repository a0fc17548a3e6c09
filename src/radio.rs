//! The command side: encodes requests and interprets the responses to them.
use vstd::prelude::*;
use crate::command::{
    command, frame_bytes, mode_code, request_code, send_data_error_of, Mode, Request, Response,
    SendDataError, CHECKSUM_LEN, HEADER_LEN, MAX_PAYLOAD_LEN,
};
use crate::frame::Frame;

verus! {

/// Largest payload of a send-data request.
pub const MAX_SEND_LEN: usize = 220;

/// Size of the buffer that every request is encoded into.
pub const REQUEST_BUF_LEN: usize = 224;

/// Error kind of a command.
#[derive(Debug, PartialEq, Eq, Structural)]
pub enum Error<S, IO> {
    /// The module answered with a failure status.
    Status(S),
    /// The transport failed.
    Io(IO),
    /// No response came within the allowed time.
    Timeout,
    /// The response did not belong to the request in flight.
    UnexpectedResponse,
    /// The response carried no status byte.
    MalformedResponse,
}

/// The request in flight, and how its response is judged.
#[derive(Debug, Clone, Copy, PartialEq, Eq, Structural)]
pub enum Awaiting {
    /// Send data: status zero is success, any other is a send-data error.
    Send,
    /// Status zero is success; the response must be of the given kind.
    Ack(Response),
    /// The status must echo the given value; the response must be of the given kind.
    Echo(Response, u8),
    /// The status is the measured signal strength.
    Rssi,
}

/// What a response means for the request in flight.
#[derive(Debug, Clone, Copy, PartialEq, Eq, Structural)]
pub enum Outcome {
    /// The request succeeded.
    Done,
    /// The received signal strength, as the module reported it (0x80: none).
    Rssi(u8),
    /// The send-data request failed with this status.
    SendFailed(SendDataError),
    /// The request failed with an unspecified status.
    Refused,
    /// The response does not answer the request in flight; it is ignored.
    Unexpected,
    /// The response answers the request in flight but has no status byte.
    Malformed,
}

/// Kind of response that answers `a`.
pub open spec fn expected_response(a: Awaiting) -> Response {
    match a {
        Awaiting::Send => Response::SendData,
        Awaiting::Ack(k) => k,
        Awaiting::Echo(k, _) => k,
        Awaiting::Rssi => Response::Rssi,
    }
}

/// Whether a response of kind `kind` answers the request in flight.
pub open spec fn answers(awaiting: Option<Awaiting>, kind: Response) -> bool {
    match awaiting {
        Some(a) => expected_response(a) == kind,
        None => false,
    }
}

/// The meaning of a response of kind `kind` with payload `data`.
pub open spec fn outcome_spec(awaiting: Option<Awaiting>, kind: Response, data: Seq<u8>) -> Outcome {
    if !answers(awaiting, kind) {
        Outcome::Unexpected
    } else if data.len() == 0 {
        Outcome::Malformed
    } else {
        let status = data[0];
        match awaiting.unwrap() {
            Awaiting::Send => if status == 0 {
                Outcome::Done
            } else {
                Outcome::SendFailed(send_data_error_of(status))
            },
            Awaiting::Ack(_) => if status == 0 {
                Outcome::Done
            } else {
                Outcome::Refused
            },
            Awaiting::Echo(_, v) => if status == v {
                Outcome::Done
            } else {
                Outcome::Refused
            },
            Awaiting::Rssi => Outcome::Rssi(status),
        }
    }
}

/// Issuing request `kind` with payload `data`, to be judged as `next`: while
/// another request is in flight nothing changes and the result is `None`;
/// otherwise the frame is written to the front of the buffer, its length is
/// returned and `next` is in flight.
pub open spec fn issued(
    r: Option<usize>,
    before: Option<Awaiting>,
    after: Option<Awaiting>,
    buf_before: Seq<u8>,
    buf_after: Seq<u8>,
    kind: Request,
    data: Seq<u8>,
    next: Awaiting,
) -> bool {
    &&& buf_after.len() == buf_before.len()
    &&& before is Some ==> r is None && after == before && buf_after == buf_before
    &&& before is None ==> r == Some((data.len() + 4) as usize) && after == Some(next)
        && buf_after.subrange(0, data.len() + 4 as int) == frame_bytes(request_code(kind), data)
}

/// Setting the transmit power succeeds exactly when the response's status byte
/// echoes the requested power; any other status is a refusal.
pub proof fn lemma_tx_power_echo(power: u8, data: Seq<u8>)
    requires
        data.len() > 0,
    ensures
        outcome_spec(
            Some(Awaiting::Echo(Response::TransmitPower, power)),
            Response::TransmitPower,
            data,
        ) == if data[0] == power {
            Outcome::Done
        } else {
            Outcome::Refused
        },
{
}

/// The signal strength is the response's status byte, unmodified.
pub proof fn lemma_rssi_raw(data: Seq<u8>)
    requires
        data.len() > 0,
    ensures
        outcome_spec(Some(Awaiting::Rssi), Response::Rssi, data) == Outcome::Rssi(data[0]),
{
}

/// A response of a kind other than the one the request in flight expects is never
/// taken as its answer, and a response with no request in flight answers nothing.
pub proof fn lemma_no_cross_talk(awaiting: Option<Awaiting>, kind: Response, data: Seq<u8>)
    requires
        awaiting is None || expected_response(awaiting.unwrap()) != kind,
    ensures
        outcome_spec(awaiting, kind, data) == Outcome::Unexpected,
        !answers(awaiting, kind),
{
}

/// Radio module command state: at most one request is in flight.
pub struct Radio {
    awaiting: Option<Awaiting>,
}

impl Radio {
    /// The request in flight, if any.
    pub closed spec fn view(&self) -> Option<Awaiting> {
        self.awaiting
    }

    /// A radio with no request in flight.
    pub fn new() -> (r: Radio)
        ensures
            r@ is None,
    {
        Radio { awaiting: None }
    }

    /// The request in flight, if any.
    pub fn awaiting(&self) -> (r: Option<Awaiting>)
        ensures
            r == self@,
    {
        self.awaiting
    }

    /// Encodes request `kind` with payload `data` into `buf` and records `next` as
    /// in flight. Returns the frame's length, or `None`, changing nothing, while
    /// another request is in flight.
    fn begin(&mut self, kind: Request, data: &[u8], next: Awaiting, buf: &mut [u8]) -> (r: Option<
        usize,
    >)
        requires
            data@.len() <= MAX_SEND_LEN,
            old(buf)@.len() >= REQUEST_BUF_LEN,
        ensures
            issued(r, old(self)@, final(self)@, old(buf)@, final(buf)@, kind, data@, next),
    {
        if self.awaiting.is_some() {
            return None;
        }
        let len = command(buf, kind, data);
        self.awaiting = Some(next);
        Some(len)
    }

    /// Send data to the configured address.
    pub fn send(&mut self, data: &[u8], buf: &mut [u8]) -> (r: Option<usize>)
        requires
            data@.len() <= MAX_SEND_LEN,
            old(buf)@.len() >= REQUEST_BUF_LEN,
        ensures
            issued(
                r,
                old(self)@,
                final(self)@,
                old(buf)@,
                final(buf)@,
                Request::SendData,
                data@,
                Awaiting::Send,
            ),
    {
        self.begin(Request::SendData, data, Awaiting::Send, buf)
    }

    /// Performs a soft reset of the module.
    pub fn reset(&mut self, buf: &mut [u8]) -> (r: Option<usize>)
        requires
            old(buf)@.len() >= REQUEST_BUF_LEN,
        ensures
            issued(
                r,
                old(self)@,
                final(self)@,
                old(buf)@,
                final(buf)@,
                Request::Reset,
                Seq::<u8>::empty(),
                Awaiting::Ack(Response::Reset),
            ),
    {
        let data: [u8; 0] = [];
        assert(data@ =~= Seq::<u8>::empty());
        self.begin(Request::Reset, &data, Awaiting::Ack(Response::Reset), buf)
    }

    /// Performs a factory reset of the module.
    pub fn factory_reset(&mut self, buf: &mut [u8]) -> (r: Option<usize>)
        requires
            old(buf)@.len() >= REQUEST_BUF_LEN,
        ensures
            issued(
                r,
                old(self)@,
                final(self)@,
                old(buf)@,
                final(buf)@,
                Request::FactoryReset,
                Seq::<u8>::empty(),
                Awaiting::Ack(Response::FactoryReset),
            ),
    {
        let data: [u8; 0] = [];
        assert(data@ =~= Seq::<u8>::empty());
        self.begin(Request::FactoryReset, &data, Awaiting::Ack(Response::FactoryReset), buf)
    }

    /// Puts the module into standby mode.
    pub fn standby(&mut self, buf: &mut [u8]) -> (r: Option<usize>)
        requires
            old(buf)@.len() >= REQUEST_BUF_LEN,
        ensures
            issued(
                r,
                old(self)@,
                final(self)@,
                old(buf)@,
                final(buf)@,
                Request::Standby,
                Seq::<u8>::empty(),
                Awaiting::Ack(Response::Standby),
            ),
    {
        let data: [u8; 0] = [];
        assert(data@ =~= Seq::<u8>::empty());
        self.begin(Request::Standby, &data, Awaiting::Ack(Response::Standby), buf)
    }

    /// Asks for the receive signal strength of the last packet received.
    pub fn rssi(&mut self, buf: &mut [u8]) -> (r: Option<usize>)
        requires
            old(buf)@.len() >= REQUEST_BUF_LEN,
        ensures
            issued(
                r,
                old(self)@,
                final(self)@,
                old(buf)@,
                final(buf)@,
                Request::Rssi,
                Seq::<u8>::empty(),
                Awaiting::Rssi,
            ),
    {
        let data: [u8; 0] = [];
        assert(data@ =~= Seq::<u8>::empty());
        self.begin(Request::Rssi, &data, Awaiting::Rssi, buf)
    }

    /// Sets the transmit power; the module confirms by echoing it.
    pub fn tx_power(&mut self, power: u8, buf: &mut [u8]) -> (r: Option<usize>)
        requires
            old(buf)@.len() >= REQUEST_BUF_LEN,
        ensures
            issued(
                r,
                old(self)@,
                final(self)@,
                old(buf)@,
                final(buf)@,
                Request::TransmitPower,
                seq![power],
                Awaiting::Echo(Response::TransmitPower, power),
            ),
    {
        let data = [power];
        assert(data@ =~= seq![power]);
        self.begin(Request::TransmitPower, &data, Awaiting::Echo(Response::TransmitPower, power), buf)
    }

    /// Sets the RF channel; the module confirms by echoing it.
    pub fn channel(&mut self, channel: u8, buf: &mut [u8]) -> (r: Option<usize>)
        requires
            old(buf)@.len() >= REQUEST_BUF_LEN,
        ensures
            issued(
                r,
                old(self)@,
                final(self)@,
                old(buf)@,
                final(buf)@,
                Request::SetChannel,
                seq![channel],
                Awaiting::Echo(Response::SetChannel, channel),
            ),
    {
        let data = [channel];
        assert(data@ =~= seq![channel]);
        self.begin(Request::SetChannel, &data, Awaiting::Echo(Response::SetChannel, channel), buf)
    }

    /// Sets the destination network id.
    pub fn destination_net(&mut self, id: u8, buf: &mut [u8]) -> (r: Option<usize>)
        requires
            old(buf)@.len() >= REQUEST_BUF_LEN,
        ensures
            issued(
                r,
                old(self)@,
                final(self)@,
                old(buf)@,
                final(buf)@,
                Request::SetDestinationNetworkId,
                seq![id],
                Awaiting::Ack(Response::SetDestinationNetworkId),
            ),
    {
        let data = [id];
        assert(data@ =~= seq![id]);
        self.begin(Request::SetDestinationNetworkId, &data, Awaiting::Ack(Response::SetDestinationNetworkId), buf)
    }

    /// Sets the destination address.
    pub fn destination_address(&mut self, address: u8, buf: &mut [u8]) -> (r: Option<usize>)
        requires
            old(buf)@.len() >= REQUEST_BUF_LEN,
        ensures
            issued(
                r,
                old(self)@,
                final(self)@,
                old(buf)@,
                final(buf)@,
                Request::SetDestinationAddress,
                seq![address],
                Awaiting::Ack(Response::SetDestinationAddress),
            ),
    {
        let data = [address];
        assert(data@ =~= seq![address]);
        self.begin(Request::SetDestinationAddress, &data, Awaiting::Ack(Response::SetDestinationAddress), buf)
    }

    /// Sets the operating mode; the module switches after its response.
    pub fn mode(&mut self, mode: Mode, buf: &mut [u8]) -> (r: Option<usize>)
        requires
            old(buf)@.len() >= REQUEST_BUF_LEN,
        ensures
            issued(
                r,
                old(self)@,
                final(self)@,
                old(buf)@,
                final(buf)@,
                Request::SetMode,
                seq![mode_code(mode)],
                Awaiting::Ack(Response::SetMode),
            ),
    {
        let data = [mode.code()];
        assert(data@ =~= seq![mode_code(mode)]);
        self.begin(Request::SetMode, &data, Awaiting::Ack(Response::SetMode), buf)
    }

    /// Takes the response `response` for the request in flight. A response of
    /// another kind is ignored and leaves the request in flight; any other ends it.
    pub fn finish(&mut self, response: &Frame<Response>) -> (r: Outcome)
        ensures
            r == outcome_spec(old(self)@, response@.0, response@.1),
            final(self)@ == if answers(old(self)@, response@.0) {
                None
            } else {
                old(self)@
            },
    {
        let a = match self.awaiting {
            Some(a) => a,
            None => return Outcome::Unexpected,
        };
        let kind = *response.command();
        let expected = match a {
            Awaiting::Send => Response::SendData,
            Awaiting::Ack(k) => k,
            Awaiting::Echo(k, _) => k,
            Awaiting::Rssi => Response::Rssi,
        };
        if kind != expected {
            return Outcome::Unexpected;
        }
        self.awaiting = None;
        let data = response.data();
        if data.len() == 0 {
            return Outcome::Malformed;
        }
        let status = data[0];
        match a {
            Awaiting::Send => if status == 0 {
                Outcome::Done
            } else {
                Outcome::SendFailed(SendDataError::from(status))
            },
            Awaiting::Ack(_) => if status == 0 {
                Outcome::Done
            } else {
                Outcome::Refused
            },
            Awaiting::Echo(_, v) => if status == v {
                Outcome::Done
            } else {
                Outcome::Refused
            },
            Awaiting::Rssi => Outcome::Rssi(status),
        }
    }

    /// Gives up on the request in flight, as after a timeout.
    pub fn cancel(&mut self)
        ensures
            final(self)@ is None,
    {
        self.awaiting = None;
    }
}

} // verus!
