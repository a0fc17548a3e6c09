//! Wire codes of the protocol and the frame codec.
use vstd::prelude::*;

verus! {

/// Start byte of every frame.
pub const START: u8 = 0x02;

/// Largest payload that a frame carries.
pub const MAX_PAYLOAD_LEN: usize = 224;

/// Start byte, command id and length byte.
pub const HEADER_LEN: usize = 3;

/// The trailing checksum byte.
pub const CHECKSUM_LEN: usize = 1;

/// Request command, sent by the host.
#[derive(Debug, Clone, Copy, PartialEq, Eq, Structural)]
pub enum Request {
    /// Send data to the configured address.
    SendData,
    /// Send data to a specific address.
    SendDataEx,
    /// Switch operating mode.
    SetMode,
    /// Reset the module.
    Reset,
    /// Change the RF channel.
    SetChannel,
    /// Set the destination network id.
    SetDestinationNetworkId,
    /// Set the destination address.
    SetDestinationAddress,
    /// Change a user setting.
    SetUserSetting,
    /// Read a user setting.
    GetUserSetting,
    /// Request the RSSI of the last packet.
    Rssi,
    /// Go to shutdown mode.
    Shutdown,
    /// Go to standby mode.
    Standby,
    /// Change the radio transmit power.
    TransmitPower,
    /// Perform a factory reset.
    FactoryReset,
}

/// Wire code of a request.
pub open spec fn request_code(x: Request) -> u8 {
    match x {
        Request::SendData => 0x00,
        Request::SendDataEx => 0x01,
        Request::SetMode => 0x04,
        Request::Reset => 0x05,
        Request::SetChannel => 0x06,
        Request::SetDestinationNetworkId => 0x07,
        Request::SetDestinationAddress => 0x08,
        Request::SetUserSetting => 0x09,
        Request::GetUserSetting => 0x0A,
        Request::Rssi => 0x0D,
        Request::Shutdown => 0x0E,
        Request::Standby => 0x0F,
        Request::TransmitPower => 0x11,
        Request::FactoryReset => 0x12,
    }
}

impl Request {
    /// Wire code of this command.
    pub fn code(self) -> (r: u8)
        ensures
            r == request_code(self),
    {
        match self {
            Request::SendData => 0x00,
            Request::SendDataEx => 0x01,
            Request::SetMode => 0x04,
            Request::Reset => 0x05,
            Request::SetChannel => 0x06,
            Request::SetDestinationNetworkId => 0x07,
            Request::SetDestinationAddress => 0x08,
            Request::SetUserSetting => 0x09,
            Request::GetUserSetting => 0x0A,
            Request::Rssi => 0x0D,
            Request::Shutdown => 0x0E,
            Request::Standby => 0x0F,
            Request::TransmitPower => 0x11,
            Request::FactoryReset => 0x12,
        }
    }
}

impl From<Request> for u8 {
    fn from(value: Request) -> (r: u8) {
        value.code()
    }
}

impl vstd::std_specs::convert::FromSpecImpl<Request> for u8 {
    open spec fn obeys_from_spec() -> bool {
        true
    }

    open spec fn from_spec(v: Request) -> u8 {
        request_code(v)
    }
}

/// Command response, sent by the module to acknowledge a request.
#[derive(Debug, Clone, Copy, PartialEq, Eq, Structural)]
pub enum Response {
    /// Data has been sent.
    SendData,
    /// Mode has been updated.
    SetMode,
    /// Reset request received.
    Reset,
    /// Channel has been updated.
    SetChannel,
    /// Destination network id has been updated.
    SetDestinationNetworkId,
    /// Destination address has been updated.
    SetDestinationAddress,
    /// User setting has been updated.
    SetUserSetting,
    /// Requested user setting value.
    GetUserSetting,
    /// Receive signal strength value.
    Rssi,
    /// Shutdown request received.
    Shutdown,
    /// Standby request received.
    Standby,
    /// Radio transmit power has been updated.
    TransmitPower,
    /// Factory reset request received.
    FactoryReset,
}

/// Wire code of a response.
pub open spec fn response_code(x: Response) -> u8 {
    match x {
        Response::SendData => 0x40,
        Response::SetMode => 0x44,
        Response::Reset => 0x45,
        Response::SetChannel => 0x46,
        Response::SetDestinationNetworkId => 0x47,
        Response::SetDestinationAddress => 0x48,
        Response::SetUserSetting => 0x49,
        Response::GetUserSetting => 0x4A,
        Response::Rssi => 0x4D,
        Response::Shutdown => 0x4E,
        Response::Standby => 0x4F,
        Response::TransmitPower => 0x51,
        Response::FactoryReset => 0x52,
    }
}

impl Response {
    /// Wire code of this command.
    pub fn code(self) -> (r: u8)
        ensures
            r == response_code(self),
    {
        match self {
            Response::SendData => 0x40,
            Response::SetMode => 0x44,
            Response::Reset => 0x45,
            Response::SetChannel => 0x46,
            Response::SetDestinationNetworkId => 0x47,
            Response::SetDestinationAddress => 0x48,
            Response::SetUserSetting => 0x49,
            Response::GetUserSetting => 0x4A,
            Response::Rssi => 0x4D,
            Response::Shutdown => 0x4E,
            Response::Standby => 0x4F,
            Response::TransmitPower => 0x51,
            Response::FactoryReset => 0x52,
        }
    }

    /// The command whose wire code is `raw`, if there is one.
    pub fn try_from_raw(raw: u8) -> (r: Option<Self>)
        ensures
            match r {
                Some(x) => response_code(x) == raw,
                None => forall|x: Self| response_code(x) != raw,
            },
    {
        match raw {
            0x40 => Some(Response::SendData),
            0x44 => Some(Response::SetMode),
            0x45 => Some(Response::Reset),
            0x46 => Some(Response::SetChannel),
            0x47 => Some(Response::SetDestinationNetworkId),
            0x48 => Some(Response::SetDestinationAddress),
            0x49 => Some(Response::SetUserSetting),
            0x4A => Some(Response::GetUserSetting),
            0x4D => Some(Response::Rssi),
            0x4E => Some(Response::Shutdown),
            0x4F => Some(Response::Standby),
            0x51 => Some(Response::TransmitPower),
            0x52 => Some(Response::FactoryReset),
            _ => None,
        }
    }
}

/// Spontaneous notification from the module.
#[derive(Debug, Clone, Copy, PartialEq, Eq, Structural)]
pub enum Event {
    /// Data has been repeated.
    DataRepeat,
    /// Data has been received.
    DataReceived,
    /// Reset has been applied.
    Reset,
    /// Woke up from standby mode.
    Wakeup,
    /// Radio packet has been transmitted.
    PacketTransmit,
}

/// Wire code of an event.
pub open spec fn event_code(x: Event) -> u8 {
    match x {
        Event::DataRepeat => 0x80,
        Event::DataReceived => 0x81,
        Event::Reset => 0x85,
        Event::Wakeup => 0x8F,
        Event::PacketTransmit => 0x90,
    }
}

impl Event {
    /// Wire code of this command.
    pub fn code(self) -> (r: u8)
        ensures
            r == event_code(self),
    {
        match self {
            Event::DataRepeat => 0x80,
            Event::DataReceived => 0x81,
            Event::Reset => 0x85,
            Event::Wakeup => 0x8F,
            Event::PacketTransmit => 0x90,
        }
    }

    /// The command whose wire code is `raw`, if there is one.
    pub fn try_from_raw(raw: u8) -> (r: Option<Self>)
        ensures
            match r {
                Some(x) => event_code(x) == raw,
                None => forall|x: Self| event_code(x) != raw,
            },
    {
        match raw {
            0x80 => Some(Event::DataRepeat),
            0x81 => Some(Event::DataReceived),
            0x85 => Some(Event::Reset),
            0x8F => Some(Event::Wakeup),
            0x90 => Some(Event::PacketTransmit),
            _ => None,
        }
    }
}

/// Any command of the protocol.
#[derive(Debug, Clone, Copy, PartialEq, Eq, Structural)]
pub enum Command {
    Request(Request),
    Response(Response),
    Event(Event),
}

impl Command {
    /// Wire code of this command.
    pub fn code(self) -> (r: u8)
        ensures
            r == match self {
                Command::Request(q) => request_code(q),
                Command::Response(k) => response_code(k),
                Command::Event(e) => event_code(e),
            },
    {
        match self {
            Command::Request(q) => q.code(),
            Command::Response(k) => k.code(),
            Command::Event(e) => e.code(),
        }
    }
}

/// Status of a failed send-data request.
#[derive(Debug, Clone, Copy, PartialEq, Eq, Structural)]
pub enum SendDataError {
    /// No ACK received within a time-out after using all MAC retries.
    AckTimeout,
    /// Invalid channel selected.
    InvalidChannel,
    /// Channel is busy.
    ChannelBusy,
    /// Module is currently busy.
    ModuleBusy,
    /// Payload too long.
    PayloadInvalid,
    /// Unrecognised status byte.
    Other(u8),
}

/// The send-data error that status byte `v` stands for.
pub open spec fn send_data_error_of(v: u8) -> SendDataError {
    if v == 0x01 {
        SendDataError::AckTimeout
    } else if v == 0x02 {
        SendDataError::InvalidChannel
    } else if v == 0x03 {
        SendDataError::ChannelBusy
    } else if v == 0x04 {
        SendDataError::ModuleBusy
    } else if v == 0xFF {
        SendDataError::PayloadInvalid
    } else {
        SendDataError::Other(v)
    }
}

impl From<u8> for SendDataError {
    fn from(value: u8) -> (r: SendDataError) {
        match value {
            0x01 => SendDataError::AckTimeout,
            0x02 => SendDataError::InvalidChannel,
            0x03 => SendDataError::ChannelBusy,
            0x04 => SendDataError::ModuleBusy,
            0xFF => SendDataError::PayloadInvalid,
            _ => SendDataError::Other(value),
        }
    }
}

impl vstd::std_specs::convert::FromSpecImpl<u8> for SendDataError {
    open spec fn obeys_from_spec() -> bool {
        true
    }

    open spec fn from_spec(v: u8) -> SendDataError {
        send_data_error_of(v)
    }
}

/// Operating mode of the module.
#[derive(Debug, Clone, Copy, PartialEq, Eq, Structural)]
pub enum Mode {
    /// Data written to the serial link is sent over the air as it comes.
    Transparent,
    /// The serial link carries framed commands.
    Command,
}

/// Wire code of an operating mode.
pub open spec fn mode_code(m: Mode) -> u8 {
    match m {
        Mode::Transparent => 0x00,
        Mode::Command => 0x10,
    }
}

impl Mode {
    /// Wire code of this mode.
    pub fn code(self) -> (r: u8)
        ensures
            r == mode_code(self),
    {
        match self {
            Mode::Transparent => 0x00,
            Mode::Command => 0x10,
        }
    }
}

/// Writes the frame for request `kind` with payload `data` to the front of `buf`,
/// and returns its length.
pub fn command(buf: &mut [u8], kind: Request, data: &[u8]) -> (len: usize)
    requires
        data@.len() <= MAX_PAYLOAD_LEN,
        old(buf)@.len() >= HEADER_LEN + data@.len() + CHECKSUM_LEN,
    ensures
        len == HEADER_LEN + data@.len() + CHECKSUM_LEN,
        final(buf)@.len() == old(buf)@.len(),
        final(buf)@.subrange(0, len as int) == frame_bytes(request_code(kind), data@),
        final(buf)@.subrange(len as int, final(buf)@.len() as int) == old(buf)@.subrange(
            len as int,
            old(buf)@.len() as int,
        ),
{
    let len = HEADER_LEN + data.len() + CHECKSUM_LEN;
    let ghost old_buf = buf@;
    buf[0] = START;
    buf[1] = kind.code();
    buf[2] = data.len() as u8;
    let mut i: usize = 0;
    while i < data.len()
        invariant
            i <= data@.len(),
            data@.len() <= MAX_PAYLOAD_LEN,
            len == HEADER_LEN + data@.len() + CHECKSUM_LEN,
            buf@.len() == old_buf.len(),
            old_buf.len() >= len,
            buf@.subrange(0, 3 + i) == seq![START, request_code(kind), data@.len() as u8]
                + data@.subrange(0, i as int),
            buf@.subrange(len as int, buf@.len() as int) == old_buf.subrange(
                len as int,
                old_buf.len() as int,
            ),
        decreases data@.len() - i,
    {
        let ghost prev = buf@;
        buf[3 + i] = data[i];
        assert(buf@.subrange(0, 3 + i + 1) == prev.subrange(0, 3 + i).push(data@[i as int]));
        assert(data@.subrange(0, i + 1) == data@.subrange(0, i as int).push(data@[i as int]));
        assert(buf@.subrange(len as int, buf@.len() as int) == prev.subrange(
            len as int,
            prev.len() as int,
        ));
        i = i + 1;
    }
    assert(data@.subrange(0, i as int) == data@);
    let sum = checksum(&buf[0..len - 1]);
    buf[len - 1] = sum;
    assert(buf@.subrange(0, len as int) == buf@.subrange(0, len - 1).push(sum));
    len
}

/// XOR of all bytes of `s` (zero for the empty sequence).
pub open spec fn xor_fold(s: Seq<u8>) -> u8
    decreases s.len(),
{
    if s.len() == 0 {
        0u8
    } else {
        xor_fold(s.drop_last()) ^ s.last()
    }
}

/// The bytes of a frame carrying command id `cmd` and payload `data`.
pub open spec fn frame_bytes(cmd: u8, data: Seq<u8>) -> Seq<u8> {
    let body = seq![START, cmd, data.len() as u8] + data;
    body.push(xor_fold(body))
}

/// A frame passes validation when its last byte is the XOR of all bytes before it.
pub open spec fn checksum_matches(frame: Seq<u8>) -> bool {
    frame.len() > 0 && xor_fold(frame.drop_last()) == frame.last()
}

/// XOR-fold of all bytes in the slice.
pub fn checksum(bytes: &[u8]) -> (r: u8)
    ensures
        r == xor_fold(bytes@),
{
    let mut acc: u8 = 0;
    let mut i: usize = 0;
    while i < bytes.len()
        invariant
            i <= bytes@.len(),
            acc == xor_fold(bytes@.subrange(0, i as int)),
        decreases bytes@.len() - i,
    {
        assert(bytes@.subrange(0, i + 1).drop_last() == bytes@.subrange(0, i as int));
        acc = acc ^ bytes[i];
        i = i + 1;
    }
    assert(bytes@.subrange(0, i as int) == bytes@);
    acc
}

} // verus!
