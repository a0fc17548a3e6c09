use wurth_telesto::channel::Channels;
use wurth_telesto::command::{checksum, Command, command, Event, Mode, Request, Response, SendDataError};
use wurth_telesto::frame::{Frame, Incoming};
use wurth_telesto::ingress::{decode_header, IngestError, Ingress};
use wurth_telesto::radio::{Awaiting, Outcome, Radio};

fn frame(cmd: u8, data: &[u8]) -> Vec<u8> {
    let mut v = vec![0x02, cmd, data.len() as u8];
    v.extend_from_slice(data);
    let sum = checksum(&v);
    v.push(sum);
    v
}

fn feed_all(ingress: &mut Ingress, bytes: &[u8]) -> Vec<Incoming> {
    let mut out = Vec::new();
    for &b in bytes {
        if let Some(i) = ingress.feed(b).unwrap() {
            out.push(i);
        }
    }
    out
}

fn response_frame(cmd: u8, data: &[u8]) -> Frame<Response> {
    let mut ingress = Ingress::new();
    let mut out = feed_all(&mut ingress, &frame(cmd, data));
    assert_eq!(out.len(), 1);
    match out.pop().unwrap() {
        Incoming::Response(f) => f,
        Incoming::Event(_) => panic!("expected a response"),
    }
}

#[test]
fn frame_checksum() {
    let data = [
        0x02, 0x00, 0x0C, 0x48, 0x65, 0x6C, 0x6C, 0x6F, 0x20, 0x57, 0x6F, 0x72, 0x6C, 0x64, 0x21,
    ];

    assert_eq!(checksum(&data), 0x0F);
}

#[test]
fn checksum_of_empty_is_zero() {
    assert_eq!(checksum(&[]), 0);
}

#[test]
fn encode_transmit_power() {
    let mut buf = [0xAAu8; 8];
    let len = command(&mut buf, Request::TransmitPower, &[50]);
    assert_eq!(len, 5);
    assert_eq!(&buf[..5], &[0x02, 0x11, 0x01, 0x32, 0x20]);
    assert_eq!(&buf[5..], &[0xAA, 0xAA, 0xAA]);
}

#[test]
fn encode_empty_payload() {
    let mut buf = [0u8; 4];
    let len = command(&mut buf, Request::Reset, &[]);
    assert_eq!(len, 4);
    assert_eq!(buf, [0x02, 0x05, 0x00, 0x07]);
}

#[test]
fn encode_largest_payload_round_trips() {
    let data: Vec<u8> = (0..224u32).map(|i| (i * 7) as u8).collect();
    let mut buf = [0u8; 228];
    let len = command(&mut buf, Request::SendData, &data);
    assert_eq!(len, 228);
    assert_eq!(buf.to_vec(), frame(0x00, &data));
    let mut bytes = buf.to_vec();
    bytes[1] = 0x81;
    bytes[227] = checksum(&bytes[..227]);
    let mut ingress = Ingress::new();
    let out = feed_all(&mut ingress, &bytes);
    assert_eq!(out.len(), 1);
    match &out[0] {
        Incoming::Event(f) => {
            assert_eq!(*f.command(), Event::DataReceived);
            assert_eq!(f.data(), &data[..]);
        }
        Incoming::Response(_) => panic!("expected an event"),
    }
}

#[test]
fn decode_round_trip_for_every_length() {
    for n in 0..=224usize {
        let data: Vec<u8> = (0..n).map(|i| (i as u8) ^ 0x5A).collect();
        let f = response_frame(0x40, &data);
        assert_eq!(*f.command(), Response::SendData);
        assert_eq!(f.data(), &data[..]);
    }
}

#[test]
fn bit_flip_is_rejected() {
    let good = frame(0x4D, &[0xC4, 0x10, 0x02]);
    for i in 1..good.len() {
        for bit in 0..8 {
            let mut bad = good.clone();
            bad[i] ^= 1 << bit;
            let mut ingress = Ingress::new();
            let mut out = Vec::new();
            for &b in &bad {
                if let Ok(Some(x)) = ingress.feed(b) {
                    out.push(x);
                }
            }
            assert!(out.is_empty(), "flip of bit {} in byte {} accepted", bit, i);
        }
    }
}

#[test]
fn start_byte_in_payload_does_not_desync() {
    let mut bytes = frame(0x81, &[0x02, 0x02, 0x41, 0x02]);
    bytes.extend(frame(0x46, &[0x02]));
    let mut ingress = Ingress::new();
    let out = feed_all(&mut ingress, &bytes);
    assert_eq!(out.len(), 2);
    match &out[0] {
        Incoming::Event(f) => {
            assert_eq!(*f.command(), Event::DataReceived);
            assert_eq!(f.data(), &[0x02, 0x02, 0x41, 0x02]);
        }
        Incoming::Response(_) => panic!("expected an event"),
    }
    match &out[1] {
        Incoming::Response(f) => {
            assert_eq!(*f.command(), Response::SetChannel);
            assert_eq!(f.data(), &[0x02]);
        }
        Incoming::Event(_) => panic!("expected a response"),
    }
}

#[test]
fn line_noise_before_frame_is_skipped() {
    let mut bytes = vec![0x00, 0xFF, 0x13, 0x44];
    bytes.extend(frame(0x8F, &[]));
    let mut ingress = Ingress::new();
    let out = feed_all(&mut ingress, &bytes);
    assert_eq!(out.len(), 1);
    assert!(matches!(&out[0], Incoming::Event(f) if *f.command() == Event::Wakeup));
}

#[test]
fn corrupted_frame_is_dropped_and_parsing_resumes() {
    let mut bytes = frame(0x51, &[0x05]);
    let last = bytes.len() - 1;
    bytes[last] ^= 0x01;
    bytes.extend(frame(0x51, &[0x06]));
    let mut ingress = Ingress::new();
    let out = feed_all(&mut ingress, &bytes);
    assert_eq!(out.len(), 1);
    assert!(matches!(&out[0], Incoming::Response(f) if f.data() == [0x06]));
}

#[test]
fn oversized_length_is_fatal() {
    let mut ingress = Ingress::new();
    assert!(matches!(ingress.feed(0x02), Ok(None)));
    assert!(matches!(ingress.feed(0x40), Ok(None)));
    assert!(matches!(ingress.feed(0xE1), Err(IngestError::PayloadLength)));
    let out = feed_all(&mut ingress, &frame(0x45, &[0x00]));
    assert_eq!(out.len(), 1);
}

#[test]
fn largest_length_is_accepted() {
    let mut ingress = Ingress::new();
    assert!(matches!(ingress.feed(0x02), Ok(None)));
    assert!(matches!(ingress.feed(0x40), Ok(None)));
    assert!(matches!(ingress.feed(0xE0), Ok(None)));
}

#[test]
fn unknown_command_is_discarded() {
    let mut bytes = frame(0x33, &[0x01]);
    bytes.extend(frame(0x00, &[]));
    bytes.extend(frame(0x85, &[]));
    let mut ingress = Ingress::new();
    let out = feed_all(&mut ingress, &bytes);
    assert_eq!(out.len(), 1);
    assert!(matches!(&out[0], Incoming::Event(f) if *f.command() == Event::Reset));
}

#[test]
fn interleaved_frames_are_routed_in_order() {
    let mut bytes = Vec::new();
    bytes.extend(frame(0x81, &[1]));
    bytes.extend(frame(0x40, &[0x00]));
    bytes.extend(frame(0x90, &[2]));
    bytes.extend(frame(0x4D, &[0xC4]));
    bytes.extend(frame(0x80, &[3]));
    let mut ingress = Ingress::new();
    let mut channels = Channels::new();
    for &b in &bytes {
        ingress.ingest(b, &mut channels).unwrap();
    }
    let r1 = channels.next_response().unwrap();
    assert_eq!(*r1.command(), Response::SendData);
    let r2 = channels.next_response().unwrap();
    assert_eq!(*r2.command(), Response::Rssi);
    assert_eq!(r2.data(), &[0xC4]);
    assert!(channels.next_response().is_none());
    let e1 = channels.next_event().unwrap();
    assert_eq!((*e1.command(), e1.data()), (Event::DataReceived, &[1u8][..]));
    let e2 = channels.next_event().unwrap();
    assert_eq!((*e2.command(), e2.data()), (Event::PacketTransmit, &[2u8][..]));
    let e3 = channels.next_event().unwrap();
    assert_eq!((*e3.command(), e3.data()), (Event::DataRepeat, &[3u8][..]));
    assert!(channels.next_event().is_none());
    assert_eq!(channels.dropped(), 0);
}

#[test]
fn third_response_is_dropped() {
    let mut ingress = Ingress::new();
    let mut channels = Channels::new();
    for status in 1..=3u8 {
        for &b in &frame(0x45, &[status]) {
            assert!(ingress.ingest(b, &mut channels).is_ok());
        }
    }
    assert_eq!(channels.dropped(), 1);
    assert_eq!(channels.next_response().unwrap().data(), &[1]);
    assert_eq!(channels.next_response().unwrap().data(), &[2]);
    assert!(channels.next_response().is_none());
}

#[test]
fn seventeenth_event_is_dropped() {
    let mut ingress = Ingress::new();
    let mut channels = Channels::new();
    for n in 0..17u8 {
        for &b in &frame(0x81, &[n]) {
            ingress.ingest(b, &mut channels).unwrap();
        }
    }
    assert_eq!(channels.dropped(), 1);
    for n in 0..16u8 {
        assert_eq!(channels.next_event().unwrap().data(), &[n]);
    }
    assert!(channels.next_event().is_none());
}

#[test]
fn tx_power_succeeds_iff_echoed() {
    let mut radio = Radio::new();
    let mut buf = [0u8; 224];
    assert_eq!(radio.tx_power(50, &mut buf), Some(5));
    assert_eq!(&buf[..5], &[0x02, 0x11, 0x01, 0x32, 0x20]);
    assert_eq!(radio.finish(&response_frame(0x51, &[50])), Outcome::Done);
    assert_eq!(radio.awaiting(), None);
    assert_eq!(radio.tx_power(50, &mut buf), Some(5));
    assert_eq!(radio.finish(&response_frame(0x51, &[0])), Outcome::Refused);
    assert_eq!(radio.tx_power(50, &mut buf), Some(5));
    assert_eq!(radio.finish(&response_frame(0x51, &[49])), Outcome::Refused);
}

#[test]
fn channel_succeeds_iff_echoed() {
    let mut radio = Radio::new();
    let mut buf = [0u8; 224];
    assert_eq!(radio.channel(106, &mut buf), Some(5));
    assert_eq!(buf[1], 0x06);
    assert_eq!(radio.finish(&response_frame(0x46, &[106])), Outcome::Done);
    assert_eq!(radio.channel(106, &mut buf), Some(5));
    assert_eq!(radio.finish(&response_frame(0x46, &[0])), Outcome::Refused);
}

#[test]
fn rssi_is_returned_raw() {
    let mut radio = Radio::new();
    let mut buf = [0u8; 224];
    assert_eq!(radio.rssi(&mut buf), Some(4));
    assert_eq!(&buf[..4], &[0x02, 0x0D, 0x00, 0x0F]);
    assert_eq!(radio.finish(&response_frame(0x4D, &[0x80])), Outcome::Rssi(0x80));
    assert_eq!(radio.rssi(&mut buf), Some(4));
    assert_eq!(radio.finish(&response_frame(0x4D, &[0xC4])), Outcome::Rssi(0xC4));
}

#[test]
fn send_statuses() {
    let mut radio = Radio::new();
    let mut buf = [0u8; 224];
    assert_eq!(radio.send(b"Hello", &mut buf), Some(9));
    assert_eq!(&buf[..9], &frame(0x00, b"Hello")[..]);
    assert_eq!(radio.finish(&response_frame(0x40, &[0x00])), Outcome::Done);
    let cases = [
        (0x01, SendDataError::AckTimeout),
        (0x02, SendDataError::InvalidChannel),
        (0x03, SendDataError::ChannelBusy),
        (0x04, SendDataError::ModuleBusy),
        (0xFF, SendDataError::PayloadInvalid),
        (0x07, SendDataError::Other(0x07)),
    ];
    for (status, err) in cases {
        assert_eq!(radio.send(&[1, 2, 3], &mut buf), Some(7));
        assert_eq!(radio.finish(&response_frame(0x40, &[status])), Outcome::SendFailed(err));
    }
}

#[test]
fn acknowledged_commands() {
    let mut radio = Radio::new();
    let mut buf = [0u8; 224];
    assert_eq!(radio.reset(&mut buf), Some(4));
    assert_eq!(radio.finish(&response_frame(0x45, &[0])), Outcome::Done);
    assert_eq!(radio.factory_reset(&mut buf), Some(4));
    assert_eq!(buf[1], 0x12);
    assert_eq!(radio.finish(&response_frame(0x52, &[1])), Outcome::Refused);
    assert_eq!(radio.standby(&mut buf), Some(4));
    assert_eq!(radio.finish(&response_frame(0x4F, &[0])), Outcome::Done);
    assert_eq!(radio.destination_net(7, &mut buf), Some(5));
    assert_eq!(&buf[..5], &frame(0x07, &[7])[..]);
    assert_eq!(radio.finish(&response_frame(0x47, &[0])), Outcome::Done);
    assert_eq!(radio.destination_address(9, &mut buf), Some(5));
    assert_eq!(radio.finish(&response_frame(0x48, &[9])), Outcome::Refused);
    assert_eq!(radio.mode(Mode::Command, &mut buf), Some(5));
    assert_eq!(&buf[..5], &frame(0x04, &[0x10])[..]);
    assert_eq!(radio.finish(&response_frame(0x44, &[0])), Outcome::Done);
}

#[test]
fn second_command_waits_for_first_response() {
    let mut radio = Radio::new();
    let mut buf = [0u8; 224];
    assert_eq!(radio.tx_power(50, &mut buf), Some(5));
    let before = buf;
    assert_eq!(radio.channel(3, &mut buf), None);
    assert_eq!(buf, before);
    assert_eq!(radio.finish(&response_frame(0x46, &[3])), Outcome::Unexpected);
    assert_eq!(radio.awaiting(), Some(Awaiting::Echo(Response::TransmitPower, 50)));
    assert_eq!(radio.finish(&response_frame(0x51, &[50])), Outcome::Done);
    assert_eq!(radio.finish(&response_frame(0x51, &[50])), Outcome::Unexpected);
    assert_eq!(radio.channel(3, &mut buf), Some(5));
}

#[test]
fn empty_response_is_malformed() {
    let mut radio = Radio::new();
    let mut buf = [0u8; 224];
    assert_eq!(radio.standby(&mut buf), Some(4));
    assert_eq!(radio.finish(&response_frame(0x4F, &[])), Outcome::Malformed);
    assert_eq!(radio.awaiting(), None);
}

#[test]
fn cancel_ends_the_request() {
    let mut radio = Radio::new();
    let mut buf = [0u8; 224];
    assert_eq!(radio.reset(&mut buf), Some(4));
    radio.cancel();
    assert_eq!(radio.awaiting(), None);
    assert_eq!(radio.finish(&response_frame(0x45, &[0])), Outcome::Unexpected);
}

#[test]
fn raw_code_lookup() {
    assert_eq!(Response::try_from_raw(0x51), Some(Response::TransmitPower));
    assert_eq!(Response::try_from_raw(0x40), Some(Response::SendData));
    assert_eq!(Response::try_from_raw(0x11), None);
    assert_eq!(Response::try_from_raw(0x81), None);
    assert_eq!(Event::try_from_raw(0x81), Some(Event::DataReceived));
    assert_eq!(Event::try_from_raw(0x90), Some(Event::PacketTransmit));
    assert_eq!(Event::try_from_raw(0x40), None);
    assert_eq!(Response::Rssi.code(), 0x4D);
    assert_eq!(Request::FactoryReset.code(), 0x12);
    assert_eq!(Mode::Transparent.code(), 0x00);
}

#[test]
fn send_data_error_from_status() {
    assert_eq!(SendDataError::from(0x01), SendDataError::AckTimeout);
    assert_eq!(SendDataError::from(0x04), SendDataError::ModuleBusy);
    assert_eq!(SendDataError::from(0xFF), SendDataError::PayloadInvalid);
    assert_eq!(SendDataError::from(0x00), SendDataError::Other(0x00));
}

#[test]
fn header_is_checked() {
    assert_eq!(decode_header(&[0x02, 0x40, 0xE0]), Ok((0x40, 0xE0)));
    assert_eq!(decode_header(&[0x02, 0x81, 0x00]), Ok((0x81, 0x00)));
    assert_eq!(decode_header(&[0x03, 0x40, 0x01]), Err(IngestError::StartByte));
    assert_eq!(decode_header(&[0x02, 0x40, 0xE1]), Err(IngestError::PayloadLength));
}

#[test]
fn request_into_byte() {
    assert_eq!(u8::from(Request::SetChannel), 0x06);
    let code: u8 = Request::TransmitPower.into();
    assert_eq!(code, 0x11);
}

#[test]
fn command_codes() {
    assert_eq!(Command::Request(Request::Standby).code(), 0x0F);
    assert_eq!(Command::Response(Response::Standby).code(), 0x4F);
    assert_eq!(Command::Event(Event::Wakeup).code(), 0x8F);
}
