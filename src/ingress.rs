//! Byte-at-a-time parser of the incoming wire stream.
use vstd::prelude::*;
use crate::command::{
    checksum_matches, event_code, frame_bytes, response_code, xor_fold, Event, Response,
    MAX_PAYLOAD_LEN, START,
};
use crate::channel::{
    events_of, lemma_routing_keeps_order, responses_of, route_all, route_spec, Channels,
    ChannelsView, EVENT_DEPTH, RESPONSE_DEPTH,
};
use crate::frame::{payload_bytes, payload_new, payload_push, Arrival, Frame, Incoming, Payload};

verus! {

/// Where the parser stands within a frame.
#[derive(Debug, Clone, Copy, PartialEq, Eq, Structural)]
pub enum Phase {
    /// Waiting for a start byte; anything else is line noise.
    Start,
    /// Waiting for the command id.
    Command,
    /// Waiting for the payload length.
    Length,
    /// Reading payload bytes.
    Payload,
    /// Waiting for the checksum byte.
    Checksum,
}

/// Abstract state of the parser.
pub struct ParserState {
    pub phase: Phase,
    pub cmd: u8,
    pub len: u8,
    pub payload: Seq<u8>,
}

/// What one byte does to the parser.
pub struct StepResult {
    pub next: ParserState,
    /// A frame whose checksum matched, as command id and payload.
    pub frame: Option<(u8, Seq<u8>)>,
    /// The length byte exceeded the largest payload.
    pub fatal: bool,
}

/// The parser between frames.
pub open spec fn idle() -> ParserState {
    ParserState { phase: Phase::Start, cmd: 0, len: 0, payload: Seq::empty() }
}

/// The effect of the byte `b` on the parser in state `s`.
pub open spec fn parser_step(s: ParserState, b: u8) -> StepResult {
    match s.phase {
        Phase::Start => StepResult {
            next: if b == START {
                ParserState { phase: Phase::Command, ..idle() }
            } else {
                idle()
            },
            frame: None,
            fatal: false,
        },
        Phase::Command => StepResult {
            next: ParserState { phase: Phase::Length, cmd: b, ..idle() },
            frame: None,
            fatal: false,
        },
        Phase::Length => if b as usize > MAX_PAYLOAD_LEN {
            StepResult { next: idle(), frame: None, fatal: true }
        } else {
            StepResult {
                next: ParserState {
                    phase: if b == 0 {
                        Phase::Checksum
                    } else {
                        Phase::Payload
                    },
                    cmd: s.cmd,
                    len: b,
                    payload: Seq::empty(),
                },
                frame: None,
                fatal: false,
            }
        },
        Phase::Payload => StepResult {
            next: ParserState {
                phase: if s.payload.len() + 1 == s.len {
                    Phase::Checksum
                } else {
                    Phase::Payload
                },
                payload: s.payload.push(b),
                ..s
            },
            frame: None,
            fatal: false,
        },
        Phase::Checksum => StepResult {
            next: idle(),
            frame: if checksum_matches((seq![START, s.cmd, s.len] + s.payload).push(b)) {
                Some((s.cmd, s.payload))
            } else {
                None
            },
            fatal: false,
        },
    }
}

/// The state after parsing `bytes` from `s`, and the frames that passed validation.
pub open spec fn decode_stream(s: ParserState, bytes: Seq<u8>) -> (ParserState, Seq<(u8, Seq<u8>)>)
    decreases bytes.len(),
{
    if bytes.len() == 0 {
        (s, Seq::empty())
    } else {
        let prev = decode_stream(s, bytes.drop_last());
        let st = parser_step(prev.0, bytes.last());
        (
            st.next,
            match st.frame {
                Some(f) => prev.1.push(f),
                None => prev.1,
            },
        )
    }
}

/// Whether `c` is the wire code of an event.
pub open spec fn is_event_code(c: u8) -> bool {
    exists|e: Event| event_code(e) == c
}

/// Whether `c` is the wire code of a response.
pub open spec fn is_response_code(c: u8) -> bool {
    exists|r: Response| response_code(r) == c
}

/// A validated frame as an event or a response; `None` for an unknown command id.
pub open spec fn classify(frame: Option<(u8, Seq<u8>)>) -> Option<Arrival> {
    match frame {
        None => None,
        Some(f) => if is_event_code(f.0) {
            Some(Arrival::Event(choose|e: Event| event_code(e) == f.0, f.1))
        } else if is_response_code(f.0) {
            Some(Arrival::Response(choose|k: Response| response_code(k) == f.0, f.1))
        } else {
            None
        },
    }
}

proof fn lemma_codes_injective()
    ensures
        forall|a: Event, b: Event| event_code(a) == event_code(b) ==> a == b,
        forall|a: Response, b: Response| response_code(a) == response_code(b) ==> a == b,
        forall|a: Event, b: Response| event_code(a) != response_code(b),
{
}

/// Ingestion error.
#[derive(Debug, Clone, Copy, PartialEq, Eq, Structural)]
pub enum IngestError {
    /// Start byte was not correct.
    StartByte,
    /// Payload length is too long.
    PayloadLength,
    /// Command id is not recognised.
    UnknownCommand,
}

/// Parser state after the header and the first `k` payload bytes of the frame
/// carrying `cmd` and `data`.
spec fn reading_state(cmd: u8, data: Seq<u8>, k: int) -> ParserState {
    ParserState {
        phase: if k < data.len() {
            Phase::Payload
        } else {
            Phase::Checksum
        },
        cmd,
        len: data.len() as u8,
        payload: data.subrange(0, k),
    }
}

proof fn lemma_frame_prefix(cmd: u8, data: Seq<u8>, k: int)
    requires
        data.len() <= MAX_PAYLOAD_LEN,
        0 <= k <= data.len(),
    ensures
        decode_stream(idle(), frame_bytes(cmd, data).subrange(0, 3 + k)) == (
            reading_state(cmd, data, k),
            Seq::<(u8, Seq<u8>)>::empty(),
        ),
    decreases k,
{
    let f = frame_bytes(cmd, data);
    if k == 0 {
        let s1 = f.subrange(0, 1);
        let s2 = f.subrange(0, 2);
        let s3 = f.subrange(0, 3);
        assert(s1.drop_last() =~= Seq::<u8>::empty());
        assert(s2.drop_last() =~= s1);
        assert(s3.drop_last() =~= s2);
        assert(s1.last() == START);
        assert(s2.last() == cmd);
        assert(s3.last() == data.len() as u8);
        assert(data.subrange(0, 0) =~= Seq::<u8>::empty());
        assert(decode_stream(idle(), Seq::<u8>::empty()) == (
            idle(),
            Seq::<(u8, Seq<u8>)>::empty(),
        ));
        assert(decode_stream(idle(), s1) == (
            ParserState { phase: Phase::Command, ..idle() },
            Seq::<(u8, Seq<u8>)>::empty(),
        ));
        assert(decode_stream(idle(), s2) == (
            ParserState { phase: Phase::Length, cmd, ..idle() },
            Seq::<(u8, Seq<u8>)>::empty(),
        ));
        assert(reading_state(cmd, data, 0).payload =~= Seq::<u8>::empty());
    } else {
        lemma_frame_prefix(cmd, data, k - 1);
        let a = f.subrange(0, 3 + k);
        assert(a.drop_last() =~= f.subrange(0, 3 + k - 1));
        assert(a.last() == data[k - 1]);
        assert(data.subrange(0, k - 1).push(data[k - 1]) =~= data.subrange(0, k));
    }
}

/// Round trip: parsing the frame that carries `cmd` and `data` from the idle state
/// yields exactly that command id and payload, and leaves the parser idle.
pub proof fn lemma_round_trip(cmd: u8, data: Seq<u8>)
    requires
        data.len() <= MAX_PAYLOAD_LEN,
    ensures
        decode_stream(idle(), frame_bytes(cmd, data)) == (idle(), seq![(cmd, data)]),
{
    lemma_frame_prefix(cmd, data, data.len() as int);
    let f = frame_bytes(cmd, data);
    let body = seq![START, cmd, data.len() as u8] + data;
    assert(f.drop_last() =~= f.subrange(0, 3 + data.len() as int));
    assert(data.subrange(0, data.len() as int) =~= data);
    assert(body.push(f.last()) =~= f);
    assert(f.drop_last() =~= body);
    assert(Seq::<(u8, Seq<u8>)>::empty().push((cmd, data)) =~= seq![(cmd, data)]);
}

/// Parsing a concatenation is parsing the first part, then the second from where
/// the first left the parser.
pub proof fn lemma_decode_concat(s: ParserState, a: Seq<u8>, b: Seq<u8>)
    ensures
        decode_stream(s, a + b) == (
            decode_stream(decode_stream(s, a).0, b).0,
            decode_stream(s, a).1 + decode_stream(decode_stream(s, a).0, b).1,
        ),
    decreases b.len(),
{
    let first = decode_stream(s, a);
    if b.len() == 0 {
        assert(a + b =~= a);
        assert(first.1 + Seq::<(u8, Seq<u8>)>::empty() =~= first.1);
    } else {
        lemma_decode_concat(s, a, b.drop_last());
        assert((a + b).drop_last() =~= a + b.drop_last());
        assert((a + b).last() == b.last());
        let rest = decode_stream(first.0, b.drop_last());
        let st = parser_step(rest.0, b.last());
        if st.frame is Some {
            assert((first.1 + rest.1).push(st.frame->Some_0) =~= first.1 + rest.1.push(
                st.frame->Some_0,
            ));
        }
    }
}

/// Length-prefixed framing: two frames sent back to back both come out, in order,
/// whatever their payloads hold, start bytes included.
pub proof fn lemma_back_to_back(cmd1: u8, data1: Seq<u8>, cmd2: u8, data2: Seq<u8>)
    requires
        data1.len() <= MAX_PAYLOAD_LEN,
        data2.len() <= MAX_PAYLOAD_LEN,
    ensures
        decode_stream(idle(), frame_bytes(cmd1, data1) + frame_bytes(cmd2, data2)) == (
            idle(),
            seq![(cmd1, data1), (cmd2, data2)],
        ),
{
    lemma_decode_concat(idle(), frame_bytes(cmd1, data1), frame_bytes(cmd2, data2));
    lemma_round_trip(cmd1, data1);
    lemma_round_trip(cmd2, data2);
    assert(seq![(cmd1, data1)] + seq![(cmd2, data2)] =~= seq![(cmd1, data1), (cmd2, data2)]);
}

proof fn lemma_xor_fold_update(s: Seq<u8>, i: int, m: u8)
    requires
        0 <= i < s.len(),
    ensures
        xor_fold(s.update(i, s[i] ^ m)) == xor_fold(s) ^ m,
    decreases s.len(),
{
    let t = s.update(i, s[i] ^ m);
    let x = xor_fold(s.drop_last());
    let y = s.last();
    if i == s.len() - 1 {
        assert(t.drop_last() =~= s.drop_last());
        assert(x ^ (y ^ m) == (x ^ y) ^ m) by (bit_vector);
    } else {
        lemma_xor_fold_update(s.drop_last(), i, m);
        assert(t.drop_last() =~= s.drop_last().update(i, s[i] ^ m));
        assert((x ^ m) ^ y == (x ^ y) ^ m) by (bit_vector);
    }
}

/// Flipping any one bit of a well-formed frame, start byte aside, makes its
/// checksum validation fail.
pub proof fn lemma_bit_flip_rejected(cmd: u8, data: Seq<u8>, i: int, bit: u8)
    requires
        data.len() <= MAX_PAYLOAD_LEN,
        1 <= i < frame_bytes(cmd, data).len(),
        bit < 8,
    ensures
        !checksum_matches(
            frame_bytes(cmd, data).update(i, frame_bytes(cmd, data)[i] ^ (1u8 << bit)),
        ),
{
    let f = frame_bytes(cmd, data);
    let m = 1u8 << bit;
    assert(m != 0) by (bit_vector)
        requires
            m == 1u8 << bit,
            bit < 8,
    ;
    let g = f.update(i, f[i] ^ m);
    let body = seq![START, cmd, data.len() as u8] + data;
    assert(f.drop_last() =~= body);
    let last = f.last();
    if i == f.len() - 1 {
        assert(g.drop_last() =~= f.drop_last());
        assert(last ^ m != last) by (bit_vector)
            requires
                m != 0,
        ;
    } else {
        lemma_xor_fold_update(f.drop_last(), i, m);
        assert(g.drop_last() =~= f.drop_last().update(i, f[i] ^ m));
        let x = xor_fold(f.drop_last());
        assert(x ^ m != x) by (bit_vector)
            requires
                m != 0,
        ;
    }
}

/// Round trip for a response: its frame parses back to its code and payload,
/// which classify as that very response.
pub proof fn lemma_response_round_trip(r: Response, data: Seq<u8>)
    requires
        data.len() <= MAX_PAYLOAD_LEN,
    ensures
        decode_stream(idle(), frame_bytes(response_code(r), data)) == (
            idle(),
            seq![(response_code(r), data)],
        ),
        classify(Some((response_code(r), data))) == Some(Arrival::Response(r, data)),
{
    lemma_round_trip(response_code(r), data);
    lemma_codes_injective();
}

/// Round trip for an event: its frame parses back to its code and payload, which
/// classify as that very event.
pub proof fn lemma_event_round_trip(e: Event, data: Seq<u8>)
    requires
        data.len() <= MAX_PAYLOAD_LEN,
    ensures
        decode_stream(idle(), frame_bytes(event_code(e), data)) == (
            idle(),
            seq![(event_code(e), data)],
        ),
        classify(Some((event_code(e), data))) == Some(Arrival::Event(e, data)),
{
    lemma_round_trip(event_code(e), data);
    lemma_codes_injective();
}

/// The parser state and channels after ingesting `bytes`, one at a time.
pub open spec fn ingest_stream(s: ParserState, c: ChannelsView, bytes: Seq<u8>) -> (
    ParserState,
    ChannelsView,
)
    decreases bytes.len(),
{
    if bytes.len() == 0 {
        (s, c)
    } else {
        let prev = ingest_stream(s, c, bytes.drop_last());
        let st = parser_step(prev.0, bytes.last());
        (
            st.next,
            match classify(st.frame) {
                Some(a) => route_spec(prev.1, a),
                None => prev.1,
            },
        )
    }
}

/// Command id and payload of a classified frame.
pub open spec fn arrival_frame(a: Arrival) -> (u8, Seq<u8>) {
    match a {
        Arrival::Response(k, d) => (response_code(k), d),
        Arrival::Event(e, d) => (event_code(e), d),
    }
}

/// The wire bytes of the frames `arrivals`, sent back to back.
pub open spec fn wire(arrivals: Seq<Arrival>) -> Seq<u8>
    decreases arrivals.len(),
{
    if arrivals.len() == 0 {
        Seq::empty()
    } else {
        let f = arrival_frame(arrivals.last());
        wire(arrivals.drop_last()) + frame_bytes(f.0, f.1)
    }
}

/// Whether every frame of `arrivals` carries a payload the protocol allows.
pub open spec fn payloads_fit(arrivals: Seq<Arrival>) -> bool {
    forall|i: int| 0 <= i < arrivals.len() ==> (#[trigger] arrival_frame(arrivals[i])).1.len()
        <= MAX_PAYLOAD_LEN
}

proof fn lemma_ingest_concat(s: ParserState, c: ChannelsView, a: Seq<u8>, b: Seq<u8>)
    ensures
        ingest_stream(s, c, a + b) == ingest_stream(
            ingest_stream(s, c, a).0,
            ingest_stream(s, c, a).1,
            b,
        ),
    decreases b.len(),
{
    if b.len() == 0 {
        assert(a + b =~= a);
    } else {
        lemma_ingest_concat(s, c, a, b.drop_last());
        assert((a + b).drop_last() =~= a + b.drop_last());
        assert((a + b).last() == b.last());
    }
}

/// The classified frames among `frames`, in order; unknown command ids drop out.
pub open spec fn arrivals_of(frames: Seq<(u8, Seq<u8>)>) -> Seq<Arrival>
    decreases frames.len(),
{
    if frames.len() == 0 {
        Seq::empty()
    } else {
        match classify(Some(frames.last())) {
            Some(a) => arrivals_of(frames.drop_last()).push(a),
            None => arrivals_of(frames.drop_last()),
        }
    }
}

/// Ingesting bytes is decoding them, then routing the classified frames in order.
pub proof fn lemma_ingest_is_decode_then_route(s: ParserState, c: ChannelsView, bytes: Seq<u8>)
    ensures
        ingest_stream(s, c, bytes) == (
            decode_stream(s, bytes).0,
            route_all(c, arrivals_of(decode_stream(s, bytes).1)),
        ),
    decreases bytes.len(),
{
    if bytes.len() > 0 {
        lemma_ingest_is_decode_then_route(s, c, bytes.drop_last());
        let prev = decode_stream(s, bytes.drop_last());
        let st = parser_step(prev.0, bytes.last());
        if st.frame is Some {
            let frames = prev.1.push(st.frame->Some_0);
            assert(frames.drop_last() =~= prev.1);
            if classify(st.frame) is Some {
                let xs = arrivals_of(prev.1);
                assert(xs.push(classify(st.frame)->Some_0).drop_last() =~= xs);
            }
        }
    }
}

proof fn lemma_ingest_frame(c: ChannelsView, a: Arrival)
    requires
        arrival_frame(a).1.len() <= MAX_PAYLOAD_LEN,
    ensures
        ingest_stream(idle(), c, frame_bytes(arrival_frame(a).0, arrival_frame(a).1)) == (
            idle(),
            route_spec(c, a),
        ),
{
    let (cmd, data) = arrival_frame(a);
    match a {
        Arrival::Response(k, d) => lemma_response_round_trip(k, d),
        Arrival::Event(e, d) => lemma_event_round_trip(e, d),
    }
    lemma_ingest_is_decode_then_route(idle(), c, frame_bytes(cmd, data));
    let one = seq![(cmd, data)];
    assert(one.drop_last() =~= Seq::<(u8, Seq<u8>)>::empty());
    assert(one.last() == (cmd, data));
    assert(classify(Some((cmd, data))) == Some(a));
    assert(arrivals_of(Seq::<(u8, Seq<u8>)>::empty()) == Seq::<Arrival>::empty());
    assert(Seq::<Arrival>::empty().push(a) =~= seq![a]);
    assert(arrivals_of(one) == seq![a]);
    assert(seq![a].last() == a);
    assert(route_all(c, Seq::<Arrival>::empty()) == c);
    assert(seq![a].drop_last() =~= Seq::<Arrival>::empty());
    assert(route_all(c, seq![a]) == route_spec(c, a));
}

/// Events and responses sent interleaved on the wire are ingested into the
/// channels as if each were routed in turn, leaving the parser idle.
pub proof fn lemma_ingest_wire(c: ChannelsView, arrivals: Seq<Arrival>)
    requires
        payloads_fit(arrivals),
    ensures
        ingest_stream(idle(), c, wire(arrivals)) == (idle(), route_all(c, arrivals)),
    decreases arrivals.len(),
{
    if arrivals.len() > 0 {
        let init = arrivals.drop_last();
        let a = arrivals.last();
        assert(payloads_fit(init)) by {
            assert forall|i: int| 0 <= i < init.len() implies (#[trigger] arrival_frame(
                init[i],
            )).1.len() <= MAX_PAYLOAD_LEN by {
                assert(init[i] == arrivals[i]);
            }
        }
        assert(arrival_frame(arrivals[arrivals.len() - 1]).1.len() <= MAX_PAYLOAD_LEN);
        lemma_ingest_wire(c, init);
        let f = arrival_frame(a);
        lemma_ingest_concat(idle(), c, wire(init), frame_bytes(f.0, f.1));
        lemma_ingest_frame(route_all(c, init), a);
    }
}

/// Interleaved on the wire, responses and events each reach their own channel in
/// the order they were sent, as long as neither channel overflows.
pub proof fn lemma_wire_keeps_order(c: ChannelsView, arrivals: Seq<Arrival>)
    requires
        payloads_fit(arrivals),
        c.responses.len() + responses_of(arrivals).len() <= RESPONSE_DEPTH,
        c.events.len() + events_of(arrivals).len() <= EVENT_DEPTH,
    ensures
        ingest_stream(idle(), c, wire(arrivals)).1.responses == c.responses + responses_of(
            arrivals,
        ),
        ingest_stream(idle(), c, wire(arrivals)).1.events == c.events + events_of(arrivals),
{
    lemma_ingest_wire(c, arrivals);
    lemma_routing_keeps_order(c, arrivals);
}

/// The command id and payload length of a frame header, checked: the first byte
/// must be the start byte and the length at most the largest payload.
pub fn decode_header(header: &[u8; 3]) -> (r: Result<(u8, u8), IngestError>)
    ensures
        header@[0] != START ==> r == Err::<(u8, u8), IngestError>(IngestError::StartByte),
        header@[0] == START && header@[2] as usize > MAX_PAYLOAD_LEN ==> r == Err::<
            (u8, u8),
            IngestError,
        >(IngestError::PayloadLength),
        header@[0] == START && header@[2] as usize <= MAX_PAYLOAD_LEN ==> r == Ok::<
            (u8, u8),
            IngestError,
        >((header@[1], header@[2])),
{
    if header[0] != START {
        return Err(IngestError::StartByte);
    }
    if header[2] as usize > MAX_PAYLOAD_LEN {
        return Err(IngestError::PayloadLength);
    }
    Ok((header[1], header[2]))
}

/// Incoming data handler: turns the byte stream into classified frames.
pub struct Ingress {
    phase: Phase,
    cmd: u8,
    len: u8,
    sum: u8,
    payload: Payload,
}

impl Ingress {
    /// Abstract state of the parser.
    pub closed spec fn view(&self) -> ParserState {
        ParserState {
            phase: self.phase,
            cmd: self.cmd,
            len: self.len,
            payload: payload_bytes(self.payload),
        }
    }

    /// The parser's internal invariant.
    pub closed spec fn wf(&self) -> bool {
        let p = payload_bytes(self.payload);
        &&& self.len as usize <= MAX_PAYLOAD_LEN
        &&& p.len() <= self.len
        &&& (self.phase == Phase::Payload ==> p.len() < self.len)
        &&& (self.phase == Phase::Checksum ==> p.len() == self.len)
        &&& (self.phase == Phase::Start || self.phase == Phase::Command || self.phase
            == Phase::Length) ==> (p.len() == 0 && self.len == 0)
        &&& (self.phase == Phase::Start ==> self.cmd == 0)
        &&& (self.phase == Phase::Command ==> self.cmd == 0)
        &&& (self.phase == Phase::Length ==> self.sum == xor_fold(seq![START, self.cmd]))
        &&& (self.phase == Phase::Payload || self.phase == Phase::Checksum) ==> self.sum
            == xor_fold(seq![START, self.cmd, self.len] + p)
    }

    /// A parser waiting for the first start byte.
    pub fn new() -> (r: Ingress)
        ensures
            r.wf(),
            r@ == idle(),
    {
        Ingress { phase: Phase::Start, cmd: 0, len: 0, sum: 0, payload: payload_new() }
    }

    /// Parses one byte of the stream. Returns the frame that this byte completes,
    /// if its checksum matched and its command id is a response or an event, and
    /// `PayloadLength` when a length byte exceeds the largest payload; the parser
    /// then waits for the next start byte.
    pub fn feed(&mut self, byte: u8) -> (r: Result<Option<Incoming>, IngestError>)
        requires
            old(self).wf(),
        ensures
            final(self).wf(),
            final(self)@ == parser_step(old(self)@, byte).next,
            parser_step(old(self)@, byte).fatal <==> r == Err::<Option<Incoming>, IngestError>(
                IngestError::PayloadLength,
            ),
            !parser_step(old(self)@, byte).fatal ==> r is Ok,
            r is Ok ==> match r->Ok_0 {
                None => classify(parser_step(old(self)@, byte).frame) is None,
                Some(i) => classify(parser_step(old(self)@, byte).frame) == Some(i@),
            },
    {
        match self.phase {
            Phase::Start => {
                assert(payload_bytes(self.payload) =~= Seq::<u8>::empty());
                if byte == START {
                    self.phase = Phase::Command;
                }
                Ok(None)
            },
            Phase::Command => {
                assert(payload_bytes(self.payload) =~= Seq::<u8>::empty());
                self.cmd = byte;
                self.sum = START ^ byte;
                self.phase = Phase::Length;
                assert(seq![START, byte].drop_last() == seq![START]);
                assert(seq![START].drop_last() == Seq::<u8>::empty());
                assert(0u8 ^ 2u8 == 2u8) by (bit_vector);
                assert(xor_fold(Seq::<u8>::empty()) == 0);
                assert(xor_fold(seq![START]) == START);
                assert(xor_fold(seq![START, byte]) == START ^ byte);
                Ok(None)
            },
            Phase::Length => {
                if byte as usize > MAX_PAYLOAD_LEN {
                    self.reset();
                    return Err(IngestError::PayloadLength);
                }
                assert(payload_bytes(self.payload) =~= Seq::<u8>::empty());
                let ghost cmd = self.cmd;
                self.len = byte;
                self.sum = self.sum ^ byte;
                assert(seq![START, cmd, byte] + payload_bytes(self.payload) == seq![START, cmd, byte]);
                assert(seq![START, cmd, byte].drop_last() == seq![START, cmd]);
                self.phase = if byte == 0 {
                    Phase::Checksum
                } else {
                    Phase::Payload
                };
                Ok(None)
            },
            Phase::Payload => {
                let ghost p = payload_bytes(self.payload);
                let pushed = payload_push(&mut self.payload, byte);
                assert(pushed is Ok);
                assert(seq![START, self.cmd, self.len] + p.push(byte) == (seq![
                    START,
                    self.cmd,
                    self.len,
                ] + p).push(byte));
                self.sum = self.sum ^ byte;
                assert((seq![START, self.cmd, self.len] + p).push(byte).drop_last() == seq![
                    START,
                    self.cmd,
                    self.len,
                ] + p);
                if crate::frame::payload_as_slice(&self.payload).len() == self.len as usize {
                    self.phase = Phase::Checksum;
                }
                Ok(None)
            },
            Phase::Checksum => {
                let cmd = self.cmd;
                let ok = self.sum == byte;
                let ghost body = seq![START, self.cmd, self.len] + payload_bytes(self.payload);
                assert(body.push(byte).drop_last() == body);
                let mut payload = payload_new();
                core::mem::swap(&mut payload, &mut self.payload);
                self.reset();
                if !ok {
                    return Ok(None);
                }
                proof {
                    lemma_codes_injective();
                }
                if let Some(e) = Event::try_from_raw(cmd) {
                    return Ok(Some(Incoming::Event(Frame::new(e, payload))));
                }
                if let Some(resp) = Response::try_from_raw(cmd) {
                    return Ok(Some(Incoming::Response(Frame::new(resp, payload))));
                }
                Ok(None)
            },
        }
    }

    /// Parses one byte of the stream and routes the frame that it completes, if
    /// any, into its channel. Fails, for the caller to restart ingestion, when a
    /// length byte exceeds the largest payload.
    pub fn ingest(&mut self, byte: u8, channels: &mut Channels) -> (r: Result<(), IngestError>)
        requires
            old(self).wf(),
            old(channels).wf(),
        ensures
            final(self).wf(),
            final(channels).wf(),
            final(self)@ == parser_step(old(self)@, byte).next,
            parser_step(old(self)@, byte).fatal <==> r == Err::<(), IngestError>(
                IngestError::PayloadLength,
            ),
            !parser_step(old(self)@, byte).fatal ==> r is Ok,
            final(channels)@ == match classify(parser_step(old(self)@, byte).frame) {
                Some(a) => route_spec(old(channels)@, a),
                None => old(channels)@,
            },
    {
        match self.feed(byte) {
            Err(e) => Err(e),
            Ok(None) => Ok(()),
            Ok(Some(incoming)) => {
                channels.route(incoming);
                Ok(())
            },
        }
    }

    /// Returns to waiting for a start byte, with an empty payload.
    fn reset(&mut self)
        ensures
            final(self).wf(),
            final(self)@ == idle(),
    {
        self.phase = Phase::Start;
        self.cmd = 0;
        self.len = 0;
        self.sum = 0;
        self.payload = payload_new();
    }
}

} // verus!
