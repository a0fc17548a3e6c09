//! The pair of bounded channels between the ingress and its consumers.
use vstd::prelude::*;
use crate::command::{Event, Response};
use crate::frame::{Arrival, Frame, Incoming};

verus! {

#[verifier::external_type_specification]
#[verifier::external_body]
#[verifier::reject_recursive_types(T)]
pub struct ExQueue<T, const N: usize>(heapless::spsc::Queue<T, N>);

/// Responses the response channel holds at most: one in flight, one racing.
pub const RESPONSE_DEPTH: usize = 2;

/// Events the event channel holds at most.
pub const EVENT_DEPTH: usize = 16;

/// Queue behind the response channel; it holds one element less than its size.
pub type ResponseQueue = heapless::spsc::Queue<Frame<Response>, 3>;

/// Queue behind the event channel; it holds one element less than its size.
pub type EventQueue = heapless::spsc::Queue<Frame<Event>, 17>;

/// Kind and payload of each frame in a response queue, front first.
pub uninterp spec fn response_items(q: heapless::spsc::Queue<Frame<Response>, 3>) -> Seq<
    (Response, Seq<u8>),
>;

/// Kind and payload of each frame in an event queue, front first.
pub uninterp spec fn event_items(q: heapless::spsc::Queue<Frame<Event>, 17>) -> Seq<
    (Event, Seq<u8>),
>;

/// Relies on heapless::spsc::Queue::new: the new queue is empty.
#[verifier::external_body]
fn response_queue_new() -> (r: ResponseQueue)
    ensures
        response_items(r) == Seq::<(Response, Seq<u8>)>::empty(),
{
    heapless::spsc::Queue::new()
}

/// Relies on heapless::spsc::Queue::enqueue: appends at the back unless the two
/// places of a queue of size 3 are taken, and hands the frame back otherwise.
#[verifier::external_body]
fn response_enqueue(q: &mut ResponseQueue, f: Frame<Response>) -> (r: Result<(), Frame<Response>>)
    ensures
        response_items(*old(q)).len() < RESPONSE_DEPTH ==> r is Ok && response_items(*final(q))
            == response_items(*old(q)).push(f@),
        response_items(*old(q)).len() >= RESPONSE_DEPTH ==> r is Err && response_items(*final(q))
            == response_items(*old(q)),
{
    q.enqueue(f)
}

/// Relies on heapless::spsc::Queue::dequeue: removes and returns the front frame,
/// if any.
#[verifier::external_body]
fn response_dequeue(q: &mut ResponseQueue) -> (r: Option<Frame<Response>>)
    ensures
        response_items(*old(q)).len() == 0 ==> r is None && response_items(*final(q))
            == response_items(*old(q)),
        response_items(*old(q)).len() > 0 ==> r is Some && r->Some_0@ == response_items(
            *old(q),
        )[0] && response_items(*final(q)) == response_items(*old(q)).drop_first(),
{
    q.dequeue()
}

/// Relies on heapless::spsc::Queue::new: the new queue is empty.
#[verifier::external_body]
fn event_queue_new() -> (r: EventQueue)
    ensures
        event_items(r) == Seq::<(Event, Seq<u8>)>::empty(),
{
    heapless::spsc::Queue::new()
}

/// Relies on heapless::spsc::Queue::enqueue: appends at the back unless the
/// sixteen places of a queue of size 17 are taken, and hands the frame back
/// otherwise.
#[verifier::external_body]
fn event_enqueue(q: &mut EventQueue, f: Frame<Event>) -> (r: Result<(), Frame<Event>>)
    ensures
        event_items(*old(q)).len() < EVENT_DEPTH ==> r is Ok && event_items(*final(q))
            == event_items(*old(q)).push(f@),
        event_items(*old(q)).len() >= EVENT_DEPTH ==> r is Err && event_items(*final(q))
            == event_items(*old(q)),
{
    q.enqueue(f)
}

/// Relies on heapless::spsc::Queue::dequeue: removes and returns the front frame,
/// if any.
#[verifier::external_body]
fn event_dequeue(q: &mut EventQueue) -> (r: Option<Frame<Event>>)
    ensures
        event_items(*old(q)).len() == 0 ==> r is None && event_items(*final(q)) == event_items(
            *old(q),
        ),
        event_items(*old(q)).len() > 0 ==> r is Some && r->Some_0@ == event_items(*old(q))[0]
            && event_items(*final(q)) == event_items(*old(q)).drop_first(),
{
    q.dequeue()
}

/// Abstract contents of the channel pair.
pub struct ChannelsView {
    pub responses: Seq<(Response, Seq<u8>)>,
    pub events: Seq<(Event, Seq<u8>)>,
    pub dropped: u64,
}

/// The channels after a frame is routed: into its channel if there is room,
/// otherwise dropped and counted (the count stops at its largest value).
pub open spec fn route_spec(c: ChannelsView, a: Arrival) -> ChannelsView {
    let dropped = if c.dropped < u64::MAX {
        (c.dropped + 1) as u64
    } else {
        c.dropped
    };
    match a {
        Arrival::Response(k, d) => if c.responses.len() < RESPONSE_DEPTH {
            ChannelsView { responses: c.responses.push((k, d)), ..c }
        } else {
            ChannelsView { dropped, ..c }
        },
        Arrival::Event(k, d) => if c.events.len() < EVENT_DEPTH {
            ChannelsView { events: c.events.push((k, d)), ..c }
        } else {
            ChannelsView { dropped, ..c }
        },
    }
}

/// The channels after routing each frame of `arrivals` in turn.
pub open spec fn route_all(c: ChannelsView, arrivals: Seq<Arrival>) -> ChannelsView
    decreases arrivals.len(),
{
    if arrivals.len() == 0 {
        c
    } else {
        route_spec(route_all(c, arrivals.drop_last()), arrivals.last())
    }
}

/// The responses among `arrivals`, in order.
pub open spec fn responses_of(arrivals: Seq<Arrival>) -> Seq<(Response, Seq<u8>)>
    decreases arrivals.len(),
{
    if arrivals.len() == 0 {
        Seq::empty()
    } else {
        match arrivals.last() {
            Arrival::Response(k, d) => responses_of(arrivals.drop_last()).push((k, d)),
            Arrival::Event(_, _) => responses_of(arrivals.drop_last()),
        }
    }
}

/// The events among `arrivals`, in order.
pub open spec fn events_of(arrivals: Seq<Arrival>) -> Seq<(Event, Seq<u8>)>
    decreases arrivals.len(),
{
    if arrivals.len() == 0 {
        Seq::empty()
    } else {
        match arrivals.last() {
            Arrival::Event(k, d) => events_of(arrivals.drop_last()).push((k, d)),
            Arrival::Response(_, _) => events_of(arrivals.drop_last()),
        }
    }
}

/// Interleaved responses and events each reach their own channel, in the order
/// they arrived, as long as neither channel overflows.
pub proof fn lemma_routing_keeps_order(c: ChannelsView, arrivals: Seq<Arrival>)
    requires
        c.responses.len() + responses_of(arrivals).len() <= RESPONSE_DEPTH,
        c.events.len() + events_of(arrivals).len() <= EVENT_DEPTH,
    ensures
        route_all(c, arrivals).responses == c.responses + responses_of(arrivals),
        route_all(c, arrivals).events == c.events + events_of(arrivals),
        route_all(c, arrivals).dropped == c.dropped,
    decreases arrivals.len(),
{
    if arrivals.len() == 0 {
        assert(c.responses + Seq::<(Response, Seq<u8>)>::empty() =~= c.responses);
        assert(c.events + Seq::<(Event, Seq<u8>)>::empty() =~= c.events);
    } else {
        let init = arrivals.drop_last();
        match arrivals.last() {
            Arrival::Response(k, d) => {
                lemma_routing_keeps_order(c, init);
                assert((c.responses + responses_of(init)).push((k, d)) =~= c.responses
                    + responses_of(init).push((k, d)));
            },
            Arrival::Event(k, d) => {
                lemma_routing_keeps_order(c, init);
                assert((c.events + events_of(init)).push((k, d)) =~= c.events + events_of(
                    init,
                ).push((k, d)));
            },
        }
    }
}

/// A response arriving while the response channel holds its two responses is
/// dropped and counted; the channels keep what they held.
pub proof fn lemma_full_response_channel_drops(c: ChannelsView, k: Response, d: Seq<u8>)
    requires
        c.responses.len() == RESPONSE_DEPTH,
        c.dropped < u64::MAX,
    ensures
        route_spec(c, Arrival::Response(k, d)) == (ChannelsView {
            dropped: (c.dropped + 1) as u64,
            ..c
        }),
{
}

/// A response channel and an event channel, each bounded and lossy when full.
pub struct Channels {
    response: ResponseQueue,
    event: EventQueue,
    dropped: u64,
}

impl Channels {
    /// Abstract contents of the channels.
    pub closed spec fn view(&self) -> ChannelsView {
        ChannelsView {
            responses: response_items(self.response),
            events: event_items(self.event),
            dropped: self.dropped,
        }
    }

    /// Neither channel holds more than its depth.
    pub open spec fn wf(&self) -> bool {
        self@.responses.len() <= RESPONSE_DEPTH && self@.events.len() <= EVENT_DEPTH
    }

    /// Two empty channels, with no frame dropped yet.
    pub fn new() -> (r: Channels)
        ensures
            r.wf(),
            r@.responses == Seq::<(Response, Seq<u8>)>::empty(),
            r@.events == Seq::<(Event, Seq<u8>)>::empty(),
            r@.dropped == 0,
    {
        Channels { response: response_queue_new(), event: event_queue_new(), dropped: 0 }
    }

    /// Pushes a classified frame into its channel; never blocks. Returns whether
    /// the frame was kept: a frame for a full channel is dropped and counted.
    pub fn route(&mut self, incoming: Incoming) -> (r: bool)
        requires
            old(self).wf(),
        ensures
            final(self).wf(),
            final(self)@ == route_spec(old(self)@, incoming@),
            r == (match incoming@ {
                Arrival::Response(_, _) => old(self)@.responses.len() < RESPONSE_DEPTH,
                Arrival::Event(_, _) => old(self)@.events.len() < EVENT_DEPTH,
            }),
    {
        let kept = match incoming {
            Incoming::Response(f) => response_enqueue(&mut self.response, f).is_ok(),
            Incoming::Event(f) => event_enqueue(&mut self.event, f).is_ok(),
        };
        if !kept && self.dropped < u64::MAX {
            self.dropped = self.dropped + 1;
        }
        kept
    }

    /// Takes the oldest response, if any; never blocks.
    pub fn next_response(&mut self) -> (r: Option<Frame<Response>>)
        requires
            old(self).wf(),
        ensures
            final(self).wf(),
            old(self)@.responses.len() == 0 ==> r is None && final(self)@ == old(self)@,
            old(self)@.responses.len() > 0 ==> r is Some && r->Some_0@ == old(self)@.responses[0]
                && final(self)@ == (ChannelsView {
                responses: old(self)@.responses.drop_first(),
                ..old(self)@
            }),
    {
        response_dequeue(&mut self.response)
    }

    /// Takes the oldest event, if any; never blocks.
    pub fn next_event(&mut self) -> (r: Option<Frame<Event>>)
        requires
            old(self).wf(),
        ensures
            final(self).wf(),
            old(self)@.events.len() == 0 ==> r is None && final(self)@ == old(self)@,
            old(self)@.events.len() > 0 ==> r is Some && r->Some_0@ == old(self)@.events[0]
                && final(self)@ == (ChannelsView {
                events: old(self)@.events.drop_first(),
                ..old(self)@
            }),
    {
        event_dequeue(&mut self.event)
    }

    /// Number of frames dropped because their channel was full.
    pub fn dropped(&self) -> (r: u64)
        ensures
            r == self@.dropped,
    {
        self.dropped
    }
}

} // verus!
