//! The decisions of one connection's multiplexer, as a state machine: a
//! driver performs each returned action and feeds back what happened. The
//! bundled server does not drive it: it serves connections through
//! tokio-tower's multiplex server, whose per-connection behaviour this
//! machine states and proves.

use vstd::prelude::*;

use crate::frame::{RequestFrame, ResponseFrame, Tagged};
use crate::tag_store::{allocates, releases, Tagger};

verus! {

/// The life of a connection: serving, finishing in-flight work after the
/// inbound stream ended, or done.
#[derive(Debug, Clone, Copy, PartialEq, Eq, Structural)]
pub enum Phase {
    Active,
    Draining,
    Closed,
}

/// Why a connection closed.
#[derive(Debug, Clone, Copy, PartialEq, Eq, Structural)]
pub enum CloseReason {
    /// The inbound stream ended and every response was sent.
    Finished,
    /// A malformed frame arrived.
    DecodeError,
    /// A response could not be encoded or written.
    EncodeError,
    /// The handler's machinery failed, not one request.
    HandlerFailure,
    /// A response came back under a tag that is not in flight.
    TagViolation,
    /// No further tag could be allocated.
    TagsExhausted,
    /// A frame arrived after the inbound stream had ended.
    FrameAfterEnd,
}

/// What the driver of a connection reports.
#[derive(Debug)]
pub enum Event {
    /// A request frame was decoded.
    Frame(RequestFrame),
    /// The handler finished the request that carried this tag.
    Completed(Tagged<ResponseFrame>),
    /// The inbound stream ended cleanly.
    InboundEnded,
    /// A malformed frame arrived.
    DecodeFailed,
    /// A response could not be encoded or written.
    WriteFailed,
    /// The handler's machinery failed.
    HandlerFailed,
}

/// What the driver is to do next.
#[derive(Debug)]
pub enum Action {
    /// Hand this tagged request to the handler, without waiting for it.
    Dispatch(Tagged<RequestFrame>),
    /// Encode and write this response.
    Send(Tagged<ResponseFrame>),
    /// Close the connection and drop what it holds.
    Close(CloseReason),
    /// Nothing to do.
    Idle,
}

/// The state a connection closes into: no tag in flight.
pub open spec fn closed_state() -> (Phase, Set<u32>) {
    (Phase::Closed, Set::<u32>::empty())
}

/// One step of the multiplexer from `pre` (phase, tags in flight) on `ev`,
/// reaching `post` and asking for `act`.
pub open spec fn transition(pre: (Phase, Set<u32>), ev: Event, post: (Phase, Set<u32>), act: Action) -> bool {
    let (phase, live) = pre;
    if phase == Phase::Closed {
        post == pre && act == Action::Idle
    } else {
        match ev {
            Event::Frame(f) => if phase == Phase::Active {
                match act {
                    Action::Dispatch(d) => {
                        &&& d.v == f
                        &&& allocates(live, post.1, d.tag)
                        &&& post.0 == Phase::Active
                    },
                    Action::Close(reason) => {
                        &&& forall|t: u32| #[trigger] live.contains(t)
                        &&& reason == CloseReason::TagsExhausted
                        &&& post == closed_state()
                    },
                    _ => false,
                }
            } else {
                act == Action::Close(CloseReason::FrameAfterEnd) && post == closed_state()
            },
            Event::Completed(r) => if live.contains(r.tag) {
                &&& act == Action::Send(r)
                &&& releases(live, post.1, r.tag)
                &&& post.0 == (if phase == Phase::Draining && post.1.is_empty() {
                    Phase::Closed
                } else {
                    phase
                })
            } else {
                act == Action::Close(CloseReason::TagViolation) && post == closed_state()
            },
            Event::InboundEnded => if phase == Phase::Draining {
                act == Action::Idle && post == pre
            } else if live.is_empty() {
                act == Action::Close(CloseReason::Finished) && post == closed_state()
            } else {
                act == Action::Idle && post == (Phase::Draining, live)
            },
            Event::DecodeFailed => act == Action::Close(CloseReason::DecodeError) && post == closed_state(),
            Event::WriteFailed => act == Action::Close(CloseReason::EncodeError) && post == closed_state(),
            Event::HandlerFailed => act == Action::Close(CloseReason::HandlerFailure) && post == closed_state(),
        }
    }
}

/// `ev` is the completion of the request under tag `t`.
pub open spec fn completes(ev: Event, t: u32) -> bool {
    match ev {
        Event::Completed(r) => r.tag == t,
        _ => false,
    }
}

/// A run of `events.len()` steps from `states[0]`, through `states`, asking
/// for `acts`.
pub open spec fn is_run(states: Seq<(Phase, Set<u32>)>, events: Seq<Event>, acts: Seq<Action>) -> bool {
    &&& states.len() == events.len() + 1
    &&& acts.len() == events.len()
    &&& forall|i: int| 0 <= i < events.len() ==> #[trigger] transition(states[i], events[i], states[i + 1], acts[i])
}

/// After a request is dispatched under `t`, `t` stays in flight through
/// events that neither complete it nor close the connection.
proof fn lemma_stays_in_flight(states: Seq<(Phase, Set<u32>)>, events: Seq<Event>, acts: Seq<Action>, t: u32, k: int)
    requires
        is_run(states, events, acts),
        acts[0] is Dispatch,
        acts[0]->Dispatch_0.tag == t,
        forall|i: int| 0 < i < events.len() - 1 ==> !completes(#[trigger] events[i], t),
        forall|i: int| 0 < i < events.len() - 1 ==> #[trigger] states[i + 1].0 != Phase::Closed,
        1 <= k < events.len(),
    ensures
        states[k].1.contains(t),
        states[k].0 != Phase::Closed,
    decreases k,
{
    if k == 1 {
        assert(transition(states[0], events[0], states[0int + 1], acts[0]));
    } else {
        lemma_stays_in_flight(states, events, acts, t, k - 1);
        let j = k - 1;
        assert(transition(states[j], events[j], states[j + 1], acts[j]));
        assert(!completes(events[j], t));
        assert(states[j + 1].0 != Phase::Closed);
    }
}

/// A request dispatched under tag `t` is answered under `t`, whatever else
/// completes in between: as long as the connection stays open, the
/// completion that carries `t` is sent as it is and `t` leaves the in-flight
/// set.
pub proof fn lemma_round_trip(states: Seq<(Phase, Set<u32>)>, events: Seq<Event>, acts: Seq<Action>, t: u32)
    requires
        is_run(states, events, acts),
        events.len() >= 2,
        acts[0] is Dispatch,
        acts[0]->Dispatch_0.tag == t,
        forall|i: int| 0 < i < events.len() - 1 ==> !completes(#[trigger] events[i], t),
        forall|i: int| 0 < i < events.len() - 1 ==> #[trigger] states[i + 1].0 != Phase::Closed,
        completes(events.last(), t),
    ensures
        acts.last() == Action::Send(events.last()->Completed_0),
        acts.last()->Send_0.tag == t,
        !states.last().1.contains(t),
{
    let n = events.len() - 1;
    lemma_stays_in_flight(states, events, acts, t, n);
    assert(transition(states[n], events[n], states[n + 1], acts[n]));
}

/// Two requests in flight may complete in the order opposite to their
/// dispatch: each response is sent as soon as it completes, under its own tag.
pub proof fn lemma_out_of_order(
    s0: (Phase, Set<u32>),
    s1: (Phase, Set<u32>),
    s2: (Phase, Set<u32>),
    first: Tagged<ResponseFrame>,
    second: Tagged<ResponseFrame>,
    act1: Action,
    act2: Action,
)
    requires
        s0.0 != Phase::Closed,
        s0.1.contains(first.tag),
        s0.1.contains(second.tag),
        first.tag != second.tag,
        transition(s0, Event::Completed(first), s1, act1),
        transition(s1, Event::Completed(second), s2, act2),
    ensures
        act1 == Action::Send(first),
        act2 == Action::Send(second),
        s2.1 == s0.1.remove(first.tag).remove(second.tag),
{
    assert(s1.1.contains(second.tag));
}

/// One connection's session: its phase and its own tag allocator, whose live
/// tags are the requests in flight.
pub struct Connection {
    tagger: Tagger,
    phase: Phase,
}

impl Connection {
    /// The allocator is well formed; a closed connection holds no tag, and a
    /// draining one holds at least one.
    pub closed spec fn wf(&self) -> bool {
        &&& self.tagger.wf()
        &&& self.phase == Phase::Closed ==> self.tagger.live().is_empty()
        &&& self.phase == Phase::Draining ==> !self.tagger.live().is_empty()
    }

    /// The phase and the tags of the requests in flight.
    pub closed spec fn view(&self) -> (Phase, Set<u32>) {
        (self.phase, self.tagger.live())
    }

    /// A connection just accepted: active, with nothing in flight.
    pub fn new() -> (r: Connection)
        ensures
            r.wf(),
            r@ == (Phase::Active, Set::<u32>::empty()),
    {
        Connection { tagger: Tagger::new(), phase: Phase::Active }
    }

    /// The current phase.
    pub fn phase(&self) -> (r: Phase)
        ensures
            r == self@.0,
    {
        self.phase
    }

    /// Whether a request under `tag` is in flight.
    pub fn is_in_flight(&self, tag: u32) -> (r: bool)
        requires
            self.wf(),
        ensures
            r == self@.1.contains(tag),
    {
        self.tagger.is_live(tag)
    }

    fn close(&mut self, reason: CloseReason) -> (act: Action)
        ensures
            final(self).wf(),
            final(self)@ == closed_state(),
            act == Action::Close(reason),
    {
        self.tagger = Tagger::new();
        self.phase = Phase::Closed;
        Action::Close(reason)
    }

    /// Takes the event `ev` and returns what to do about it.
    pub fn step(&mut self, ev: Event) -> (act: Action)
        requires
            old(self).wf(),
        ensures
            final(self).wf(),
            transition(old(self)@, ev, final(self)@, act),
    {
        if self.phase == Phase::Closed {
            return Action::Idle;
        }
        match ev {
            Event::Frame(f) => {
                if self.phase == Phase::Draining {
                    return self.close(CloseReason::FrameAfterEnd);
                }
                match self.tagger.allocate() {
                    Some(t) => Action::Dispatch(Tagged::new(f, t)),
                    None => self.close(CloseReason::TagsExhausted),
                }
            },
            Event::Completed(r) => {
                if !self.tagger.is_live(r.tag) {
                    return self.close(CloseReason::TagViolation);
                }
                self.tagger.finish_tag(&r);
                if self.phase == Phase::Draining && self.tagger.is_empty() {
                    self.phase = Phase::Closed;
                }
                Action::Send(r)
            },
            Event::InboundEnded => {
                if self.phase == Phase::Draining {
                    Action::Idle
                } else if self.tagger.is_empty() {
                    self.close(CloseReason::Finished)
                } else {
                    self.phase = Phase::Draining;
                    Action::Idle
                }
            },
            Event::DecodeFailed => self.close(CloseReason::DecodeError),
            Event::WriteFailed => self.close(CloseReason::EncodeError),
            Event::HandlerFailed => self.close(CloseReason::HandlerFailure),
        }
    }
}

} // verus!
