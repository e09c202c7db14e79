//! The probing state machine: which probe to send next, and what a reply, or
//! the lack of one, does to the run.
//!
//! The caller owns the socket and the clock. It asks for the next probe, sends
//! it, and hands back each datagram it receives, or a timeout once the probe's
//! wait window closes, until the outstanding probe is resolved.

use vstd::prelude::*;

use crate::ip_address::IpAddress;
use crate::options::Options;
use crate::packet::Packet;
use crate::response::{spec_parse, Response};
use crate::sockaddr_inx::{Sockaddr, SockaddrInx};

verus! {

/// ICMP message type of a Time Exceeded error.
pub const TIME_EXCEEDED: u8 = 11;

/// ICMP message type of an Echo Reply.
pub const ECHO_REPLY: u8 = 0;

/// What was learnt of one TTL: the first responder of a matching reply, if any.
#[derive(Clone, Copy, Debug, PartialEq, Eq)]
pub struct HopResult {
    pub ttl: u8,
    pub responder: Option<IpAddress>,
}

/// A probe to send: set the outbound TTL, send the request to the destination,
/// then wait up to `wait_secs` seconds for its reply.
pub struct Probe {
    pub ttl: u8,
    pub request: Packet,
    pub wait_secs: u8,
}

/// What happened while waiting for the reply to the outstanding probe.
pub enum Event {
    /// A datagram arrived from `source`.
    Datagram { source: Sockaddr, body: Vec<u8> },
    /// The wait window closed, or the socket's receive timed out.
    Timeout,
}

/// The reply that a datagram decodes to, if its sender is an IPv4 or IPv6
/// socket address and the datagram is long enough.
pub open spec fn decode_datagram(source: Sockaddr, body: Seq<u8>) -> Option<Response> {
    match SockaddrInx::spec_from_sockaddr(source.sa_family, source.sa_data@) {
        Some(native) => spec_parse(native, body),
        None => None,
    }
}

/// The state of a run.
pub struct TraceState {
    pub first_ttl: u8,
    pub max_ttl: u8,
    pub nqueries: u16,
    pub waittime: u8,
    pub ident: u16,
    /// TTL of the hop being probed.
    pub ttl: u8,
    /// Query index of the outstanding probe at this hop.
    pub sequence: u16,
    pub finished: bool,
    /// One result per resolved hop, from `first_ttl` on.
    pub hops: Seq<HopResult>,
}

impl TraceState {
    pub open spec fn wf(self) -> bool {
        &&& forall|i: int| 0 <= i < self.hops.len() ==> #[trigger] self.hops[i].ttl == self.first_ttl + i
        &&& !self.finished ==> {
            &&& self.first_ttl <= self.ttl <= self.max_ttl
            &&& self.sequence < self.nqueries
            &&& self.hops.len() == self.ttl - self.first_ttl
        }
    }

    /// The state a run starts in: nothing to probe when the first TTL lies past
    /// the last; every hop silent at once when no probes are sent per hop.
    pub open spec fn initial(first_ttl: u8, max_ttl: u8, nqueries: u16, waittime: u8, ident: u16) -> TraceState {
        let start = TraceState {
            first_ttl,
            max_ttl,
            nqueries,
            waittime,
            ident,
            ttl: first_ttl,
            sequence: 0,
            finished: false,
            hops: Seq::empty(),
        };
        if first_ttl > max_ttl {
            TraceState { finished: true, ..start }
        } else if nqueries == 0 {
            TraceState {
                finished: true,
                hops: Seq::new(
                    (max_ttl - first_ttl + 1) as nat,
                    |i: int| HopResult { ttl: (first_ttl + i) as u8, responder: None },
                ),
                ..start
            }
        } else {
            start
        }
    }

    /// Records the current hop's result; the run ends when the destination
    /// answered or the last TTL was probed, else it moves to the next TTL.
    pub open spec fn close_hop(self, responder: Option<IpAddress>, reached: bool) -> TraceState {
        let hops = self.hops.push(HopResult { ttl: self.ttl, responder });
        if reached || self.ttl >= self.max_ttl {
            TraceState { finished: true, hops, ..self }
        } else {
            TraceState { ttl: (self.ttl + 1) as u8, sequence: 0, hops, ..self }
        }
    }

    /// The outstanding probe went unanswered: send the next query of this hop,
    /// or, when all were sent, record the hop as silent.
    pub open spec fn unanswered(self) -> TraceState {
        if self.sequence + 1 < self.nqueries {
            TraceState { sequence: (self.sequence + 1) as u16, ..self }
        } else {
            self.close_hop(None, false)
        }
    }

    /// A reply to the outstanding probe arrived: Time Exceeded names the hop,
    /// Echo Reply names the hop and ends the run, anything else counts as no
    /// answer.
    pub open spec fn answered(self, reply: Response) -> TraceState {
        if reply.type_ == TIME_EXCEEDED && reply.code == 0 {
            self.close_hop(Some(reply.source), false)
        } else if reply.type_ == ECHO_REPLY && reply.code == 0 {
            self.close_hop(Some(reply.source), true)
        } else {
            self.unanswered()
        }
    }

    /// Whether `reply` answers the outstanding probe.
    pub open spec fn matches(self, reply: Response) -> bool {
        reply.ident == self.ident && reply.sequence == self.sequence
    }

    /// Whether `event` resolves the outstanding probe.
    pub open spec fn resolves(self, event: Event) -> bool {
        match event {
            Event::Timeout => true,
            Event::Datagram { source, body } => match decode_datagram(source, body@) {
                Some(reply) => self.matches(reply),
                None => false,
            },
        }
    }

    /// The state after `event`; a datagram that does not answer the
    /// outstanding probe changes nothing.
    pub open spec fn after(self, event: Event) -> TraceState {
        if self.finished || !self.resolves(event) {
            self
        } else {
            match event {
                Event::Timeout => self.unanswered(),
                Event::Datagram { source, body } => self.answered(
                    decode_datagram(source, body@).unwrap(),
                ),
            }
        }
    }

    /// Probes that may still be sent: the rest of this hop's queries and all
    /// queries of the TTLs after it.
    pub open spec fn probes_left(self) -> int {
        if self.finished {
            0
        } else {
            (self.max_ttl - self.ttl) * self.nqueries + (self.nqueries - self.sequence)
        }
    }
}

/// Every event that resolves the outstanding probe uses up at least one of the
/// probes left, so a run ends after at most `nqueries` probes per TTL.
pub proof fn lemma_resolved_probe_progresses(state: TraceState, event: Event)
    requires
        state.wf(),
        !state.finished,
        state.resolves(event),
    ensures
        state.after(event).probes_left() < state.probes_left(),
        state.after(event).wf(),
{
    let n = state.nqueries as int;
    let d = (state.max_ttl - state.ttl) as int;
    assert(d * n == (d - 1) * n + n) by (nonlinear_arith);
    if d >= 1 {
        assert(0 <= (d - 1) * n) by (nonlinear_arith)
            requires
                d >= 1,
                n >= 0,
        ;
    }
}

/// The engine of one run.
pub struct Tracer {
    first_ttl: u8,
    max_ttl: u8,
    nqueries: u16,
    waittime: u8,
    ident: u16,
    ttl: u8,
    sequence: u16,
    finished: bool,
    hops: Vec<HopResult>,
}

impl View for Tracer {
    type V = TraceState;

    closed spec fn view(&self) -> TraceState {
        TraceState {
            first_ttl: self.first_ttl,
            max_ttl: self.max_ttl,
            nqueries: self.nqueries,
            waittime: self.waittime,
            ident: self.ident,
            ttl: self.ttl,
            sequence: self.sequence,
            finished: self.finished,
            hops: self.hops@,
        }
    }
}

impl Tracer {
    /// A run over the TTLs of `options`, probing with identifier `ident`.
    pub fn new(options: &Options, ident: u16) -> (r: Self)
        ensures
            r@ == TraceState::initial(
                options.first_ttl,
                options.max_ttl,
                options.nqueries,
                options.waittime,
                ident,
            ),
            r@.wf(),
    {
        let first_ttl = options.first_ttl;
        let max_ttl = options.max_ttl;
        let nqueries = options.nqueries;
        let mut hops: Vec<HopResult> = Vec::new();
        let mut finished = false;
        if first_ttl > max_ttl {
            finished = true;
        } else if nqueries == 0 {
            let mut ttl = first_ttl;
            loop
                invariant_except_break
                    hops@.len() == ttl - first_ttl,
                invariant
                    first_ttl <= ttl <= max_ttl,
                    forall|i: int|
                        0 <= i < hops@.len() ==> #[trigger] hops@[i] == (HopResult {
                            ttl: (first_ttl + i) as u8,
                            responder: None,
                        }),
                ensures
                    hops@.len() == max_ttl - first_ttl + 1,
                    forall|i: int|
                        0 <= i < hops@.len() ==> #[trigger] hops@[i] == (HopResult {
                            ttl: (first_ttl + i) as u8,
                            responder: None,
                        }),
                decreases max_ttl - ttl,
            {
                hops.push(HopResult { ttl, responder: None });
                if ttl == max_ttl {
                    break;
                }
                ttl = ttl + 1;
            }
            assert(hops@ =~= Seq::new(
                (max_ttl - first_ttl + 1) as nat,
                |i: int| HopResult { ttl: (first_ttl + i) as u8, responder: None },
            ));
            finished = true;
        }
        let r = Tracer {
            first_ttl,
            max_ttl,
            nqueries,
            waittime: options.waittime,
            ident,
            ttl: first_ttl,
            sequence: 0,
            finished,
            hops,
        };
        assert(first_ttl > max_ttl ==> hops@ =~= Seq::<HopResult>::empty());
        assert(first_ttl <= max_ttl && nqueries > 0 ==> hops@ =~= Seq::<HopResult>::empty());
        r
    }

    /// The probe to send next, or `None` once the run is over.
    pub fn next_probe(&self) -> (r: Option<Probe>)
        ensures
            r is None <==> self@.finished,
            r matches Some(p) ==> {
                &&& p.ttl == self@.ttl
                &&& p.request.ident == self@.ident
                &&& p.request.sequence == self@.sequence
                &&& p.request.payload@.len() == 0
                &&& p.wait_secs == self@.waittime
            },
    {
        if self.finished {
            None
        } else {
            Some(
                Probe {
                    ttl: self.ttl,
                    request: Packet::new(self.ident, self.sequence),
                    wait_secs: self.waittime,
                },
            )
        }
    }

    /// Whether the run is over.
    pub fn is_finished(&self) -> (r: bool)
        ensures
            r == self@.finished,
    {
        self.finished
    }

    /// The results of the hops resolved so far, in TTL order.
    pub fn hops(&self) -> (r: &Vec<HopResult>)
        ensures
            r@ == self@.hops,
    {
        &self.hops
    }

    fn close_hop(&mut self, responder: Option<IpAddress>, reached: bool)
        requires
            old(self)@.wf(),
            !old(self)@.finished,
        ensures
            final(self)@ == old(self)@.close_hop(responder, reached),
            final(self)@.wf(),
    {
        self.hops.push(HopResult { ttl: self.ttl, responder });
        if reached || self.ttl >= self.max_ttl {
            self.finished = true;
        } else {
            self.ttl = self.ttl + 1;
            self.sequence = 0;
        }
    }

    fn unanswered(&mut self)
        requires
            old(self)@.wf(),
            !old(self)@.finished,
        ensures
            final(self)@ == old(self)@.unanswered(),
            final(self)@.wf(),
    {
        if self.sequence + 1 < self.nqueries {
            self.sequence = self.sequence + 1;
        } else {
            self.close_hop(None, false);
        }
    }

    /// Takes in what happened while waiting for the outstanding probe's reply.
    /// Returns whether the probe is resolved, so that the next one is due; a
    /// datagram that does not answer it is dropped and the wait goes on.
    pub fn on_event(&mut self, event: Event) -> (resolved: bool)
        requires
            old(self)@.wf(),
        ensures
            final(self)@ == old(self)@.after(event),
            final(self)@.wf(),
            resolved == (old(self)@.finished || old(self)@.resolves(event)),
    {
        if self.finished {
            return true;
        }
        match event {
            Event::Timeout => {
                self.unanswered();
                true
            },
            Event::Datagram { source, body } => {
                let native = match SockaddrInx::from_sockaddr(&source) {
                    Some(native) => native,
                    None => return false,
                };
                let reply = match Response::parse(&native, body.as_slice()) {
                    Some(reply) => reply,
                    None => return false,
                };
                if !reply.matches_request(&Packet::new(self.ident, self.sequence)) {
                    return false;
                }
                if reply.type_ == TIME_EXCEEDED && reply.code == 0 {
                    self.close_hop(Some(reply.source), false);
                } else if reply.type_ == ECHO_REPLY && reply.code == 0 {
                    self.close_hop(Some(reply.source), true);
                } else {
                    self.unanswered();
                }
                true
            },
        }
    }
}

} // verus!
