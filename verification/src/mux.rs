//! The event multiplexer: the single point of control that routes events,
//! queues requests that cannot be resolved yet, and re-attempts every
//! deferred request after each event.
//!
//! The queue is most-recent-first: a newly arrived request is placed at the
//! front, so it gets one immediate resolution attempt before older deferred
//! requests are retried; every deferred request is retried on every pass.

use vstd::prelude::*;
use crate::scheme::{
    ExampleScheme, Handle, Op, Outcome, SchemeError, SchemeModel, StepOutcome, irq_spec, step_spec,
};

verus! {

/// The tag under which the request channel is registered on the event queue.
pub const SCHEME_TOKEN: usize = 1;

/// The tag under which the interrupt channel is registered on the event queue.
pub const IRQ_TOKEN: usize = 2;

/// Which source an event notification names.
#[derive(Clone, Copy, PartialEq, Eq, Structural, Debug)]
pub enum EventSource {
    /// A new request record can be read from the request channel.
    Request,
    /// An interrupt occurred; its token can be read from the interrupt channel.
    Interrupt,
    /// An unregistered tag; the event is ignored.
    Unknown,
}

/// Route an event's tag to the source it was registered for.
pub fn classify_event(token: usize) -> (src: EventSource)
    ensures
        src == (if token == SCHEME_TOKEN {
            EventSource::Request
        } else if token == IRQ_TOKEN {
            EventSource::Interrupt
        } else {
            EventSource::Unknown
        }),
{
    if token == SCHEME_TOKEN {
        EventSource::Request
    } else if token == IRQ_TOKEN {
        EventSource::Interrupt
    } else {
        EventSource::Unknown
    }
}

/// A resolved request: the caller's opaque payload, preserved verbatim for
/// writing the response back, the response value, and any bytes a read
/// produced.
pub struct Resolution<T> {
    pub payload: T,
    pub result: Result<usize, SchemeError>,
    pub data: Vec<u8>,
}

/// What one pass over the pending queue yields: the scheme state after the
/// pass, the entries still deferred (in their original relative order), and
/// the resolutions in the order their responses are written back.
pub ghost struct ScanModel<T> {
    pub state: SchemeModel,
    pub kept: Seq<(T, Op)>,
    pub resolved: Seq<(T, Result<usize, SchemeError>, Seq<u8>)>,
}

/// One pass over a queue of requests, front to back, threading the scheme
/// state through each step: a resolved entry leaves the queue and its
/// response is recorded in scan order; a deferred entry stays.
pub open spec fn scan_spec<T>(s: SchemeModel, reqs: Seq<(T, Op)>) -> ScanModel<T>
    decreases reqs.len(),
{
    if reqs.len() == 0 {
        ScanModel { state: s, kept: Seq::empty(), resolved: Seq::empty() }
    } else {
        let st = step_spec(s, reqs[0].1);
        let rest = scan_spec(st.state, reqs.drop_first());
        match st.outcome {
            StepOutcome::Resolved { result, data } => ScanModel {
                state: rest.state,
                kept: rest.kept,
                resolved: seq![(reqs[0].0, result, data)] + rest.resolved,
            },
            StepOutcome::Deferred => ScanModel {
                state: rest.state,
                kept: seq![reqs[0]] + rest.kept,
                resolved: rest.resolved,
            },
        }
    }
}

/// The mathematical content of a list of resolutions.
pub open spec fn resolutions_model<T>(rs: Seq<Resolution<T>>) -> Seq<
    (T, Result<usize, SchemeError>, Seq<u8>),
> {
    rs.map(|i: int, r: Resolution<T>| (r.payload, r.result, r.data@))
}

/// The driver loop's state: the scheme it drives and the queue of requests
/// that could not yet be resolved, most recent first. The payload type `T`
/// carries each request's original identity through deferral, untouched.
pub struct Multiplexer<T> {
    pub scheme: ExampleScheme,
    pub pending: Vec<(T, Op)>,
}

impl<T> Multiplexer<T> {
    /// A multiplexer over a fresh scheme with nothing pending.
    pub fn new() -> (m: Self)
        ensures
            m.scheme@.next_id == 0,
            m.scheme@.count == 0,
            m.scheme@.handles == Map::<usize, Handle>::empty(),
            m.scheme@.inv(),
            m.pending@ == Seq::<(T, Op)>::empty(),
    {
        Multiplexer { scheme: ExampleScheme::new(), pending: Vec::new() }
    }

    /// Accept a newly arrived request: it goes to the front of the queue,
    /// so it is attempted before older, still-pending requests.
    pub fn accept_request(&mut self, payload: T, op: Op)
        ensures
            final(self).scheme@ == old(self).scheme@,
            final(self).pending@ == seq![(payload, op)] + old(self).pending@,
    {
        self.pending.insert(0, (payload, op));
    }

    /// Record an interrupt event. The driver never claims the interrupt
    /// (the device is simulated), but the global count advances, so
    /// deferred reads can make progress on the next pass.
    pub fn on_interrupt(&mut self) -> (claimed: bool)
        requires
            old(self).scheme@.count < usize::MAX,
        ensures
            final(self).scheme@ == irq_spec(old(self).scheme@),
            old(self).scheme@.inv() ==> final(self).scheme@.inv(),
            !claimed,
            final(self).pending@ == old(self).pending@,
    {
        self.scheme.irq()
    }

    /// One pass over the pending queue, front to back: each entry that
    /// resolves or fails is removed and its response returned, in scan
    /// order; each deferred entry stays in place.
    pub fn resolve_pending(&mut self) -> (out: Vec<Resolution<T>>)
        requires
            old(self).scheme@.inv(),
            old(self).scheme@.next_id + old(self).pending@.len() <= usize::MAX,
        ensures
            final(self).scheme@ == scan_spec(old(self).scheme@, old(self).pending@).state,
            final(self).pending@ == scan_spec(old(self).scheme@, old(self).pending@).kept,
            resolutions_model(out@) == scan_spec(old(self).scheme@, old(self).pending@).resolved,
            final(self).scheme@.inv(),
    {
        let ghost s0 = self.scheme@;
        let ghost reqs = self.pending@;
        let mut kept: Vec<(T, Op)> = Vec::new();
        let mut out: Vec<Resolution<T>> = Vec::new();
        while 0 < self.pending.len()
            invariant
                self.scheme@.inv(),
                self.scheme@.next_id + self.pending@.len() <= usize::MAX,
                scan_spec(s0, reqs).state == scan_spec(self.scheme@, self.pending@).state,
                scan_spec(s0, reqs).kept == kept@ + scan_spec(self.scheme@, self.pending@).kept,
                scan_spec(s0, reqs).resolved == resolutions_model(out@) + scan_spec(
                    self.scheme@,
                    self.pending@,
                ).resolved,
            decreases self.pending@.len(),
        {
            let ghost pre = self.scheme@;
            let ghost p_before = self.pending@;
            let entry = self.pending.remove(0);
            proof {
                assert(self.pending@ =~= p_before.drop_first());
            }
            let o = self.scheme.handle_op(&entry.1);
            match o {
                Outcome::Resolved { result, data } => {
                    let ghost out_before = out@;
                    let ghost item = (p_before[0].0, result, data@);
                    out.push(Resolution { payload: entry.0, result, data });
                    proof {
                        assert(resolutions_model(out@) =~= resolutions_model(out_before).push(
                            item,
                        ));
                        assert(resolutions_model(out_before) + scan_spec(pre, p_before).resolved
                            =~= resolutions_model(out@) + scan_spec(
                            self.scheme@,
                            self.pending@,
                        ).resolved);
                    }
                },
                Outcome::Deferred => {
                    let ghost kept_before = kept@;
                    kept.push(entry);
                    proof {
                        assert(kept_before + scan_spec(pre, p_before).kept =~= kept@ + scan_spec(
                            self.scheme@,
                            self.pending@,
                        ).kept);
                    }
                },
            }
        }
        proof {
            assert(scan_spec(s0, reqs).kept =~= kept@);
            assert(scan_spec(s0, reqs).resolved =~= resolutions_model(out@));
        }
        self.pending = kept;
        out
    }
}

} // verus!
