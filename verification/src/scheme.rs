//! The resource table and request handler: open handles, the global
//! interrupt counter, and the four operations a client may request.
//!
//! Every operation is specified against a mathematical transition function
//! (`open_spec`, `read_spec`, `fsync_spec`, `close_spec`) over [`SchemeModel`],
//! so that the multiplexer's scan and the library's laws can be stated and
//! proved purely over the model.

use vstd::prelude::*;
use vstd::pervasive::VecAdditionalExecFns;
use std::collections::BTreeMap;

verus! {

broadcast use vstd::laws_cmp::group_laws_cmp, vstd::std_specs::btree::group_btree_axioms;

/// The open-mode bit a client sets to request non-blocking reads.
pub const NONBLOCK_FLAG: usize = 0x0004_0000;

/// First byte of the marker record emitted per interrupt: `#`.
pub const MARKER_HASH: u8 = 0x23;

/// Second byte of the marker record: a line feed.
pub const MARKER_NEWLINE: u8 = 0x0a;

/// Why an operation was rejected.
#[derive(Clone, Copy, PartialEq, Eq, Structural, Debug)]
pub enum SchemeError {
    /// The operation referenced an id that is not an open handle.
    BadHandle,
    /// A non-blocking read had nothing to return.
    WouldBlock,
}

/// One open client session: its open-mode flags and how many interrupts
/// it has already reported to its client.
#[derive(Clone, Copy, PartialEq, Eq, Structural, Debug)]
pub struct Handle {
    /// Open-mode bits, fixed for the handle's lifetime.
    pub flags: usize,
    /// Interrupts already reported through this handle.
    pub count: usize,
}

/// One client request, dispatched over the closed set of four operations.
pub enum Op {
    /// Open a session; the path is accepted but not validated.
    Open { path: Vec<u8>, flags: usize },
    /// Drain unreported interrupts into a buffer of `len` bytes.
    Read { id: usize, len: usize },
    /// Flush; there is no buffered state, so this only validates the id.
    Fsync { id: usize },
    /// Remove the handle.
    Close { id: usize },
}

/// The mathematical state of the scheme: the allocation counter, the
/// global interrupt counter, and the table of open handles.
pub ghost struct SchemeModel {
    pub next_id: usize,
    pub count: usize,
    pub handles: Map<usize, Handle>,
}

impl SchemeModel {
    /// Well-formedness: no handle has reported more interrupts than have
    /// occurred, and every open id was allocated (positive, at most `next_id`).
    pub open spec fn inv(self) -> bool {
        forall|id: usize| #[trigger] self.handles.dom().contains(id)
            ==> self.handles[id].count <= self.count && 1 <= id <= self.next_id
    }
}

/// What one operation resolves to: a response now (a count or an error,
/// plus any bytes produced for the client's buffer), or a deferral.
pub ghost enum StepOutcome {
    Resolved { result: Result<usize, SchemeError>, data: Seq<u8> },
    Deferred,
}

/// The state after one operation, together with its outcome.
pub ghost struct StepModel {
    pub state: SchemeModel,
    pub outcome: StepOutcome,
}

/// The fixed two-byte marker emitted once per unreported interrupt,
/// repeated `n` times.
pub open spec fn marker_bytes(n: int) -> Seq<u8> {
    Seq::new((2 * n) as nat, |j: int| if j % 2 == 0 { MARKER_HASH } else { MARKER_NEWLINE })
}

/// Record one interrupt: the global counter advances by one and nothing
/// else changes (handles catch up lazily, on read).
pub open spec fn irq_spec(s: SchemeModel) -> SchemeModel {
    SchemeModel { count: (s.count + 1) as usize, ..s }
}

/// `open` always succeeds: it allocates the next id and stores a handle
/// whose consumed count starts at the current global count, so the handle
/// only ever reports interrupts that occur after it was opened.
pub open spec fn open_spec(s: SchemeModel, flags: usize) -> StepModel {
    let id = (s.next_id + 1) as usize;
    StepModel {
        state: (SchemeModel {
            next_id: id,
            count: s.count,
            handles: s.handles.insert(id, Handle { flags, count: s.count }),
        }),
        outcome: (StepOutcome::Resolved { result: Ok(id), data: Seq::empty() }),
    }
}

/// `read` drains unreported interrupts, two bytes per marker, up to what
/// the buffer can hold in whole markers. With nothing to report it fails
/// with `WouldBlock` in non-blocking mode and defers otherwise.
pub open spec fn read_spec(s: SchemeModel, id: usize, len: int) -> StepModel {
    if !s.handles.dom().contains(id) {
        StepModel {
            state: s,
            outcome: (StepOutcome::Resolved {
                result: Err(SchemeError::BadHandle),
                data: Seq::empty(),
            }),
        }
    } else {
        let h = s.handles[id];
        let unreported = s.count - h.count;
        let fit = len / 2;
        let emitted = if unreported < fit { unreported } else { fit };
        if emitted > 0 {
            StepModel {
                state: (SchemeModel {
                    handles: s.handles.insert(
                        id,
                        Handle { flags: h.flags, count: (h.count + emitted) as usize },
                    ),
                    ..s
                }),
                outcome: (StepOutcome::Resolved {
                    result: Ok((2 * emitted) as usize),
                    data: marker_bytes(emitted),
                }),
            }
        } else if h.flags & NONBLOCK_FLAG == NONBLOCK_FLAG {
            StepModel {
                state: s,
                outcome: (StepOutcome::Resolved {
                    result: Err(SchemeError::WouldBlock),
                    data: Seq::empty(),
                }),
            }
        } else {
            StepModel { state: s, outcome: StepOutcome::Deferred }
        }
    }
}

/// `fsync` succeeds unconditionally on an open handle; there is nothing
/// buffered to flush.
pub open spec fn fsync_spec(s: SchemeModel, id: usize) -> StepModel {
    if s.handles.dom().contains(id) {
        StepModel {
            state: s,
            outcome: (StepOutcome::Resolved { result: Ok(0), data: Seq::empty() }),
        }
    } else {
        StepModel {
            state: s,
            outcome: (StepOutcome::Resolved {
                result: Err(SchemeError::BadHandle),
                data: Seq::empty(),
            }),
        }
    }
}

/// `close` removes the handle; operations on the removed id then fail.
pub open spec fn close_spec(s: SchemeModel, id: usize) -> StepModel {
    if s.handles.dom().contains(id) {
        StepModel {
            state: (SchemeModel { handles: s.handles.remove(id), ..s }),
            outcome: (StepOutcome::Resolved { result: Ok(0), data: Seq::empty() }),
        }
    } else {
        StepModel {
            state: s,
            outcome: (StepOutcome::Resolved {
                result: Err(SchemeError::BadHandle),
                data: Seq::empty(),
            }),
        }
    }
}

/// Dispatch one request over the closed operation set.
pub open spec fn step_spec(s: SchemeModel, op: Op) -> StepModel {
    match op {
        Op::Open { path: _, flags } => open_spec(s, flags),
        Op::Read { id, len } => read_spec(s, id, len as int),
        Op::Fsync { id } => fsync_spec(s, id),
        Op::Close { id } => close_spec(s, id),
    }
}

/// How an operation's tri-state return value encodes a step outcome:
/// `Ok(Some(n))` resolves with count `n`, `Err(e)` resolves with the error,
/// and `Ok(None)` defers.
pub open spec fn reply_matches(o: StepOutcome, r: Result<Option<usize>, SchemeError>) -> bool {
    match o {
        StepOutcome::Resolved { result, data: _ } => match result {
            Ok(n) => r == Ok::<Option<usize>, SchemeError>(Some(n)),
            Err(e) => r == Err::<Option<usize>, SchemeError>(e),
        },
        StepOutcome::Deferred => r == Ok::<Option<usize>, SchemeError>(None),
    }
}

/// What one handled request hands back to the multiplexer: a response
/// value with the bytes read (if any), or a deferral to retry later.
pub enum Outcome {
    Resolved { result: Result<usize, SchemeError>, data: Vec<u8> },
    Deferred,
}

/// Whether an executable [`Outcome`] carries exactly what the step's
/// mathematical outcome says.
pub open spec fn outcome_matches(o: StepOutcome, out: Outcome) -> bool {
    match o {
        StepOutcome::Resolved { result, data } => match out {
            Outcome::Resolved { result: r2, data: d2 } => r2 == result && d2@ == data,
            Outcome::Deferred => false,
        },
        StepOutcome::Deferred => out is Deferred,
    }
}

/// The driver's resource table and request handler.
pub struct ExampleScheme {
    next_id: usize,
    count: usize,
    handles: BTreeMap<usize, Handle>,
}

impl View for ExampleScheme {
    type V = SchemeModel;

    closed spec fn view(&self) -> SchemeModel {
        SchemeModel { next_id: self.next_id, count: self.count, handles: self.handles@ }
    }
}

impl ExampleScheme {
    /// A fresh scheme: no handles, no interrupts seen, ids start above zero.
    pub fn new() -> (s: Self)
        ensures
            s@.next_id == 0,
            s@.count == 0,
            s@.handles == Map::<usize, Handle>::empty(),
            s@.inv(),
    {
        Self { next_id: 0, count: 0, handles: BTreeMap::new() }
    }

    /// Record one interrupt event. The return value says whether this
    /// driver claims the interrupt; the device is simulated, so it never
    /// does, but the event still counts for every handle.
    pub fn irq(&mut self) -> (claimed: bool)
        requires
            old(self)@.count < usize::MAX,
        ensures
            final(self)@ == irq_spec(old(self)@),
            !claimed,
            old(self)@.inv() ==> final(self)@.inv(),
    {
        self.count = self.count + 1;
        proof {
            if old(self)@.inv() {
                assert forall|id: usize| #[trigger] self@.handles.dom().contains(id)
                    implies self@.handles[id].count <= self@.count && 1 <= id <= self@.next_id by {
                    assert(old(self)@.handles.dom().contains(id));
                }
            }
        }
        false
    }

    /// Open a session. Always succeeds with a fresh id, strictly greater
    /// than every id allocated before; the path is accepted but not
    /// validated, since every path names the same logical device.
    pub fn open(&mut self, _path: &[u8], flags: usize) -> (r: Result<Option<usize>, SchemeError>)
        requires
            old(self)@.next_id < usize::MAX,
        ensures
            final(self)@ == open_spec(old(self)@, flags).state,
            reply_matches(open_spec(old(self)@, flags).outcome, r),
            old(self)@.inv() ==> final(self)@.inv(),
    {
        self.next_id = self.next_id + 1;
        let id = self.next_id;
        self.handles.insert(id, Handle { flags, count: self.count });
        Ok(Some(id))
    }

    /// Drain unreported interrupts into `buf`: one two-byte marker per
    /// interrupt, as many whole markers as fit, never a partial one.
    /// Bytes past what was written are left unchanged.
    pub fn read(&mut self, id: usize, buf: &mut Vec<u8>) -> (r: Result<Option<usize>, SchemeError>)
        requires
            old(self)@.inv(),
        ensures
            final(self)@.inv(),
            final(buf)@.len() == old(buf)@.len(),
            final(self)@ == read_spec(old(self)@, id, old(buf)@.len() as int).state,
            reply_matches(read_spec(old(self)@, id, old(buf)@.len() as int).outcome, r),
            ({
                let o = read_spec(old(self)@, id, old(buf)@.len() as int).outcome;
                match o {
                    StepOutcome::Resolved { result, data } => match result {
                        Ok(n) => final(buf)@.subrange(0, n as int) == data
                            && (forall|j: int|
                                n <= j < old(buf)@.len() ==> final(buf)@[j] == old(buf)@[j]),
                        Err(_) => final(buf)@ == old(buf)@,
                    },
                    StepOutcome::Deferred => final(buf)@ == old(buf)@,
                }
            }),
    {
        let (hflags, hcount) = match self.handles.get(&id) {
            Some(h) => (h.flags, h.count),
            None => {
                return Err(SchemeError::BadHandle);
            },
        };
        let unreported = self.count - hcount;
        let fit = buf.len() / 2;
        let emitted = if unreported < fit {
            unreported
        } else {
            fit
        };
        let ghost orig: Seq<u8> = buf@;
        let mut i: usize = 0;
        while i < emitted
            invariant
                i <= emitted,
                2 * emitted <= orig.len() <= usize::MAX,
                buf@.len() == orig.len(),
                forall|j: int| 2 * i <= j < orig.len() ==> buf@[j] == orig[j],
                forall|j: int| 0 <= j < 2 * i ==> buf@[j] == (if j % 2 == 0 { MARKER_HASH } else { MARKER_NEWLINE }),
            decreases emitted - i,
        {
            buf.set(2 * i, MARKER_HASH);
            buf.set(2 * i + 1, MARKER_NEWLINE);
            i = i + 1;
        }
        if emitted > 0 {
            self.handles.insert(id, Handle { flags: hflags, count: hcount + emitted });
            proof {
                assert(buf@.subrange(0, 2 * emitted as int) =~= marker_bytes(emitted as int));
            }
            Ok(Some(2 * emitted))
        } else if hflags & NONBLOCK_FLAG == NONBLOCK_FLAG {
            Err(SchemeError::WouldBlock)
        } else {
            Ok(None)
        }
    }

    /// Validate the id; nothing is buffered, so a valid handle always
    /// reports success.
    pub fn fsync(&mut self, id: usize) -> (r: Result<Option<usize>, SchemeError>)
        ensures
            final(self)@ == fsync_spec(old(self)@, id).state,
            reply_matches(fsync_spec(old(self)@, id).outcome, r),
            old(self)@.inv() ==> final(self)@.inv(),
    {
        match self.handles.get(&id) {
            Some(_) => Ok(Some(0)),
            None => Err(SchemeError::BadHandle),
        }
    }

    /// Remove the handle. Every later operation on the same id fails with
    /// `BadHandle`; closing an unknown id fails the same way.
    pub fn close(&mut self, id: usize) -> (r: Result<Option<usize>, SchemeError>)
        ensures
            final(self)@ == close_spec(old(self)@, id).state,
            reply_matches(close_spec(old(self)@, id).outcome, r),
            old(self)@.inv() ==> final(self)@.inv(),
    {
        match self.handles.remove(&id) {
            Some(_) => Ok(Some(0)),
            None => {
                proof {
                    assert(self.handles@ =~= old(self).handles@);
                }
                Err(SchemeError::BadHandle)
            },
        }
    }

    /// Handle one request: dispatch it over the closed operation set and
    /// report either a resolution (response value, plus the bytes a read
    /// produced) or a deferral for the multiplexer to retry.
    pub fn handle_op(&mut self, op: &Op) -> (out: Outcome)
        requires
            old(self)@.inv(),
            old(self)@.next_id < usize::MAX,
        ensures
            final(self)@ == step_spec(old(self)@, *op).state,
            outcome_matches(step_spec(old(self)@, *op).outcome, out),
            final(self)@.inv(),
            final(self)@.count == old(self)@.count,
            old(self)@.next_id <= final(self)@.next_id <= old(self)@.next_id + 1,
    {
        match op {
            Op::Open { path, flags } => match self.open(path.as_slice(), *flags) {
                Ok(Some(n)) => Outcome::Resolved { result: Ok(n), data: Vec::new() },
                Ok(None) => Outcome::Deferred,
                Err(e) => Outcome::Resolved { result: Err(e), data: Vec::new() },
            },
            Op::Read { id, len } => {
                let mut buf: Vec<u8> = vec![0u8; *len];
                match self.read(*id, &mut buf) {
                    Ok(Some(n)) => {
                        buf.truncate(n);
                        Outcome::Resolved { result: Ok(n), data: buf }
                    },
                    Ok(None) => Outcome::Deferred,
                    Err(e) => Outcome::Resolved { result: Err(e), data: Vec::new() },
                }
            },
            Op::Fsync { id } => match self.fsync(*id) {
                Ok(Some(n)) => Outcome::Resolved { result: Ok(n), data: Vec::new() },
                Ok(None) => Outcome::Deferred,
                Err(e) => Outcome::Resolved { result: Err(e), data: Vec::new() },
            },
            Op::Close { id } => match self.close(*id) {
                Ok(Some(n)) => Outcome::Resolved { result: Ok(n), data: Vec::new() },
                Ok(None) => Outcome::Deferred,
                Err(e) => Outcome::Resolved { result: Err(e), data: Vec::new() },
            },
        }
    }
}

} // verus!
