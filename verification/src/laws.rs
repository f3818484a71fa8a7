//! The guarantees the driver gives, stated and proved over the model:
//! well-formedness at every observable point, freshness of allocated ids,
//! and how reads drain interrupts under each buffer capacity and open mode.

use vstd::prelude::*;
use crate::scheme::{
    NONBLOCK_FLAG, Op, SchemeError, SchemeModel, StepOutcome, close_spec, fsync_spec, irq_spec,
    marker_bytes, open_spec, read_spec, step_spec,
};
use crate::mux::scan_spec;

verus! {

/// The state after `k` interrupt events in a row.
pub open spec fn irqs_spec(s: SchemeModel, k: nat) -> SchemeModel
    decreases k,
{
    if k == 0 {
        s
    } else {
        irq_spec(irqs_spec(s, (k - 1) as nat))
    }
}

/// Interrupts only advance the global counter: handles and ids are left
/// untouched, and well-formedness is preserved.
pub proof fn lemma_irqs(s: SchemeModel, k: nat)
    requires
        s.count + k <= usize::MAX,
    ensures
        irqs_spec(s, k) == (SchemeModel { count: (s.count + k) as usize, ..s }),
        s.inv() ==> irqs_spec(s, k).inv(),
    decreases k,
{
    if k > 0 {
        lemma_irqs(s, (k - 1) as nat);
    }
}

/// Every operation preserves well-formedness: each handle's consumed count
/// stays bounded by the global interrupt count, which the operation never
/// changes; the allocation counter never decreases, and grows by at most
/// one per operation.
pub proof fn lemma_step_preserves_inv(s: SchemeModel, op: Op)
    requires
        s.inv(),
        s.next_id < usize::MAX,
    ensures
        step_spec(s, op).state.inv(),
        step_spec(s, op).state.count == s.count,
        s.next_id <= step_spec(s, op).state.next_id <= s.next_id + 1,
{
}

/// A whole pass over a pending queue preserves well-formedness and never
/// changes the interrupt count; the allocation counter grows by at most
/// one per entry.
pub proof fn lemma_scan_preserves_inv<T>(s: SchemeModel, reqs: Seq<(T, Op)>)
    requires
        s.inv(),
        s.next_id + reqs.len() <= usize::MAX,
    ensures
        scan_spec(s, reqs).state.inv(),
        scan_spec(s, reqs).state.count == s.count,
        s.next_id <= scan_spec(s, reqs).state.next_id <= s.next_id + reqs.len(),
    decreases reqs.len(),
{
    if reqs.len() > 0 {
        lemma_step_preserves_inv(s, reqs[0].1);
        lemma_scan_preserves_inv(step_spec(s, reqs[0].1).state, reqs.drop_first());
    }
}

/// `open` always succeeds, and the id it yields is strictly greater than
/// every id allocated before it: every open handle's id is below it, and
/// since the allocation counter never decreases (see
/// [`lemma_step_preserves_inv`]), so is every id that was already closed.
pub proof fn lemma_open_yields_fresh_id(s: SchemeModel, flags: usize)
    requires
        s.inv(),
        s.next_id < usize::MAX,
    ensures
        ({
            let st = open_spec(s, flags);
            &&& st.outcome == (StepOutcome::Resolved {
                result: Ok::<usize, SchemeError>((s.next_id + 1) as usize),
                data: Seq::<u8>::empty(),
            })
            &&& st.state.next_id == s.next_id + 1
            &&& !s.handles.dom().contains(st.state.next_id)
            &&& forall|id: usize| s.handles.dom().contains(id) ==> id < st.state.next_id
        }),
{
}

/// A read on a freshly opened handle, before any interrupt, fails with
/// `WouldBlock` in non-blocking mode and defers in blocking mode; either
/// way the state is unchanged.
pub proof fn lemma_read_fresh_handle(s: SchemeModel, flags: usize, len: int)
    requires
        s.inv(),
        s.next_id < usize::MAX,
    ensures
        ({
            let t = open_spec(s, flags).state;
            let st = read_spec(t, t.next_id, len);
            &&& st.state == t
            &&& (flags & NONBLOCK_FLAG == NONBLOCK_FLAG ==> st.outcome == (StepOutcome::Resolved {
                result: Err::<usize, SchemeError>(SchemeError::WouldBlock),
                data: Seq::<u8>::empty(),
            }))
            &&& (flags & NONBLOCK_FLAG != NONBLOCK_FLAG ==> st.outcome == StepOutcome::Deferred)
        }),
{
}

/// After exactly `k` interrupts following an open, a read with enough
/// buffer capacity returns exactly `k` whole markers and advances the
/// handle's consumed count by `k`; an immediate second read, with no new
/// interrupts, has nothing left and fails or defers by mode: the drain is
/// idempotent.
pub proof fn lemma_read_drains_after_interrupts(
    s: SchemeModel,
    flags: usize,
    k: nat,
    len: int,
    len2: int,
)
    requires
        s.inv(),
        s.next_id < usize::MAX,
        s.count + k <= usize::MAX,
        1 <= k <= len / 2,
    ensures
        ({
            let id = (s.next_id + 1) as usize;
            let t = irqs_spec(open_spec(s, flags).state, k);
            let st = read_spec(t, id, len);
            let st2 = read_spec(st.state, id, len2);
            &&& st.outcome == (StepOutcome::Resolved {
                result: Ok::<usize, SchemeError>((2 * k) as usize),
                data: marker_bytes(k as int),
            })
            &&& st.state.handles[id].count - s.count == k
            &&& st.state.count == t.count
            &&& st2.state == st.state
            &&& (flags & NONBLOCK_FLAG == NONBLOCK_FLAG ==> st2.outcome == (StepOutcome::Resolved {
                result: Err::<usize, SchemeError>(SchemeError::WouldBlock),
                data: Seq::<u8>::empty(),
            }))
            &&& (flags & NONBLOCK_FLAG != NONBLOCK_FLAG ==> st2.outcome == StepOutcome::Deferred)
        }),
{
    lemma_irqs(open_spec(s, flags).state, k);
}

/// A read whose buffer cannot hold every pending marker returns as many
/// whole markers as fit — never a partial marker — and leaves exactly the
/// remainder pending: a later read with enough capacity returns precisely
/// the markers that were left over, so none is lost.
pub proof fn lemma_read_partial_drain(s: SchemeModel, id: usize, len: int)
    requires
        s.inv(),
        s.handles.dom().contains(id),
        1 <= len / 2 < s.count - s.handles[id].count,
    ensures
        ({
            let fit = len / 2;
            let st = read_spec(s, id, len);
            let remainder = s.count - s.handles[id].count - fit;
            let st2 = read_spec(st.state, id, 2 * remainder);
            &&& st.outcome == (StepOutcome::Resolved {
                result: Ok::<usize, SchemeError>((2 * fit) as usize),
                data: marker_bytes(fit),
            })
            &&& st.state.count - st.state.handles[id].count == remainder
            &&& st2.outcome == (StepOutcome::Resolved {
                result: Ok::<usize, SchemeError>((2 * remainder) as usize),
                data: marker_bytes(remainder),
            })
            &&& st2.state.handles[id].count == s.count
        }),
{
}

/// The outcome of an operation on an id that is not an open handle.
pub open spec fn bad_handle_outcome() -> StepOutcome {
    StepOutcome::Resolved {
        result: Err::<usize, SchemeError>(SchemeError::BadHandle),
        data: Seq::<u8>::empty(),
    }
}

/// `close` removes the handle, and every later operation on the removed id
/// fails with `BadHandle` without changing the state; `close` on an id
/// that is not open fails with `BadHandle` the same way.
pub proof fn lemma_close_then_bad_handle(s: SchemeModel, id: usize, len: int)
    ensures
        s.handles.dom().contains(id) ==> ({
            let st = close_spec(s, id);
            &&& st.outcome == (StepOutcome::Resolved {
                result: Ok::<usize, SchemeError>(0),
                data: Seq::<u8>::empty(),
            })
            &&& !st.state.handles.dom().contains(id)
            &&& read_spec(st.state, id, len).outcome == bad_handle_outcome()
            &&& read_spec(st.state, id, len).state == st.state
            &&& fsync_spec(st.state, id).outcome == bad_handle_outcome()
            &&& fsync_spec(st.state, id).state == st.state
            &&& close_spec(st.state, id).outcome == bad_handle_outcome()
            &&& close_spec(st.state, id).state == st.state
        }),
        !s.handles.dom().contains(id) ==> close_spec(s, id).outcome == bad_handle_outcome()
            && close_spec(s, id).state == s,
{
}

} // verus!

