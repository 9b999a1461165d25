//! The reactor loop's decisions: when to keep polling, and what one observed
//! completion does to the bridge.
//!
//! The loop itself runs as an ordinary scheduled task outside this library —
//! it polls the kernel, hands each outcome to `handle_event`, wakes the task
//! whose handle comes back, and yields. What is verified here is every
//! decision the loop takes: the termination rule (the context's reference
//! count is the sole stop signal), and the exact effect of one event on the
//! context bookkeeping and the slot table.

use vstd::prelude::*;
use crate::bridge::{complete_next, BridgeError, SlotTable};
use crate::context::{AioContext, CompleteError};
use crate::request::AioEvent;

verus! {

/// Why the reactor refused an observed event.
#[derive(Clone, Copy, PartialEq, Eq, Structural, Debug)]
pub enum ReactorError {
    /// The context bookkeeping refused the completion.
    Context(CompleteError),
    /// The slot table refused the completion.
    Bridge(BridgeError),
}

/// The reactor's termination rule: keep polling exactly while some client
/// still holds a reference to the shared context besides the reactor's own —
/// once the driver releases its reference the loop stops, with no further
/// kernel calls.
pub fn reactor_should_continue(strong_count: usize) -> (r: bool)
    ensures
        r == (strong_count > 1),
{
    strong_count > 1
}

/// Apply one poll outcome to the bridge: nothing for a timeout; for an event,
/// retire its token from the context and store its result into the slot the
/// token names, handing back the resume handle parked there.
///
/// Accepted exactly when the echoed token names a slot that is still pending
/// and is in flight in the context; any refusal leaves both structures
/// unchanged.
pub fn handle_event<W>(
    ctx: &mut AioContext,
    table: &mut SlotTable<W>,
    event: Option<AioEvent>,
) -> (r: Result<Option<W>, ReactorError>)
    requires
        old(ctx).wf(),
    ensures
        final(ctx).wf(),
        final(ctx).spec_depth() == old(ctx).spec_depth(),
        final(ctx).submitted_tokens() == old(ctx).submitted_tokens(),
        event is None ==> r == Ok::<Option<W>, ReactorError>(None) && *final(ctx) == *old(ctx)
            && final(table).slots() == old(table).slots(),
        event matches Some(e) ==> {
            &&& (r is Ok <==> (e.data < old(table).slots().len() && old(
                table,
            ).slots()[e.data as int].rc is None && old(ctx).inflight_tokens().contains(e.data)))
            &&& (r == Err::<Option<W>, ReactorError>(ReactorError::Bridge(
                BridgeError::UnknownToken,
            )) <==> e.data >= old(table).slots().len())
            &&& (r == Err::<Option<W>, ReactorError>(ReactorError::Bridge(
                BridgeError::AlreadyCompleted,
            )) <==> (e.data < old(table).slots().len() && old(
                table,
            ).slots()[e.data as int].rc is Some))
            &&& (r == Err::<Option<W>, ReactorError>(ReactorError::Context(
                CompleteError::UnknownToken,
            )) <==> (e.data < old(table).slots().len() && old(
                table,
            ).slots()[e.data as int].rc is None && !old(ctx).inflight_tokens().contains(e.data)))
            &&& (r is Err ==> *final(ctx) == *old(ctx) && final(table).slots() == old(
                table,
            ).slots())
            &&& (r is Ok ==> r == Ok::<Option<W>, ReactorError>(
                old(table).slots()[e.data as int].waker,
            ))
            &&& (r is Ok ==> final(table).slots() == complete_next(
                old(table).slots(),
                e.data as int,
                e.ret,
            ))
            &&& (r is Ok ==> final(ctx).completed_tokens() == old(ctx).completed_tokens().push(
                e.data,
            ) && final(ctx).inflight_tokens().to_multiset() == old(
                ctx,
            ).inflight_tokens().to_multiset().remove(e.data))
        },
{
    match event {
        None => Ok(None),
        Some(e) => {
            if !table.has_slot(e.data) {
                return Err(ReactorError::Bridge(BridgeError::UnknownToken));
            }
            if table.is_completed(e.data) {
                return Err(ReactorError::Bridge(BridgeError::AlreadyCompleted));
            }
            match ctx.complete(&e) {
                Err(ce) => Err(ReactorError::Context(ce)),
                Ok(()) => {
                    match table.complete(e.data, e.ret) {
                        Ok(w) => Ok(w),
                        Err(_) => {
                            proof {
                                assert(false);
                            }
                            Err(ReactorError::Bridge(BridgeError::UnknownToken))
                        },
                    }
                },
            }
        },
    }
}

/// How many times the reactor polls the kernel, given the reference counts it
/// would observe at the top of each iteration.
///
/// The loop polls once per iteration while the observed count keeps it
/// running. Every poll happens while a client still held the context, and the
/// first observation of a released context stops the loop: no kernel call is
/// made at or after it, so the loop terminates within one polling interval of
/// the release.
pub fn reactor_polls(counts: &Vec<usize>) -> (n: usize)
    ensures
        n <= counts@.len(),
        forall|j: int| 0 <= j < n ==> counts@[j] > 1,
        n < counts@.len() ==> counts@[n as int] <= 1,
{
    let mut i: usize = 0;
    let end = counts.len();
    while i < end
        invariant
            i <= end,
            end == counts@.len(),
            forall|j: int| 0 <= j < i ==> counts@[j] > 1,
        decreases end - i,
    {
        if !reactor_should_continue(counts[i]) {
            return i;
        }
        i = i + 1;
    }
    i
}

} // verus!
