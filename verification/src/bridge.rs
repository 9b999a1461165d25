//! The task bridge: per-operation suspension state and the slot table that
//! correlates an opaque completion token back to its suspended operation.
//!
//! Each pending operation owns one `AioFuture`: an optional result slot and an
//! optional handle used to resume the owning task. The kernel never sees the
//! future itself; it is handed an opaque integer token — the future's index in
//! a `SlotTable` — and echoes it back verbatim in the completion event. The
//! resume-handle type `W` is opaque to the bridge: it is stored on suspension
//! and handed back on completion, never inspected.

use vstd::prelude::*;
use crate::context::{AioContext, SubmitError};
use crate::request::AioRequest;

verus! {

/// Suspension state of one in-flight operation: the result, once the reactor
/// has stored it, and the handle that resumes the owning task.
pub struct AioFuture<W> {
    pub rc: Option<i64>,
    pub waker: Option<W>,
}

/// The state of a freshly created operation: no result, no parked handle.
pub open spec fn fresh_future<W>() -> AioFuture<W> {
    AioFuture { rc: None, waker: None }
}

/// The slot table after a completion stored `ret` into slot `i`: the result is
/// set and the parked handle has been taken out to be woken.
pub open spec fn complete_next<W>(slots: Seq<AioFuture<W>>, i: int, ret: i64) -> Seq<
    AioFuture<W>,
> {
    slots.update(i, AioFuture { rc: Some(ret), waker: None })
}

/// The slot table after the owning task polled slot `i` with handle `w`: a
/// completed slot is left untouched; a pending one parks the handle.
pub open spec fn poll_next<W>(slots: Seq<AioFuture<W>>, i: int, w: W) -> Seq<AioFuture<W>> {
    if slots[i].rc is Some {
        slots
    } else {
        slots.update(i, AioFuture { rc: None, waker: Some(w) })
    }
}

impl<W> AioFuture<W> {
    /// A fresh suspension state: no result yet, no handle parked.
    pub fn new() -> (r: AioFuture<W>)
        ensures
            r == fresh_future::<W>(),
    {
        AioFuture { rc: None, waker: None }
    }

    /// One scheduler poll: a stored result completes the operation and leaves
    /// the state untouched; otherwise the task parks its resume handle and
    /// suspends.
    pub fn poll(&mut self, waker: W) -> (r: Option<i64>)
        ensures
            r == old(self).rc,
            old(self).rc is Some ==> *final(self) == *old(self),
            old(self).rc is None ==> *final(self) == (AioFuture {
                rc: None::<i64>,
                waker: Some(waker),
            }),
    {
        match self.rc {
            Some(v) => Some(v),
            None => {
                self.waker = Some(waker);
                None
            },
        }
    }

    /// Store the operation's result and hand back the parked resume handle,
    /// if the task has suspended already.
    pub fn complete(&mut self, ret: i64) -> (w: Option<W>)
        ensures
            w == old(self).waker,
            *final(self) == (AioFuture { rc: Some(ret), waker: None::<W> }),
    {
        let w = self.waker.take();
        self.rc = Some(ret);
        w
    }
}

/// Why the slot table refused a completion.
#[derive(Clone, Copy, PartialEq, Eq, Structural, Debug)]
pub enum BridgeError {
    /// The token indexes no slot.
    UnknownToken,
    /// The slot's result was already stored once.
    AlreadyCompleted,
}

/// An arena of suspension states, indexed by the integer token that the
/// kernel carries: slot `t` of the table backs the operation whose
/// correlation token is `t`. Slots never move, so a token stays valid for the
/// whole life of its operation.
pub struct SlotTable<W> {
    slots: Vec<AioFuture<W>>,
}

impl<W> SlotTable<W> {
    /// The suspension states, slot `t` backing token `t`.
    pub closed spec fn slots(&self) -> Seq<AioFuture<W>> {
        self.slots@
    }

    /// An empty table: no tokens handed out yet.
    pub fn new() -> (r: SlotTable<W>)
        ensures
            r.slots() == Seq::<AioFuture<W>>::empty(),
    {
        let r = SlotTable { slots: Vec::new() };
        proof {
            assert(r.slots@ =~= Seq::<AioFuture<W>>::empty());
        }
        r
    }

    /// How many tokens have been handed out.
    pub fn len(&self) -> (r: usize)
        ensures
            r == self.slots().len(),
    {
        self.slots.len()
    }

    /// Create one fresh suspension state and hand out its token.
    pub fn register(&mut self) -> (token: u64)
        requires
            old(self).slots().len() < u64::MAX,
        ensures
            token == old(self).slots().len(),
            final(self).slots() == old(self).slots().push(fresh_future::<W>()),
    {
        let token = self.slots.len() as u64;
        self.slots.push(AioFuture::new());
        token
    }

    /// Whether `token` names a slot of this table.
    pub fn has_slot(&self, token: u64) -> (r: bool)
        ensures
            r == (token < self.slots().len()),
    {
        token < self.slots.len() as u64
    }

    /// Whether the operation behind `token` has its result stored already.
    pub fn is_completed(&self, token: u64) -> (r: bool)
        requires
            token < self.slots().len(),
        ensures
            r == (self.slots()[token as int].rc is Some),
    {
        proof {
            assert(self.slots@.len() == self.slots.len());
        }
        self.slots[token as usize].rc.is_some()
    }

    /// The stored result of the operation behind `token`, if any.
    pub fn result_of(&self, token: u64) -> (r: Option<i64>)
        requires
            token < self.slots().len(),
        ensures
            r == self.slots()[token as int].rc,
    {
        proof {
            assert(self.slots@.len() == self.slots.len());
        }
        self.slots[token as usize].rc
    }

    /// Poll the operation behind `token` on behalf of its owning task.
    ///
    /// A completed operation reports its result and the table is untouched —
    /// in particular no resume handle is parked, so the task does not suspend
    /// again. A pending one parks `waker` and reports nothing.
    pub fn poll(&mut self, token: u64, waker: W) -> (r: Option<i64>)
        requires
            token < old(self).slots().len(),
        ensures
            r == old(self).slots()[token as int].rc,
            final(self).slots() == poll_next(old(self).slots(), token as int, waker),
    {
        proof {
            assert(self.slots@.len() == self.slots.len());
        }
        let i = token as usize;
        let slot = &mut self.slots[i];
        let r = slot.poll(waker);
        proof {
            if old(self).slots()[token as int].rc is Some {
                assert(self.slots@ =~= old(self).slots());
            } else {
                assert(self.slots@ =~= old(self).slots().update(
                    token as int,
                    AioFuture { rc: None, waker: Some(waker) },
                ));
            }
        }
        r
    }

    /// Consume one completion event: store `ret` into the slot the echoed
    /// `token` names and hand back the resume handle parked there.
    ///
    /// Refused exactly when the token indexes no slot or the slot's result
    /// was already stored; a refusal leaves the table unchanged — a result is
    /// stored at most once per operation.
    pub fn complete(&mut self, token: u64, ret: i64) -> (r: Result<Option<W>, BridgeError>)
        ensures
            r is Ok <==> (token < old(self).slots().len() && old(
                self,
            ).slots()[token as int].rc is None),
            r is Err ==> *final(self) == *old(self),
            (r == Err::<Option<W>, BridgeError>(BridgeError::UnknownToken)) <==> token >= old(
                self,
            ).slots().len(),
            (r == Err::<Option<W>, BridgeError>(BridgeError::AlreadyCompleted)) <==> (token < old(
                self,
            ).slots().len() && old(self).slots()[token as int].rc is Some),
            r is Ok ==> r == Ok::<Option<W>, BridgeError>(old(self).slots()[token as int].waker),
            r is Ok ==> final(self).slots() == complete_next(old(self).slots(), token as int, ret),
    {
        if token >= self.slots.len() as u64 {
            return Err(BridgeError::UnknownToken);
        }
        let i = token as usize;
        if self.slots[i].rc.is_some() {
            return Err(BridgeError::AlreadyCompleted);
        }
        let slot = &mut self.slots[i];
        let w = slot.complete(ret);
        Ok(w)
    }
}

/// Begin one asynchronous read: create a suspension state at a fresh token,
/// build the descriptor that carries the token, and record the submission in
/// the context's bookkeeping. The slot exists afterwards even when the
/// submission is refused; a refusal leaves the context unchanged.
pub fn start_read<W>(
    table: &mut SlotTable<W>,
    ctx: &mut AioContext,
    fd: i32,
    buf: u64,
    length: u64,
    offset: i64,
) -> (r: Result<AioRequest, SubmitError>)
    requires
        old(table).slots().len() < u64::MAX,
        old(ctx).wf(),
    ensures
        final(ctx).wf(),
        final(ctx).spec_depth() == old(ctx).spec_depth(),
        final(table).slots() == old(table).slots().push(fresh_future::<W>()),
        ({
            let token = old(table).slots().len() as u64;
            &&& (r is Ok <==> (old(ctx).inflight_tokens().len() < old(ctx).spec_depth() && !old(
                ctx,
            ).inflight_tokens().contains(token)))
            &&& (r is Ok ==> r == Ok::<AioRequest, SubmitError>(
                (AioRequest { fd, write: false, buf, length, offset, data: token }),
            ))
            &&& (r is Ok ==> final(ctx).inflight_tokens() == old(ctx).inflight_tokens().push(token)
                && final(ctx).submitted_tokens() == old(ctx).submitted_tokens().push(token))
            &&& (r is Err ==> *final(ctx) == *old(ctx))
        }),
{
    let token = table.register();
    let req = AioRequest::new_read(fd, buf, length, offset, token);
    match ctx.submit(&req) {
        Ok(()) => Ok(req),
        Err(e) => Err(e),
    }
}

/// Begin one asynchronous write, exactly as `start_read` but in the write
/// direction.
pub fn start_write<W>(
    table: &mut SlotTable<W>,
    ctx: &mut AioContext,
    fd: i32,
    buf: u64,
    length: u64,
    offset: i64,
) -> (r: Result<AioRequest, SubmitError>)
    requires
        old(table).slots().len() < u64::MAX,
        old(ctx).wf(),
    ensures
        final(ctx).wf(),
        final(ctx).spec_depth() == old(ctx).spec_depth(),
        final(table).slots() == old(table).slots().push(fresh_future::<W>()),
        ({
            let token = old(table).slots().len() as u64;
            &&& (r is Ok <==> (old(ctx).inflight_tokens().len() < old(ctx).spec_depth() && !old(
                ctx,
            ).inflight_tokens().contains(token)))
            &&& (r is Ok ==> r == Ok::<AioRequest, SubmitError>(
                (AioRequest { fd, write: true, buf, length, offset, data: token }),
            ))
            &&& (r is Ok ==> final(ctx).inflight_tokens() == old(ctx).inflight_tokens().push(token)
                && final(ctx).submitted_tokens() == old(ctx).submitted_tokens().push(token))
            &&& (r is Err ==> *final(ctx) == *old(ctx))
        }),
{
    let token = table.register();
    let req = AioRequest::new_write(fd, buf, length, offset, token);
    match ctx.submit(&req) {
        Ok(()) => Ok(req),
        Err(e) => Err(e),
    }
}

/// Law: resumption is idempotent-safe. Once a completion stores a result into
/// a slot, that slot reports the stored result to every subsequent poll and
/// the table is left unchanged by each of them — the owning task observes a
/// completed state on its very next poll and never suspends again for the
/// same operation.
pub proof fn lemma_resume_idempotent<W>(slots: Seq<AioFuture<W>>, i: int, ret: i64, w: W)
    requires
        0 <= i < slots.len(),
    ensures
        complete_next(slots, i, ret)[i].rc == Some(ret),
        poll_next(complete_next(slots, i, ret), i, w) == complete_next(slots, i, ret),
{
}

/// Law: completions of distinct tokens are independent. Each stores its own
/// result in its own slot, no other slot is touched, and the final table does
/// not depend on the order in which the kernel delivered the two completions.
pub proof fn lemma_completion_order_independent<W>(
    slots: Seq<AioFuture<W>>,
    i: int,
    j: int,
    ri: i64,
    rj: i64,
)
    requires
        0 <= i < slots.len(),
        0 <= j < slots.len(),
        i != j,
    ensures
        complete_next(complete_next(slots, i, ri), j, rj) == complete_next(
            complete_next(slots, j, rj),
            i,
            ri,
        ),
        complete_next(complete_next(slots, i, ri), j, rj)[i].rc == Some(ri),
        complete_next(complete_next(slots, i, ri), j, rj)[j].rc == Some(rj),
        forall|k: int|
            0 <= k < slots.len() && k != i && k != j ==> complete_next(
                complete_next(slots, i, ri),
                j,
                rj,
            )[k] == slots[k],
{
    assert(complete_next(complete_next(slots, i, ri), j, rj) =~= complete_next(
        complete_next(slots, j, rj),
        i,
        ri,
    ));
}

} // verus!
