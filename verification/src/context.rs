//! Bookkeeping for one kernel completion-queue context.
//!
//! The kernel context itself (creation, submission, polling, teardown) lives
//! outside this library; what is verified here is the discipline around it:
//! a bounded queue depth, uniqueness of in-flight correlation tokens, the
//! interpretation of the kernel's poll return, and conservation of tokens —
//! every token that is submitted is observed in a completion exactly once.

use vstd::prelude::*;
use vstd::multiset::Multiset;
use crate::request::{AioEvent, AioRequest};

verus! {

broadcast use vstd::seq_lib::group_to_multiset_ensures, vstd::multiset::group_multiset_axioms;

/// The queue depth the kernel context is created with.
pub const QUEUE_DEPTH: usize = 32;

/// Why a submission was refused.
#[derive(Clone, Copy, PartialEq, Eq, Structural, Debug)]
pub enum SubmitError {
    /// The context already holds `max_depth` in-flight operations.
    QueueFull,
    /// The request's correlation token is already in flight.
    DuplicateToken,
}

/// Why a completion was refused.
#[derive(Clone, Copy, PartialEq, Eq, Structural, Debug)]
pub enum CompleteError {
    /// The event's correlation token matches no in-flight operation.
    UnknownToken,
}

/// The kernel's poll returned a negative count.
#[derive(Clone, Copy, PartialEq, Eq, Structural, Debug)]
pub struct PollError {
    pub code: i64,
}

/// Tracks one completion-queue context: its fixed maximum queue depth, the
/// tokens of the operations currently in flight, and (as ghost history) every
/// token ever submitted or completed.
pub struct AioContext {
    max_depth: usize,
    inflight: Vec<u64>,
    submitted: Ghost<Seq<u64>>,
    completed: Ghost<Seq<u64>>,
}

impl AioContext {
    /// The fixed bound on concurrently in-flight operations.
    pub closed spec fn spec_depth(&self) -> usize {
        self.max_depth
    }

    /// The tokens of the operations in flight, oldest first.
    pub closed spec fn inflight_tokens(&self) -> Seq<u64> {
        self.inflight@
    }

    /// Every token ever accepted by `submit`, in submission order.
    pub closed spec fn submitted_tokens(&self) -> Seq<u64> {
        self.submitted@
    }

    /// Every token ever consumed by `complete`, in completion order.
    pub closed spec fn completed_tokens(&self) -> Seq<u64> {
        self.completed@
    }

    /// In-flight tokens are unique and within the depth bound, and tokens are
    /// conserved: what was submitted is exactly what completed plus what is
    /// still in flight.
    pub closed spec fn wf(&self) -> bool {
        &&& 0 < self.max_depth
        &&& self.inflight@.no_duplicates()
        &&& self.inflight@.len() <= self.max_depth
        &&& self.submitted@.to_multiset() == self.completed@.to_multiset().add(
            self.inflight@.to_multiset(),
        )
    }

    /// A context with the default queue depth and no history.
    pub fn new() -> (r: AioContext)
        ensures
            r.wf(),
            r.spec_depth() == QUEUE_DEPTH,
            r.inflight_tokens() == Seq::<u64>::empty(),
            r.submitted_tokens() == Seq::<u64>::empty(),
            r.completed_tokens() == Seq::<u64>::empty(),
    {
        Self::with_depth(QUEUE_DEPTH)
    }

    /// A context bounded at `max_depth` in-flight operations.
    pub fn with_depth(max_depth: usize) -> (r: AioContext)
        requires
            0 < max_depth,
        ensures
            r.wf(),
            r.spec_depth() == max_depth,
            r.inflight_tokens() == Seq::<u64>::empty(),
            r.submitted_tokens() == Seq::<u64>::empty(),
            r.completed_tokens() == Seq::<u64>::empty(),
    {
        let r = AioContext {
            max_depth,
            inflight: Vec::new(),
            submitted: Ghost(Seq::empty()),
            completed: Ghost(Seq::empty()),
        };
        proof {
            assert(r.inflight@ =~= Seq::<u64>::empty());
            lemma_empty_seq_to_multiset::<u64>();
            assert(r.submitted@.to_multiset() =~= r.completed@.to_multiset().add(
                r.inflight@.to_multiset(),
            ));
        }
        r
    }

    /// The number of operations currently in flight.
    pub fn inflight_count(&self) -> (r: usize)
        ensures
            r == self.inflight_tokens().len(),
    {
        self.inflight.len()
    }

    /// The depth bound the context was created with.
    pub fn depth(&self) -> (r: usize)
        ensures
            r == self.spec_depth(),
    {
        self.max_depth
    }

    /// Whether the token `t` is currently in flight.
    pub fn has_token(&self, t: u64) -> (r: bool)
        ensures
            r == self.inflight_tokens().contains(t),
    {
        let n = self.inflight.len();
        let mut k: usize = 0;
        while k < n
            invariant
                k <= n,
                n == self.inflight@.len(),
                forall|j: int| 0 <= j < k ==> self.inflight@[j] != t,
            decreases n - k,
        {
            if self.inflight[k] == t {
                return true;
            }
            k = k + 1;
        }
        false
    }

    /// Record one operation as handed to the kernel.
    ///
    /// Accepted exactly when the context has queue headroom and the request's
    /// token is not already in flight; a refusal leaves the context unchanged.
    pub fn submit(&mut self, request: &AioRequest) -> (r: Result<(), SubmitError>)
        requires
            old(self).wf(),
        ensures
            final(self).wf(),
            final(self).spec_depth() == old(self).spec_depth(),
            final(self).completed_tokens() == old(self).completed_tokens(),
            r is Ok <==> (old(self).inflight_tokens().len() < old(self).spec_depth()
                && !old(self).inflight_tokens().contains(request.data)),
            r == Err::<(), SubmitError>(SubmitError::QueueFull) <==> old(
                self,
            ).inflight_tokens().len() >= old(self).spec_depth(),
            r == Err::<(), SubmitError>(SubmitError::DuplicateToken) <==> (old(
                self,
            ).inflight_tokens().len() < old(self).spec_depth() && old(
                self,
            ).inflight_tokens().contains(request.data)),
            r is Ok ==> final(self).inflight_tokens() == old(self).inflight_tokens().push(
                request.data,
            ),
            r is Ok ==> final(self).submitted_tokens() == old(self).submitted_tokens().push(
                request.data,
            ),
            r is Err ==> *final(self) == *old(self),
    {
        if self.inflight.len() >= self.max_depth {
            return Err(SubmitError::QueueFull);
        }
        if self.has_token(request.data) {
            return Err(SubmitError::DuplicateToken);
        }
        let ghost pre = self.inflight@;
        self.inflight.push(request.data);
        proof {
            self.submitted@ = self.submitted@.push(request.data);
            assert(self.inflight@ == pre.push(request.data));
            assert forall|i: int, j: int|
                (0 <= i < self.inflight@.len() && 0 <= j < self.inflight@.len() && i
                    != j) implies self.inflight@[i] != self.inflight@[j] by {
                if i < pre.len() && j < pre.len() {
                    assert(pre[i] != pre[j]);
                } else if j == pre.len() && i < pre.len() {
                    assert(!pre.contains(request.data));
                    assert(pre[i] != request.data);
                } else if i == pre.len() && j < pre.len() {
                    assert(!pre.contains(request.data));
                    assert(pre[j] != request.data);
                }
            }
            assert(self.submitted@.to_multiset() =~= self.completed@.to_multiset().add(
                self.inflight@.to_multiset(),
            ));
        }
        Ok(())
    }

    /// Consume one completion event: the echoed token leaves the in-flight
    /// set and joins the completed history.
    ///
    /// Accepted exactly when the event's token is in flight; a refusal leaves
    /// the context unchanged.
    pub fn complete(&mut self, event: &AioEvent) -> (r: Result<(), CompleteError>)
        requires
            old(self).wf(),
        ensures
            final(self).wf(),
            final(self).spec_depth() == old(self).spec_depth(),
            final(self).submitted_tokens() == old(self).submitted_tokens(),
            r is Ok <==> old(self).inflight_tokens().contains(event.data),
            r is Err ==> *final(self) == *old(self),
            r is Ok ==> final(self).completed_tokens() == old(self).completed_tokens().push(
                event.data,
            ),
            r is Ok ==> final(self).inflight_tokens().to_multiset() == old(
                self,
            ).inflight_tokens().to_multiset().remove(event.data),
            r is Ok ==> final(self).inflight_tokens().len() == old(self).inflight_tokens().len()
                - 1,
            r is Ok ==> forall|t: u64|
                #[trigger] final(self).inflight_tokens().contains(t) <==> (old(
                    self,
                ).inflight_tokens().contains(t) && t != event.data),
    {
        let n = self.inflight.len();
        let mut k: usize = 0;
        while k < n
            invariant
                k <= n,
                *self == *old(self),
                old(self).wf(),
                n == self.inflight@.len(),
                forall|j: int| 0 <= j < k ==> self.inflight@[j] != event.data,
            decreases n - k,
        {
            if self.inflight[k] == event.data {
                let ghost pre = self.inflight@;
                self.inflight.remove(k);
                proof {
                    self.completed@ = self.completed@.push(event.data);
                    assert(self.inflight@ == pre.remove(k as int));
                    lemma_remove_keeps_no_duplicates(pre, k as int);
                    assert(self.submitted@.to_multiset() =~= self.completed@.to_multiset().add(
                        self.inflight@.to_multiset(),
                    )) by {
                        assert(pre.to_multiset().count(event.data) > 0);
                    }
                    assert forall|t: u64| #[trigger]
                        self.inflight@.contains(t) <==> (pre.contains(t) && t
                            != event.data) by {
                        pre.lemma_multiset_has_no_duplicates();
                        assert(self.inflight@.to_multiset() == pre.to_multiset().remove(
                            event.data,
                        ));
                        if t == event.data {
                            assert(pre.to_multiset().count(t) == 1);
                            assert(self.inflight@.to_multiset().count(t) == 0);
                        } else {
                            assert(self.inflight@.to_multiset().count(t) == pre.to_multiset().count(
                                t,
                            ));
                        }
                    }
                }
                return Ok(());
            }
            k = k + 1;
        }
        Err(CompleteError::UnknownToken)
    }

    /// Interpret the kernel's poll return: a positive count carries one
    /// event, a zero count is a timeout, a negative count is an error.
    pub fn getevents(cnt: i64, ret: i64, data: u64) -> (r: Result<Option<AioEvent>, PollError>)
        ensures
            cnt > 0 ==> r == Ok::<Option<AioEvent>, PollError>(
                Some(AioEvent { ret, data }),
            ),
            cnt == 0 ==> r == Ok::<Option<AioEvent>, PollError>(None),
            cnt < 0 ==> r == Err::<Option<AioEvent>, PollError>((PollError { code: cnt })),
    {
        if cnt > 0 {
            Ok(Some(AioEvent::new(ret, data)))
        } else if cnt == 0 {
            Ok(None)
        } else {
            Err(PollError { code: cnt })
        }
    }
}

/// The empty sequence converts to the empty multiset.
proof fn lemma_empty_seq_to_multiset<A>()
    ensures
        Seq::<A>::empty().to_multiset() =~= Multiset::<A>::empty(),
{
    assert forall|x: A| Seq::<A>::empty().to_multiset().count(x) == 0 by {
        assert(!Seq::<A>::empty().contains(x));
    }
}

/// Removing one element of a duplicate-free sequence keeps it duplicate-free.
proof fn lemma_remove_keeps_no_duplicates<A>(s: Seq<A>, i: int)
    requires
        0 <= i < s.len(),
        s.no_duplicates(),
    ensures
        s.remove(i).no_duplicates(),
{
    let r = s.remove(i);
    assert forall|a: int, b: int|
        (0 <= a < r.len() && 0 <= b < r.len() && a != b) implies r[a] != r[b] by {
        let a0 = if a < i { a } else { a + 1 };
        let b0 = if b < i { b } else { b + 1 };
        assert(r[a] == s[a0]);
        assert(r[b] == s[b0]);
    }
}

/// Token conservation: for a well-formed context, the multiset of tokens ever
/// submitted equals the completed tokens joined with the tokens still in
/// flight; once nothing is in flight, the completions are exactly the
/// submissions.
pub proof fn lemma_token_conservation(ctx: &AioContext)
    requires
        ctx.wf(),
    ensures
        ctx.submitted_tokens().to_multiset() == ctx.completed_tokens().to_multiset().add(
            ctx.inflight_tokens().to_multiset(),
        ),
        ctx.inflight_tokens().len() == 0 ==> ctx.completed_tokens().to_multiset()
            == ctx.submitted_tokens().to_multiset(),
{
    broadcast use vstd::seq_lib::group_to_multiset_ensures;
    broadcast use vstd::multiset::group_multiset_axioms;

    if ctx.inflight_tokens().len() == 0 {
        assert(ctx.inflight_tokens() =~= Seq::<u64>::empty());
        lemma_empty_seq_to_multiset::<u64>();
        assert(ctx.completed_tokens().to_multiset() =~= ctx.submitted_tokens().to_multiset());
    }
}

/// Each token submitted exactly once is observed in a completion exactly once,
/// once nothing is left in flight: no duplicate, no loss.
pub proof fn lemma_tokens_exactly_once(ctx: &AioContext, t: u64)
    requires
        ctx.wf(),
        ctx.inflight_tokens().len() == 0,
        ctx.submitted_tokens().no_duplicates(),
        ctx.submitted_tokens().contains(t),
    ensures
        ctx.completed_tokens().to_multiset().count(t) == 1,
        ctx.completed_tokens().contains(t),
{
    broadcast use vstd::seq_lib::group_to_multiset_ensures;
    broadcast use vstd::multiset::group_multiset_axioms;

    lemma_token_conservation(ctx);
    ctx.submitted_tokens().lemma_multiset_has_no_duplicates();
    assert(ctx.submitted_tokens().to_multiset().contains(t));
    assert(ctx.completed_tokens().to_multiset().count(t) == 1);
    assert(ctx.completed_tokens().to_multiset().contains(t));
}

} // verus!
