//! The reactor's bookkeeping of I/O readiness events: which waker an event
//! reaches, which events wait for a waker that is not registered yet, and
//! how a wrapped I/O object reacts to the outcome of an operation.

use vstd::prelude::*;
use crate::multi_thread::IoErrorKind;

verus! {

/// What looking up the waker registered under a token found.
#[derive(Clone, Copy, Debug, PartialEq, Eq, Structural)]
pub enum WakerOutcome {
    /// No waker slot under the token.
    Missing,
    /// A slot without a waker in it.
    Idle,
    /// A waker, which was taken and woken.
    Woken,
}

/// The tokens of readiness events that reached no registered waker; they
/// are looked at again later.
pub struct WakeupBacklog {
    pending: Vec<usize>,
}

/// The tokens of `tokens` whose outcome is [`WakerOutcome::Missing`], in order.
pub open spec fn still_missing(tokens: Seq<usize>, outcomes: Seq<WakerOutcome>) -> Seq<usize>
    decreases tokens.len(),
{
    if tokens.len() == 0 {
        Seq::empty()
    } else {
        let rest = still_missing(tokens.drop_last(), outcomes.take(tokens.len() - 1));
        if outcomes[tokens.len() - 1] == WakerOutcome::Missing {
            rest.push(tokens.last())
        } else {
            rest
        }
    }
}

/// Keeping the still-missing tokens works token by token: over two runs of
/// tokens laid end to end it keeps what it keeps of the first run followed
/// by what it keeps of the second, and of a single token it keeps the token
/// exactly when its outcome is [`WakerOutcome::Missing`]. So every token
/// whose waker is still missing stays, in its order, and no other does.
pub proof fn law_still_missing_token_by_token(
    t1: Seq<usize>,
    o1: Seq<WakerOutcome>,
    t2: Seq<usize>,
    o2: Seq<WakerOutcome>,
)
    requires
        t1.len() == o1.len(),
        t2.len() == o2.len(),
    ensures
        still_missing(t1 + t2, o1 + o2) == still_missing(t1, o1) + still_missing(t2, o2),
        t2.len() == 1 ==> still_missing(t2, o2) == (if o2[0] == WakerOutcome::Missing {
            t2
        } else {
            Seq::<usize>::empty()
        }),
        (forall|k: int| 0 <= k < o1.len() ==> #[trigger] o1[k] == WakerOutcome::Missing) ==> still_missing(
            t1,
            o1,
        ) == t1,
        (forall|k: int| 0 <= k < o1.len() ==> #[trigger] o1[k] != WakerOutcome::Missing) ==> still_missing(
            t1,
            o1,
        ) == Seq::<usize>::empty(),
    decreases t2.len() + t1.len(),
{
    if t2.len() == 0 {
        assert(t1 + t2 =~= t1);
        assert(o1 + o2 =~= o1);
        assert(still_missing(t1, o1) + still_missing(t2, o2) =~= still_missing(t1, o1));
    } else {
        let n = t2.len();
        let t2s = t2.drop_last();
        let o2s = o2.take(n - 1);
        law_still_missing_token_by_token(t1, o1, t2s, o2s);
        assert((t1 + t2).drop_last() =~= t1 + t2s);
        assert((o1 + o2).take((t1 + t2).len() - 1) =~= o1 + o2s);
        assert((o1 + o2)[(t1 + t2).len() - 1] == o2[n - 1]);
        assert((t1 + t2).last() == t2.last());
        assert((still_missing(t1, o1) + still_missing(t2s, o2s)).push(t2.last()) =~= still_missing(
            t1,
            o1,
        ) + still_missing(t2s, o2s).push(t2.last()));
    }
    if t2.len() == 1 {
        assert(t2.drop_last() =~= Seq::<usize>::empty());
        assert(Seq::<usize>::empty().push(t2.last()) =~= t2);
    }
    if t1.len() > 0 {
        let t1s = t1.drop_last();
        let o1s = o1.take(t1.len() - 1);
        law_still_missing_token_by_token(t1s, o1s, Seq::<usize>::empty(), Seq::<WakerOutcome>::empty());
        if forall|k: int| 0 <= k < o1.len() ==> #[trigger] o1[k] == WakerOutcome::Missing {
            assert forall|k: int| 0 <= k < o1s.len() implies #[trigger] o1s[k] == WakerOutcome::Missing by {
                assert(o1s[k] == o1[k]);
            }
            assert(o1[t1.len() - 1] == WakerOutcome::Missing);
            assert(t1s.push(t1.last()) =~= t1);
        }
        if forall|k: int| 0 <= k < o1.len() ==> #[trigger] o1[k] != WakerOutcome::Missing {
            assert forall|k: int| 0 <= k < o1s.len() implies #[trigger] o1s[k] != WakerOutcome::Missing by {
                assert(o1s[k] == o1[k]);
            }
            assert(o1[t1.len() - 1] != WakerOutcome::Missing);
        }
    }
}

impl WakeupBacklog {
    /// The pending tokens, oldest first.
    pub closed spec fn tokens(&self) -> Seq<usize> {
        self.pending@
    }

    /// An empty backlog with room for `capacity` tokens.
    pub fn with_capacity(capacity: usize) -> (r: Self)
        ensures
            r.tokens() == Seq::<usize>::empty(),
    {
        WakeupBacklog { pending: Vec::with_capacity(capacity) }
    }

    /// The pending tokens, oldest first.
    pub fn pending(&self) -> (r: &Vec<usize>)
        ensures
            r@ == self.tokens(),
    {
        &self.pending
    }

    /// Records the outcome of delivering an event for `token`: an event that
    /// found no waker slot is kept for later.
    pub fn record(&mut self, token: usize, outcome: WakerOutcome)
        ensures
            final(self).tokens() == (if outcome == WakerOutcome::Missing {
                old(self).tokens().push(token)
            } else {
                old(self).tokens()
            }),
    {
        if outcome == WakerOutcome::Missing {
            self.pending.push(token);
        }
    }

    /// Given the outcome of a new delivery attempt for each pending token, in
    /// order, keeps the tokens that still found no waker slot. Returns whether
    /// some waker was woken.
    pub fn retain_missing(&mut self, outcomes: &Vec<WakerOutcome>) -> (r: bool)
        requires
            outcomes@.len() == old(self).tokens().len(),
        ensures
            final(self).tokens() == still_missing(old(self).tokens(), outcomes@),
            r == outcomes@.contains(WakerOutcome::Woken),
    {
        let n = self.pending.len();
        let mut kept: Vec<usize> = Vec::with_capacity(n);
        let mut woke = false;
        let mut i: usize = 0;
        while i < n
            invariant
                n == self.pending@.len(),
                n == outcomes@.len(),
                self.pending@ == old(self).tokens(),
                i <= n,
                kept@ == still_missing(self.pending@.take(i as int), outcomes@.take(i as int)),
                woke == outcomes@.take(i as int).contains(WakerOutcome::Woken),
            decreases n - i,
        {
            let ghost before = kept@;
            assert(self.pending@.take(i + 1).drop_last() =~= self.pending@.take(i as int));
            assert(outcomes@.take(i + 1).take(i as int) =~= outcomes@.take(i as int));
            if outcomes[i] == WakerOutcome::Missing {
                kept.push(self.pending[i]);
            }
            if outcomes[i] == WakerOutcome::Woken {
                woke = true;
                assert(outcomes@.take(i + 1)[i as int] == WakerOutcome::Woken);
            }
            assert(outcomes@.take(i + 1).contains(WakerOutcome::Woken) == (outcomes@.take(
                i as int,
            ).contains(WakerOutcome::Woken) || outcomes@[i as int] == WakerOutcome::Woken)) by {
                if outcomes@.take(i as int).contains(WakerOutcome::Woken) {
                    let k = choose|k: int| 0 <= k < i && #[trigger] outcomes@.take(i as int)[k] == WakerOutcome::Woken;
                    assert(outcomes@.take(i + 1)[k] == WakerOutcome::Woken);
                }
                if outcomes@.take(i + 1).contains(WakerOutcome::Woken) {
                    let k = choose|k: int| 0 <= k < i + 1 && #[trigger] outcomes@.take(i + 1)[k] == WakerOutcome::Woken;
                    if k < i {
                        assert(outcomes@.take(i as int)[k] == WakerOutcome::Woken);
                    }
                }
            }
            i = i + 1;
        }
        assert(self.pending@.take(n as int) =~= self.pending@);
        assert(outcomes@.take(n as int) =~= outcomes@);
        self.pending = kept;
        woke
    }
}

/// What a wrapped I/O object does after trying an operation.
#[derive(Clone, Copy, Debug, PartialEq, Eq, Structural)]
pub enum IoStep {
    /// Return the outcome (a success, or an error other than the two below).
    Ready,
    /// The operation would block: register the waker with the reactor and
    /// report that the operation is pending.
    Register,
    /// The operation was interrupted: try it again.
    Retry,
}

/// How a wrapped I/O object reacts to the outcome of an operation.
pub fn io_step(outcome: Result<(), IoErrorKind>) -> (r: IoStep)
    ensures
        r == (match outcome {
            Err(IoErrorKind::WouldBlock) => IoStep::Register,
            Err(IoErrorKind::Interrupted) => IoStep::Retry,
            _ => IoStep::Ready,
        }),
{
    match outcome {
        Ok(()) => IoStep::Ready,
        Err(kind) => match kind {
            IoErrorKind::WouldBlock => IoStep::Register,
            IoErrorKind::Interrupted => IoStep::Retry,
            IoErrorKind::Other => IoStep::Ready,
        },
    }
}

/// What a stream of incoming connections does after trying to accept one.
#[derive(Clone, Copy, Debug, PartialEq, Eq, Structural)]
pub enum AcceptStep {
    /// Yield the accepted connection.
    Yield,
    /// Register the waker with the reactor and report that it is pending.
    Register,
    /// Try again.
    Retry,
    /// Log the error and end the stream.
    End,
}

/// How a stream of incoming connections reacts to the outcome of an accept.
pub fn accept_step(outcome: Result<(), IoErrorKind>) -> (r: AcceptStep)
    ensures
        r == (match outcome {
            Ok(()) => AcceptStep::Yield,
            Err(IoErrorKind::WouldBlock) => AcceptStep::Register,
            Err(IoErrorKind::Interrupted) => AcceptStep::Retry,
            Err(IoErrorKind::Other) => AcceptStep::End,
        }),
{
    match outcome {
        Ok(()) => AcceptStep::Yield,
        Err(kind) => match kind {
            IoErrorKind::WouldBlock => AcceptStep::Register,
            IoErrorKind::Interrupted => AcceptStep::Retry,
            IoErrorKind::Other => AcceptStep::End,
        },
    }
}

/// How an I/O object registers with the reactor: `added` is the token of a
/// newly added waker slot, or `None` when the waker went into the slot of its
/// `current` token. Returns the token to register under (and to remember)
/// and whether the source is registered again rather than for the first time.
pub fn registration(current: usize, added: Option<usize>) -> (r: (usize, bool))
    ensures
        r == (match added {
            Some(token) => (token, false),
            None => (current, true),
        }),
{
    match added {
        Some(token) => (token, false),
        None => (current, true),
    }
}

/// The file status flags that make a descriptor non-blocking: `None` when
/// the `nonblock` flag is already set in `flags`, otherwise `flags` with it
/// set.
pub open spec fn nonblocking_update(flags: u32, nonblock: u32) -> Option<u32> {
    if flags & nonblock == nonblock {
        None
    } else {
        Some(flags | nonblock)
    }
}

/// Computes [`nonblocking_update`].
pub fn nonblocking_flags(flags: u32, nonblock: u32) -> (r: Option<u32>)
    ensures
        r == nonblocking_update(flags, nonblock),
{
    if flags & nonblock == nonblock {
        None
    } else {
        Some(flags | nonblock)
    }
}

/// Making a descriptor non-blocking is idempotent: once the flags it gets
/// are set, asking again changes nothing.
pub proof fn law_nonblocking_idempotent(flags: u32, nonblock: u32)
    ensures
        nonblocking_update(flags, nonblock) matches Some(f) ==> nonblocking_update(f, nonblock) is None,
{
    assert(((flags | nonblock) & nonblock) == nonblock) by (bit_vector);
}

/// What polling a join handle does.
#[derive(Clone, Copy, Debug, PartialEq, Eq, Structural)]
pub enum JoinStep {
    /// The output is there: return it, after removing the registered waker
    /// if there is one.
    Ready { deregister: bool },
    /// Not finished: report pending, after registering the waker if none is.
    Pending { register: bool },
}

/// How a join handle reacts to whether the task's output is there and
/// whether its waker is registered with the task.
pub fn join_step(output_ready: bool, registered: bool) -> (r: JoinStep)
    ensures
        r == (if output_ready {
            JoinStep::Ready { deregister: registered }
        } else {
            JoinStep::Pending { register: !registered }
        }),
{
    if output_ready {
        JoinStep::Ready { deregister: registered }
    } else {
        JoinStep::Pending { register: !registered }
    }
}

} // verus!
