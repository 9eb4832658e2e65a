//! Decisions of the polled USB CDC serial transport. The firmware polls the
//! USB device and calls the serial port's `read` or `write`; it hands the
//! outcome of each call to the functions here, which decide what to report
//! and what to do next.

use vstd::prelude::*;

verus! {

/// Outcome of one `read` or `write` call on the serial port.
#[derive(PartialEq, Eq, Structural, Clone, Copy, Debug)]
pub enum IoOutcome {
    /// The call moved this many bytes.
    Transferred(usize),
    /// The endpoint was not ready; nothing was moved.
    WouldBlock,
    /// The USB stack reported any other error.
    Failed,
}

/// What a receive reports for an outcome: the byte count, zero when the
/// endpoint was not ready, and an error for any other failure.
pub open spec fn recv_report(outcome: IoOutcome) -> Result<usize, ()> {
    match outcome {
        IoOutcome::Transferred(n) => Ok(n),
        IoOutcome::WouldBlock => Ok(0),
        IoOutcome::Failed => Err(()),
    }
}

/// The result of one receive on the transport.
pub fn recv_result(outcome: IoOutcome) -> (r: Result<usize, ()>)
    ensures
        r == recv_report(outcome),
        outcome matches IoOutcome::Transferred(n) ==> r == Ok::<usize, ()>(n),
        outcome == IoOutcome::WouldBlock ==> r == Ok::<usize, ()>(0),
        outcome == IoOutcome::Failed ==> r is Err,
{
    proof {
        lemma_recv_report(outcome);
    }
    match outcome {
        IoOutcome::Transferred(n) => Ok(n),
        IoOutcome::WouldBlock => Ok(0),
        IoOutcome::Failed => Err(()),
    }
}

/// How many bytes an echo should send back after a read: all of them when
/// the read moved at least one byte, none otherwise.
pub fn echo_reply_len(outcome: IoOutcome) -> (r: Option<usize>)
    ensures
        r == (match outcome {
            IoOutcome::Transferred(n) => if n > 0 {
                Some(n)
            } else {
                None
            },
            _ => None,
        }),
{
    match outcome {
        IoOutcome::Transferred(n) => if n > 0 {
            Some(n)
        } else {
            None
        },
        _ => None,
    }
}

/// What the sender asks the firmware to do next.
#[derive(PartialEq, Eq, Structural, Clone, Copy, Debug)]
pub enum SendAction {
    /// Poll the device, then write the frame's bytes from this offset on.
    Write(usize),
    /// Every byte of the frame was accepted: the send succeeded.
    Complete,
    /// A write failed: the send fails.
    Abort,
}

/// Abstract state of a send: bytes accepted so far, frame length, and
/// whether a write has failed.
pub struct SendState {
    pub sent: nat,
    pub total: nat,
    pub failed: bool,
}

/// The state after one write outcome while the send is in progress. A
/// count beyond the bytes still pending completes the frame.
pub open spec fn send_step(s: SendState, outcome: IoOutcome) -> SendState {
    match outcome {
        IoOutcome::Transferred(n) => SendState {
            sent: if s.sent + n >= s.total {
                s.total
            } else {
                (s.sent + n) as nat
            },
            total: s.total,
            failed: false,
        },
        IoOutcome::WouldBlock => s,
        IoOutcome::Failed => SendState { sent: s.sent, total: s.total, failed: true },
    }
}

/// Whether a send in state `s` still has bytes to write.
pub open spec fn in_progress(s: SendState) -> bool {
    !s.failed && s.sent < s.total
}

/// The action that follows state `s`.
pub open spec fn next_action_of(s: SendState) -> SendAction {
    if s.failed {
        SendAction::Abort
    } else if s.sent >= s.total {
        SendAction::Complete
    } else {
        SendAction::Write(s.sent as usize)
    }
}

/// The state reached by feeding `outcomes` to a send in state `s`, one per
/// write, until the send completes or aborts; later outcomes are not used.
pub open spec fn run_send(s: SendState, outcomes: Seq<IoOutcome>) -> SendState
    decreases outcomes.len(),
{
    if outcomes.len() == 0 || !in_progress(s) {
        s
    } else {
        run_send(send_step(s, outcomes[0]), outcomes.drop_first())
    }
}

/// Total byte count of the transfers among `outcomes`.
pub open spec fn transferred(outcomes: Seq<IoOutcome>) -> nat
    decreases outcomes.len(),
{
    if outcomes.len() == 0 {
        0
    } else {
        let rest = transferred(outcomes.drop_first());
        match outcomes[0] {
            IoOutcome::Transferred(n) => (n + rest) as nat,
            _ => rest,
        }
    }
}

/// Whether any of `outcomes` is a failure.
pub open spec fn has_failure(outcomes: Seq<IoOutcome>) -> bool {
    exists|i: int| 0 <= i < outcomes.len() && outcomes[i] == IoOutcome::Failed
}

/// Progress of writing one frame through the serial port, retrying until
/// every byte is accepted or a write fails.
pub struct FrameSender {
    sent: usize,
    total: usize,
    failed: bool,
}

impl FrameSender {
    #[verifier::type_invariant]
    spec fn inv(self) -> bool {
        self.sent <= self.total
    }

    /// The abstract state of the send.
    pub closed spec fn state(self) -> SendState {
        SendState { sent: self.sent as nat, total: self.total as nat, failed: self.failed }
    }

    /// Starts sending a frame of `total` bytes.
    pub fn new(total: usize) -> (r: Self)
        ensures
            r.state() == (SendState { sent: 0, total: total as nat, failed: false }),
    {
        FrameSender { sent: 0, total, failed: false }
    }

    /// Bytes of the frame accepted so far.
    pub fn sent(&self) -> (r: usize)
        ensures
            r == self.state().sent,
            r <= self.state().total,
    {
        proof {
            use_type_invariant(self);
        }
        self.sent
    }

    /// What to do next: write the pending bytes, or finish.
    pub fn next_action(&self) -> (r: SendAction)
        ensures
            r == next_action_of(self.state()),
            self.state().failed ==> r == SendAction::Abort,
            !self.state().failed && self.state().sent == self.state().total ==> r
                == SendAction::Complete,
            !self.state().failed && self.state().sent < self.state().total ==> r
                == SendAction::Write(self.state().sent as usize),
    {
        proof {
            use_type_invariant(self);
            lemma_next_action(self.state());
        }
        if self.failed {
            SendAction::Abort
        } else if self.sent >= self.total {
            SendAction::Complete
        } else {
            SendAction::Write(self.sent)
        }
    }

    /// The bytes of `frame` still to be written.
    pub fn pending<'a>(&self, frame: &'a [u8]) -> (r: &'a [u8])
        requires
            frame@.len() == self.state().total,
        ensures
            r@ == frame@.subrange(self.state().sent as int, frame@.len() as int),
    {
        proof {
            use_type_invariant(self);
        }
        vstd::slice::slice_subrange(frame, self.sent, frame.len())
    }

    /// Records the outcome of one write of the pending bytes.
    pub fn on_write(&mut self, outcome: IoOutcome)
        requires
            in_progress(old(self).state()),
        ensures
            final(self).state() == send_step(old(self).state(), outcome),
            final(self).state().total == old(self).state().total,
            outcome == IoOutcome::Failed ==> final(self).state().failed && final(self).state().sent
                == old(self).state().sent,
            outcome == IoOutcome::WouldBlock ==> final(self).state() == old(self).state(),
            outcome matches IoOutcome::Transferred(n) ==> !final(self).state().failed
                && final(self).state().sent == (if old(self).state().sent + n >= old(self).state().total {
                old(self).state().total as int
            } else {
                old(self).state().sent + n
            }),
    {
        proof {
            use_type_invariant(&*self);
            lemma_send_step(old(self).state(), outcome);
        }
        match outcome {
            IoOutcome::Transferred(n) => {
                let remaining = self.total - self.sent;
                if n >= remaining {
                    self.sent = self.total;
                } else {
                    self.sent = self.sent + n;
                }
            },
            IoOutcome::WouldBlock => {},
            IoOutcome::Failed => {
                self.failed = true;
            },
        }
    }

    /// The result the send reports once it has finished.
    pub fn result(&self) -> (r: Option<Result<(), ()>>)
        ensures
            r == (match next_action_of(self.state()) {
                SendAction::Complete => Some(Ok(())),
                SendAction::Abort => Some(Err(())),
                SendAction::Write(_) => None,
            }),
            self.state().failed ==> r == Some(Err::<(), ()>(())),
            !self.state().failed && self.state().sent == self.state().total ==> r == Some(
                Ok::<(), ()>(()),
            ),
            !self.state().failed && self.state().sent < self.state().total ==> r is None,
    {
        proof {
            use_type_invariant(self);
            lemma_next_action(self.state());
        }
        match self.next_action() {
            SendAction::Complete => Some(Ok(())),
            SendAction::Abort => Some(Err(())),
            SendAction::Write(_) => None,
        }
    }
}

/// What a receive reports: a read that moved `n` bytes reports exactly `n`,
/// an endpoint that was not ready reports zero, any other failure an error.
pub proof fn lemma_recv_report(outcome: IoOutcome)
    ensures
        outcome matches IoOutcome::Transferred(n) ==> recv_report(outcome) == Ok::<usize, ()>(n),
        outcome == IoOutcome::WouldBlock ==> recv_report(outcome) == Ok::<usize, ()>(0),
        outcome == IoOutcome::Failed ==> recv_report(outcome) is Err,
{
}

/// What a send does next: after any failed write it aborts, whatever was
/// sent before; with every byte accepted it completes; otherwise it writes
/// from the first byte not yet accepted.
pub proof fn lemma_next_action(s: SendState)
    requires
        s.sent <= s.total,
    ensures
        s.failed ==> next_action_of(s) == SendAction::Abort,
        !s.failed && s.sent == s.total ==> next_action_of(s) == SendAction::Complete,
        !s.failed && s.sent < s.total ==> next_action_of(s) == SendAction::Write(s.sent as usize),
{
}

/// What one write outcome does to a send: a failure marks it failed and
/// keeps the count, an endpoint that was not ready changes nothing, and a
/// transfer of `n` bytes adds `n` to the count, up to the frame length.
pub proof fn lemma_send_step(s: SendState, outcome: IoOutcome)
    ensures
        send_step(s, outcome).total == s.total,
        outcome == IoOutcome::Failed ==> send_step(s, outcome).failed && send_step(s, outcome).sent
            == s.sent,
        outcome == IoOutcome::WouldBlock ==> send_step(s, outcome) == s,
        outcome matches IoOutcome::Transferred(n) ==> !send_step(s, outcome).failed && send_step(
            s,
            outcome,
        ).sent == (if s.sent + n >= s.total {
            s.total as int
        } else {
            s.sent + n
        }),
{
}

/// A write that moves nothing, or finds the endpoint not ready, leaves the
/// send exactly where it was, so the same bytes are written again.
pub proof fn lemma_retry_keeps_state(s: SendState)
    ensures
        send_step(s, IoOutcome::WouldBlock) == s,
        s.sent <= s.total && !s.failed ==> send_step(s, IoOutcome::Transferred(0)) == s,
{
}

/// A send never counts more bytes than the frame holds, never goes back,
/// and once failed stays failed.
pub proof fn lemma_send_progress_bounded(s: SendState, outcomes: Seq<IoOutcome>)
    requires
        s.sent <= s.total,
    ensures
        run_send(s, outcomes).total == s.total,
        s.sent <= run_send(s, outcomes).sent <= s.total,
        s.failed ==> run_send(s, outcomes) == s,
    decreases outcomes.len(),
{
    if outcomes.len() > 0 && in_progress(s) {
        lemma_send_progress_bounded(send_step(s, outcomes[0]), outcomes.drop_first());
    }
}

/// Once the port has accepted as many bytes as the frame still holds, with
/// no failed write, the send completes.
pub proof fn lemma_send_delivers_frame(s: SendState, outcomes: Seq<IoOutcome>)
    requires
        s.sent <= s.total,
        !s.failed,
        !has_failure(outcomes),
        s.sent + transferred(outcomes) >= s.total,
    ensures
        run_send(s, outcomes) == (SendState { sent: s.total, total: s.total, failed: false }),
        next_action_of(run_send(s, outcomes)) == SendAction::Complete,
    decreases outcomes.len(),
{
    if outcomes.len() > 0 && in_progress(s) {
        let rest = outcomes.drop_first();
        assert(!has_failure(rest)) by {
            if has_failure(rest) {
                let i = choose|i: int| 0 <= i < rest.len() && rest[i] == IoOutcome::Failed;
                assert(outcomes[i + 1] == IoOutcome::Failed);
            }
        }
        assert(outcomes[0] != IoOutcome::Failed);
        lemma_send_delivers_frame(send_step(s, outcomes[0]), rest);
    }
}

/// A send completes only after the port has accepted every byte of the
/// frame, and aborts only after a failed write.
pub proof fn lemma_send_outcome_sound(s: SendState, outcomes: Seq<IoOutcome>)
    requires
        s.sent <= s.total,
        !s.failed,
    ensures
        next_action_of(run_send(s, outcomes)) == SendAction::Complete ==> s.sent + transferred(
            outcomes,
        ) >= s.total,
        next_action_of(run_send(s, outcomes)) == SendAction::Abort ==> has_failure(outcomes),
    decreases outcomes.len(),
{
    if outcomes.len() > 0 && in_progress(s) {
        let rest = outcomes.drop_first();
        let next = send_step(s, outcomes[0]);
        if outcomes[0] == IoOutcome::Failed {
            lemma_send_progress_bounded(next, rest);
        } else {
            lemma_send_outcome_sound(next, rest);
            if has_failure(rest) {
                let i = choose|i: int| 0 <= i < rest.len() && rest[i] == IoOutcome::Failed;
                assert(outcomes[i + 1] == IoOutcome::Failed);
            }
        }
    }
}

/// The actions a send in state `s` asks for when fed `outcomes`, one per
/// write: the action before each outcome it uses, then the final action.
pub open spec fn send_trace(s: SendState, outcomes: Seq<IoOutcome>) -> Seq<SendAction>
    decreases outcomes.len(),
{
    if outcomes.len() == 0 || !in_progress(s) {
        seq![next_action_of(s)]
    } else {
        seq![next_action_of(s)] + send_trace(send_step(s, outcomes[0]), outcomes.drop_first())
    }
}

/// Entry `i` of a send's trace is the action that follows the first `i`
/// outcomes, and the trace ends with the action of the final state.
pub proof fn lemma_send_trace_prefixes(s: SendState, outcomes: Seq<IoOutcome>, i: int)
    requires
        0 <= i < send_trace(s, outcomes).len(),
    ensures
        i <= outcomes.len(),
        send_trace(s, outcomes)[i] == next_action_of(run_send(s, outcomes.take(i))),
        send_trace(s, outcomes).last() == next_action_of(run_send(s, outcomes)),
    decreases outcomes.len(),
{
    let t = send_trace(s, outcomes);
    if outcomes.len() == 0 || !in_progress(s) {
        assert(run_send(s, outcomes.take(i)) == s);
    } else {
        let rest = outcomes.drop_first();
        let next = send_step(s, outcomes[0]);
        let tail = send_trace(next, rest);
        assert(t.len() == tail.len() + 1);
        lemma_send_trace_prefixes(next, rest, tail.len() - 1);
        if i > 0 {
            lemma_send_trace_prefixes(next, rest, i - 1);
            assert(outcomes.take(i).drop_first() =~= rest.take(i - 1));
            assert(t[i] == tail[i - 1]);
        } else {
            assert(outcomes.take(0).len() == 0);
        }
        assert(t.last() == tail.last());
    }
}

/// A send is determined by the frame length and the write outcomes alone:
/// two senders that start in the same state and are fed the same outcomes
/// ask for the same writes, at the same offsets, in the same order, end in
/// the same state and report the same result. The bytes handed to each
/// write are `frame[offset..]` (see `FrameSender::pending`), so equal frames
/// get equal writes.
pub proof fn lemma_send_deterministic(
    first: SendState,
    second: SendState,
    first_outcomes: Seq<IoOutcome>,
    second_outcomes: Seq<IoOutcome>,
)
    requires
        first == second,
        first_outcomes == second_outcomes,
    ensures
        send_trace(first, first_outcomes) == send_trace(second, second_outcomes),
        run_send(first, first_outcomes) == run_send(second, second_outcomes),
        next_action_of(run_send(first, first_outcomes)) == next_action_of(
            run_send(second, second_outcomes),
        ),
{
}

/// Whether a write outcome moved at least one byte.
pub open spec fn is_progress(outcome: IoOutcome) -> bool {
    outcome matches IoOutcome::Transferred(n) && n > 0
}

/// Whether some outcome among positions `start ..= start + stall_limit`
/// moved at least one byte.
pub open spec fn window_has_progress(outcomes: Seq<IoOutcome>, start: int, stall_limit: nat) -> bool {
    exists|j: int| start <= j <= start + stall_limit && is_progress(#[trigger] outcomes[j])
}

/// Whether the port never stalls for more than `stall_limit` writes in a
/// row: every `stall_limit + 1` consecutive outcomes hold one that moved at
/// least one byte.
pub open spec fn progress_within(outcomes: Seq<IoOutcome>, stall_limit: nat) -> bool {
    forall|i: int|
        0 <= i && i + stall_limit < outcomes.len() ==> #[trigger] window_has_progress(
            outcomes,
            i,
            stall_limit,
        )
}

/// The bytes moved by a sequence of outcomes split at any point.
proof fn lemma_transferred_split(outcomes: Seq<IoOutcome>, m: int)
    requires
        0 <= m <= outcomes.len(),
    ensures
        transferred(outcomes) == transferred(outcomes.take(m)) + transferred(outcomes.skip(m)),
    decreases m,
{
    if m > 0 {
        let rest = outcomes.drop_first();
        lemma_transferred_split(rest, m - 1);
        assert(outcomes.take(m).drop_first() =~= rest.take(m - 1));
        assert(outcomes.skip(m) =~= rest.skip(m - 1));
    } else {
        assert(outcomes.skip(0) =~= outcomes);
    }
}

/// A sequence holding an outcome that moved bytes moved at least one byte.
proof fn lemma_transferred_positive(outcomes: Seq<IoOutcome>, j: int)
    requires
        0 <= j < outcomes.len(),
        is_progress(outcomes[j]),
    ensures
        transferred(outcomes) >= 1,
    decreases j,
{
    if j > 0 {
        lemma_transferred_positive(outcomes.drop_first(), j - 1);
    }
}

/// A port that never stalls for more than `stall_limit` writes in a row
/// moves at least `count` bytes in `(stall_limit + 1) * count` writes.
proof fn lemma_progress_yields_bytes(outcomes: Seq<IoOutcome>, stall_limit: nat, count: nat)
    requires
        progress_within(outcomes, stall_limit),
        outcomes.len() >= (stall_limit + 1) * count,
    ensures
        transferred(outcomes) >= count,
    decreases count,
{
    if count > 0 {
        let m: int = stall_limit as int + 1;
        assert(m * count >= m) by (nonlinear_arith)
            requires
                m >= 1,
                count >= 1,
        ;
        let block = outcomes.take(m);
        let rest = outcomes.skip(m);
        assert(window_has_progress(outcomes, 0, stall_limit));
        let j = choose|j: int| 0 <= j <= stall_limit && is_progress(#[trigger] outcomes[j]);
        assert(block[j] == outcomes[j]);
        lemma_transferred_positive(block, j);
        assert forall|i: int| 0 <= i && i + stall_limit < rest.len() implies #[trigger] window_has_progress(
            rest,
            i,
            stall_limit,
        ) by {
            assert(window_has_progress(outcomes, i + m, stall_limit));
            let jj = choose|jj: int|
                i + m <= jj <= i + m + stall_limit && is_progress(#[trigger] outcomes[jj]);
            assert(rest[jj - m] == outcomes[jj]);
        }
        assert(rest.len() >= m * (count - 1)) by (nonlinear_arith)
            requires
                rest.len() == outcomes.len() - m,
                outcomes.len() >= m * count,
        ;
        lemma_progress_yields_bytes(rest, stall_limit, (count - 1) as nat);
        lemma_transferred_split(outcomes, m);
    }
}

/// A send terminates: if the port never fails and never stalls for more
/// than `stall_limit` writes in a row, a frame with `L` bytes still pending
/// is complete after at most `(stall_limit + 1) * L` writes.
pub proof fn lemma_send_completes_within(s: SendState, outcomes: Seq<IoOutcome>, stall_limit: nat)
    requires
        s.sent <= s.total,
        !s.failed,
        !has_failure(outcomes),
        progress_within(outcomes, stall_limit),
        outcomes.len() == (stall_limit + 1) * (s.total - s.sent),
    ensures
        next_action_of(run_send(s, outcomes)) == SendAction::Complete,
{
    lemma_progress_yields_bytes(outcomes, stall_limit, (s.total - s.sent) as nat);
    lemma_send_delivers_frame(s, outcomes);
}

} // verus!
