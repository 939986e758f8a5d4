//! The transfer record: one proposed movement of value, the approvals it has
//! gathered, and whether it was carried out.

use vstd::prelude::*;
use crate::account::Account;
use crate::address::{read_address, Address};
use crate::codec::{
    flag_byte, flag_bytes, flag_bytes_at, flags_at, is_flag_byte, le_u64, lemma_le_u64_of_u64_le,
    lemma_le_u64_range, lemma_u64_le_len, lemma_u64_le_of_le_u64, put_bytes, put_flag, put_flags,
    put_u64_le, read_u64_le, u64_le,
};
use crate::error::MultisigError;

verus! {

/// The number of member slots a transfer keeps an approval flag for.
pub const MAX_MEMBERS: usize = 10;

/// How many flags of `flags` are set.
pub open spec fn tally(flags: Seq<bool>) -> nat
    decreases flags.len(),
{
    if flags.len() == 0 {
        0
    } else {
        tally(flags.drop_last()) + if flags.last() {
            1nat
        } else {
            0nat
        }
    }
}

/// No more flags are set than there are flags.
pub proof fn lemma_tally_bound(flags: Seq<bool>)
    ensures
        tally(flags) <= flags.len(),
    decreases flags.len(),
{
    if flags.len() > 0 {
        lemma_tally_bound(flags.drop_last());
    }
}

/// Setting a clear flag raises the tally by exactly one.
pub proof fn lemma_tally_set(flags: Seq<bool>, i: int)
    requires
        0 <= i < flags.len(),
        !flags[i],
    ensures
        tally(flags.update(i, true)) == tally(flags) + 1,
    decreases flags.len(),
{
    let set = flags.update(i, true);
    if i == flags.len() - 1 {
        assert(set.drop_last() =~= flags.drop_last());
    } else {
        lemma_tally_set(flags.drop_last(), i);
        assert(set.drop_last() =~= flags.drop_last().update(i, true));
    }
}

/// A run of clear flags has tally zero.
pub proof fn lemma_tally_clear(flags: Seq<bool>)
    requires
        forall|i: int| 0 <= i < flags.len() ==> !flags[i],
    ensures
        tally(flags) == 0,
    decreases flags.len(),
{
    if flags.len() > 0 {
        lemma_tally_clear(flags.drop_last());
    }
}

/// If every set flag lies below `limit`, the tally is at most `limit`.
pub proof fn lemma_tally_below(flags: Seq<bool>, limit: nat)
    requires
        forall|i: int| 0 <= i < flags.len() && flags[i] ==> i < limit,
    ensures
        tally(flags) <= limit,
    decreases flags.len(),
{
    if flags.len() > 0 {
        if flags.len() <= limit {
            lemma_tally_bound(flags);
        } else {
            lemma_tally_below(flags.drop_last(), limit);
        }
    }
}

/// The mathematical content of a transfer record.
pub struct TransactionView {
    /// The sequence index that tells this transfer from the group's others.
    pub index: u64,
    /// Who proposed the transfer.
    pub proposer: Seq<u8>,
    /// One flag per member slot: the member at that slot has approved.
    pub approvals: Seq<bool>,
    /// The approval count.
    pub num_approvals: u8,
    /// Whether the transfer was carried out. Once set it stays set.
    pub executed: bool,
    /// The time after which the transfer can be neither approved nor carried out.
    pub expiry: u64,
    /// Where the value goes.
    pub receiver: Seq<u8>,
    /// How much value moves.
    pub lamports: u64,
    /// The bump the record's own address was derived with.
    pub bump: u8,
}

impl TransactionView {
    /// The record's invariant: identities are 32 bytes, there is one flag per
    /// slot, and the approval count equals the tally of the flags.
    pub open spec fn wf(self) -> bool {
        &&& self.proposer.len() == 32
        &&& self.receiver.len() == 32
        &&& self.approvals.len() == MAX_MEMBERS
        &&& self.num_approvals == tally(self.approvals)
    }

    /// The record after the member at `slot` has approved: a set flag stays
    /// as it is, a clear one is set and counted once.
    pub open spec fn approve(self, slot: int) -> TransactionView
        recommends
            0 <= slot < self.approvals.len(),
    {
        if self.approvals[slot] {
            self
        } else {
            TransactionView {
                approvals: self.approvals.update(slot, true),
                num_approvals: (self.num_approvals + 1) as u8,
                ..self
            }
        }
    }

    /// Whether the expiry has passed at time `now`.
    pub open spec fn is_expired(self, now: u64) -> bool {
        now > self.expiry
    }

    /// What an approval for `slot` comes to: refused once the transfer was
    /// executed, refused for a slot outside the flags, and otherwise the
    /// record with the slot's approval registered.
    pub open spec fn approve_outcome(self, slot: int) -> Result<TransactionView, MultisigError> {
        if self.executed {
            Err(MultisigError::AlreadyExecuted)
        } else if slot < 0 || slot >= MAX_MEMBERS {
            Err(MultisigError::InvalidArgument)
        } else {
            Ok(self.approve(slot))
        }
    }

    /// What an attempt to execute at time `now` under `threshold` comes to:
    /// refused as a replay once executed, refused after expiry, refused below
    /// quorum, and otherwise the record with the executed flag set.
    pub open spec fn execute_outcome(self, threshold: u64, now: u64) -> Result<
        TransactionView,
        MultisigError,
    > {
        if self.executed {
            Err(MultisigError::AlreadyExecuted)
        } else if self.is_expired(now) {
            Err(MultisigError::Expired)
        } else if self.num_approvals < threshold {
            Err(MultisigError::QuorumNotReached)
        } else {
            Ok(TransactionView { executed: true, ..self })
        }
    }

    /// Whether the proposal is dead and may be closed: never executed, past
    /// its expiry, and short of quorum.
    pub open spec fn closable(self, threshold: u64, now: u64) -> bool {
        !self.executed && self.is_expired(now) && self.num_approvals < threshold
    }

    /// The 101 bytes the record is stored as, field after field and without
    /// padding: index (8, little-endian), proposer (32), approval flags (10),
    /// approval count (1), executed flag (1), expiry (8, little-endian),
    /// receiver (32), amount (8, little-endian), bump (1).
    pub open spec fn encoding(self) -> Seq<u8> {
        u64_le(self.index) + self.proposer + flag_bytes(self.approvals) + seq![self.num_approvals]
            + seq![flag_byte(self.executed)] + u64_le(self.expiry) + self.receiver + u64_le(
            self.lamports,
        ) + seq![self.bump]
    }

    /// The fields that the first 101 bytes of `bytes` hold.
    pub open spec fn fields_of(bytes: Seq<u8>) -> TransactionView {
        TransactionView {
            index: le_u64(bytes.subrange(0, 8)) as u64,
            proposer: bytes.subrange(8, 40),
            approvals: flags_at(bytes, 40, 10),
            num_approvals: bytes[50],
            executed: bytes[51] == 1u8,
            expiry: le_u64(bytes.subrange(52, 60)) as u64,
            receiver: bytes.subrange(60, 92),
            lamports: le_u64(bytes.subrange(92, 100)) as u64,
            bump: bytes[100],
        }
    }

    /// Whether `bytes` begin with a stored record: long enough, every flag
    /// byte 0 or 1, and the stored count equal to the tally of the flags.
    pub open spec fn well_encoded(bytes: Seq<u8>) -> bool {
        &&& bytes.len() >= Transaction::LEN
        &&& flag_bytes_at(bytes, 40, 10)
        &&& is_flag_byte(bytes[51])
        &&& bytes[50] == tally(flags_at(bytes, 40, 10))
    }

    /// The record that `bytes` begin with, if they begin with one.
    pub open spec fn parse(bytes: Seq<u8>) -> Option<TransactionView> {
        if Self::well_encoded(bytes) {
            Some(Self::fields_of(bytes))
        } else {
            None
        }
    }
}

/// What may happen to a transfer record after it was proposed.
pub enum TransactionEvent {
    /// The member at `slot` approves.
    Approve { slot: int },
    /// Somebody asks for the transfer to be executed at time `now`.
    Execute { now: u64 },
}

impl TransactionView {
    /// The record after one event under the group's `threshold`. A refused
    /// event leaves the record as it was.
    pub open spec fn after(self, threshold: u64, event: TransactionEvent) -> TransactionView {
        let outcome = match event {
            TransactionEvent::Approve { slot } => self.approve_outcome(slot),
            TransactionEvent::Execute { now } => self.execute_outcome(threshold, now),
        };
        match outcome {
            Ok(next) => next,
            Err(_) => self,
        }
    }

    /// The record after a run of events, in order.
    pub open spec fn after_all(self, threshold: u64, events: Seq<TransactionEvent>) -> TransactionView
        decreases events.len(),
    {
        if events.len() == 0 {
            self
        } else {
            self.after_all(threshold, events.drop_last()).after(threshold, events.last())
        }
    }

}

/// An approval keeps the record's invariant, sets the slot's flag, leaves
/// every other flag and every other field alone, and raises the count by one
/// exactly when the flag was clear.
pub proof fn lemma_approve_effect(v: TransactionView, slot: int)
    requires
        v.wf(),
        0 <= slot < MAX_MEMBERS,
    ensures
        v.approve(slot).wf(),
        v.approve(slot).approvals == v.approvals.update(slot, true),
        v.approve(slot).num_approvals == v.num_approvals + if v.approvals[slot] {
            0int
        } else {
            1int
        },
        v.approve(slot) == (TransactionView {
            approvals: v.approve(slot).approvals,
            num_approvals: v.approve(slot).num_approvals,
            ..v
        }),
{
    if v.approvals[slot] {
        assert(v.approvals.update(slot, true) =~= v.approvals);
    } else {
        lemma_tally_set(v.approvals, slot);
        lemma_tally_bound(v.approvals.update(slot, true));
    }
}

/// Approving a slot twice is the same as approving it once.
pub proof fn lemma_approve_idempotent(v: TransactionView, slot: int)
    requires
        0 <= slot < v.approvals.len(),
    ensures
        v.approve(slot).approve(slot) == v.approve(slot),
{
}

/// The same event, `times` times in a row.
pub open spec fn repeated(event: TransactionEvent, times: nat) -> Seq<TransactionEvent> {
    Seq::new(times, |i: int| event)
}

/// Any number of approvals in a row for one slot, if at least one, leaves
/// the record as a single approval does: the flag and the count do not move
/// again, and a refused approval stays refused.
pub proof fn lemma_repeated_approval(v: TransactionView, threshold: u64, slot: int, times: nat)
    requires
        v.approvals.len() == MAX_MEMBERS,
        times >= 1,
    ensures
        v.after_all(threshold, repeated(TransactionEvent::Approve { slot }, times)) == v.after(
            threshold,
            TransactionEvent::Approve { slot },
        ),
    decreases times,
{
    let event = TransactionEvent::Approve { slot };
    let events = repeated(event, times);
    assert(events.drop_last() =~= repeated(event, (times - 1) as nat));
    if times > 1 {
        lemma_repeated_approval(v, threshold, slot, (times - 1) as nat);
    } else {
        assert(v.after_all(threshold, events.drop_last()) == v);
    }
}

/// An approval that was accepted is accepted again, and changes nothing
/// the second time.
pub proof fn lemma_approve_outcome_idempotent(v: TransactionView, slot: int)
    requires
        v.approvals.len() == MAX_MEMBERS,
        v.approve_outcome(slot) is Ok,
    ensures
        v.approve_outcome(slot)->Ok_0.approve_outcome(slot) == v.approve_outcome(slot),
{
}

/// The executed flag is set only by an execution that found the quorum
/// reached and the expiry not passed, and such an execution changes nothing
/// else.
pub proof fn lemma_execute_needs_quorum(v: TransactionView, threshold: u64, now: u64)
    ensures
        v.execute_outcome(threshold, now) matches Ok(next) ==> {
            &&& !v.executed
            &&& v.num_approvals >= threshold
            &&& now <= v.expiry
            &&& next == TransactionView { executed: true, ..v }
        },
        v.execute_outcome(threshold, now) is Ok <==> !v.executed && now <= v.expiry
            && v.num_approvals >= threshold,
{
}

/// Once executed, a record refuses every approval and every execution as a
/// replay, and no event changes it.
pub proof fn lemma_executed_refuses(v: TransactionView, slot: int, threshold: u64, now: u64)
    requires
        v.executed,
    ensures
        v.approve_outcome(slot) == Err::<TransactionView, MultisigError>(
            MultisigError::AlreadyExecuted,
        ),
        v.execute_outcome(threshold, now) == Err::<TransactionView, MultisigError>(
            MultisigError::AlreadyExecuted,
        ),
        v.after(threshold, TransactionEvent::Approve { slot }) == v,
        v.after(threshold, TransactionEvent::Execute { now }) == v,
{
}

/// Once executed, a record is never changed again, whatever approvals and
/// executions follow.
pub proof fn lemma_executed_is_final(
    v: TransactionView,
    threshold: u64,
    events: Seq<TransactionEvent>,
)
    requires
        v.executed,
    ensures
        v.after_all(threshold, events) == v,
    decreases events.len(),
{
    if events.len() > 0 {
        lemma_executed_is_final(v, threshold, events.drop_last());
    }
}

/// One event never clears a flag, never lowers the count, never clears the
/// executed flag, and keeps the record's invariant.
pub proof fn lemma_event_monotonic(v: TransactionView, threshold: u64, event: TransactionEvent)
    requires
        v.wf(),
    ensures
        v.after(threshold, event).wf(),
        forall|i: int|
            0 <= i < MAX_MEMBERS && v.approvals[i] ==> #[trigger] v.after(
                threshold,
                event,
            ).approvals[i],
        v.after(threshold, event).num_approvals >= v.num_approvals,
        v.executed ==> v.after(threshold, event).executed,
{
    match event {
        TransactionEvent::Approve { slot } => {
            if v.approve_outcome(slot) is Ok {
                lemma_approve_effect(v, slot);
            }
        },
        TransactionEvent::Execute { now } => {},
    }
}

/// Under any interleaving of approvals and execution attempts, a record that
/// was proposed unexecuted is executed only with the quorum reached: the
/// invariant holds after every run of events.
pub proof fn lemma_executed_implies_quorum(
    v: TransactionView,
    threshold: u64,
    events: Seq<TransactionEvent>,
)
    requires
        v.wf(),
        v.executed ==> v.num_approvals >= threshold,
    ensures
        v.after_all(threshold, events).wf(),
        v.after_all(threshold, events).executed ==> v.after_all(threshold, events).num_approvals
            >= threshold,
    decreases events.len(),
{
    if events.len() > 0 {
        lemma_executed_implies_quorum(v, threshold, events.drop_last());
        lemma_event_monotonic(v.after_all(threshold, events.drop_last()), threshold, events.last());
    }
}

/// What was fixed when the transfer was proposed stays fixed: no run of
/// events changes the index, the proposer, the expiry, the receiver, the
/// amount or the bump.
pub proof fn lemma_events_keep_terms(
    v: TransactionView,
    threshold: u64,
    events: Seq<TransactionEvent>,
)
    ensures
        v.after_all(threshold, events) == (TransactionView {
            approvals: v.after_all(threshold, events).approvals,
            num_approvals: v.after_all(threshold, events).num_approvals,
            executed: v.after_all(threshold, events).executed,
            ..v
        }),
    decreases events.len(),
{
    if events.len() > 0 {
        lemma_events_keep_terms(v, threshold, events.drop_last());
    }
}

/// If a run of events leaves an unexecuted record executed, then one of the
/// events was an execution that, at its time, found the record unexecuted,
/// the quorum reached and the expiry not passed, however approvals and
/// execution attempts were interleaved.
pub proof fn lemma_execution_had_quorum(
    v: TransactionView,
    threshold: u64,
    events: Seq<TransactionEvent>,
)
    requires
        !v.executed,
        v.after_all(threshold, events).executed,
    ensures
        exists|k: int|
            {
                &&& 0 <= k < events.len()
                &&& #[trigger] events[k] is Execute
                &&& events[k]->now <= v.expiry
                &&& !v.after_all(threshold, events.take(k)).executed
                &&& v.after_all(threshold, events.take(k)).num_approvals >= threshold
            },
    decreases events.len(),
{
    if events.len() > 0 {
        let front = events.drop_last();
        let before = v.after_all(threshold, front);
        if before.executed {
            lemma_execution_had_quorum(v, threshold, front);
            let k = choose|k: int|
                {
                    &&& 0 <= k < front.len()
                    &&& #[trigger] front[k] is Execute
                    &&& front[k]->now <= v.expiry
                    &&& !v.after_all(threshold, front.take(k)).executed
                    &&& v.after_all(threshold, front.take(k)).num_approvals >= threshold
                };
            assert(front.take(k) =~= events.take(k));
            assert(events[k] == front[k]);
        } else {
            let k = events.len() - 1;
            lemma_events_keep_terms(v, threshold, front);
            assert(events.take(k) =~= front);
            assert(events[k] is Execute);
        }
    }
}

/// A stored record has 101 bytes and decodes to the record it stores,
/// whatever bytes follow it.
#[verifier::rlimit(50)]
pub proof fn lemma_parse_encoding(v: TransactionView, rest: Seq<u8>)
    requires
        v.wf(),
    ensures
        v.encoding().len() == Transaction::LEN,
        TransactionView::parse(v.encoding() + rest) == Some(v),
{
    let bytes = v.encoding() + rest;
    lemma_le_u64_of_u64_le(v.index);
    lemma_le_u64_of_u64_le(v.expiry);
    lemma_le_u64_of_u64_le(v.lamports);
    lemma_tally_bound(v.approvals);
    assert(bytes.subrange(0, 8) =~= u64_le(v.index));
    assert(bytes.subrange(8, 40) =~= v.proposer);
    assert(flags_at(bytes, 40, 10) =~= v.approvals);
    assert(bytes.subrange(52, 60) =~= u64_le(v.expiry));
    assert(bytes.subrange(60, 92) =~= v.receiver);
    assert(bytes.subrange(92, 100) =~= u64_le(v.lamports));
    assert(flag_bytes_at(bytes, 40, 10)) by {
        assert forall|i: int| 40 <= i < 50 implies is_flag_byte(#[trigger] bytes[i]) by {
            assert(bytes[i] == flag_byte(v.approvals[i - 40]));
        }
    }
}

/// Bytes that decode to a record begin with that record's encoding, and the
/// record satisfies the invariant.
#[verifier::rlimit(50)]
pub proof fn lemma_encoding_parse(bytes: Seq<u8>)
    requires
        TransactionView::parse(bytes) is Some,
    ensures
        TransactionView::parse(bytes)->Some_0.wf(),
        TransactionView::parse(bytes)->Some_0.encoding() == bytes.subrange(
            0,
            Transaction::LEN as int,
        ),
{
    let v = TransactionView::parse(bytes)->Some_0;
    lemma_u64_le_of_le_u64(bytes.subrange(0, 8));
    lemma_u64_le_of_le_u64(bytes.subrange(52, 60));
    lemma_u64_le_of_le_u64(bytes.subrange(92, 100));
    lemma_le_u64_range(bytes.subrange(0, 8));
    lemma_le_u64_range(bytes.subrange(52, 60));
    lemma_le_u64_range(bytes.subrange(92, 100));
    assert(u64_le(v.index) == bytes.subrange(0, 8));
    assert(u64_le(v.expiry) == bytes.subrange(52, 60));
    assert(u64_le(v.lamports) == bytes.subrange(92, 100));
    assert(flag_bytes(v.approvals) =~= bytes.subrange(40, 50)) by {
        assert forall|i: int| 0 <= i < 10 implies flag_byte(v.approvals[i]) == bytes[40 + i] by {
            assert(is_flag_byte(bytes[40 + i]));
        }
    }
    assert(seq![flag_byte(v.executed)] =~= bytes.subrange(51, 52));
    assert(seq![v.num_approvals] =~= bytes.subrange(50, 51));
    assert(seq![v.bump] =~= bytes.subrange(100, 101));
    assert(v.encoding() =~= bytes.subrange(0, Transaction::LEN as int));
}

/// A transfer record.
#[derive(Clone, Copy, Debug, PartialEq, Eq)]
pub struct Transaction {
    index: u64,
    proposer: Address,
    approvals: [bool; 10],
    num_approvals: u8,
    executed: bool,
    expiry: u64,
    receiver: Address,
    lamports: u64,
    bump: u8,
}

impl View for Transaction {
    type V = TransactionView;

    closed spec fn view(&self) -> TransactionView {
        TransactionView {
            index: self.index,
            proposer: self.proposer@,
            approvals: self.approvals@,
            num_approvals: self.num_approvals,
            executed: self.executed,
            expiry: self.expiry,
            receiver: self.receiver@,
            lamports: self.lamports,
            bump: self.bump,
        }
    }
}

impl Transaction {
    /// The size of a stored record in bytes.
    pub const LEN: usize = 8 + 32 + 10 + 1 + 1 + 8 + 32 + 8 + 1;

    #[verifier::type_invariant]
    spec fn inv(&self) -> bool {
        self@.wf()
    }

    /// A freshly proposed transfer: no approvals, not executed.
    pub fn new(
        index: u64,
        proposer: Address,
        expiry: u64,
        receiver: Address,
        lamports: u64,
        bump: u8,
    ) -> (t: Transaction)
        ensures
            t@ == (TransactionView {
                index,
                proposer: proposer@,
                approvals: Seq::new(10, |i: int| false),
                num_approvals: 0,
                executed: false,
                expiry,
                receiver: receiver@,
                lamports,
                bump,
            }),
            t@.wf(),
    {
        let approvals = [false; 10];
        proof {
            assert(approvals@ =~= Seq::new(10, |i: int| false));
            lemma_tally_clear(approvals@);
        }
        Transaction {
            index,
            proposer,
            approvals,
            num_approvals: 0,
            executed: false,
            expiry,
            receiver,
            lamports,
            bump,
        }
    }

    /// Decodes the record at the start of an account's data.
    ///
    /// The data may be longer than a record, not shorter. Data that is too
    /// short, holds a flag byte other than 0 and 1, or stores a count that
    /// differs from the tally of its flags is refused as invalid account data.
    #[verifier::rlimit(50)]
    pub fn from_account_info(account_info: &Account) -> (r: Result<Transaction, MultisigError>)
        ensures
            match r {
                Ok(t) => TransactionView::parse(account_info.data@) == Some(t@) && t@.wf(),
                Err(e) => e == MultisigError::InvalidAccountData && TransactionView::parse(account_info.data@)
                    is None,
            },
    {
        let data = account_info.data.as_slice();
        if data.len() < Self::LEN {
            return Err(MultisigError::InvalidAccountData);
        }
        let mut approvals = [false; 10];
        let mut count: u8 = 0;
        let mut i: usize = 0;
        while i < 10
            invariant
                data@ == account_info.data@,
                i <= 10,
                data.len() >= Self::LEN,
                forall|j: int| 40 <= j < 40 + i ==> is_flag_byte(#[trigger] data@[j]),
                forall|j: int| 0 <= j < i ==> approvals@[j] == (data@[40 + j] == 1u8),
                count == tally(approvals@.take(i as int)),
                count <= i,
            decreases 10 - i,
        {
            let byte = data[40 + i];
            if byte > 1 {
                assert(!is_flag_byte(data@[40 + i]));
                return Err(MultisigError::InvalidAccountData);
            }
            let ghost before = approvals@;
            approvals[i] = byte == 1;
            if byte == 1 {
                count += 1;
            }
            i += 1;
            proof {
                assert(approvals@.take(i as int).drop_last() =~= before.take(i - 1));
            }
        }
        proof {
            assert(approvals@.take(10) =~= approvals@);
            assert(approvals@ =~= flags_at(data@, 40, 10));
        }
        if data[50] != count || data[51] > 1 {
            return Err(MultisigError::InvalidAccountData);
        }
        proof {
            lemma_le_u64_range(data@.subrange(0, 8));
            lemma_le_u64_range(data@.subrange(52, 60));
            lemma_le_u64_range(data@.subrange(92, 100));
        }
        Ok(
            Transaction {
                index: read_u64_le(data, 0),
                proposer: read_address(data, 8),
                approvals,
                num_approvals: count,
                executed: data[51] == 1,
                expiry: read_u64_le(data, 52),
                receiver: read_address(data, 60),
                lamports: read_u64_le(data, 92),
                bump: data[100],
            },
        )
    }

    /// Decodes the record at the start of data that is known to hold one.
    pub fn from_account_info_unchecked(account_info: &Account) -> (t: Transaction)
        requires
            TransactionView::parse(account_info.data@) is Some,
        ensures
            TransactionView::parse(account_info.data@) == Some(t@),
            t@.wf(),
    {
        let data = account_info.data.as_slice();
        let mut approvals = [false; 10];
        let mut i: usize = 0;
        while i < 10
            invariant
                i <= 10,
                data@ == account_info.data@,
                data.len() >= Self::LEN,
                forall|j: int| 0 <= j < i ==> approvals@[j] == (data@[40 + j] == 1u8),
            decreases 10 - i,
        {
            approvals[i] = data[40 + i] == 1;
            i += 1;
        }
        proof {
            assert(approvals@ =~= flags_at(data@, 40, 10));
            lemma_le_u64_range(data@.subrange(0, 8));
            lemma_le_u64_range(data@.subrange(52, 60));
            lemma_le_u64_range(data@.subrange(92, 100));
        }
        Transaction {
            index: read_u64_le(data, 0),
            proposer: read_address(data, 8),
            approvals,
            num_approvals: data[50],
            executed: data[51] == 1,
            expiry: read_u64_le(data, 52),
            receiver: read_address(data, 60),
            lamports: read_u64_le(data, 92),
            bump: data[100],
        }
    }

    /// The bytes the record is stored as.
    #[verifier::rlimit(50)]
    pub fn to_bytes(&self) -> (out: Vec<u8>)
        ensures
            out@ == self@.encoding(),
            out@.len() == Self::LEN,
    {
        let mut out: Vec<u8> = Vec::with_capacity(Self::LEN);
        put_u64_le(&mut out, self.index);
        put_bytes(&mut out, &self.proposer);
        put_flags(&mut out, &self.approvals);
        out.push(self.num_approvals);
        put_flag(&mut out, self.executed);
        put_u64_le(&mut out, self.expiry);
        put_bytes(&mut out, &self.receiver);
        put_u64_le(&mut out, self.lamports);
        out.push(self.bump);
        proof {
            lemma_u64_le_len(self.index);
            lemma_u64_le_len(self.expiry);
            lemma_u64_le_len(self.lamports);
            assert(out@ =~= self@.encoding());
        }
        out
    }

    /// The transfer's sequence index.
    pub fn index(&self) -> (x: u64)
        ensures
            x == self@.index,
    {
        self.index
    }

    /// Who proposed the transfer.
    pub fn proposer(&self) -> (a: Address)
        ensures
            a@ == self@.proposer,
    {
        self.proposer
    }

    /// The approval flags, one per member slot.
    pub fn approvals(&self) -> (flags: [bool; 10])
        ensures
            flags@ == self@.approvals,
    {
        self.approvals
    }

    /// The approval count.
    pub fn num_approvals(&self) -> (n: u8)
        ensures
            n == self@.num_approvals,
            n == tally(self@.approvals),
            n <= 10,
    {
        proof {
            use_type_invariant(self);
            lemma_tally_bound(self.approvals@);
        }
        self.num_approvals
    }

    /// Whether the transfer was carried out.
    pub fn executed(&self) -> (b: bool)
        ensures
            b == self@.executed,
    {
        self.executed
    }

    /// The time after which the transfer is dead.
    pub fn expiry(&self) -> (x: u64)
        ensures
            x == self@.expiry,
    {
        self.expiry
    }

    /// Where the value goes.
    pub fn receiver(&self) -> (a: Address)
        ensures
            a@ == self@.receiver,
    {
        self.receiver
    }

    /// How much value moves.
    pub fn lamports(&self) -> (x: u64)
        ensures
            x == self@.lamports,
    {
        self.lamports
    }

    /// The bump the record's own address was derived with.
    pub fn bump(&self) -> (b: u8)
        ensures
            b == self@.bump,
    {
        self.bump
    }

    /// Registers the approval of the member at slot `member_index`.
    ///
    /// Approving a slot twice is the same as approving it once. An executed
    /// transfer and a slot outside the flags are refused, and the record is
    /// then left as it was.
    pub fn approve(&mut self, member_index: usize) -> (r: Result<(), MultisigError>)
        ensures
            final(self)@.wf(),
            match r {
                Ok(()) => old(self)@.approve_outcome(member_index as int) == Ok::<
                    TransactionView,
                    MultisigError,
                >(final(self)@),
                Err(e) => old(self)@.approve_outcome(member_index as int) == Err::<
                    TransactionView,
                    MultisigError,
                >(e) && final(self)@ == old(self)@,
            },
    {
        proof {
            use_type_invariant(&*self);
        }
        if self.executed {
            return Err(MultisigError::AlreadyExecuted);
        }
        if member_index >= self.approvals.len() {
            return Err(MultisigError::InvalidArgument);
        }
        if !self.approvals[member_index] {
            proof {
                lemma_tally_set(self.approvals@, member_index as int);
                lemma_tally_bound(self.approvals@.update(member_index as int, true));
            }
            let mut approvals = self.approvals;
            approvals[member_index] = true;
            *self = Transaction {
                index: self.index,
                proposer: self.proposer,
                approvals,
                num_approvals: self.num_approvals + 1,
                executed: self.executed,
                expiry: self.expiry,
                receiver: self.receiver,
                lamports: self.lamports,
                bump: self.bump,
            };
        }
        Ok(())
    }

    /// Whether the transfer's expiry has passed at `current_timestamp`.
    pub fn is_expired(&self, current_timestamp: u64) -> (expired: bool)
        ensures
            expired == self@.is_expired(current_timestamp),
            expired == (current_timestamp > self@.expiry),
    {
        current_timestamp > self.expiry
    }

    /// Marks the transfer as executed, if it has reached `threshold`
    /// approvals and has not expired at time `now`.
    ///
    /// The flag is set only here and never cleared. A refused attempt leaves
    /// the record as it was.
    pub fn execute(&mut self, threshold: u64, now: u64) -> (r: Result<(), MultisigError>)
        ensures
            final(self)@.wf(),
            match r {
                Ok(()) => old(self)@.execute_outcome(threshold, now) == Ok::<
                    TransactionView,
                    MultisigError,
                >(final(self)@),
                Err(e) => old(self)@.execute_outcome(threshold, now) == Err::<
                    TransactionView,
                    MultisigError,
                >(e) && final(self)@ == old(self)@,
            },
    {
        proof {
            use_type_invariant(&*self);
        }
        if self.executed {
            return Err(MultisigError::AlreadyExecuted);
        }
        if now > self.expiry {
            return Err(MultisigError::Expired);
        }
        if (self.num_approvals as u64) < threshold {
            return Err(MultisigError::QuorumNotReached);
        }
        *self = Transaction {
            index: self.index,
            proposer: self.proposer,
            approvals: self.approvals,
            num_approvals: self.num_approvals,
            executed: true,
            expiry: self.expiry,
            receiver: self.receiver,
            lamports: self.lamports,
            bump: self.bump,
        };
        Ok(())
    }

    /// Whether the proposal is dead at time `now` under `threshold`, so that
    /// its record may be closed without moving value.
    pub fn can_close(&self, threshold: u64, now: u64) -> (dead: bool)
        ensures
            dead == self@.closable(threshold, now),
    {
        !self.executed && now > self.expiry && (self.num_approvals as u64) < threshold
    }
}

} // verus!
