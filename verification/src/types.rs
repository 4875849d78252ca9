//! The data model: principals, challenges, errors, and the transfers that the
//! host's token primitive is asked to perform.

use vstd::prelude::*;

verus! {

/// A principal identity: an account on the host ledger.  The state machine
/// only ever compares principals for equality, so one plain number stands for
/// an account; the host keeps the mapping to its own account representation.
#[derive(Copy, PartialEq, Eq, Structural, Hash, Debug)]
pub struct Address {
    pub id: u64,
}

impl Clone for Address {
    fn clone(&self) -> (res: Self)
        ensures
            res == *self,
    {
        *self
    }
}

/// One end of a token transfer: either the escrow's own holding account or a
/// principal's account.
#[derive(Clone, Copy, PartialEq, Eq, Structural, Hash, Debug)]
pub enum Account {
    Escrow,
    Holder(Address),
}

/// A transfer the host's token primitive must perform: move `amount` of
/// `token` from `from` to `to`.  The primitive may fail (insufficient
/// balance); the host then aborts the whole call and discards the new state.
#[derive(Clone, Copy, PartialEq, Eq, Structural, Debug)]
pub struct Transfer {
    pub token: Address,
    pub from: Account,
    pub to: Account,
    pub amount: i128,
}

/// The reasons an operation refuses to run.  Every failure is terminal: the
/// operation changes nothing.
#[derive(Clone, Copy, PartialEq, Eq, Structural, Debug)]
pub enum EscrowError {
    /// The referenced challenge id was never created.
    NotFound,
    /// The caller is not the principal the operation requires.
    Unauthorized,
    /// The challenge was already finalized.
    InactiveChallenge,
    /// The challenge's deadline is not strictly in the future.
    DeadlinePassed,
    /// The participant already joined this challenge.
    AlreadyParticipant,
    /// The would-be winner never joined this challenge.
    NotAParticipant,
    /// The winner was already marked once.
    AlreadyWinner,
    /// The host's transfer primitive failed.  The state machine itself never
    /// returns this: the host signals it when a returned [`Transfer`] cannot
    /// be performed, and discards the state change of that call.
    TransferFailed,
}

/// The key space of the host's key-value store that the in-memory state
/// stands for: one key per challenge record, one for the global counter, and
/// one for the configured token.
#[derive(Copy, PartialEq, Eq, Structural, Hash, Debug)]
pub enum DataKey {
    Challenge(u64),
    ChallengeCount,
    NativeToken,
}

impl Clone for DataKey {
    fn clone(&self) -> (res: Self)
        ensures
            res == *self,
    {
        *self
    }
}

/// One challenge record.
#[derive(Debug)]
pub struct Challenge {
    /// Unique, assigned sequentially starting at 1.
    pub id: u64,
    pub title: String,
    pub description: String,
    /// The principal that deposited the reward; it alone marks winners and
    /// finalizes.
    pub creator: Address,
    /// The total pool deposited at creation; immutable afterwards.  Payouts
    /// are computed from it, never subtracted from it.
    pub reward_amount: i128,
    /// Participants may join only strictly before this time.
    pub deadline: u64,
    /// True from creation until the challenge is finalized.
    pub is_active: bool,
    /// Ordered, duplicate-free, append-only.
    pub participants: Vec<Address>,
    /// Ordered, duplicate-free, append-only subset of `participants`.
    pub winners: Vec<Address>,
}

/// The mathematical value of a [`Challenge`].
#[verifier::ext_equal]
pub ghost struct ChallengeView {
    pub id: int,
    pub title: Seq<char>,
    pub description: Seq<char>,
    pub creator: Address,
    pub reward_amount: int,
    pub deadline: int,
    pub is_active: bool,
    pub participants: Seq<Address>,
    pub winners: Seq<Address>,
}

impl View for Challenge {
    type V = ChallengeView;

    open spec fn view(&self) -> ChallengeView {
        ChallengeView {
            id: self.id as int,
            title: self.title@,
            description: self.description@,
            creator: self.creator,
            reward_amount: self.reward_amount as int,
            deadline: self.deadline as int,
            is_active: self.is_active,
            participants: self.participants@,
            winners: self.winners@,
        }
    }
}

impl ChallengeView {
    /// The record's internal invariant: no duplicate participants, no
    /// duplicate winners, and every winner joined first.
    pub open spec fn wf(self) -> bool {
        &&& self.participants.no_duplicates()
        &&& self.winners.no_duplicates()
        &&& forall|a: Address| #[trigger] self.winners.contains(a) ==> self.participants.contains(a)
    }
}

impl Clone for Challenge {
    fn clone(&self) -> (res: Self)
        ensures
            res@ == self@,
    {
        let res = Challenge {
            id: self.id,
            title: self.title.clone(),
            description: self.description.clone(),
            creator: self.creator,
            reward_amount: self.reward_amount,
            deadline: self.deadline,
            is_active: self.is_active,
            participants: self.participants.clone(),
            winners: self.winners.clone(),
        };
        proof {
            assert(res.participants@ =~= self.participants@);
            assert(res.winners@ =~= self.winners@);
            assert(res@ =~= self@);
        }
        res
    }
}

} // verus!
