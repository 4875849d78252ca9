//! The escrow state machine: the persisted state and the eight operations on
//! it.  Each operation is specified by a spec-level transition function over
//! [`EscrowView`]; the executable method returns exactly what that transition
//! says and leaves the state exactly as the transition says.

use crate::payout::{
    div_trunc, finalize_refund, lemma_div_trunc_bounds, lemma_div_trunc_mul_bounds, winner_share,
};
use crate::types::{Account, Address, Challenge, ChallengeView, EscrowError, Transfer};
use vstd::arithmetic::div_mod::lemma_div_basics;
use vstd::prelude::*;

verus! {

/// The mathematical value of the whole persisted state.
#[verifier::ext_equal]
pub ghost struct EscrowView {
    /// The configured asset; set once at initialization.
    pub native_token: Option<Address>,
    /// The last-assigned challenge id.
    pub challenge_count: int,
    /// Challenge `id` lives at index `id - 1`.
    pub challenges: Seq<ChallengeView>,
}

impl EscrowView {
    /// The state's internal invariant: ids are dense and sequential starting
    /// at 1, every record is well formed, the counter never runs past the
    /// records (re-initialization may reset it below), and a record can only
    /// exist once a token was configured.
    pub open spec fn wf(self) -> bool {
        &&& 0 <= self.challenge_count <= self.challenges.len()
        &&& forall|i: int|
            0 <= i < self.challenges.len() ==> (#[trigger] self.challenges[i]).wf()
        &&& forall|i: int|
            0 <= i < self.challenges.len() ==> (#[trigger] self.challenges[i]).id == i + 1
        &&& self.challenges.len() > 0 ==> self.native_token is Some
    }

    /// Whether a challenge with this id is stored.
    pub open spec fn has_challenge(self, id: u64) -> bool {
        1 <= id <= self.challenges.len()
    }

    /// The stored record of a challenge id.
    pub open spec fn challenge(self, id: u64) -> ChallengeView
        recommends
            self.has_challenge(id),
    {
        self.challenges[id - 1]
    }
}

/// What `create_challenge` does, stated over the view: with the creator
/// authenticated, assign the next id, store a fresh active record with no
/// participants and no winners, and deposit the whole reward into escrow.
/// An id already stored (possible only after a re-initialization reset the
/// counter) is overwritten, as a store keyed by id overwrites.
pub open spec fn spec_create_challenge(
    v: EscrowView,
    caller: Address,
    creator: Address,
    title: Seq<char>,
    description: Seq<char>,
    reward_amount: i128,
    deadline: u64,
) -> Result<(u64, Transfer, EscrowView), EscrowError> {
    if caller != creator {
        Err(EscrowError::Unauthorized)
    } else {
        let id = v.challenge_count + 1;
        let c = ChallengeView {
            id: id,
            title: title,
            description: description,
            creator: creator,
            reward_amount: reward_amount as int,
            deadline: deadline as int,
            is_active: true,
            participants: Seq::<Address>::empty(),
            winners: Seq::<Address>::empty(),
        };
        let t = Transfer {
            token: v.native_token->0,
            from: Account::Holder(creator),
            to: Account::Escrow,
            amount: reward_amount,
        };
        let challenges = if id <= v.challenges.len() {
            v.challenges.update(id - 1, c)
        } else {
            v.challenges.push(c)
        };
        Ok((id as u64, t, EscrowView { challenge_count: id, challenges: challenges, ..v }))
    }
}

/// What `join_challenge` does, stated over the view: with the participant
/// authenticated, an active challenge, a deadline strictly in the future and
/// a fresh participant, append the participant.  No funds move.
pub open spec fn spec_join_challenge(
    v: EscrowView,
    caller: Address,
    participant: Address,
    challenge_id: u64,
    now: u64,
) -> Result<EscrowView, EscrowError> {
    if caller != participant {
        Err(EscrowError::Unauthorized)
    } else if !v.has_challenge(challenge_id) {
        Err(EscrowError::NotFound)
    } else {
        let c = v.challenge(challenge_id);
        if !c.is_active {
            Err(EscrowError::InactiveChallenge)
        } else if now >= c.deadline {
            Err(EscrowError::DeadlinePassed)
        } else if c.participants.contains(participant) {
            Err(EscrowError::AlreadyParticipant)
        } else {
            let c2 = ChallengeView { participants: c.participants.push(participant), ..c };
            Ok(EscrowView { challenges: v.challenges.update(challenge_id - 1, c2), ..v })
        }
    }
}

/// What `mark_winner` does, stated over the view: with the challenge's
/// creator authenticated and the winner a participant not yet marked, append
/// the winner and pay it the pool divided (truncating) by the count of
/// winners at this very moment.  Earlier winners are not paid again: a winner
/// marked while the count was smaller keeps its larger share.
pub open spec fn spec_mark_winner(
    v: EscrowView,
    caller: Address,
    challenge_id: u64,
    winner: Address,
) -> Result<(Transfer, EscrowView), EscrowError> {
    if !v.has_challenge(challenge_id) {
        Err(EscrowError::NotFound)
    } else {
        let c = v.challenge(challenge_id);
        if caller != c.creator {
            Err(EscrowError::Unauthorized)
        } else if !c.participants.contains(winner) {
            Err(EscrowError::NotAParticipant)
        } else if c.winners.contains(winner) {
            Err(EscrowError::AlreadyWinner)
        } else {
            let n = c.winners.len() + 1;
            let c2 = ChallengeView { winners: c.winners.push(winner), ..c };
            let t = Transfer {
                token: v.native_token->0,
                from: Account::Escrow,
                to: Account::Holder(winner),
                amount: winner_share(c.reward_amount, n as int) as i128,
            };
            Ok((t, EscrowView { challenges: v.challenges.update(challenge_id - 1, c2), ..v }))
        }
    }
}

/// What `finalize_challenge` does, stated over the view: with the creator
/// authenticated, deactivate the record and refund the creator what an
/// even split among the final winner count would have left over — the whole
/// pool when nobody won.  Nothing checks that the challenge is still active:
/// a second call deactivates again and attempts the same refund again.
pub open spec fn spec_finalize_challenge(
    v: EscrowView,
    caller: Address,
    challenge_id: u64,
) -> Result<(Option<Transfer>, EscrowView), EscrowError> {
    if !v.has_challenge(challenge_id) {
        Err(EscrowError::NotFound)
    } else {
        let c = v.challenge(challenge_id);
        if caller != c.creator {
            Err(EscrowError::Unauthorized)
        } else {
            let c2 = ChallengeView { is_active: false, ..c };
            let v2 = EscrowView { challenges: v.challenges.update(challenge_id - 1, c2), ..v };
            let refund = finalize_refund(c.reward_amount, c.winners.len());
            let t = Transfer {
                token: v.native_token->0,
                from: Account::Escrow,
                to: Account::Holder(c.creator),
                amount: refund as i128,
            };
            if c.winners.len() == 0 || refund > 0 {
                Ok((Some(t), v2))
            } else {
                Ok((None, v2))
            }
        }
    }
}

/// The ids in `1 ..= n` whose record is currently active, in ascending
/// order.
pub open spec fn spec_active_ids(v: EscrowView, n: int) -> Seq<u64>
    decreases n,
{
    if n <= 0 {
        Seq::empty()
    } else {
        let rest = spec_active_ids(v, n - 1);
        if v.challenges[n - 1].is_active {
            rest.push(n as u64)
        } else {
            rest
        }
    }
}

/// Whether `needle` occurs in `v`.
fn contains_address(v: &Vec<Address>, needle: Address) -> (found: bool)
    ensures
        found == v@.contains(needle),
{
    let mut i: usize = 0;
    while i < v.len()
        invariant
            i <= v@.len(),
            forall|j: int| 0 <= j < i ==> v@[j] != needle,
        decreases v@.len() - i,
    {
        if v[i] == needle {
            return true;
        }
        i = i + 1;
    }
    false
}

/// The escrow ledger.  The host owns one value of this and drives it: it
/// authenticates the caller, reads its clock, performs the returned
/// transfers, and keeps the state only when the transfer went through.
pub struct ChallengeEscrow {
    native_token: Option<Address>,
    challenge_count: u64,
    challenges: Vec<Challenge>,
}

impl View for ChallengeEscrow {
    type V = EscrowView;

    closed spec fn view(&self) -> EscrowView {
        EscrowView {
            native_token: self.native_token,
            challenge_count: self.challenge_count as int,
            challenges: self.challenges@.map_values(|c: Challenge| c@),
        }
    }
}

impl Clone for ChallengeEscrow {
    /// A copy with the same view — the host snapshots the state with this
    /// before an operation, so it can discard a state whose transfer failed.
    fn clone(&self) -> (res: Self)
        ensures
            res@ == self@,
    {
        let res = ChallengeEscrow {
            native_token: self.native_token,
            challenge_count: self.challenge_count,
            challenges: self.challenges.clone(),
        };
        proof {
            assert forall|i: int| 0 <= i < res.challenges@.len() implies res.challenges@[i]@
                == self.challenges@[i]@ by {
                assert(cloned::<Challenge>(self.challenges@[i], res.challenges@[i]));
            }
            assert(res@.challenges =~= self@.challenges);
            assert(res@ =~= self@);
        }
        res
    }
}

impl ChallengeEscrow {
    /// The state invariant, stated over the view.
    pub open spec fn wf(self) -> bool {
        self@.wf()
    }

    /// An escrow over an empty store: nothing configured, nothing created.
    pub fn new() -> (r: ChallengeEscrow)
        ensures
            r.wf(),
            r@.native_token is None,
            r@.challenge_count == 0,
            r@.challenges == Seq::<ChallengeView>::empty(),
    {
        let r = ChallengeEscrow { native_token: None, challenge_count: 0, challenges: Vec::new() };
        proof {
            assert(r@.challenges =~= Seq::<ChallengeView>::empty());
        }
        r
    }

    /// One-time setup: configure the asset every deposit and payout uses and
    /// reset the counter.  Nothing guards re-invocation: calling it again
    /// resets the counter while the stored records stay.
    pub fn initialize(&mut self, native_token: Address)
        requires
            old(self).wf(),
        ensures
            final(self).wf(),
            final(self)@ == (EscrowView {
                native_token: Some(native_token),
                challenge_count: 0,
                ..old(self)@
            }),
    {
        self.native_token = Some(native_token);
        self.challenge_count = 0;
        proof {
            assert(self@ =~= (EscrowView {
                native_token: Some(native_token),
                challenge_count: 0,
                ..old(self)@
            }));
        }
    }

    /// Open a new challenge: deposit `reward_amount` into escrow and store a
    /// fresh record under the next id.  `caller` is the principal the host
    /// authenticated for this call; it must be the creator itself.  On
    /// success the host must perform the returned deposit transfer, and
    /// discard the new state if the transfer fails.  The escrow must have
    /// been initialized — without a configured token there is nothing to
    /// deposit, and the host aborts such a call — and the id space must not
    /// be exhausted.
    pub fn create_challenge(
        &mut self,
        caller: Address,
        creator: Address,
        title: String,
        description: String,
        reward_amount: i128,
        deadline: u64,
    ) -> (r: Result<(u64, Transfer), EscrowError>)
        requires
            old(self).wf(),
            old(self)@.native_token is Some,
            old(self)@.challenge_count < u64::MAX,
        ensures
            final(self).wf(),
            match spec_create_challenge(
                old(self)@,
                caller,
                creator,
                title@,
                description@,
                reward_amount,
                deadline,
            ) {
                Ok((id, t, v2)) => {
                    &&& r == Ok::<(u64, Transfer), EscrowError>((id, t))
                    &&& final(self)@ == v2
                },
                Err(e) => {
                    &&& r == Err::<(u64, Transfer), EscrowError>(e)
                    &&& *final(self) == *old(self)
                },
            },
    {
        if caller != creator {
            return Err(EscrowError::Unauthorized);
        }
        let id = self.challenge_count + 1;
        let token = self.native_token.unwrap();
        let challenge = Challenge {
            id: id,
            title: title,
            description: description,
            creator: creator,
            reward_amount: reward_amount,
            deadline: deadline,
            is_active: true,
            participants: Vec::new(),
            winners: Vec::new(),
        };
        let t = Transfer {
            token: token,
            from: Account::Holder(creator),
            to: Account::Escrow,
            amount: reward_amount,
        };
        let len = self.challenges.len() as u64;
        if id <= len {
            let idx = (id - 1) as usize;
            self.challenges[idx] = challenge;
        } else {
            self.challenges.push(challenge);
        }
        self.challenge_count = id;
        proof {
            let v2 = spec_create_challenge(
                old(self)@,
                caller,
                creator,
                title@,
                description@,
                reward_amount,
                deadline,
            )->Ok_0.2;
            assert(self@.challenges =~= v2.challenges);
            assert(self@ =~= v2);
        }
        Ok((id, t))
    }

    /// Join a challenge before its deadline.  `caller` is the principal the
    /// host authenticated; it must be the participant itself.  `now` is the
    /// host clock's current time.  No funds move.
    pub fn join_challenge(
        &mut self,
        caller: Address,
        participant: Address,
        challenge_id: u64,
        now: u64,
    ) -> (r: Result<(), EscrowError>)
        requires
            old(self).wf(),
        ensures
            final(self).wf(),
            match spec_join_challenge(old(self)@, caller, participant, challenge_id, now) {
                Ok(v2) => {
                    &&& r == Ok::<(), EscrowError>(())
                    &&& final(self)@ == v2
                },
                Err(e) => {
                    &&& r == Err::<(), EscrowError>(e)
                    &&& *final(self) == *old(self)
                },
            },
    {
        if caller != participant {
            return Err(EscrowError::Unauthorized);
        }
        let len = self.challenges.len() as u64;
        if challenge_id < 1 || challenge_id > len {
            return Err(EscrowError::NotFound);
        }
        let idx = (challenge_id - 1) as usize;
        let c = &self.challenges[idx];
        if !c.is_active {
            return Err(EscrowError::InactiveChallenge);
        }
        if now >= c.deadline {
            return Err(EscrowError::DeadlinePassed);
        }
        if contains_address(&c.participants, participant) {
            return Err(EscrowError::AlreadyParticipant);
        }
        let c = &mut self.challenges[idx];
        c.participants.push(participant);
        proof {
            let v2 = spec_join_challenge(old(self)@, caller, participant, challenge_id, now)->Ok_0;
            assert(self@.challenges =~= v2.challenges);
            assert(self@ =~= v2);
            let c0 = old(self)@.challenge(challenge_id);
            let p2 = c0.participants.push(participant);
            assert(forall|k: int|
                0 <= k < c0.participants.len() ==> c0.participants[k] != participant);
            assert forall|i: int, j: int|
                0 <= i < p2.len() && 0 <= j < p2.len() && i != j implies p2[i] != p2[j] by {
                if i < c0.participants.len() && j < c0.participants.len() {
                    assert(c0.participants[i] != c0.participants[j]);
                }
            }
            assert(p2.no_duplicates());
            assert forall|a: Address| c0.participants.contains(a) implies p2.contains(a) by {
                let k = choose|k: int| 0 <= k < c0.participants.len() && c0.participants[k] == a;
                assert(p2[k] == a);
            }
            assert(self@.challenges[challenge_id - 1].wf());
        }
        Ok(())
    }

    /// Mark a participant as a winner and pay out its share.  `caller` must
    /// be the challenge's creator; the winner itself needs no authentication.
    /// The share is the pool divided (truncating) by the winner count right
    /// after this marking, paid only to this winner: marking more winners
    /// later never revisits earlier payouts.  The host must perform the
    /// returned payout transfer, and discard the new state if it fails.
    pub fn mark_winner(&mut self, caller: Address, challenge_id: u64, winner: Address) -> (r:
        Result<Transfer, EscrowError>)
        requires
            old(self).wf(),
        ensures
            final(self).wf(),
            match spec_mark_winner(old(self)@, caller, challenge_id, winner) {
                Ok((t, v2)) => {
                    &&& r == Ok::<Transfer, EscrowError>(t)
                    &&& final(self)@ == v2
                },
                Err(e) => {
                    &&& r == Err::<Transfer, EscrowError>(e)
                    &&& *final(self) == *old(self)
                },
            },
    {
        let len = self.challenges.len() as u64;
        if challenge_id < 1 || challenge_id > len {
            return Err(EscrowError::NotFound);
        }
        let idx = (challenge_id - 1) as usize;
        let token = self.native_token.unwrap();
        let c = &self.challenges[idx];
        if caller != c.creator {
            return Err(EscrowError::Unauthorized);
        }
        if !contains_address(&c.participants, winner) {
            return Err(EscrowError::NotAParticipant);
        }
        if contains_address(&c.winners, winner) {
            return Err(EscrowError::AlreadyWinner);
        }
        let c = &mut self.challenges[idx];
        c.winners.push(winner);
        let count = c.winners.len() as i128;
        let reward = c.reward_amount;
        proof {
            lemma_div_trunc_bounds(reward as int, count as int);
            lemma_div_basics(count as int);
        }
        let payment = reward.checked_div(count).unwrap();
        proof {
            assert(payment == div_trunc(reward as int, count as int));
            let v2 = spec_mark_winner(old(self)@, caller, challenge_id, winner)->Ok_0.1;
            assert(self@.challenges =~= v2.challenges);
            assert(self@ =~= v2);
            let c0 = old(self)@.challenge(challenge_id);
            let w2 = c0.winners.push(winner);
            assert(forall|k: int| 0 <= k < c0.winners.len() ==> c0.winners[k] != winner);
            assert forall|i: int, j: int|
                0 <= i < w2.len() && 0 <= j < w2.len() && i != j implies w2[i] != w2[j] by {
                if i < c0.winners.len() && j < c0.winners.len() {
                    assert(c0.winners[i] != c0.winners[j]);
                }
            }
            assert(w2.no_duplicates());
            assert forall|a: Address| #[trigger] w2.contains(a) implies c0.participants.contains(
                a,
            ) by {
                let k = choose|k: int| 0 <= k < w2.len() && w2[k] == a;
                if k < c0.winners.len() {
                    assert(c0.winners.contains(a));
                }
            }
            assert(self@.challenges[challenge_id - 1].wf());
        }
        Ok(Transfer { token: token, from: Account::Escrow, to: Account::Holder(winner), amount: payment })
    }

    /// Close a challenge: deactivate it and refund the creator whatever an
    /// even split among the final winner count left over — the whole pool
    /// when nobody won.  `caller` must be the creator.  Nothing guards a
    /// second call: it deactivates again and returns the same refund
    /// transfer again, which the host's transfer primitive then fails for
    /// want of escrow balance.  The host must perform the returned transfer,
    /// if any, and discard the new state if it fails.
    pub fn finalize_challenge(&mut self, caller: Address, challenge_id: u64) -> (r: Result<
        Option<Transfer>,
        EscrowError,
    >)
        requires
            old(self).wf(),
        ensures
            final(self).wf(),
            match spec_finalize_challenge(old(self)@, caller, challenge_id) {
                Ok((t, v2)) => {
                    &&& r == Ok::<Option<Transfer>, EscrowError>(t)
                    &&& final(self)@ == v2
                },
                Err(e) => {
                    &&& r == Err::<Option<Transfer>, EscrowError>(e)
                    &&& *final(self) == *old(self)
                },
            },
    {
        let len = self.challenges.len() as u64;
        if challenge_id < 1 || challenge_id > len {
            return Err(EscrowError::NotFound);
        }
        let idx = (challenge_id - 1) as usize;
        let token = self.native_token.unwrap();
        let c = &self.challenges[idx];
        if caller != c.creator {
            return Err(EscrowError::Unauthorized);
        }
        let creator = c.creator;
        let reward = c.reward_amount;
        let c = &mut self.challenges[idx];
        c.is_active = false;
        let n = c.winners.len();
        proof {
            let v2 = spec_finalize_challenge(old(self)@, caller, challenge_id)->Ok_0.1;
            assert(self@.challenges =~= v2.challenges);
            assert(self@ =~= v2);
            assert(self@.challenges[challenge_id - 1].wf());
        }
        if n == 0 {
            return Ok(
                Some(
                    Transfer {
                        token: token,
                        from: Account::Escrow,
                        to: Account::Holder(creator),
                        amount: reward,
                    },
                ),
            );
        }
        let count = n as i128;
        proof {
            lemma_div_trunc_bounds(reward as int, count as int);
            lemma_div_trunc_mul_bounds(reward as int, count as int);
            lemma_div_basics(count as int);
        }
        let payment = reward.checked_div(count).unwrap();
        let total_paid = payment.checked_mul(count).unwrap();
        let remaining = reward.checked_sub(total_paid).unwrap();
        if remaining > 0 {
            Ok(
                Some(
                    Transfer {
                        token: token,
                        from: Account::Escrow,
                        to: Account::Holder(creator),
                        amount: remaining,
                    },
                ),
            )
        } else {
            Ok(None)
        }
    }

    /// A copy of the stored record of `challenge_id`, or `NotFound` for an
    /// id that was never assigned.
    pub fn get_challenge(&self, challenge_id: u64) -> (r: Result<Challenge, EscrowError>)
        ensures
            match r {
                Ok(c) => self@.has_challenge(challenge_id) && c@ == self@.challenge(challenge_id),
                Err(e) => e == EscrowError::NotFound && !self@.has_challenge(challenge_id),
            },
    {
        let len = self.challenges.len() as u64;
        if challenge_id < 1 || challenge_id > len {
            return Err(EscrowError::NotFound);
        }
        let idx = (challenge_id - 1) as usize;
        Ok(self.challenges[idx].clone())
    }

    /// The ids with a currently active record, scanned in ascending order
    /// over `1 ..= challenge_count`.
    pub fn get_active_challenges(&self) -> (r: Vec<u64>)
        requires
            self.wf(),
        ensures
            r@ == spec_active_ids(self@, self@.challenge_count),
    {
        let mut result: Vec<u64> = Vec::new();
        let stored = self.challenges.len();
        proof {
            assert(self@.challenge_count <= self@.challenges.len() == stored);
        }
        let count = self.challenge_count as usize;
        let mut idx: usize = 0;
        while idx < count
            invariant
                self.wf(),
                count == self@.challenge_count,
                idx <= count,
                result@ == spec_active_ids(self@, idx as int),
            decreases count - idx,
        {
            if self.challenges[idx].is_active {
                result.push((idx as u64) + 1);
            }
            idx = idx + 1;
        }
        result
    }

    /// The configured asset, if the escrow was initialized.
    pub fn native_token(&self) -> (r: Option<Address>)
        ensures
            r == self@.native_token,
    {
        self.native_token
    }

    /// The total number of challenges ever created: the last-assigned id.
    /// The result is a function of the state alone, so repeated calls
    /// without a mutation in between always return the same value.
    pub fn get_challenge_count(&self) -> (r: u64)
        ensures
            r == self@.challenge_count,
    {
        self.challenge_count
    }
}

} // verus!
