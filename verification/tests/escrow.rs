use challenge_escrow::escrow::ChallengeEscrow;
use challenge_escrow::types::{Account, Address, EscrowError, Transfer};

fn addr(id: u64) -> Address {
    Address { id }
}

fn token() -> Address {
    addr(1000)
}

fn creator() -> Address {
    addr(1)
}

fn alice() -> Address {
    addr(2)
}

fn bob() -> Address {
    addr(3)
}

fn carol() -> Address {
    addr(4)
}

/// An initialized escrow with one challenge of the given reward and deadline,
/// and its id.
fn with_challenge(reward: i128, deadline: u64) -> (ChallengeEscrow, u64) {
    let mut e = ChallengeEscrow::new();
    e.initialize(token());
    let (id, deposit) = e
        .create_challenge(
            creator(),
            creator(),
            String::from("race"),
            String::from("first to the top"),
            reward,
            deadline,
        )
        .unwrap();
    assert_eq!(
        deposit,
        Transfer {
            token: token(),
            from: Account::Holder(creator()),
            to: Account::Escrow,
            amount: reward,
        }
    );
    (e, id)
}

#[test]
fn create_assigns_sequential_ids_and_deposits() {
    let mut e = ChallengeEscrow::new();
    e.initialize(token());
    for expected in 1..=3u64 {
        let (id, deposit) = e
            .create_challenge(
                creator(),
                creator(),
                String::from("t"),
                String::from("d"),
                10,
                100,
            )
            .unwrap();
        assert_eq!(id, expected);
        assert_eq!(deposit.amount, 10);
        assert_eq!(deposit.from, Account::Holder(creator()));
        assert_eq!(deposit.to, Account::Escrow);
    }
    assert_eq!(e.get_challenge_count(), 3);
}

#[test]
fn create_requires_the_creator_itself() {
    let mut e = ChallengeEscrow::new();
    e.initialize(token());
    let r = e.create_challenge(alice(), creator(), String::from("t"), String::from("d"), 10, 100);
    assert_eq!(r, Err(EscrowError::Unauthorized));
    assert_eq!(e.get_challenge_count(), 0);
}

#[test]
fn single_winner_takes_the_whole_pool() {
    // Reward 300, one winner marked once: the marking pays exactly 300 and a
    // finalize pays nothing more.
    let (mut e, id) = with_challenge(300, 100);
    e.join_challenge(alice(), alice(), id, 10).unwrap();
    let payout = e.mark_winner(creator(), id, alice()).unwrap();
    assert_eq!(
        payout,
        Transfer {
            token: token(),
            from: Account::Escrow,
            to: Account::Holder(alice()),
            amount: 300,
        }
    );
    let refund = e.finalize_challenge(creator(), id).unwrap();
    assert_eq!(refund, None);
}

#[test]
fn second_winner_gets_the_smaller_share() {
    // Reward 100, two winners marked one at a time: the first is paid 100,
    // the second 100 / 2 = 50.  150 in all leaves escrow, more than the
    // pool: the share is recomputed per marking and never revisited.
    let (mut e, id) = with_challenge(100, 100);
    e.join_challenge(alice(), alice(), id, 10).unwrap();
    e.join_challenge(bob(), bob(), id, 10).unwrap();
    let first = e.mark_winner(creator(), id, alice()).unwrap();
    assert_eq!(first.amount, 100);
    assert_eq!(first.to, Account::Holder(alice()));
    let second = e.mark_winner(creator(), id, bob()).unwrap();
    assert_eq!(second.amount, 50);
    assert_eq!(second.to, Account::Holder(bob()));
    assert_eq!(first.amount + second.amount, 150);
}

#[test]
fn join_fails_after_deadline() {
    let (mut e, id) = with_challenge(10, 50);
    assert_eq!(
        e.join_challenge(alice(), alice(), id, 50),
        Err(EscrowError::DeadlinePassed)
    );
    assert_eq!(
        e.join_challenge(alice(), alice(), id, 51),
        Err(EscrowError::DeadlinePassed)
    );
    assert_eq!(e.join_challenge(alice(), alice(), id, 49), Ok(()));
}

#[test]
fn join_twice_fails() {
    let (mut e, id) = with_challenge(10, 50);
    e.join_challenge(alice(), alice(), id, 10).unwrap();
    assert_eq!(
        e.join_challenge(alice(), alice(), id, 10),
        Err(EscrowError::AlreadyParticipant)
    );
}

#[test]
fn join_requires_the_participant_itself() {
    let (mut e, id) = with_challenge(10, 50);
    assert_eq!(
        e.join_challenge(bob(), alice(), id, 10),
        Err(EscrowError::Unauthorized)
    );
}

#[test]
fn join_unknown_challenge_fails() {
    let (mut e, _) = with_challenge(10, 50);
    assert_eq!(
        e.join_challenge(alice(), alice(), 2, 10),
        Err(EscrowError::NotFound)
    );
    assert_eq!(
        e.join_challenge(alice(), alice(), 0, 10),
        Err(EscrowError::NotFound)
    );
}

#[test]
fn join_finalized_challenge_fails() {
    let (mut e, id) = with_challenge(10, 50);
    e.finalize_challenge(creator(), id).unwrap();
    assert_eq!(
        e.join_challenge(alice(), alice(), id, 10),
        Err(EscrowError::InactiveChallenge)
    );
}

#[test]
fn mark_non_participant_fails() {
    let (mut e, id) = with_challenge(10, 50);
    e.join_challenge(alice(), alice(), id, 10).unwrap();
    assert_eq!(
        e.mark_winner(creator(), id, bob()),
        Err(EscrowError::NotAParticipant)
    );
}

#[test]
fn mark_same_winner_twice_fails() {
    let (mut e, id) = with_challenge(10, 50);
    e.join_challenge(alice(), alice(), id, 10).unwrap();
    e.mark_winner(creator(), id, alice()).unwrap();
    assert_eq!(
        e.mark_winner(creator(), id, alice()),
        Err(EscrowError::AlreadyWinner)
    );
}

#[test]
fn only_the_creator_marks_winners() {
    let (mut e, id) = with_challenge(10, 50);
    e.join_challenge(alice(), alice(), id, 10).unwrap();
    assert_eq!(
        e.mark_winner(alice(), id, alice()),
        Err(EscrowError::Unauthorized)
    );
}

#[test]
fn finalize_with_no_winners_refunds_everything() {
    let (mut e, id) = with_challenge(77, 50);
    let refund = e.finalize_challenge(creator(), id).unwrap();
    assert_eq!(
        refund,
        Some(Transfer {
            token: token(),
            from: Account::Escrow,
            to: Account::Holder(creator()),
            amount: 77,
        })
    );
    assert!(!e.get_challenge(id).unwrap().is_active);
}

#[test]
fn finalize_refunds_the_truncation_remainder() {
    // Reward 100 split three ways pays 100, 50 and 33; the refund is
    // recomputed from the final count alone: 100 - (100 / 3) * 3 = 1.
    let (mut e, id) = with_challenge(100, 50);
    e.join_challenge(alice(), alice(), id, 10).unwrap();
    e.join_challenge(bob(), bob(), id, 10).unwrap();
    e.join_challenge(carol(), carol(), id, 10).unwrap();
    assert_eq!(e.mark_winner(creator(), id, alice()).unwrap().amount, 100);
    assert_eq!(e.mark_winner(creator(), id, bob()).unwrap().amount, 50);
    assert_eq!(e.mark_winner(creator(), id, carol()).unwrap().amount, 33);
    let refund = e.finalize_challenge(creator(), id).unwrap();
    assert_eq!(refund.unwrap().amount, 1);
}

#[test]
fn only_the_creator_finalizes() {
    let (mut e, id) = with_challenge(10, 50);
    assert_eq!(
        e.finalize_challenge(alice(), id),
        Err(EscrowError::Unauthorized)
    );
    assert_eq!(e.finalize_challenge(creator(), 9), Err(EscrowError::NotFound));
}

#[test]
fn finalize_twice_attempts_the_same_refund_again() {
    // Nothing guards a second finalize: it asks for the same refund once
    // more; only the escrow's real balance stops it at the host.
    let (mut e, id) = with_challenge(77, 50);
    let first = e.finalize_challenge(creator(), id).unwrap();
    let second = e.finalize_challenge(creator(), id).unwrap();
    assert_eq!(first, second);
}

#[test]
fn conservation_with_at_most_one_winner() {
    // Everything that leaves escrow for one challenge stays within its
    // reward when at most one winner is marked.
    for reward in [0i128, 1, 7, 300, 1_000_000] {
        let (mut e, id) = with_challenge(reward, 50);
        e.join_challenge(alice(), alice(), id, 10).unwrap();
        let mut out: i128 = 0;
        out += e.mark_winner(creator(), id, alice()).unwrap().amount;
        if let Some(t) = e.finalize_challenge(creator(), id).unwrap() {
            out += t.amount;
        }
        assert!(out <= reward);
        assert_eq!(out, reward);
    }
}

#[test]
fn negative_reward_is_passed_through() {
    // Nothing validates the reward's sign; division truncates toward zero.
    let (mut e, id) = with_challenge(-7, 50);
    e.join_challenge(alice(), alice(), id, 10).unwrap();
    e.join_challenge(bob(), bob(), id, 10).unwrap();
    assert_eq!(e.mark_winner(creator(), id, alice()).unwrap().amount, -7);
    assert_eq!(e.mark_winner(creator(), id, bob()).unwrap().amount, -3);
    // -7 - (-7 / 2) * 2 = -1: not positive, so nothing is refunded.
    assert_eq!(e.finalize_challenge(creator(), id).unwrap(), None);
}

#[test]
fn get_challenge_returns_the_stored_record() {
    let (mut e, id) = with_challenge(300, 100);
    e.join_challenge(alice(), alice(), id, 10).unwrap();
    e.join_challenge(bob(), bob(), id, 10).unwrap();
    e.mark_winner(creator(), id, bob()).unwrap();
    let c = e.get_challenge(id).unwrap();
    assert_eq!(c.id, 1);
    assert_eq!(c.title, String::from("race"));
    assert_eq!(c.description, String::from("first to the top"));
    assert_eq!(c.creator, creator());
    assert_eq!(c.reward_amount, 300);
    assert_eq!(c.deadline, 100);
    assert!(c.is_active);
    assert_eq!(c.participants, vec![alice(), bob()]);
    assert_eq!(c.winners, vec![bob()]);
}

#[test]
fn get_challenge_unknown_id_fails() {
    let e = ChallengeEscrow::new();
    assert!(matches!(e.get_challenge(1), Err(EscrowError::NotFound)));
    let (e, _) = with_challenge(10, 50);
    assert!(matches!(e.get_challenge(2), Err(EscrowError::NotFound)));
}

#[test]
fn active_challenges_empty_store() {
    let e = ChallengeEscrow::new();
    assert_eq!(e.get_active_challenges(), Vec::<u64>::new());
}

#[test]
fn active_challenges_skip_the_finalized() {
    // Three challenges, the second finalized: the active ids are [1, 3], in
    // ascending order.
    let mut e = ChallengeEscrow::new();
    e.initialize(token());
    for _ in 0..3 {
        e.create_challenge(
            creator(),
            creator(),
            String::from("t"),
            String::from("d"),
            10,
            100,
        )
        .unwrap();
    }
    e.finalize_challenge(creator(), 2).unwrap();
    assert_eq!(e.get_active_challenges(), vec![1, 3]);
}

#[test]
fn challenge_count_is_stable_without_mutation() {
    let e = ChallengeEscrow::new();
    assert_eq!(e.get_challenge_count(), 0);
    assert_eq!(e.get_challenge_count(), 0);
    let (e, _) = with_challenge(10, 50);
    let first = e.get_challenge_count();
    let second = e.get_challenge_count();
    let third = e.get_challenge_count();
    assert_eq!(first, 1);
    assert_eq!(second, 1);
    assert_eq!(third, 1);
}

#[test]
fn reinitialize_resets_the_counter_and_ids_restart() {
    // Re-initialization silently resets the counter; the next creation
    // overwrites the record stored under id 1.
    let (mut e, _) = with_challenge(10, 50);
    e.initialize(addr(2000));
    assert_eq!(e.get_challenge_count(), 0);
    let (id, deposit) = e
        .create_challenge(bob(), bob(), String::from("again"), String::from("d"), 5, 60)
        .unwrap();
    assert_eq!(id, 1);
    assert_eq!(deposit.token, addr(2000));
    let c = e.get_challenge(1).unwrap();
    assert_eq!(c.title, String::from("again"));
    assert_eq!(c.creator, bob());
}

#[test]
fn snapshots_are_independent() {
    let (mut e, id) = with_challenge(10, 50);
    let snapshot = e.clone();
    e.join_challenge(alice(), alice(), id, 10).unwrap();
    assert_eq!(e.get_challenge(id).unwrap().participants, vec![alice()]);
    assert_eq!(snapshot.get_challenge(id).unwrap().participants, Vec::new());
}
