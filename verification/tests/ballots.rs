use std::collections::BTreeSet;

use mafia::elections::ballot::{Ballots, DeathVote};
use mafia::scenario::{DeathBallot, Defendence};

fn ballots_with(total: usize, nominations: &[(u32, u32)]) -> Ballots {
    let mut ballots = Ballots::new(total);
    for (from, on) in nominations {
        ballots.nominate(*from, *on);
    }
    ballots
}

#[test]
fn nominee_with_five_of_ten_becomes_defendant() {
    let ballots = ballots_with(10, &[(1, 9), (2, 9), (3, 9), (4, 9), (5, 9)]);
    let vote = ballots.result().expect("five nominators reach the quorum");
    assert_eq!(vote.list().iter().copied().collect::<Vec<u32>>(), vec![9]);
}

#[test]
fn nominee_with_four_of_ten_is_excluded() {
    let ballots = ballots_with(10, &[(1, 9), (2, 9), (3, 9), (4, 9)]);
    assert!(ballots.result().is_none());
}

#[test]
fn result_keeps_only_nominees_with_quorum() {
    let ballots = ballots_with(
        10,
        &[(1, 9), (2, 9), (3, 9), (4, 9), (5, 9), (1, 8), (2, 8), (3, 8), (4, 8)],
    );
    let vote = ballots.result().expect("one nominee has the quorum");
    assert_eq!(vote.list().iter().copied().collect::<Vec<u32>>(), vec![9]);
}

#[test]
fn no_nomination_gives_no_vote() {
    let ballots = Ballots::new(10);
    assert!(ballots.result().is_none());
}

#[test]
fn self_nomination_is_rejected() {
    let mut ballots = Ballots::new(3);
    assert!(!ballots.nominate(2, 2));
    assert!(ballots.result().is_none());
}

#[test]
fn nomination_is_idempotent_per_pair() {
    let mut ballots = Ballots::new(4);
    assert!(ballots.nominate(1, 3));
    assert!(!ballots.nominate(1, 3));
    assert!(ballots.result().is_none());
    assert!(ballots.nominate(2, 3));
    assert!(ballots.result().is_some());
}

#[test]
fn quorum_is_half_of_the_seats_rounded_down() {
    let ballots = ballots_with(3, &[(1, 2)]);
    let vote = ballots.result().expect("one of three is half, rounded down");
    assert_eq!(vote.list().iter().copied().collect::<Vec<u32>>(), vec![2]);
}

#[test]
fn death_vote_on_empty_roster_fails() {
    match DeathVote::new(BTreeSet::new(), 10) {
        Ok(_) => panic!("an empty roster gives no vote"),
        Err(text) => assert_eq!(text, "No nominies found"),
    }
}

fn vote_among(defendants: &[u32], total: usize) -> DeathVote {
    let roster: BTreeSet<u32> = defendants.iter().copied().collect();
    match DeathVote::new(roster, total) {
        Ok(vote) => vote,
        Err(text) => panic!("{}", text),
    }
}

#[test]
fn new_death_vote_has_nobody_dead_with_ten_seats() {
    let vote = vote_among(&[1, 2], 10);
    assert_eq!(vote.dead(), None);
    assert_eq!(vote.list().len(), 2);
}

#[test]
fn defendant_needs_five_votes_of_ten() {
    let mut vote = vote_among(&[1, 2], 10);
    for from in [3, 4, 5, 6] {
        assert!(vote.hang(from, 1));
    }
    assert_eq!(vote.dead(), None);
    assert!(vote.hang(7, 1));
    assert_eq!(vote.dead(), Some(1));
}

#[test]
fn neither_of_two_defendants_may_vote() {
    let mut vote = vote_among(&[1, 2], 10);
    assert!(!vote.hang(1, 2));
    assert!(!vote.hang(2, 1));
    assert!(!vote.hang(1, 1));
    assert!(!vote.hang(2, 2));
}

#[test]
fn one_of_three_defendants_may_vote() {
    let mut vote = vote_among(&[1, 2, 3], 10);
    assert!(vote.hang(1, 2));
    assert!(!vote.hang(1, 1));
}

#[test]
fn a_single_defendant_may_not_vote_on_itself_but_others_may() {
    let mut vote = vote_among(&[4], 3);
    assert!(!vote.hang(4, 4));
    assert!(vote.hang(1, 4));
    assert_eq!(vote.dead(), Some(4));
}

#[test]
fn vote_on_a_non_defendant_is_rejected() {
    let mut vote = vote_among(&[1, 2], 10);
    assert!(!vote.hang(3, 9));
    assert_eq!(vote.dead(), None);
}

#[test]
fn hang_vote_is_idempotent_per_pair() {
    let mut vote = vote_among(&[1, 2], 10);
    assert!(vote.hang(3, 1));
    assert!(!vote.hang(3, 1));
}

#[test]
fn most_votes_hang() {
    let mut vote = vote_among(&[1, 2, 3], 4);
    for from in [4, 5, 6] {
        assert!(vote.hang(from, 1));
    }
    for from in [4, 5] {
        assert!(vote.hang(from, 3));
    }
    assert_eq!(vote.dead(), Some(1));
}

#[test]
fn tie_goes_to_the_highest_number() {
    let mut vote = vote_among(&[1, 2, 3], 4);
    for from in [4, 5] {
        assert!(vote.hang(from, 1));
        assert!(vote.hang(from, 3));
        assert!(vote.hang(from, 2));
    }
    assert_eq!(vote.dead(), Some(3));
}

#[test]
fn defendant_below_quorum_does_not_hang_even_alone() {
    let mut vote = vote_among(&[5], 10);
    for from in [1, 2, 3, 4] {
        assert!(vote.hang(from, 5));
    }
    assert_eq!(vote.dead(), None);
}

#[test]
fn roster_does_not_change_with_votes() {
    let mut vote = vote_among(&[1, 2, 3], 10);
    vote.hang(4, 1);
    vote.hang(5, 9);
    assert_eq!(vote.list().iter().copied().collect::<Vec<u32>>(), vec![1, 2, 3]);
}
