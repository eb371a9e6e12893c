use vstd::prelude::*;
use std::collections::{BTreeMap, BTreeSet};
use crate::roster::{keys_of, members};
use crate::scenario::{
    has_quorum, is_hanged, may_hang, nominators, nominees, DeathBallot, Defendence, Error,
};
use crate::waiting::PlayerId;

verus! {

broadcast use vstd::std_specs::btree::group_btree_axioms;

/// The text of the failure of `DeathVote::new` on an empty roster.
pub open spec fn no_nominees() -> Seq<char> {
    "No nominies found"@
}

/// The vote on who hangs, among a roster of defendants that is fixed when
/// the value is made.
pub struct DeathVote {
    total: usize,
    list: BTreeSet<PlayerId>,
    votes: BTreeMap<PlayerId, BTreeSet<PlayerId>>,
}

/// What a map of vote sets says: each key with the set it holds.
pub open spec fn tally(votes: Map<PlayerId, BTreeSet<PlayerId>>) -> Map<PlayerId, Set<PlayerId>> {
    Map::new(|id: PlayerId| votes.contains_key(id), |id: PlayerId| votes[id]@)
}

impl DeathVote {
    /// A vote among `nomonies`, nobody having voted; fails on an empty
    /// roster.
    pub fn new(nomonies: BTreeSet<PlayerId>, total: usize) -> (r: Result<DeathVote, Error>)
        requires
            total >= 3,
        ensures
            match r {
                Ok(vote) => {
                    &&& nomonies@.len() != 0
                    &&& vote.sound()
                    &&& vote.seats() == total
                    &&& vote.defendants() == nomonies@
                    &&& vote.hangers() == Map::new(
                        |id: PlayerId| nomonies@.contains(id),
                        |id: PlayerId| Set::<PlayerId>::empty(),
                    )
                },
                Err(text) => nomonies@.len() == 0 && text@ == no_nominees(),
            },
    {
        if nomonies.len() == 0 {
            return Err("No nominies found".to_owned());
        }
        let ids = members(&nomonies);
        let mut list: BTreeMap<PlayerId, BTreeSet<PlayerId>> = BTreeMap::new();
        let mut i: usize = 0;
        while i < ids.len()
            invariant
                i <= ids.len(),
                forall|id: PlayerId|
                    list@.contains_key(id) <==> exists|j: int| 0 <= j < i && ids@[j] == id,
                forall|id: PlayerId| #[trigger]
                    list@.contains_key(id) ==> list@[id]@ == Set::<PlayerId>::empty(),
            decreases ids.len() - i,
        {
            list.insert(ids[i], BTreeSet::new());
            i = i + 1;
        }
        let vote = Self { total, list: nomonies, votes: list };
        proof {
            assert forall|id: PlayerId| nomonies@.contains(id) implies vote.votes@.contains_key(
                id,
            ) by {
                assert(ids@.to_set().contains(id));
            }
            assert(vote.votes@.dom() =~= nomonies@);
            ids@.lemma_cardinality_of_set();
            assert(vote.hangers() =~= Map::new(
                |id: PlayerId| nomonies@.contains(id),
                |id: PlayerId| Set::<PlayerId>::empty(),
            ));
        }
        Ok(vote)
    }
}

impl DeathBallot for DeathVote {
    closed spec fn defendants(&self) -> Set<PlayerId> {
        self.list@
    }

    closed spec fn seats(&self) -> nat {
        self.total as nat
    }

    closed spec fn hangers(&self) -> Map<PlayerId, Set<PlayerId>> {
        tally(self.votes@)
    }

    closed spec fn sound(&self) -> bool {
        &&& self.total >= 3
        &&& self.list@.finite()
        &&& self.list@.len() > 0
        &&& self.votes@.dom() == self.list@
    }

    proof fn sound_covers(&self) {
        assert(self.hangers().dom() =~= self.defendants());
    }

    fn list(&self) -> (r: &BTreeSet<PlayerId>) {
        &self.list
    }

    fn hang(&mut self, from: PlayerId, on: PlayerId) -> (r: bool) {
        if from == on || !self.list.contains(&on) {
            return false;
        }
        if self.list.len() == 2 && self.list.contains(&from) {
            return false;
        }
        match self.votes.remove(&on) {
            Some(mut votes) => {
                let fresh = votes.insert(from);
                self.votes.insert(on, votes);
                proof {
                    assert(self.votes@.dom() =~= old(self).votes@.dom());
                    assert(self.hangers() =~= old(self).hangers().insert(
                        on,
                        old(self).hangers()[on].insert(from),
                    ));
                }
                fresh
            },
            None => false,
        }
    }

    fn dead(&self) -> (r: Option<PlayerId>) {
        let half = self.total / 2;
        let ids = keys_of(&self.votes);
        let mut best: Option<(PlayerId, usize)> = None;
        let mut i: usize = 0;
        while i < ids.len()
            invariant
                i <= ids.len(),
                half == self.total / 2,
                crate::room::ascending(ids@),
                ids@.to_set() == self.votes@.dom(),
                match best {
                    Some((id, n)) => {
                        &&& exists|j: int| 0 <= j < i && ids@[j] == id
                        &&& n == self.votes@[id]@.len()
                        &&& has_quorum(self.hangers(), self.seats(), id)
                        &&& forall|j: int|
                            0 <= j < i && has_quorum(self.hangers(), self.seats(), #[trigger] ids@[j])
                                ==> self.votes@[ids@[j]]@.len() < n || (self.votes@[ids@[j]]@.len()
                                == n && ids@[j] <= id)
                    },
                    None => forall|j: int|
                        0 <= j < i ==> !has_quorum(self.hangers(), self.seats(), #[trigger] ids@[j]),
                },
            decreases ids.len() - i,
        {
            let id = ids[i];
            assert(ids@.to_set().contains(id));
            let n = match self.votes.get(&id) {
                Some(votes) => votes.len(),
                None => 0,
            };
            if n >= half {
                let better = match best {
                    Some((_, top)) => n >= top,
                    None => true,
                };
                if better {
                    proof {
                        if let Some((was, _)) = best {
                            let j = choose|j: int| 0 <= j < i && ids@[j] == was;
                            assert(ids@[j] < ids@[i as int]);
                        }
                    }
                    best = Some((id, n));
                }
            }
            i = i + 1;
        }
        proof {
            assert forall|other: PlayerId| has_quorum(self.hangers(), self.seats(), other) implies exists|
                j: int,
            |
                0 <= j < ids@.len() && ids@[j] == other by {
                assert(ids@.to_set().contains(other));
            }
        }
        match best {
            Some((id, _)) => Some(id),
            None => None,
        }
    }
}

/// The nominations of one day.
pub struct Ballots {
    size: usize,
    votes: BTreeMap<PlayerId, BTreeSet<PlayerId>>,
}

impl Ballots {
    /// Empty ballots for a game of `total` seats.
    pub fn new(total: usize) -> (r: Ballots)
        requires
            total >= 3,
        ensures
            r.sound(),
            r.seats() == total,
            r.nominations() == Map::<PlayerId, Set<PlayerId>>::empty(),
    {
        let r = Self { size: total, votes: BTreeMap::new() };
        assert(r.nominations() =~= Map::<PlayerId, Set<PlayerId>>::empty());
        r
    }
}

impl Defendence for Ballots {
    type Ballot = DeathVote;

    closed spec fn nominations(&self) -> Map<PlayerId, Set<PlayerId>> {
        tally(self.votes@)
    }

    closed spec fn seats(&self) -> nat {
        self.size as nat
    }

    closed spec fn sound(&self) -> bool {
        self.size >= 3
    }

    fn nominate(&mut self, from: PlayerId, on: PlayerId) -> (r: bool) {
        if from == on {
            return false;
        }
        match self.votes.remove(&on) {
            Some(mut votes) => {
                let fresh = votes.insert(from);
                self.votes.insert(on, votes);
                proof {
                    assert(self.nominations() =~= old(self).nominations().insert(
                        on,
                        nominators(old(self).nominations(), on).insert(from),
                    ));
                }
                fresh
            },
            None => {
                let mut new: BTreeSet<PlayerId> = BTreeSet::new();
                new.insert(from);
                let fresh = self.votes.insert(on, new).is_none();
                proof {
                    assert(self.nominations() =~= old(self).nominations().insert(
                        on,
                        nominators(old(self).nominations(), on).insert(from),
                    ));
                }
                fresh
            },
        }
    }

    fn result(&self) -> (r: Option<Self::Ballot>) {
        let half = self.size / 2;
        let ids = keys_of(&self.votes);
        let mut nomonies: BTreeSet<PlayerId> = BTreeSet::new();
        let mut i: usize = 0;
        while i < ids.len()
            invariant
                i <= ids.len(),
                half == self.size / 2,
                ids@.to_set() == self.votes@.dom(),
                nomonies@.finite(),
                forall|id: PlayerId|
                    nomonies@.contains(id) <==> exists|j: int|
                        0 <= j < i && ids@[j] == id && self.votes@[id]@.len() >= half,
            decreases ids.len() - i,
        {
            let id = ids[i];
            assert(ids@.to_set().contains(id));
            let n = match self.votes.get(&id) {
                Some(votes) => votes.len(),
                None => 0,
            };
            if n >= half {
                nomonies.insert(id);
            }
            i = i + 1;
        }
        proof {
            assert forall|id: PlayerId|
                nominees(self.nominations(), self.seats()).contains(id) implies nomonies@.contains(
                id,
            ) by {
                assert(ids@.to_set().contains(id));
            }
            assert(nomonies@ =~= nominees(self.nominations(), self.seats()));
        }
        if nomonies.len() != 0 {
            match DeathVote::new(nomonies, self.size) {
                Ok(vote) => Some(vote),
                Err(_) => None,
            }
        } else {
            None
        }
    }
}

} // verus!
