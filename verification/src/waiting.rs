use vstd::prelude::*;
use std::collections::BTreeMap;
use crate::oracle::{ring_fits, Oracle, TwoWayRing};
use crate::scenario::{HolyMessage, Pray};

verus! {

broadcast use vstd::std_specs::btree::group_btree_axioms;

/// A participant's seat number.
pub type PlayerId = u32;

/// A participant's end of the channel to the game.
pub type OracleRef = TwoWayRing<Pray, HolyMessage>;

/// The game's end of the channel to a participant.
pub type GodWayRef = TwoWayRing<HolyMessage, Pray>;

/// The number of notes that wait for a participant at most.
pub const NOTES_BUFFER: usize = 16;

/// The number of intents of a participant that wait for the game at most.
pub const PRAYS_BUFFER: usize = 16;

/// Whether the two buffers of a participant's channel can be made.
pub open spec fn channel_fits() -> bool {
    ring_fits::<HolyMessage>(NOTES_BUFFER) && ring_fits::<Pray>(PRAYS_BUFFER)
}

/// The lowest number from 1 up to, but not including, `bound` that is not
/// in `taken`.
pub open spec fn free_id(taken: Set<PlayerId>, bound: PlayerId) -> Option<PlayerId> {
    if exists|id: PlayerId| 1 <= id < bound && !taken.contains(id) {
        Some(
            choose|id: PlayerId|
                1 <= id < bound && !taken.contains(id) && forall|less: PlayerId|
                    1 <= less < id ==> taken.contains(less),
        )
    } else {
        None
    }
}

/// A lobby that hands out seats until the cohort is complete.
pub trait WaitingRoom: Sized {
    type Oracle;

    type God;

    /// The seats that are taken.
    spec fn seated(&self) -> Set<PlayerId>;

    /// The size of the cohort.
    spec fn capacity(&self) -> usize;

    /// Takes a seat that was free, or changes nothing.
    fn reserve(&mut self) -> (r: Option<(PlayerId, Self::Oracle)>)
        ensures
            final(self).capacity() == old(self).capacity(),
            match r {
                Some((id, _)) => !old(self).seated().contains(id) && final(self).seated() == old(
                    self,
                ).seated().insert(id),
                None => final(self).seated() == old(self).seated(),
            },
    ;

    /// Gives the seat of `id` up. Says whether it was taken.
    fn opt_out(&mut self, id: &PlayerId) -> (r: bool)
        ensures
            final(self).capacity() == old(self).capacity(),
            r == old(self).seated().contains(*id),
            final(self).seated() == old(self).seated().remove(*id),
    ;

    fn limit(&self) -> (r: usize)
        ensures
            r == self.capacity(),
    ;

    /// Whether the cohort is complete.
    fn ready(&self) -> (r: bool)
        ensures
            r == (self.seated().len() == self.capacity()),
    ;

    /// The game's end of every channel, once the cohort is complete.
    fn get(self) -> (r: Option<BTreeMap<PlayerId, Self::God>>)
        ensures
            r is Some == (self.seated().len() == self.capacity()),
            r matches Some(channels) ==> channels@.dom() == self.seated(),
    ;
}

/// A lobby that numbers its seats from 1.
pub struct WaitingBuilder {
    limit: usize,
    waiting: BTreeMap<PlayerId, GodWayRef>,
}

impl WaitingBuilder {
    /// The number below which seat numbers are handed out.
    pub open spec fn bound(&self) -> PlayerId {
        self.capacity() as PlayerId
    }

    pub fn new(limit: usize) -> (r: WaitingBuilder)
        ensures
            r.capacity() == limit,
            r.seated() == Set::<PlayerId>::empty(),
    {
        WaitingBuilder { waiting: BTreeMap::new(), limit }
    }

    #[inline]
    fn total(&self) -> (r: usize)
        ensures
            r == self.seated().len(),
    {
        self.waiting.len()
    }

    /// The lowest free seat number.
    pub fn next_id(&self) -> (r: Option<PlayerId>)
        ensures
            r == free_id(self.seated(), self.bound()),
            r matches Some(id) ==> 1 <= id < self.bound() && !self.seated().contains(id),
    {
        let bound: PlayerId = #[verifier::truncate]
        (self.limit as PlayerId);
        let mut id: PlayerId = 1;
        while id < bound
            invariant
                1 <= id,
                bound == self.bound(),
                forall|less: PlayerId| 1 <= less < id ==> self.waiting@.contains_key(less),
            decreases bound - id,
        {
            if !self.waiting.contains_key(&id) {
                return Some(id);
            }
            id = id + 1;
        }
        None
    }
}

impl WaitingRoom for WaitingBuilder {
    type Oracle = TwoWayRing<Pray, HolyMessage>;

    type God = TwoWayRing<HolyMessage, Pray>;

    closed spec fn seated(&self) -> Set<PlayerId> {
        self.waiting@.dom()
    }

    closed spec fn capacity(&self) -> usize {
        self.limit
    }

    /// Takes the lowest free seat, unless the cohort is complete or the
    /// channel cannot be made.
    fn reserve(&mut self) -> (r: Option<(PlayerId, Self::Oracle)>)
        ensures
            r is Some == (free_id(old(self).seated(), old(self).bound()) is Some && old(
                self,
            ).seated().len() != old(self).capacity() && channel_fits()),
            r matches Some((id, _)) ==> Some(id) == free_id(old(self).seated(), old(self).bound()),
            final(self).bound() == old(self).bound(),
    {
        let id = match self.next_id() {
            Some(id) => id,
            None => {
                return None;
            },
        };
        if self.ready() || self.waiting.contains_key(&id) {
            return None;
        }
        match Oracle::try_create::<HolyMessage, Pray>(NOTES_BUFFER, PRAYS_BUFFER) {
            Some((channel, oracle)) => {
                self.waiting.insert(id, channel);
                Some((id, oracle))
            },
            None => None,
        }
    }

    #[inline]
    fn limit(&self) -> (r: usize) {
        self.limit
    }

    fn opt_out(&mut self, id: &PlayerId) -> (r: bool) {
        self.waiting.remove(id).is_some()
    }

    #[inline]
    fn ready(&self) -> (r: bool) {
        self.total() == self.limit()
    }

    fn get(self) -> (r: Option<BTreeMap<PlayerId, Self::God>>) {
        if self.ready() {
            Some(self.waiting)
        } else {
            None
        }
    }
}

} // verus!
