use vstd::prelude::*;
use std::collections::BTreeSet;
use crate::roster::members;
use crate::waiting::PlayerId;

verus! {

broadcast use vstd::std_specs::btree::group_btree_axioms;

/// What a participant who pulls the trigger turns out to hold.
#[derive(Clone, Copy, Debug, PartialEq, Eq, Structural, PartialOrd, Ord)]
pub enum GunOwner {
    Real,
    Fake,
    Invalid,
}

/// The largest number of weapons out, of both kinds together, at which a
/// decoy is still handed out.
pub const FAKE_LIMIT: usize = 2;

/// The weapons that are out: who holds a real one, who a decoy, and the
/// number of weapons out below which a real one is still handed out.
pub struct Guns {
    pub limit: usize,
    pub reals: Set<PlayerId>,
    pub fakes: Set<PlayerId>,
}

impl Guns {
    /// No weapon out.
    pub open spec fn none(limit: usize) -> Guns {
        Guns { limit, reals: Set::empty(), fakes: Set::empty() }
    }

    /// The number of weapons out, a participant who holds both counted
    /// twice.
    pub open spec fn held(self) -> nat {
        self.reals.len() + self.fakes.len()
    }

    /// Finitely many weapons are out, and no more than one of the two
    /// limits allows.
    pub open spec fn wf(self) -> bool {
        &&& self.reals.finite()
        &&& self.fakes.finite()
        &&& (self.held() <= self.limit || self.held() <= FAKE_LIMIT)
    }

    /// A real weapon goes to `id`, unless the limit is reached.
    pub open spec fn pass_real(self, id: PlayerId) -> Guns {
        if self.held() < self.limit {
            Guns { reals: self.reals.insert(id), ..self }
        } else {
            self
        }
    }

    /// A decoy goes to `id`, unless two weapons are out.
    pub open spec fn pass_fake(self, id: PlayerId) -> Guns {
        if self.held() < FAKE_LIMIT {
            Guns { fakes: self.fakes.insert(id), ..self }
        } else {
            self
        }
    }

    /// What `id` holds; the real weapon where it holds both.
    pub open spec fn owner(self, id: PlayerId) -> GunOwner {
        if self.reals.contains(id) {
            GunOwner::Real
        } else if self.fakes.contains(id) {
            GunOwner::Fake
        } else {
            GunOwner::Invalid
        }
    }

    /// The weapons that are out after `id` has pulled the trigger: a real
    /// weapon takes all real ones out of play, a decoy all decoys.
    pub open spec fn shot(self, id: PlayerId) -> Guns {
        match self.owner(id) {
            GunOwner::Real => Guns { reals: Set::empty(), ..self },
            GunOwner::Fake => Guns { fakes: Set::empty(), ..self },
            GunOwner::Invalid => self,
        }
    }
}

/// Who holds a real weapon and who a decoy, from the night in which they
/// were handed out until they are used.
pub struct GunEvents {
    limit: usize,
    fakes: BTreeSet<PlayerId>,
    reals: BTreeSet<PlayerId>,
}

impl View for GunEvents {
    type V = Guns;

    closed spec fn view(&self) -> Guns {
        Guns { limit: self.limit, reals: self.reals@, fakes: self.fakes@ }
    }
}

impl GunEvents {
    pub fn new(limit: usize) -> (r: Self)
        ensures
            r@ == Guns::none(limit),
            r@.wf(),
    {
        Self { limit, fakes: BTreeSet::new(), reals: BTreeSet::new() }
    }

    /// The number of weapons out.
    pub fn len(&self) -> (r: usize)
        requires
            self@.wf(),
        ensures
            r == self@.held(),
    {
        self.fakes.len() + self.reals.len()
    }

    /// Hands a real weapon to `id`, unless as many weapons are out as the
    /// limit allows. Says whether `id` now holds one that it did not hold.
    pub fn pass_real(&mut self, id: PlayerId) -> (r: bool)
        requires
            old(self)@.wf(),
        ensures
            final(self)@.wf(),
            final(self)@ == old(self)@.pass_real(id),
            r == (old(self)@.held() < old(self)@.limit && !old(self)@.reals.contains(id)),
    {
        if self.len() >= self.limit {
            return false;
        }
        self.reals.insert(id)
    }

    /// Hands a decoy to `id`, unless two weapons are out already. Says
    /// whether `id` now holds one that it did not hold.
    pub fn pass_fake(&mut self, id: PlayerId) -> (r: bool)
        requires
            old(self)@.wf(),
        ensures
            final(self)@.wf(),
            final(self)@ == old(self)@.pass_fake(id),
            r == (old(self)@.held() < FAKE_LIMIT && !old(self)@.fakes.contains(id)),
    {
        if self.len() >= FAKE_LIMIT {
            return false;
        }
        self.fakes.insert(id)
    }

    /// `id` pulls the trigger: says what it held, and takes the weapons of
    /// that kind out of play.
    pub fn try_shooting(&mut self, id: &PlayerId) -> (r: GunOwner)
        requires
            old(self)@.wf(),
        ensures
            final(self)@.wf(),
            r == old(self)@.owner(*id),
            final(self)@ == old(self)@.shot(*id),
    {
        if self.reals.contains(id) {
            self.reals.clear();
            GunOwner::Real
        } else if self.fakes.contains(id) {
            self.fakes.clear();
            GunOwner::Fake
        } else {
            GunOwner::Invalid
        }
    }

    /// Everyone who holds a weapon of either kind.
    pub fn owners(&self) -> (r: BTreeSet<PlayerId>)
        requires
            self@.wf(),
        ensures
            r@ == self@.reals.union(self@.fakes),
    {
        let mut set: BTreeSet<PlayerId> = self.fakes.clone();
        let reals = members(&self.reals);
        let mut i: usize = 0;
        while i < reals.len()
            invariant
                i <= reals.len(),
                reals@.to_set() == self.reals@,
                forall|x: PlayerId|
                    set@.contains(x) <==> self.fakes@.contains(x) || exists|j: int|
                        0 <= j < i && reals@[j] == x,
            decreases reals.len() - i,
        {
            set.insert(reals[i]);
            i = i + 1;
        }
        assert forall|x: PlayerId| self.reals@.contains(x) implies exists|j: int|
            0 <= j < reals@.len() && reals@[j] == x by {
            assert(reals@.to_set().contains(x));
        }
        assert(set@ =~= self.reals@.union(self.fakes@));
        set
    }
}

} // verus!
