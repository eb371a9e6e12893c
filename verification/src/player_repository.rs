use vstd::prelude::*;
use std::sync::Arc;
use crate::player::{alive, may_become, Caster, LifeState, RoleKind};

verus! {

/// The name under which a player is kept.
#[derive(Hash, Eq, PartialEq, Debug, Clone, PartialOrd, Ord)]
pub struct Id(pub String);

/// How many of each side are alive.
#[derive(Clone, Copy, Debug, PartialEq, Eq, Structural)]
pub struct PlayerCount {
    pub mafia: usize,
    pub citizen: usize,
    pub psycho: usize,
}

impl PlayerCount {
    /// The number of all who are alive.
    pub fn all(&self) -> (r: usize)
        requires
            self.mafia + self.citizen + self.psycho <= usize::MAX,
        ensures
            r == self.mafia + self.citizen + self.psycho,
    {
        self.mafia + self.citizen + self.psycho
    }
}

/// The players of a game, by their names.
pub trait PlayerRepository: Sized + Clone {
    type K: Caster;

    /// The number of the living on the side `kind`.
    spec fn alive_of(&self, kind: RoleKind) -> nat;

    /// Lets those die who are injured and whom nobody else holds on to.
    fn kill_injureds(&mut self);

    fn count_alives(&self) -> (r: PlayerCount)
        ensures
            r.mafia == self.alive_of(RoleKind::Mafia),
            r.citizen == self.alive_of(RoleKind::Citizen),
            r.psycho == self.alive_of(RoleKind::Psycho),
    ;

    /// The living player of the name `id`. Looking one up changes no
    /// count.
    fn get(&mut self, id: &Id) -> (r: Option<Arc<Self::K>>)
        ensures
            forall|kind: RoleKind| final(self).alive_of(kind) == old(self).alive_of(kind),
    ;
}

/// `Arc::get_mut`, which hands out the value behind the pointer for
/// change where no other pointer leads to it, and nothing else.
#[verifier::external_body]
pub(crate) fn sole<C>(ptr: &mut Arc<C>) -> (r: Option<&mut C>)
    ensures
        match r {
            Some(inner) => *inner == **old(ptr) && **final(ptr) == *final(inner),
            None => **final(ptr) == **old(ptr),
        },
{
    Arc::get_mut(ptr)
}

/// `Arc::clone`, which makes another pointer to the same value.
#[verifier::external_body]
fn shared<C>(ptr: &Arc<C>) -> (r: Arc<C>)
    ensures
        *r == **ptr,
{
    Arc::clone(ptr)
}

/// Lets the player die that was handed out for change, if one was. Says
/// whether one was.
pub fn kill_found<C: Caster>(found: Option<&mut C>) -> (r: bool)
    requires
        found matches Some(player) ==> may_become(player.life(), LifeState::Killed),
    ensures
        r == found is Some,
        found matches Some(player) ==> final(player).life() == LifeState::Killed,
        found matches Some(player) ==> final(player).side() == player.side(),
{
    match found {
        Some(player) => {
            player.kill();
            true
        },
        None => false,
    }
}

/// The number of the living on the side `kind` among `players`.
pub open spec fn tally<C: Caster>(players: Seq<(Id, Arc<C>)>, kind: RoleKind) -> nat
    decreases players.len(),
{
    if players.len() == 0 {
        0
    } else {
        let rest = tally(players.drop_last(), kind);
        if alive(players.last().1.life()) && players.last().1.side() == kind {
            rest + 1
        } else {
            rest
        }
    }
}

/// No more are counted than there are.
pub proof fn lemma_tally_bound<C: Caster>(players: Seq<(Id, Arc<C>)>, kind: RoleKind)
    ensures
        tally(players, kind) <= players.len(),
    decreases players.len(),
{
    if players.len() > 0 {
        lemma_tally_bound(players.drop_last(), kind);
    }
}

/// The length of a name that chance picks.
pub const NAME_LENGTH: usize = 21;

/// `nanoid::format` with the crate's own generator `rngs::default` and its
/// alphabet `SAFE` of 64 characters: it asks the generator for as many
/// bytes as the name is to be long and writes one character of the
/// alphabet for each.
#[verifier::external_body]
fn random_name() -> (r: String)
    ensures
        r@.len() == NAME_LENGTH,
{
    nanoid::format(nanoid::rngs::default, &nanoid::alphabet::SAFE, NAME_LENGTH)
}

impl Id {
    /// A name of 21 characters that chance picks, so that two calls
    /// hardly ever give the same.
    pub fn unique_random_id() -> (r: Id)
        ensures
            r.0@.len() == NAME_LENGTH,
    {
        Id(random_name())
    }
}

/// Whether `now` is what may have become of the player `was` under the same
/// name: the very same, or, of one who was injured, one who has died on
/// the same side.
pub open spec fn same_or_died<C: Caster>(was: (Id, Arc<C>), now: (Id, Arc<C>)) -> bool {
    now == was || (now.0 == was.0 && was.1.life() == LifeState::Injured && now.1.life()
        == LifeState::Killed && now.1.side() == was.1.side())
}

/// Whether `after` is `before` with nothing changed but that some of the
/// injured have died: the same names in the same places, and every player
/// who was not injured the very same.
pub open spec fn injured_died<C: Caster>(before: Seq<(Id, Arc<C>)>, after: Seq<(Id, Arc<C>)>) -> bool {
    &&& after.len() == before.len()
    &&& forall|i: int| 0 <= i < before.len() ==> same_or_died(before[i], #[trigger] after[i])
}

/// The living player of the name `id` among `players`: the first of that
/// name, if alive.
pub open spec fn living<C: Caster>(players: Seq<(Id, Arc<C>)>, id: Id, at: int) -> bool {
    &&& 0 <= at < players.len()
    &&& players[at].0.0@ == id.0@
    &&& forall|j: int| 0 <= j < at ==> players[j].0.0@ != id.0@
    &&& alive(players[at].1.life())
}

/// Players by their names, in the order of their coming.
#[derive(Debug, Clone)]
#[verifier::reject_recursive_types(C)]
pub struct Players<C>(Vec<(Id, Arc<C>)>);

impl<C: Caster> Players<C> {
    /// The players with their names, in the order of their coming.
    pub closed spec fn entries(&self) -> Seq<(Id, Arc<C>)> {
        self.0@
    }

    /// Whether no name occurs twice.
    pub open spec fn distinct(&self) -> bool {
        forall|i: int, j: int|
            0 <= i < j < self.entries().len() ==> (#[trigger] self.entries()[i]).0.0@ != (
            #[trigger] self.entries()[j]).0.0@
    }

    /// No players.
    pub fn new() -> (r: Players<C>)
        ensures
            r.entries() == Seq::<(Id, Arc<C>)>::empty(),
            r.distinct(),
    {
        Players(Vec::new())
    }

    /// The place of the first player of the name `id`.
    pub fn find(&self, id: &Id) -> (r: Option<usize>)
        ensures
            match r {
                Some(at) => at < self.entries().len() && self.entries()[at as int].0.0@ == id.0@
                    && forall|j: int| 0 <= j < at ==> self.entries()[j].0.0@ != id.0@,
                None => forall|j: int|
                    0 <= j < self.entries().len() ==> self.entries()[j].0.0@ != id.0@,
            },
    {
        let mut i: usize = 0;
        while i < self.0.len()
            invariant
                i <= self.0.len(),
                forall|j: int| 0 <= j < i ==> self.0@[j].0.0@ != id.0@,
            decreases self.0.len() - i,
        {
            if self.0[i].0.0 == id.0 {
                return Some(i);
            }
            i = i + 1;
        }
        None
    }

    /// Whether `after` is these players with `player` kept under the name
    /// `id`: in the place of the first player of that name, or behind all
    /// others where there is none.
    pub open spec fn kept(&self, after: Seq<(Id, Arc<C>)>, id: Id, player: C) -> bool {
        let before = self.entries();
        let at = match self.find_spec(id) {
            Some(at) => at,
            None => before.len() as int,
        };
        &&& after.len() == if self.find_spec(id) is Some {
            before.len()
        } else {
            before.len() + 1
        }
        &&& forall|j: int| 0 <= j < before.len() && j != at ==> after[j] == before[j]
        &&& after[at].0.0@ == id.0@
        &&& *after[at].1 == player
    }

    /// Keeps `player` under the name `id`. No name occurs twice
    /// afterwards, as none did before.
    pub fn insert_as(&mut self, id: Id, player: C)
        requires
            old(self).distinct(),
        ensures
            final(self).distinct(),
            old(self).kept(final(self).entries(), id, player),
    {
        match self.find(&id) {
            Some(at) => {
                proof {
                    self.lemma_find_is_first(id, at as int);
                }
                self.0.set(at, (id, Arc::new(player)));
                proof {
                    assert forall|i: int, j: int|
                        0 <= i < j < self.entries().len() implies (#[trigger] self.entries()[i]).0.0@
                        != (#[trigger] self.entries()[j]).0.0@ by {
                        assert(self.entries()[i].0.0@ == old(self).entries()[i].0.0@);
                        assert(self.entries()[j].0.0@ == old(self).entries()[j].0.0@);
                    }
                }
            },
            None => {
                self.0.push((id, Arc::new(player)));
                proof {
                    assert forall|i: int, j: int|
                        0 <= i < j < self.entries().len() implies (#[trigger] self.entries()[i]).0.0@
                        != (#[trigger] self.entries()[j]).0.0@ by {
                        assert(self.entries()[i] == old(self).entries()[i]);
                        if j < old(self).entries().len() {
                            assert(self.entries()[j] == old(self).entries()[j]);
                        }
                    }
                }
            },
        }
    }

    /// The place of the first player of the name `id`.
    pub open spec fn find_spec(&self, id: Id) -> Option<int> {
        if exists|at: int| self.named(id, at) {
            Some(choose|at: int| self.named(id, at))
        } else {
            None
        }
    }

    /// Whether the first player of the name `id` is at `at`.
    pub open spec fn named(&self, id: Id, at: int) -> bool {
        &&& 0 <= at < self.entries().len()
        &&& self.entries()[at].0.0@ == id.0@
        &&& forall|j: int| 0 <= j < at ==> self.entries()[j].0.0@ != id.0@
    }

    /// There is one first place of a name.
    pub proof fn lemma_find_is_first(&self, id: Id, at: int)
        requires
            self.named(id, at),
        ensures
            self.find_spec(id) == Some(at),
    {
        let other = choose|other: int| self.named(id, other);
        if other < at {
            assert(self.entries()[other].0.0@ != id.0@);
        }
        if at < other {
            assert(self.entries()[at].0.0@ != id.0@);
        }
    }

    /// Keeps `player` under a name that chance picks, and says which. No
    /// name occurs twice afterwards, as none did before.
    pub fn insert(&mut self, player: C) -> (r: Id)
        requires
            old(self).distinct(),
        ensures
            final(self).distinct(),
            r.0@.len() == NAME_LENGTH,
            old(self).kept(final(self).entries(), r, player),
    {
        let id = Id::unique_random_id();
        let name = Id(id.0.clone());
        proof {
            if exists|at: int| self.named(id, at) {
                let at = choose|at: int| self.named(id, at);
                assert(self.named(name, at));
                self.lemma_find_is_first(id, at);
                self.lemma_find_is_first(name, at);
            } else {
                assert forall|at: int| !self.named(name, at) by {
                    if self.named(name, at) {
                        assert(self.named(id, at));
                    }
                }
            }
        }
        self.insert_as(id, player);
        name
    }
}

impl<C: Caster> PlayerRepository for Players<C> {
    type K = C;

    open spec fn alive_of(&self, kind: RoleKind) -> nat {
        tally(self.entries(), kind)
    }

    /// The first player of the name `id`, if alive.
    fn get(&mut self, id: &Id) -> (r: Option<Arc<C>>)
        ensures
            final(self).entries() == old(self).entries(),
            match r {
                Some(player) => exists|at: int|
                    living(old(self).entries(), *id, at) && *player == *old(self).entries()[at].1,
                None => forall|at: int| !living(old(self).entries(), *id, at),
            },
    {
        match self.find(id) {
            Some(at) => {
                if self.0[at].1.is_alive() {
                    assert(living(self.entries(), *id, at as int));
                    Some(shared(&self.0[at].1))
                } else {
                    assert forall|other: int| !living(self.entries(), *id, other) by {
                        if living(self.entries(), *id, other) {
                            if other < at {
                                assert(self.entries()[other].0.0@ != id.0@);
                            }
                            if at < other {
                                assert(self.entries()[at as int].0.0@ != id.0@);
                            }
                        }
                    }
                    None
                }
            },
            None => None,
        }
    }

    /// Lets those die who are injured and whom nobody else holds on to.
    /// The names stay as they are, so that none occurs twice where none
    /// did.
    fn kill_injureds(&mut self)
        ensures
            injured_died(old(self).entries(), final(self).entries()),
            old(self).distinct() ==> final(self).distinct(),
    {
        let mut back: Vec<(Id, Arc<C>)> = Vec::new();
        let ghost all = self.0@;
        while self.0.len() > 0
            invariant
                self.0@.len() + back@.len() == all.len(),
                forall|i: int| 0 <= i < self.0@.len() ==> self.0@[i] == all[i],
                forall|i: int|
                    0 <= i < back@.len() ==> same_or_died(
                        all[all.len() - 1 - i],
                        #[trigger] back@[i],
                    ),
            decreases self.0.len(),
        {
            match self.0.pop() {
                Some((id, mut ptr)) => {
                    if ptr.state() == LifeState::Injured {
                        kill_found(sole(&mut ptr));
                    }
                    back.push((id, ptr));
                },
                None => {},
            }
        }
        while back.len() > 0
            invariant
                self.0@.len() + back@.len() == all.len(),
                forall|i: int|
                    0 <= i < back@.len() ==> same_or_died(
                        all[all.len() - 1 - i],
                        #[trigger] back@[i],
                    ),
                forall|i: int| 0 <= i < self.0@.len() ==> same_or_died(all[i], #[trigger] self.0@[i]),
            decreases back.len(),
        {
            match back.pop() {
                Some(entry) => {
                    self.0.push(entry);
                },
                None => {},
            }
        }
        proof {
            if old(self).distinct() {
                assert forall|i: int, j: int|
                    0 <= i < j < self.entries().len() implies (#[trigger] self.entries()[i]).0.0@
                    != (#[trigger] self.entries()[j]).0.0@ by {
                    assert(same_or_died(all[i], self.0@[i]));
                    assert(same_or_died(all[j], self.0@[j]));
                    assert(old(self).entries()[i].0.0@ != old(self).entries()[j].0.0@);
                }
            }
        }
    }

    fn count_alives(&self) -> (r: PlayerCount) {
        let mut mafia: usize = 0;
        let mut citizen: usize = 0;
        let mut psycho: usize = 0;
        let mut i: usize = 0;
        while i < self.0.len()
            invariant
                i <= self.0.len(),
                mafia == tally(self.0@.take(i as int), RoleKind::Mafia),
                citizen == tally(self.0@.take(i as int), RoleKind::Citizen),
                psycho == tally(self.0@.take(i as int), RoleKind::Psycho),
            decreases self.0.len() - i,
        {
            proof {
                assert(self.0@.take(i + 1).drop_last() =~= self.0@.take(i as int));
                assert(self.0@.take(i + 1).last() == self.0@[i as int]);
                lemma_tally_bound(self.0@.take(i + 1), RoleKind::Mafia);
                lemma_tally_bound(self.0@.take(i + 1), RoleKind::Citizen);
                lemma_tally_bound(self.0@.take(i + 1), RoleKind::Psycho);
            }
            if self.0[i].1.is_alive() {
                match self.0[i].1.kind() {
                    RoleKind::Mafia => {
                        mafia = mafia + 1;
                    },
                    RoleKind::Citizen => {
                        citizen = citizen + 1;
                    },
                    RoleKind::Psycho => {
                        psycho = psycho + 1;
                    },
                }
            }
            i = i + 1;
        }
        assert(self.0@.take(self.0@.len() as int) =~= self.0@);
        PlayerCount { mafia, citizen, psycho }
    }
}

} // verus!
