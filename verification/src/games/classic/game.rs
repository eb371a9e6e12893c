use vstd::prelude::*;
use std::collections::BTreeMap;
use rand::{prelude::SliceRandom, thread_rng};
use crate::elections::ballot::Ballots;
use crate::games::classic::play::{
    after_paralysis, fired, killing, night_told, resolved, NightResult, Play,
};
use crate::in_memory_room::{
    all_held, gathered, heard, lemma_gathered_heard, InMemoryRoom, OneToOneSpells,
};
use crate::room::{
    ascending, holders, informed, knows, law_told_stay_informed, powers_of, told_its_powers,
    told_nothing, with_powers, Room, Spells,
};
use crate::roster::members;
use crate::scenario::{
    condemned, lemma_one_hangs, next_day, next_phase, nominees, verdict, CityState, Day,
    DeathBallot,
    Declaration, Defendence, Error, News, Power, Pray, Scenario, ShootingResult, State,
};
use crate::waiting::{GodWayRef, PlayerId};

verus! {

broadcast use vstd::std_specs::btree::group_btree_axioms;

/// The number of seats of a game.
pub const SEATS: usize = 10;

/// The number of times that a game tells how many of the mafia are alive.
pub const ENQUIRIES: u8 = 3;

/// The text of the failure of `Classic::new` on a cohort of another size.
pub open spec fn invalid_number_of_players() -> Seq<char> {
    "Invalid number of players"@
}

/// The powers of the `k`-th role that is handed out, counted from 0: the
/// boss, two more of the mafia, the gunsmith, the healer, the guard, the
/// commando, the investigator and two plain citizens.
pub open spec fn role(k: int) -> Set<Power> {
    if k == 0 {
        set![Power::Mafia, Power::NightKill, Power::DodgeCommando, Power::Disguise]
    } else if k == 1 {
        set![Power::Mafia, Power::Paralyze]
    } else if k == 2 {
        set![Power::Mafia, Power::Reveal]
    } else if k == 3 {
        set![Power::HandFakeGun, Power::HandGun]
    } else if k == 4 {
        set![Power::Heal]
    } else if k == 5 {
        set![Power::Guard]
    } else if k == 6 {
        set![Power::ShotOnKill]
    } else if k == 7 {
        set![Power::Enquery]
    } else {
        Set::empty()
    }
}

/// The powers whose holders inherit the boss's kill, in this order, where
/// nothing else is set.
pub open spec fn usual_heirs() -> Seq<Power> {
    seq![Power::Reveal, Power::Paralyze]
}

/// The highest number in `ids`.
pub open spec fn top(ids: Set<PlayerId>) -> PlayerId {
    choose|id: PlayerId| ids.contains(id) && forall|other: PlayerId| ids.contains(other) ==> other <= id
}

/// Who inherits the boss's kill: the holder with the highest number of the
/// first power among `heirs`, from place `from` on, that anybody holds.
pub open spec fn heir(seats: Map<PlayerId, Set<Power>>, heirs: Seq<Power>, from: int) -> Option<
    PlayerId,
>
    decreases heirs.len() - from,
{
    if from < 0 || from >= heirs.len() {
        None
    } else if holders(seats, heirs[from]) != Set::<PlayerId>::empty() {
        Some(top(holders(seats, heirs[from])))
    } else {
        heir(seats, heirs, from + 1)
    }
}

/// A game as far as its rules see it.
pub struct City {
    pub seats: Map<PlayerId, Set<Power>>,
    pub phase: CityState,
    pub day: Day,
    pub log: Seq<(Day, CityState, Declaration)>,
    pub heirs: Seq<Power>,
    pub enquiries: u8,
}

impl City {
    /// The game with `event` declared.
    pub open spec fn declare(self, event: Declaration) -> City {
        City { log: self.log.push((self.day, self.phase, event)), ..self }
    }

    /// The game with the boss's kill passed on to its heir, if there is
    /// one.
    pub open spec fn pass_night_kill(self) -> City {
        match heir(self.seats, self.heirs, 0) {
            Some(id) => City { seats: with_powers(self.seats, id, set![Power::NightKill]), ..self },
            None => self,
        }
    }

    /// The game without `id`: the seat is given up, the boss's kill goes to
    /// its heir where `id` held it, and the loss is declared. Nothing
    /// changes where `id` has no seat.
    pub open spec fn kick_out(self, id: PlayerId) -> City {
        if self.seats.contains_key(id) {
            let gone = City { seats: self.seats.remove(id), ..self };
            let passed = if self.seats[id].contains(Power::NightKill) {
                gone.pass_night_kill()
            } else {
                gone
            };
            passed.declare(Declaration::Out(id))
        } else {
            self
        }
    }

    /// The game without each of `ids`, the first one leaving first.
    pub open spec fn bury(self, ids: Seq<PlayerId>) -> City
        decreases ids.len(),
    {
        if ids.len() == 0 {
            self
        } else {
            self.bury(ids.drop_last()).kick_out(ids.last())
        }
    }

    /// The game after a shot: a kill takes its victim out, an empty gun is
    /// declared.
    pub open spec fn on_shooting(self, res: ShootingResult) -> City {
        match res {
            ShootingResult::EmptyGun(id) => self.declare(Declaration::FakeGun(id)),
            ShootingResult::Killed(id) => self.kick_out(id),
            ShootingResult::NotAllowed => self,
        }
    }

    /// How the game stands.
    pub open spec fn standing(self) -> State {
        verdict(holders(self.seats, Power::Mafia).len(), self.seats.dom().len())
    }

    /// The game in its next phase, which is declared; a game that is over
    /// stays as it is.
    pub open spec fn next(self) -> City {
        if self.phase is Done {
            self
        } else {
            let phase = next_phase(self.phase, self.standing());
            let day = next_day(self.phase, self.standing(), self.day) as Day;
            City {
                phase,
                day,
                log: self.log.push((day, phase, Declaration::StateChanged(phase))),
                ..self
            }
        }
    }
}

/// A day on which nobody was nominated goes on to its night: without a
/// nomination there is no defendant, hence no vote and nobody to hang, and
/// from the phase of hanging an undecided game moves to the night of the
/// same day with the same seats, declaring that and nothing else.
pub proof fn law_day_without_nominations(city: City, seats: nat)
    requires
        city.phase == CityState::Hang,
        city.standing() == State::Undecided,
    ensures
        nominees(Map::<PlayerId, Set<PlayerId>>::empty(), seats) == Set::<PlayerId>::empty(),
        city.next() == (City {
            phase: CityState::Night,
            log: city.log.push(
                (city.day, CityState::Night, Declaration::StateChanged(CityState::Night)),
            ),
            ..city
        }),
{
    assert(nominees(Map::<PlayerId, Set<PlayerId>>::empty(), seats) =~= Set::<PlayerId>::empty());
}

/// A game of ten seats.
pub struct Classic {
    strategy: Play,
    room: InMemoryRoom,
    state: CityState,
    events: Vec<(Day, CityState, Declaration)>,
    enquery: u8,
    day: usize,
    heirs: Vec<Power>,
}

impl View for Classic {
    type V = City;

    closed spec fn view(&self) -> City {
        City {
            seats: self.room.seats(),
            phase: self.state,
            day: self.day,
            log: self.events@,
            heirs: self.heirs@,
            enquiries: self.enquery,
        }
    }
}

/// `SliceRandom::shuffle` with the generator of `thread_rng`: it swaps
/// items of the slice, so that the same items are there afterwards, each
/// as often as before, in an order that chance decides.
#[verifier::external_body]
fn shuffle(ids: &mut Vec<PlayerId>)
    ensures
        final(ids)@.to_multiset() == old(ids)@.to_multiset(),
{
    ids.shuffle(&mut thread_rng());
}

/// Appends `power` to `powers`.
fn put(powers: &mut Vec<Power>, power: Power)
    ensures
        final(powers)@ == old(powers)@.push(power),
        final(powers)@.to_set() == old(powers)@.to_set().insert(power),
{
    proof {
        powers@.lemma_push_to_set_commute(power);
    }
    powers.push(power);
}

/// The powers of the `k`-th role.
pub fn role_powers(k: usize) -> (r: Vec<Power>)
    ensures
        r@.to_set() == role(k as int),
{
    let mut r: Vec<Power> = Vec::new();
    assert(r@.to_set() =~= Set::<Power>::empty());
    if k == 0 {
        put(&mut r, Power::Mafia);
        put(&mut r, Power::NightKill);
        put(&mut r, Power::DodgeCommando);
        put(&mut r, Power::Disguise);
    } else if k == 1 {
        put(&mut r, Power::Mafia);
        put(&mut r, Power::Paralyze);
    } else if k == 2 {
        put(&mut r, Power::Mafia);
        put(&mut r, Power::Reveal);
    } else if k == 3 {
        put(&mut r, Power::HandFakeGun);
        put(&mut r, Power::HandGun);
    } else if k == 4 {
        put(&mut r, Power::Heal);
    } else if k == 5 {
        put(&mut r, Power::Guard);
    } else if k == 6 {
        put(&mut r, Power::ShotOnKill);
    } else if k == 7 {
        put(&mut r, Power::Enquery);
    }
    assert(r@.to_set() =~= role(k as int));
    r
}

/// Whether `said` has each seated participant once, in the order of the
/// numbers, beside intents that the participant holds the power for.
pub open spec fn told(seats: Map<PlayerId, Set<Power>>, said: Seq<(PlayerId, Vec<Pray>)>) -> bool {
    &&& forall|i: int, j: int| 0 <= i < j < said.len() ==> said[i].0 < said[j].0
    &&& forall|id: PlayerId|
        seats.contains_key(id) <==> exists|i: int| 0 <= i < said.len() && said[i].0 == id
    &&& all_held(seats, said)
}

/// Whether `seats` is what dealing the roles to `order`, from its last
/// member to its first, makes of the empty seats `ids`.
pub open spec fn dealt(seats: Map<PlayerId, Set<Power>>, order: Seq<PlayerId>, ids: Set<PlayerId>) -> bool {
    &&& order.len() == SEATS
    &&& order.no_duplicates()
    &&& order.to_set() == ids
    &&& seats.dom() == ids
    &&& forall|k: int| 0 <= k < SEATS ==> seats[#[trigger] order[SEATS - 1 - k]] == role(k)
}

impl Classic {
    /// What the game remembers of its nights.
    pub closed spec fn play(&self) -> Play {
        self.strategy
    }

    /// The capability store of the game, with what it has told.
    pub closed spec fn store(&self) -> InMemoryRoom {
        self.room
    }

    /// Whether the store and the memory of the nights are sound.
    pub closed spec fn built(&self) -> bool {
        self.room.sound() && self.strategy.wf()
    }

    /// The seats of the game are those of its store.
    pub proof fn lemma_store_has_the_seats(&self)
        ensures
            self.store().seats() == self@.seats,
    {
    }

    /// A game for the cohort `players`, each with a role that chance has
    /// picked; fails on a cohort that is not of ten.
    pub fn new(players: BTreeMap<PlayerId, GodWayRef>) -> (r: Result<Self, Error>)
        ensures
            match r {
                Ok(game) => {
                    &&& players@.dom().len() == SEATS
                    &&& game.sound()
                    &&& game@.phase == CityState::Debate
                    &&& game@.day == 0
                    &&& game@.log == Seq::<(Day, CityState, Declaration)>::empty()
                    &&& game@.heirs == usual_heirs()
                    &&& game@.enquiries == ENQUIRIES
                    &&& game.play().is_fresh()
                    &&& exists|order: Seq<PlayerId>| dealt(game@.seats, order, players@.dom())
                },
                Err(text) => players@.dom().len() != SEATS && text@ == invalid_number_of_players(),
            },
    {
        if players.len() != SEATS {
            return Err("Invalid number of players".to_owned());
        }
        let mut heirs: Vec<Power> = Vec::new();
        heirs.push(Power::Reveal);
        heirs.push(Power::Paralyze);
        assert(heirs@ =~= usual_heirs());
        let mut res = Self {
            strategy: Play::new(),
            room: InMemoryRoom::new(players),
            state: CityState::Debate,
            events: Vec::new(),
            enquery: ENQUIRIES,
            day: 0,
            heirs,
        };
        assert(res@.seats.dom() =~= players@.dom());
        res.assign_roles();
        Ok(res)
    }

    /// Grants `powers` to the last of `players`, tells it what it now
    /// holds, and takes it off the list.
    pub fn assign(&mut self, players: &mut Vec<PlayerId>, powers: Vec<Power>)
        requires
            old(self).built(),
            old(players)@.len() > 0,
            old(self)@.seats.contains_key(old(players)@.last()),
        ensures
            final(self).built(),
            old(self).sound() ==> final(self).sound(),
            told_its_powers(old(self).store(), final(self).store(), old(players)@.last()),
            final(self).play() == old(self).play(),
            final(players)@ == old(players)@.drop_last(),
            final(self)@ == (City {
                seats: with_powers(old(self)@.seats, old(players)@.last(), powers@.to_set()),
                ..old(self)@
            }),
    {
        match players.pop() {
            Some(id) => {
                self.room.assign(&id, powers);
                proof {
                    if old(self).sound() {
                        law_told_stay_informed(old(self).room, self.room, id);
                    }
                }
            },
            None => {},
        }
    }

    /// Deals the roles to `players`, the first role to the last of them,
    /// and tells each what it holds.
    fn deal(&mut self, players: Vec<PlayerId>)
        requires
            old(self).built(),
            players@.len() == SEATS,
            players@.no_duplicates(),
            players@.to_set() == old(self)@.seats.dom(),
            forall|id: PlayerId| #[trigger]
                old(self)@.seats.contains_key(id) ==> old(self)@.seats[id] == Set::<Power>::empty(),
        ensures
            final(self).sound(),
            final(self).play() == old(self).play(),
            dealt(final(self)@.seats, players@, old(self)@.seats.dom()),
            final(self)@ == (City { seats: final(self)@.seats, ..old(self)@ }),
    {
        let mut left = players;
        let mut k: usize = 0;
        proof {
            assert forall|j: int| 0 <= j < SEATS implies self@.seats[#[trigger] players@[SEATS - 1
                - j]] == Set::<Power>::empty() by {
                assert(players@.to_set().contains(players@[SEATS - 1 - j]));
            }
            assert(left@ =~= players@.take(SEATS - k));
        }
        while k < SEATS
            invariant
                k <= SEATS,
                self.built(),
                forall|j: int|
                    0 <= j < k ==> knows(
                        self.room.told_to(#[trigger] players@[SEATS - 1 - j]),
                        role(j),
                    ),
                self.play() == old(self).play(),
                self@ == (City { seats: self@.seats, ..old(self)@ }),
                players@.len() == SEATS,
                players@.no_duplicates(),
                players@.to_set() == old(self)@.seats.dom(),
                left@ == players@.take(SEATS - k),
                self@.seats.dom() == old(self)@.seats.dom(),
                forall|j: int| 0 <= j < k ==> self@.seats[#[trigger] players@[SEATS - 1 - j]] == role(j),
                forall|j: int|
                    k <= j < SEATS ==> self@.seats[#[trigger] players@[SEATS - 1 - j]] == Set::<
                        Power,
                    >::empty(),
            decreases SEATS - k,
        {
            let ghost id = players@[SEATS - 1 - k];
            let ghost before = self@.seats;
            let ghost earlier = self.room;
            assert(left@.last() == id);
            assert(players@.to_set().contains(id));
            self.assign(&mut left, role_powers(k));
            proof {
                assert(left@ =~= players@.take(SEATS - (k + 1)));
                assert(self@.seats.dom() =~= before.dom());
                assert(self@.seats[id] =~= role(k as int));
                assert forall|j: int| 0 <= j < k + 1 implies knows(
                    self.room.told_to(#[trigger] players@[SEATS - 1 - j]),
                    role(j),
                ) by {
                    if j < k {
                        assert(players@[SEATS - 1 - j] != id);
                        assert(self.room.told_to(players@[SEATS - 1 - j]) == earlier.told_to(
                            players@[SEATS - 1 - j],
                        ));
                    }
                }
            }
            k = k + 1;
        }
        proof {
            assert forall|id: PlayerId| #[trigger] self.room.seats().contains_key(id) implies knows(
                self.room.told_to(id),
                self.room.seats()[id],
            ) by {
                assert(players@.to_set().contains(id));
                let at = choose|at: int| 0 <= at < players@.len() && players@[at] == id;
                let j = SEATS - 1 - at;
                assert(players@[SEATS - 1 - j] == id);
            }
        }
    }

    /// Deals the roles in an order that chance picks, and tells each what
    /// it holds.
    fn assign_roles(&mut self)
        requires
            old(self).built(),
            old(self)@.seats.dom().len() == SEATS,
            forall|id: PlayerId| #[trigger]
                old(self)@.seats.contains_key(id) ==> old(self)@.seats[id] == Set::<Power>::empty(),
        ensures
            final(self).sound(),
            final(self).play() == old(self).play(),
            exists|order: Seq<PlayerId>| dealt(final(self)@.seats, order, old(self)@.seats.dom()),
            final(self)@ == (City { seats: final(self)@.seats, ..old(self)@ }),
    {
        let mut players = self.room.numbers();
        let ghost sorted = players@;
        shuffle(&mut players);
        proof {
            broadcast use vstd::seq_lib::to_multiset_len, vstd::seq_lib::to_multiset_contains;

            assert(sorted.no_duplicates());
            sorted.unique_seq_to_set();
            sorted.lemma_multiset_has_no_duplicates();
            players@.lemma_multiset_has_no_duplicates_conv();
            vstd::seq_lib::to_multiset_len(players@);
            vstd::seq_lib::to_multiset_len(sorted);
            assert(players@.len() == sorted.len());
            assert forall|id: PlayerId| players@.contains(id) <==> sorted.contains(id) by {
                assert(players@.to_multiset().count(id) == sorted.to_multiset().count(id));
            }
            assert(players@.to_set() =~= sorted.to_set());
        }
        let ghost order = players@;
        self.deal(players);
        assert(dealt(self@.seats, order, old(self)@.seats.dom()));
    }

    /// The capability store of the game.
    pub fn room(&self) -> (r: &InMemoryRoom)
        requires
            self.sound(),
        ensures
            *r == self.store(),
            r.sound(),
            r.seats() == self@.seats,
            informed(*r),
    {
        &self.room
    }

    /// Sets the powers whose holders inherit the boss's kill, the first
    /// one first.
    pub fn set_heirs(&mut self, heirs: Vec<Power>)
        requires
            old(self).sound(),
        ensures
            final(self).sound(),
            final(self).play() == old(self).play(),
            final(self)@ == (City { heirs: heirs@, ..old(self)@ }),
    {
        self.heirs = heirs;
    }

    /// How many of the mafia are alive; the game tells this three times.
    pub fn enquery(&mut self) -> (r: Option<usize>)
        requires
            old(self).sound(),
        ensures
            final(self).sound(),
            final(self).play() == old(self).play(),
            match r {
                Some(n) => old(self)@.enquiries > 0 && n == holders(
                    old(self)@.seats,
                    Power::Mafia,
                ).len() && final(self)@ == (City {
                    enquiries: (old(self)@.enquiries - 1) as u8,
                    ..old(self)@
                }),
                None => old(self)@.enquiries == 0 && final(self)@ == old(self)@,
            },
    {
        if self.enquery == 0 {
            None
        } else {
            self.enquery -= 1;
            Some(self.room.count(&Power::Mafia))
        }
    }

    /// Fresh ballots for as many seats as are taken.
    pub fn make_ballot(&self) -> (r: Ballots)
        requires
            self.sound(),
            self@.seats.dom().len() >= 3,
        ensures
            r.sound(),
            r.seats() == self@.seats.dom().len(),
            r.nominations() == Map::<PlayerId, Set<PlayerId>>::empty(),
    {
        Ballots::new(self.room.total())
    }

    /// The holder of `power` with the highest number.
    pub fn first_id_by_power(&self, power: &Power) -> (r: Option<PlayerId>)
        requires
            self.sound(),
        ensures
            r == if holders(self@.seats, *power) != Set::<PlayerId>::empty() {
                Some(top(holders(self@.seats, *power)))
            } else {
                None
            },
    {
        let mut found = self.room.by_power(power);
        let ghost all = found@;
        let r = found.pop();
        proof {
            let set = holders(self@.seats, *power);
            match r {
                Some(id) => {
                    assert(all[all.len() - 1] == id);
                    assert(all.to_set().contains(id));
                    assert forall|other: PlayerId| set.contains(other) implies other <= id by {
                        assert(all.to_set().contains(other));
                        let j = choose|j: int| 0 <= j < all.len() && all[j] == other;
                        if j < all.len() - 1 {
                            assert(all[j] < all[all.len() - 1]);
                        }
                    }
                    let t = top(set);
                    assert(set.contains(t) && t <= id && id <= t);
                },
                None => {
                    assert(all.len() == 0);
                    assert(set =~= Set::<PlayerId>::empty());
                },
            }
        }
        r
    }

    /// Passes the boss's kill on to its heir, and tells the heir what it now
    /// holds. Says whether there was one.
    pub fn pass_night_kill(&mut self) -> (r: bool)
        requires
            old(self).sound(),
        ensures
            final(self).sound(),
            final(self).play() == old(self).play(),
            final(self)@ == old(self)@.pass_night_kill(),
            r == heir(old(self)@.seats, old(self)@.heirs, 0) is Some,
            match heir(old(self)@.seats, old(self)@.heirs, 0) {
                Some(id) => told_its_powers(old(self).store(), final(self).store(), id),
                None => final(self).store() == old(self).store(),
            },
    {
        let mut i: usize = 0;
        while i < self.heirs.len()
            invariant
                i <= self.heirs.len(),
                *self == *old(self),
                self.sound(),
                heir(self@.seats, self@.heirs, 0) == heir(self@.seats, self@.heirs, i as int),
            decreases self.heirs.len() - i,
        {
            let power = self.heirs[i];
            match self.first_id_by_power(&power) {
                Some(id) => {
                    let mut gift: Vec<Power> = Vec::new();
                    put(&mut gift, Power::NightKill);
                    assert(gift@.to_set() =~= set![Power::NightKill]);
                    self.room.assign(&id, gift);
                    return true;
                },
                None => {},
            }
            i = i + 1;
        }
        false
    }

    /// Takes `id` out of the game and declares it. Says whether `id` had a
    /// seat.
    pub fn kick_out(&mut self, id: &PlayerId) -> (r: bool)
        requires
            old(self).sound(),
        ensures
            final(self).sound(),
            final(self).play() == old(self).play(),
            final(self)@ == old(self)@.kick_out(*id),
            r == old(self)@.seats.contains_key(*id),
    {
        let was = self.room.seated(id);
        let out = self.room.remove(id);
        proof {
            if !was {
                assert(self@.seats =~= old(self)@.seats);
            }
            assert(out@.contains(Power::NightKill) == out@.to_set().contains(Power::NightKill));
        }
        if crate::in_memory_room::holds(&out, &Power::NightKill) {
            self.pass_night_kill();
        }
        if was {
            self.declare(Declaration::Out(*id));
            return true;
        }
        false
    }

    /// Whether the game is in `state`.
    pub fn is_it(&self, state: CityState) -> (r: bool)
        ensures
            r == (self@.phase == state),
    {
        self.state == state
    }

    /// Appends `s` to the declarations, under the current day and phase.
    pub fn declare(&mut self, s: Declaration)
        requires
            old(self).sound(),
        ensures
            final(self).sound(),
            final(self).play() == old(self).play(),
            final(self)@ == old(self)@.declare(s),
    {
        self.events.push((self.day, self.state, s));
    }

    /// Applies what a shot did.
    pub fn on_shooting(&mut self, res: ShootingResult)
        requires
            old(self).sound(),
        ensures
            final(self).sound(),
            final(self).play() == old(self).play(),
            final(self)@ == old(self)@.on_shooting(res),
    {
        match res {
            ShootingResult::EmptyGun(id) => {
                self.declare(Declaration::FakeGun(id));
            },
            ShootingResult::Killed(id) => {
                self.kick_out(&id);
            },
            ShootingResult::NotAllowed => {},
        }
    }

    /// `shooter` fires at `on`, and the game applies what the shot did.
    pub fn shoot(&mut self, shooter: &PlayerId, on: PlayerId) -> (r: ShootingResult)
        requires
            old(self).sound(),
        ensures
            final(self).sound(),
            fired(old(self).play(), final(self).play(), *shooter, on, r),
            final(self)@ == old(self)@.on_shooting(r),
    {
        let res = self.strategy.shoot(&mut self.room, shooter, on);
        self.on_shooting(res);
        res
    }

    /// Takes from the channel of each participant, in the order of the
    /// numbers, the intents that have arrived for a power that the
    /// participant holds, and gathers them in a snapshot: which keeps for
    /// each power the first well-formed one.
    pub fn snapshot(&mut self) -> (r: OneToOneSpells)
        requires
            old(self).sound(),
        ensures
            final(self).sound(),
            final(self).play() == old(self).play(),
            final(self)@ == old(self)@,
            told_nothing(old(self).store(), final(self).store()),
            r.sound(),
            exists|said: Seq<(PlayerId, Vec<Pray>)>|
                told(old(self)@.seats, said) && r.intents() == gathered(said),
            forall|p: Power| #[trigger]
                r.intents().contains_key(p) ==> heard(old(self)@.seats, p, r.intents()[p]),
    {
        let mut said: Vec<(PlayerId, Vec<Pray>)> = Vec::new();
        let ids = self.room.numbers();
        let mut i: usize = 0;
        while i < ids.len()
            invariant
                i <= ids.len(),
                self.sound(),
                self.play() == old(self).play(),
                self@ == old(self)@,
                told_nothing(old(self).room, self.room),
                said@.len() == i,
                forall|k: int| 0 <= k < i ==> (#[trigger] said@[k]).0 == ids@[k],
                all_held(old(self)@.seats, said@),
            decreases ids.len() - i,
        {
            let id = ids[i];
            let prays = self.room.messages(&id);
            let ghost before = said@;
            said.push((id, prays));
            proof {
                assert forall|k: int, j: int|
                    0 <= k < said@.len() && 0 <= j < said@[k].1@.len() implies powers_of(
                    old(self)@.seats,
                    said@[k].0,
                ).contains((#[trigger] said@[k].1@[j]).action) by {
                    if k < before.len() {
                        assert(said@[k] == before[k]);
                        assert(powers_of(old(self)@.seats, before[k].0).contains(
                            before[k].1@[j].action,
                        ));
                    } else {
                        assert(said@[k].1@ == prays@);
                        assert(powers_of(old(self)@.seats, id).contains(prays@[j].action));
                    }
                }
            }
            i = i + 1;
        }
        let spells = OneToOneSpells::gather(&said);
        proof {
            let seats = old(self)@.seats;
            assert forall|id: PlayerId| seats.contains_key(id) implies exists|k: int|
                0 <= k < said@.len() && said@[k].0 == id by {
                assert(ids@.to_set().contains(id));
                let k = choose|k: int| 0 <= k < ids@.len() && ids@[k] == id;
                assert(said@[k].0 == id);
            }
            assert forall|id: PlayerId|
                (exists|k: int| 0 <= k < said@.len() && said@[k].0 == id) implies seats.contains_key(
                id,
            ) by {
                let k = choose|k: int| 0 <= k < said@.len() && said@[k].0 == id;
                assert(ids@.to_set().contains(ids@[k]));
            }
            assert(told(seats, said@));
            lemma_gathered_heard(seats, said@);
        }
        spells
    }

    /// Resolves the night of the intents `spells`.
    pub fn darkness<S: Spells>(&mut self, spells: S) -> (r: NightResult)
        requires
            old(self).sound(),
            spells.sound(),
        ensures
            final(self).sound(),
            resolved(
                old(self).play(),
                old(self)@.seats,
                spells.intents(),
                final(self).play(),
                final(self)@.seats,
                r.out(),
                r.notes(),
            ),
            night_told(
                old(self).store(),
                final(self).store(),
                killing(
                    old(self)@.seats,
                    after_paralysis(old(self)@.seats, spells.intents()),
                    old(self).play().wicked_used(),
                    old(self).play().commando_used(),
                ),
            ),
            r.out().finite(),
            r.out().len() <= 1,
            final(self)@ == (City { seats: final(self)@.seats, ..old(self)@ }),
    {
        self.strategy.apply_night(&mut self.room, spells)
    }

    /// Takes out of the game those who did not survive the night, in the
    /// order of their numbers.
    pub fn sunrise<N: News>(&mut self, n: &N)
        requires
            old(self).sound(),
        ensures
            final(self).sound(),
            final(self).play() == old(self).play(),
            exists|ids: Seq<PlayerId>|
                ascending(ids) && ids.to_set() == n.out() && final(self)@ == old(self)@.bury(ids),
    {
        let ids = members(n.kicked_out());
        let mut i: usize = 0;
        while i < ids.len()
            invariant
                i <= ids.len(),
                self.sound(),
                self.play() == old(self).play(),
                self@ == old(self)@.bury(ids@.take(i as int)),
            decreases ids.len() - i,
        {
            self.kick_out(&ids[i]);
            proof {
                assert(ids@.take(i + 1).drop_last() =~= ids@.take(i as int));
                assert(ids@.take(i + 1).last() == ids@[i as int]);
            }
            i = i + 1;
        }
        assert(ids@.take(ids@.len() as int) =~= ids@);
    }

    /// Hangs whoever the vote `d` condemns.
    pub fn sunset<D: DeathBallot>(&mut self, d: &D)
        requires
            old(self).sound(),
            d.sound(),
        ensures
            final(self).sound(),
            final(self).play() == old(self).play(),
            final(self)@ == match condemned(d.hangers(), d.seats()) {
                Some(id) => old(self)@.kick_out(id),
                None => old(self)@,
            },
    {
        match d.dead() {
            Some(id) => {
                proof {
                    lemma_one_hangs(d.hangers(), d.seats(), id);
                }
                self.kick_out(&id);
            },
            None => {},
        }
    }

    /// Fresh ballots, in the phase of defence of a game with three or more
    /// alive.
    pub fn defend(&self) -> (r: Option<Ballots>)
        requires
            self.sound(),
        ensures
            r is Some == (self@.phase == CityState::Defend && self@.seats.dom().len() >= 3),
            r matches Some(ballots) ==> ballots.sound() && ballots.seats()
                == self@.seats.dom().len() && ballots.nominations() == Map::<
                PlayerId,
                Set<PlayerId>,
            >::empty(),
    {
        if self.is_it(CityState::Defend) && self.room.total() >= 3 {
            return Some(self.make_ballot());
        }
        None
    }

    /// How the game stands.
    pub fn game_state(&self) -> (r: State)
        requires
            self.sound(),
        ensures
            r == self@.standing(),
    {
        let mafia = self.room.count(&Power::Mafia);
        let total = self.room.total();
        proof {
            self.room.sound_is_finite();
            vstd::set_lib::lemma_len_subset(
                holders(self@.seats, Power::Mafia),
                self@.seats.dom(),
            );
        }
        let city = total - mafia;
        if city <= mafia {
            State::MafiaWon
        } else if mafia == 0 {
            State::CityWon
        } else {
            State::Undecided
        }
    }
}

impl Scenario for Classic {
    open spec fn phase(&self) -> CityState {
        self@.phase
    }

    open spec fn today(&self) -> Day {
        self@.day
    }

    open spec fn log(&self) -> Seq<(Day, CityState, Declaration)> {
        self@.log
    }

    open spec fn standing(&self) -> State {
        self@.standing()
    }

    /// The parts are sound, and every participant has been told, last of
    /// all, the powers that it holds.
    open spec fn sound(&self) -> bool {
        self.built() && informed(self.store())
    }

    fn state(&self) -> (r: CityState) {
        self.state
    }

    fn day(&self) -> (r: usize) {
        self.day
    }

    fn next(&mut self) -> (r: CityState)
        ensures
            final(self)@ == old(self)@.next(),
            final(self).play() == old(self).play(),
    {
        if let CityState::Done(_) = self.state {
            return self.state;
        }
        let game = self.game_state();
        self.state = if game != State::Undecided {
            CityState::Done(game)
        } else {
            match self.state {
                CityState::Debate => CityState::Defend,
                CityState::Defend => CityState::Hang,
                CityState::Hang => CityState::Night,
                _ => {
                    self.day += 1;
                    CityState::Debate
                },
            }
        };
        self.declare(Declaration::StateChanged(self.state));
        self.state
    }

    fn process(&mut self) {
    }

    fn events(&self) -> (r: &Vec<(Day, CityState, Declaration)>) {
        &self.events
    }
}

} // verus!
